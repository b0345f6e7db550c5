//! Scanning one transaction, and all transactions of a block.

use vstd::prelude::*;
use crate::crypto::spec_found_outputs;
use crate::matcher::{
    candidate_keys, candidates_of, fits_template, lemma_labeled_output_matched_under_its_label,
    lemma_no_candidate_no_match, lemma_unlabeled_output_matched_once, match_outputs,
    match_views, outcome_of, under_label_only, under_no_label, MatchOutcome, MatchOutcomeView,
    MatchView, OutputMatch,
};
use crate::receiver::{scalars_of, LabelEntry, Recipient};
use crate::tweak::{compute_tweak, recovered_keys, tweak_of, TweakOutcome, TweakView};
use crate::unit::{build_scan_unit, unit_of, ScanTxHelper, ScanUnitView, TxData, TxUndo};

verus! {

/// What the scan of one transaction came to.
#[derive(Debug)]
pub enum ScanOutcome {
    /// No input reveals a public key; the outputs were not examined.
    NoCandidate,
    /// A computation on the keys failed; the transaction was passed over.
    Failed,
    /// The outputs that pay the receiver, possibly none.
    Matches(Vec<OutputMatch>),
}

/// A `ScanOutcome` as plain values.
pub enum ScanOutcomeView {
    NoCandidate,
    Failed,
    Matches(Seq<MatchView>),
}

impl View for ScanOutcome {
    type V = ScanOutcomeView;

    open spec fn view(&self) -> ScanOutcomeView {
        match *self {
            ScanOutcome::NoCandidate => ScanOutcomeView::NoCandidate,
            ScanOutcome::Failed => ScanOutcomeView::Failed,
            ScanOutcome::Matches(list) => ScanOutcomeView::Matches(match_views(list@)),
        }
    }
}

/// A decoded block: its transactions in order, the coinbase first.
#[derive(Debug)]
pub struct BlockData {
    /// The transactions of the block.
    pub txdata: Vec<TxData>,
}

/// The spent-output records of a block: one for each transaction after the
/// coinbase, in the order of the transactions.
#[derive(Debug)]
pub struct BlockUndo {
    /// The records, one for each transaction that spends outputs.
    pub tx_undo: Vec<TxUndo>,
}

/// Why chain data was refused.
#[derive(Clone, Copy, Debug, PartialEq, Eq)]
pub enum ChainDataError {
    /// The block holds no transaction at all.
    EmptyBlock,
    /// The number of spent-output records differs from the number of
    /// transactions after the coinbase.
    UndoCountMismatch { transactions: usize, records: usize },
    /// A transaction's number of inputs differs from the number of spent
    /// outputs recorded for it. `tx_index` counts from the first transaction
    /// after the coinbase.
    InputCountMismatch { tx_index: usize, inputs: usize, recorded: usize },
}

/// What the scan of a unit comes to for a receiver's keys and labels.
pub open spec fn scan_of(
    scan_key: Seq<u8>,
    spend_key: Seq<u8>,
    labels: Seq<LabelEntry>,
    unit: ScanUnitView,
) -> ScanOutcomeView {
    match tweak_of(unit.ins, scan_key) {
        TweakView::NoCandidate => ScanOutcomeView::NoCandidate,
        TweakView::Failed => ScanOutcomeView::Failed,
        TweakView::Secret(secret) => match outcome_of(spend_key, labels, secret, unit.outs) {
            MatchOutcomeView::Failed => ScanOutcomeView::Failed,
            MatchOutcomeView::Matches(list) => ScanOutcomeView::Matches(list),
        },
    }
}

/// Whether transaction `i` after the coinbase has as many inputs as spent
/// outputs are recorded for it.
pub open spec fn counts_agree(block: BlockData, undo: BlockUndo, i: int) -> bool {
    block.txdata@[i + 1].input@.len() == undo.tx_undo@[i].prevouts@.len()
}

/// The first transaction from `from` on whose counts disagree, if any.
pub open spec fn first_mismatch(block: BlockData, undo: BlockUndo, from: int) -> Option<int>
    decreases undo.tx_undo@.len() - from,
{
    if from < 0 || from >= undo.tx_undo@.len() {
        None
    } else if !counts_agree(block, undo, from) {
        Some(from)
    } else {
        first_mismatch(block, undo, from + 1)
    }
}

/// What is wrong with a block and its spent-output records, if anything.
pub open spec fn block_fault(block: BlockData, undo: BlockUndo) -> Option<ChainDataError> {
    if block.txdata@.len() == 0 {
        Some(ChainDataError::EmptyBlock)
    } else if block.txdata@.len() - 1 != undo.tx_undo@.len() {
        Some(
            ChainDataError::UndoCountMismatch {
                transactions: (block.txdata@.len() - 1) as usize,
                records: undo.tx_undo@.len() as usize,
            },
        )
    } else {
        match first_mismatch(block, undo, 0) {
            Some(i) => Some(
                ChainDataError::InputCountMismatch {
                    tx_index: i as usize,
                    inputs: block.txdata@[i + 1].input@.len() as usize,
                    recorded: undo.tx_undo@[i].prevouts@.len() as usize,
                },
            ),
            None => None,
        }
    }
}

/// A unit whose inputs reveal no public key is no candidate for any receiver,
/// whatever its outputs are: the matching of outputs has no part in it.
pub proof fn lemma_no_keys_no_candidate(
    scan_key: Seq<u8>,
    spend_key: Seq<u8>,
    labels: Seq<LabelEntry>,
    unit: ScanUnitView,
)
    requires
        recovered_keys(unit.ins).len() == 0,
    ensures
        tweak_of(unit.ins, scan_key) == TweakView::NoCandidate,
        scan_of(scan_key, spend_key, labels, unit) == ScanOutcomeView::NoCandidate,
{
}

/// A unit without an output that fits the template has no match: its scan
/// comes to no candidate, to a failure of the shared secret, or to an empty
/// list of matches.
pub proof fn lemma_no_fitting_output_no_match(
    scan_key: Seq<u8>,
    spend_key: Seq<u8>,
    labels: Seq<LabelEntry>,
    unit: ScanUnitView,
)
    requires
        forall|i: int| 0 <= i < unit.outs.len() ==> !fits_template(#[trigger] unit.outs[i]),
    ensures
        scan_of(scan_key, spend_key, labels, unit) matches ScanOutcomeView::Matches(list)
            ==> list.len() == 0,
        tweak_of(unit.ins, scan_key) is Secret ==> scan_of(scan_key, spend_key, labels, unit)
            == ScanOutcomeView::Matches(Seq::empty()),
{
    match tweak_of(unit.ins, scan_key) {
        TweakView::Secret(secret) => {
            lemma_no_candidate_no_match(spend_key, labels, secret, unit.outs);
        },
        _ => {},
    }
}

/// A unit with a shared secret and one output that fits the template, whose
/// key is found without a label and under none of the receiver's labels, has
/// one match: without label, at that output's position among all outputs,
/// with the tweak that was found.
pub proof fn lemma_payment_without_label_found_once(
    scan_key: Seq<u8>,
    spend_key: Seq<u8>,
    labels: Seq<LabelEntry>,
    unit: ScanUnitView,
    secret: Seq<u8>,
    table: Map<(Option<Seq<u8>>, Seq<u8>), Seq<u8>>,
)
    requires
        tweak_of(unit.ins, scan_key) == TweakView::Secret(secret),
        candidates_of(unit.outs).len() == 1,
        spec_found_outputs(
            spend_key,
            scalars_of(labels),
            secret,
            candidate_keys(candidates_of(unit.outs)),
        ) == Some(table),
        table.dom().contains((None::<Seq<u8>>, candidates_of(unit.outs)[0].key)),
        under_no_label(table, labels, candidates_of(unit.outs)[0].key),
    ensures
        scan_of(scan_key, spend_key, labels, unit) == ScanOutcomeView::Matches(
            seq![
                MatchView {
                    label: None,
                    output_index: candidates_of(unit.outs)[0].index,
                    tweak: table[(None::<Seq<u8>>, candidates_of(unit.outs)[0].key)],
                },
            ],
        ),
{
    let candidates = candidates_of(unit.outs);
    assert(candidates =~= seq![candidates[0]]);
    lemma_unlabeled_output_matched_once(table, labels, candidates[0]);
}

/// A unit with a shared secret and one output that fits the template, whose
/// key is found under one of the receiver's labels and neither without a
/// label nor under another label, has one match: under that label, at that
/// output's position among all outputs, and none under any other label.
pub proof fn lemma_payment_to_label_found_under_it(
    scan_key: Seq<u8>,
    spend_key: Seq<u8>,
    labels: Seq<LabelEntry>,
    j: int,
    unit: ScanUnitView,
    secret: Seq<u8>,
    table: Map<(Option<Seq<u8>>, Seq<u8>), Seq<u8>>,
)
    requires
        tweak_of(unit.ins, scan_key) == TweakView::Secret(secret),
        candidates_of(unit.outs).len() == 1,
        spec_found_outputs(
            spend_key,
            scalars_of(labels),
            secret,
            candidate_keys(candidates_of(unit.outs)),
        ) == Some(table),
        !table.dom().contains((None::<Seq<u8>>, candidates_of(unit.outs)[0].key)),
        under_label_only(table, labels, j, candidates_of(unit.outs)[0].key),
    ensures
        scan_of(scan_key, spend_key, labels, unit) == ScanOutcomeView::Matches(
            seq![
                MatchView {
                    label: Some(labels[j].m),
                    output_index: candidates_of(unit.outs)[0].index,
                    tweak: table[(Some(labels[j].scalar@), candidates_of(unit.outs)[0].key)],
                },
            ],
        ),
{
    let candidates = candidates_of(unit.outs);
    assert(candidates =~= seq![candidates[0]]);
    lemma_labeled_output_matched_under_its_label(table, labels, j, candidates[0]);
}

/// Scans one transaction for outputs that pay the receiver.
///
/// Where no input reveals a public key the outcome is `NoCandidate`, and the
/// outputs are not examined. Where no output fits the template, and the
/// shared secret was computed, the outcome holds no match.
pub fn scan_tx(receiver: &Recipient, scan_tx_helper: &ScanTxHelper) -> (outcome: ScanOutcome)
    ensures
        outcome@ == scan_of(
            receiver.scan_key_view(),
            receiver.spend_key_view(),
            receiver.entries(),
            scan_tx_helper@,
        ),
        recovered_keys(scan_tx_helper@.ins).len() == 0 <==> outcome is NoCandidate,
        tweak_of(scan_tx_helper@.ins, receiver.scan_key_view()) is Secret && candidates_of(
            scan_tx_helper@.outs,
        ).len() == 0 ==> outcome@ == ScanOutcomeView::Matches(Seq::empty()),
{
    match compute_tweak(scan_tx_helper, receiver.scan_key()) {
        TweakOutcome::NoCandidate => ScanOutcome::NoCandidate,
        TweakOutcome::Failed => ScanOutcome::Failed,
        TweakOutcome::Secret(secret) => match match_outputs(
            receiver,
            &secret,
            &scan_tx_helper.outs,
        ) {
            MatchOutcome::Failed => ScanOutcome::Failed,
            MatchOutcome::Matches(list) => ScanOutcome::Matches(list),
        },
    }
}

/// Builds the scan unit of every transaction of a block after the coinbase.
///
/// Nothing is built for a block that is empty, whose number of records
/// differs from its number of transactions after the coinbase, or in which a
/// transaction and its record disagree on the number of inputs; the error
/// names the first such transaction.
pub fn build_block_units(block: &BlockData, undo: &BlockUndo) -> (built: Result<
    Vec<ScanTxHelper>,
    ChainDataError,
>)
    ensures
        match built {
            Ok(units) => block_fault(*block, *undo) is None && units@.len() == undo.tx_undo@.len()
                && forall|i: int|
                0 <= i < units@.len() ==> (#[trigger] units@[i])@ == unit_of(
                    block.txdata@[i + 1],
                    undo.tx_undo@[i],
                ),
            Err(e) => block_fault(*block, *undo) == Some(e),
        },
{
    if block.txdata.len() == 0 {
        return Err(ChainDataError::EmptyBlock);
    }
    if block.txdata.len() - 1 != undo.tx_undo.len() {
        return Err(
            ChainDataError::UndoCountMismatch {
                transactions: block.txdata.len() - 1,
                records: undo.tx_undo.len(),
            },
        );
    }
    let mut units: Vec<ScanTxHelper> = Vec::new();
    let mut i: usize = 0;
    while i < undo.tx_undo.len()
        invariant
            i <= undo.tx_undo@.len(),
            block.txdata@.len() - 1 == undo.tx_undo@.len(),
            units@.len() == i,
            first_mismatch(*block, *undo, 0) == first_mismatch(*block, *undo, i as int),
            forall|k: int|
                0 <= k < i ==> (#[trigger] units@[k])@ == unit_of(
                    block.txdata@[k + 1],
                    undo.tx_undo@[k],
                ),
        decreases undo.tx_undo@.len() - i,
    {
        match build_scan_unit(&block.txdata[i + 1], &undo.tx_undo[i]) {
            Ok(unit) => {
                units.push(unit);
            },
            Err(e) => {
                return Err(
                    ChainDataError::InputCountMismatch {
                        tx_index: i,
                        inputs: e.inputs,
                        recorded: e.recorded,
                    },
                );
            },
        }
        i += 1;
    }
    Ok(units)
}

/// Scans every transaction of a block after the coinbase, in order.
///
/// The block is examined as a whole first: where `build_block_units` refuses
/// it, no transaction is scanned. A transaction whose scan fails does not
/// keep the others from being scanned.
pub fn scan_block(receiver: &Recipient, block: &BlockData, undo: &BlockUndo) -> (scanned: Result<
    Vec<ScanOutcome>,
    ChainDataError,
>)
    ensures
        match scanned {
            Ok(outcomes) => block_fault(*block, *undo) is None && outcomes@.len()
                == undo.tx_undo@.len() && forall|i: int|
                0 <= i < outcomes@.len() ==> (#[trigger] outcomes@[i])@ == scan_of(
                    receiver.scan_key_view(),
                    receiver.spend_key_view(),
                    receiver.entries(),
                    unit_of(block.txdata@[i + 1], undo.tx_undo@[i]),
                ),
            Err(e) => block_fault(*block, *undo) == Some(e),
        },
{
    let units: Vec<ScanTxHelper> = match build_block_units(block, undo) {
        Ok(units) => units,
        Err(e) => {
            return Err(e);
        },
    };
    let mut outcomes: Vec<ScanOutcome> = Vec::new();
    let mut i: usize = 0;
    while i < units.len()
        invariant
            i <= units@.len(),
            units@.len() == undo.tx_undo@.len(),
            outcomes@.len() == i,
            forall|k: int|
                0 <= k < units@.len() ==> (#[trigger] units@[k])@ == unit_of(
                    block.txdata@[k + 1],
                    undo.tx_undo@[k],
                ),
            forall|k: int|
                0 <= k < i ==> (#[trigger] outcomes@[k])@ == scan_of(
                    receiver.scan_key_view(),
                    receiver.spend_key_view(),
                    receiver.entries(),
                    unit_of(block.txdata@[k + 1], undo.tx_undo@[k]),
                ),
        decreases units@.len() - i,
    {
        let outcome: ScanOutcome = scan_tx(receiver, &units[i]);
        outcomes.push(outcome);
        i += 1;
    }
    Ok(outcomes)
}

} // verus!
