//! Matching the outputs of a transaction against the keys that a shared
//! secret yields for a receiver.
//!
//! An output is a candidate when its script has at least the two bytes of
//! the template prefix and the bytes after them are an x-only key. Every
//! match names the output by its position among the transaction's outputs.

use vstd::prelude::*;
use crate::bytes::{bytes_equal, key_bytes, stack_view};
use crate::crypto::{
    found_under, is_x_only_key, lists_table, spec_found_outputs, spec_is_x_only_key,
    x_only_views, FoundOutput,
};
use crate::receiver::{scalars_of, LabelEntry, Recipient};
use vstd::slice::slice_subrange;

verus! {

/// Number of bytes that precede the key in the output template.
pub const TEMPLATE_PREFIX_LEN: usize = 2;

/// An output that may pay a receiver.
#[derive(Clone, Copy, Debug)]
pub struct Candidate {
    /// Position of the output among the transaction's outputs.
    pub index: usize,
    /// The x-only key that the output's script holds.
    pub key: [u8; 32],
}

/// A `Candidate` as plain values.
pub struct CandidateView {
    pub index: int,
    pub key: Seq<u8>,
}

impl View for Candidate {
    type V = CandidateView;

    open spec fn view(&self) -> CandidateView {
        CandidateView { index: self.index as int, key: self.key@ }
    }
}

/// The views of a list of candidates, item by item.
pub open spec fn candidate_views(candidates: Seq<Candidate>) -> Seq<CandidateView> {
    Seq::new(candidates.len(), |i: int| candidates[i]@)
}

/// An output that pays the receiver.
#[derive(Clone, Copy, Debug)]
pub struct OutputMatch {
    /// Index of the label under which the output was found; `None` for the
    /// receiver's unlabeled address.
    pub label: Option<u32>,
    /// Position of the output among the transaction's outputs.
    pub output_index: usize,
    /// The scalar to add to the spend secret key to spend the output.
    pub tweak: [u8; 32],
}

impl OutputMatch {
    /// The label's index as a plain number: 0 for a match under no label,
    /// as for one under the change label.
    pub fn label_index(&self) -> (index: u32)
        ensures
            index == match self.label {
                Some(m) => m,
                None => 0,
            },
    {
        match self.label {
            Some(m) => m,
            None => 0,
        }
    }
}

/// An `OutputMatch` as plain values.
pub struct MatchView {
    pub label: Option<u32>,
    pub output_index: int,
    pub tweak: Seq<u8>,
}

impl View for OutputMatch {
    type V = MatchView;

    open spec fn view(&self) -> MatchView {
        MatchView { label: self.label, output_index: self.output_index as int, tweak: self.tweak@ }
    }
}

/// The views of a list of matches, item by item.
pub open spec fn match_views(matches: Seq<OutputMatch>) -> Seq<MatchView> {
    Seq::new(matches.len(), |i: int| matches[i]@)
}

/// What the matching of a transaction's outputs came to.
#[derive(Debug)]
pub enum MatchOutcome {
    /// The outputs could not be examined.
    Failed,
    /// The outputs that pay the receiver, possibly none.
    Matches(Vec<OutputMatch>),
}

/// A `MatchOutcome` as plain values.
pub enum MatchOutcomeView {
    Failed,
    Matches(Seq<MatchView>),
}

impl View for MatchOutcome {
    type V = MatchOutcomeView;

    open spec fn view(&self) -> MatchOutcomeView {
        match *self {
            MatchOutcome::Failed => MatchOutcomeView::Failed,
            MatchOutcome::Matches(list) => MatchOutcomeView::Matches(match_views(list@)),
        }
    }
}

/// Whether an output script fits the template: at least the prefix, and
/// after it an x-only key.
pub open spec fn fits_template(script: Seq<u8>) -> bool {
    script.len() >= 2 && spec_is_x_only_key(script.skip(2))
}

/// The candidates among the outputs, in the order of the outputs.
pub open spec fn candidates_of(outs: Seq<Seq<u8>>) -> Seq<CandidateView>
    decreases outs.len(),
{
    if outs.len() == 0 {
        Seq::empty()
    } else {
        let front = candidates_of(outs.drop_last());
        if fits_template(outs.last()) {
            front.push(CandidateView { index: outs.len() - 1, key: outs.last().skip(2) })
        } else {
            front
        }
    }
}

/// The keys of a list of candidates, in order.
pub open spec fn candidate_keys(candidates: Seq<CandidateView>) -> Seq<Seq<u8>> {
    Seq::new(candidates.len(), |i: int| candidates[i].key)
}

/// The table that a list of found outputs stands for. Where a pair of label
/// and key occurs more than once, its last entry counts.
pub open spec fn table_of(list: Seq<FoundOutput>) -> Map<(Option<Seq<u8>>, Seq<u8>), Seq<u8>>
    decreases list.len(),
{
    if list.len() == 0 {
        Map::empty()
    } else {
        table_of(list.drop_last()).insert(found_under(list.last()), list.last().tweak@)
    }
}

/// The match of one candidate under one label, or under no label, where the
/// table has it.
pub open spec fn match_under(
    table: Map<(Option<Seq<u8>>, Seq<u8>), Seq<u8>>,
    label: Option<LabelEntry>,
    candidate: CandidateView,
) -> Option<MatchView> {
    let under = (
        match label {
            Some(l) => Some(l.scalar@),
            None => None,
        },
        candidate.key,
    );
    if table.dom().contains(under) {
        Some(
            MatchView {
                label: match label {
                    Some(l) => Some(l.m),
                    None => None,
                },
                output_index: candidate.index,
                tweak: table[under],
            },
        )
    } else {
        None
    }
}

/// The matches of one candidate under the given labels, in their order.
pub open spec fn labeled_matches(
    table: Map<(Option<Seq<u8>>, Seq<u8>), Seq<u8>>,
    labels: Seq<LabelEntry>,
    candidate: CandidateView,
) -> Seq<MatchView>
    decreases labels.len(),
{
    if labels.len() == 0 {
        Seq::empty()
    } else {
        let front = labeled_matches(table, labels.drop_last(), candidate);
        match match_under(table, Some(labels.last()), candidate) {
            Some(m) => front.push(m),
            None => front,
        }
    }
}

/// The matches of one candidate: the unlabeled one first, then those under
/// the labels in their order.
pub open spec fn matches_at(
    table: Map<(Option<Seq<u8>>, Seq<u8>), Seq<u8>>,
    labels: Seq<LabelEntry>,
    candidate: CandidateView,
) -> Seq<MatchView> {
    let unlabeled = match match_under(table, None, candidate) {
        Some(m) => seq![m],
        None => Seq::empty(),
    };
    unlabeled + labeled_matches(table, labels, candidate)
}

/// All matches: those of each candidate, in the order of the candidates.
pub open spec fn all_matches(
    table: Map<(Option<Seq<u8>>, Seq<u8>), Seq<u8>>,
    labels: Seq<LabelEntry>,
    candidates: Seq<CandidateView>,
) -> Seq<MatchView>
    decreases candidates.len(),
{
    if candidates.len() == 0 {
        Seq::empty()
    } else {
        all_matches(table, labels, candidates.drop_last()) + matches_at(
            table,
            labels,
            candidates.last(),
        )
    }
}

/// What matching comes to for a receiver's spend key and labels, a shared
/// secret and the outputs of a transaction.
pub open spec fn outcome_of(
    spend_key: Seq<u8>,
    labels: Seq<LabelEntry>,
    secret: Seq<u8>,
    outs: Seq<Seq<u8>>,
) -> MatchOutcomeView {
    let candidates = candidates_of(outs);
    if candidates.len() == 0 {
        MatchOutcomeView::Matches(Seq::empty())
    } else {
        match spec_found_outputs(
            spend_key,
            scalars_of(labels),
            secret,
            candidate_keys(candidates),
        ) {
            None => MatchOutcomeView::Failed,
            Some(table) => MatchOutcomeView::Matches(all_matches(table, labels, candidates)),
        }
    }
}

/// A pair is in the table of a list exactly where an entry of the list is
/// under it, and the table then holds the tweak of such an entry.
pub proof fn lemma_table_of(list: Seq<FoundOutput>, under: (Option<Seq<u8>>, Seq<u8>))
    ensures
        table_of(list).dom().contains(under) <==> exists|i: int|
            0 <= i < list.len() && found_under(#[trigger] list[i]) == under,
        table_of(list).dom().contains(under) ==> exists|i: int|
            0 <= i < list.len() && found_under(#[trigger] list[i]) == under && table_of(list)[under]
                == list[i].tweak@,
    decreases list.len(),
{
    if list.len() > 0 {
        let front = list.drop_last();
        lemma_table_of(front, under);
        if found_under(list.last()) == under {
            assert(found_under(list[list.len() - 1]) == under);
        } else if table_of(front).dom().contains(under) {
            let i = choose|i: int|
                0 <= i < front.len() && found_under(#[trigger] front[i]) == under && table_of(
                    front,
                )[under] == front[i].tweak@;
            assert(found_under(list[i]) == under);
        }
        if exists|i: int| 0 <= i < list.len() && found_under(#[trigger] list[i]) == under {
            let i = choose|i: int| 0 <= i < list.len() && found_under(#[trigger] list[i]) == under;
            if i < front.len() {
                assert(found_under(front[i]) == under);
            }
        }
    }
}

/// A list that holds the entries of a table stands for that table, whatever
/// the order of its items.
pub proof fn lemma_list_stands_for_table(
    list: Seq<FoundOutput>,
    table: Map<(Option<Seq<u8>>, Seq<u8>), Seq<u8>>,
)
    requires
        lists_table(list, table),
    ensures
        table_of(list) == table,
{
    assert forall|k: (Option<Seq<u8>>, Seq<u8>)|
        table_of(list).dom().contains(k) == table.dom().contains(k) by {
        lemma_table_of(list, k);
        if table_of(list).dom().contains(k) {
            let i = choose|i: int| 0 <= i < list.len() && found_under(#[trigger] list[i]) == k;
            assert(table.dom().contains(found_under(list[i])));
        }
    }
    assert forall|k: (Option<Seq<u8>>, Seq<u8>)| table_of(list).dom().contains(k) implies table_of(
        list,
    )[k] == table[k] by {
        lemma_table_of(list, k);
        let i = choose|i: int|
            0 <= i < list.len() && found_under(#[trigger] list[i]) == k && table_of(list)[k]
                == list[i].tweak@;
        assert(table.dom().contains(found_under(list[i])));
    }
    assert(table_of(list) =~= table);
}

/// Whether the table holds the key under none of the labels.
pub open spec fn under_no_label(
    table: Map<(Option<Seq<u8>>, Seq<u8>), Seq<u8>>,
    labels: Seq<LabelEntry>,
    key: Seq<u8>,
) -> bool {
    forall|k: int|
        0 <= k < labels.len() ==> !table.dom().contains((Some((#[trigger] labels[k]).scalar@), key))
}

/// Whether the table holds the key under label `j` and under no other label
/// of the list.
pub open spec fn under_label_only(
    table: Map<(Option<Seq<u8>>, Seq<u8>), Seq<u8>>,
    labels: Seq<LabelEntry>,
    j: int,
    key: Seq<u8>,
) -> bool {
    &&& 0 <= j < labels.len()
    &&& table.dom().contains((Some(labels[j].scalar@), key))
    &&& forall|k: int|
        0 <= k < labels.len() && k != j ==> !table.dom().contains(
            (Some((#[trigger] labels[k]).scalar@), key),
        )
}

/// A candidate whose key the table holds under none of the labels has no
/// match under a label.
pub proof fn lemma_no_labeled_match(
    table: Map<(Option<Seq<u8>>, Seq<u8>), Seq<u8>>,
    labels: Seq<LabelEntry>,
    candidate: CandidateView,
)
    requires
        under_no_label(table, labels, candidate.key),
    ensures
        labeled_matches(table, labels, candidate) == Seq::<MatchView>::empty(),
    decreases labels.len(),
{
    if labels.len() > 0 {
        let front = labels.drop_last();
        assert forall|k: int| 0 <= k < front.len() implies !table.dom().contains(
            (Some((#[trigger] front[k]).scalar@), candidate.key),
        ) by {
            assert(front[k] == labels[k]);
        }
        lemma_no_labeled_match(table, front, candidate);
        assert(labels.last() == labels[labels.len() - 1]);
    }
}

/// A candidate whose key the table holds under one label only has one match
/// under a label: the one under that label, with the table's tweak.
pub proof fn lemma_one_labeled_match(
    table: Map<(Option<Seq<u8>>, Seq<u8>), Seq<u8>>,
    labels: Seq<LabelEntry>,
    j: int,
    candidate: CandidateView,
)
    requires
        under_label_only(table, labels, j, candidate.key),
    ensures
        labeled_matches(table, labels, candidate) == seq![
            MatchView {
                label: Some(labels[j].m),
                output_index: candidate.index,
                tweak: table[(Some(labels[j].scalar@), candidate.key)],
            },
        ],
    decreases labels.len(),
{
    let front = labels.drop_last();
    assert(labels.last() == labels[labels.len() - 1]);
    assert forall|k: int| 0 <= k < front.len() && k != j implies !table.dom().contains(
        (Some((#[trigger] front[k]).scalar@), candidate.key),
    ) by {
        assert(front[k] == labels[k]);
    }
    if j == labels.len() - 1 {
        lemma_no_labeled_match(table, front, candidate);
    } else {
        assert(front[j] == labels[j]);
        lemma_one_labeled_match(table, front, j, candidate);
    }
}

/// An output that is the only candidate, and whose key the table holds under
/// no label but without one, is matched once: without label, at its own
/// position, with the table's tweak.
pub proof fn lemma_unlabeled_output_matched_once(
    table: Map<(Option<Seq<u8>>, Seq<u8>), Seq<u8>>,
    labels: Seq<LabelEntry>,
    candidate: CandidateView,
)
    requires
        table.dom().contains((None::<Seq<u8>>, candidate.key)),
        under_no_label(table, labels, candidate.key),
    ensures
        all_matches(table, labels, seq![candidate]) == seq![
            MatchView {
                label: None,
                output_index: candidate.index,
                tweak: table[(None::<Seq<u8>>, candidate.key)],
            },
        ],
{
    let only = seq![candidate];
    assert(only.drop_last() =~= Seq::<CandidateView>::empty());
    assert(only.last() == candidate);
    assert(all_matches(table, labels, only.drop_last()) =~= Seq::<MatchView>::empty());
    lemma_no_labeled_match(table, labels, candidate);
    assert(all_matches(table, labels, only) =~= matches_at(table, labels, candidate));
}

/// An output that is the only candidate, and whose key the table holds under
/// one label and neither without a label nor under another, is matched
/// once: under that label, at its own position, with the table's tweak. It
/// is matched under no other label, the change label included.
pub proof fn lemma_labeled_output_matched_under_its_label(
    table: Map<(Option<Seq<u8>>, Seq<u8>), Seq<u8>>,
    labels: Seq<LabelEntry>,
    j: int,
    candidate: CandidateView,
)
    requires
        !table.dom().contains((None::<Seq<u8>>, candidate.key)),
        under_label_only(table, labels, j, candidate.key),
    ensures
        all_matches(table, labels, seq![candidate]) == seq![
            MatchView {
                label: Some(labels[j].m),
                output_index: candidate.index,
                tweak: table[(Some(labels[j].scalar@), candidate.key)],
            },
        ],
{
    let only = seq![candidate];
    assert(only.drop_last() =~= Seq::<CandidateView>::empty());
    assert(only.last() == candidate);
    assert(all_matches(table, labels, only.drop_last()) =~= Seq::<MatchView>::empty());
    lemma_one_labeled_match(table, labels, j, candidate);
    assert(all_matches(table, labels, only) =~= matches_at(table, labels, candidate));
}

/// Without an output that fits the template there is no match, whatever the
/// shared secret.
pub proof fn lemma_no_candidate_no_match(
    spend_key: Seq<u8>,
    labels: Seq<LabelEntry>,
    secret: Seq<u8>,
    outs: Seq<Seq<u8>>,
)
    requires
        forall|i: int| 0 <= i < outs.len() ==> !fits_template(#[trigger] outs[i]),
    ensures
        outcome_of(spend_key, labels, secret, outs) == MatchOutcomeView::Matches(Seq::empty()),
{
    lemma_candidates_empty(outs);
}

/// The candidates are empty exactly where no output fits the template.
pub proof fn lemma_candidates_empty(outs: Seq<Seq<u8>>)
    ensures
        candidates_of(outs).len() == 0 <==> forall|i: int|
            0 <= i < outs.len() ==> !fits_template(#[trigger] outs[i]),
    decreases outs.len(),
{
    if outs.len() > 0 {
        let front = outs.drop_last();
        lemma_candidates_empty(front);
        if candidates_of(outs).len() == 0 {
            assert forall|i: int| 0 <= i < outs.len() implies !fits_template(
                #[trigger] outs[i],
            ) by {
                if i < front.len() {
                    assert(front[i] == outs[i]);
                }
            }
        } else {
            if fits_template(outs.last()) {
                assert(fits_template(outs[outs.len() - 1]));
            } else {
                let i = choose|i: int| 0 <= i < front.len() && fits_template(#[trigger] front[i]);
                assert(front[i] == outs[i]);
            }
        }
    }
}

/// The candidate for the output at `index`, where its script fits the
/// template.
pub fn candidate_at(script: &[u8], index: usize) -> (candidate: Option<Candidate>)
    ensures
        match candidate {
            Some(c) => fits_template(script@) && c.index == index && c.key@ == script@.skip(2),
            None => !fits_template(script@),
        },
{
    if script.len() < TEMPLATE_PREFIX_LEN {
        return None;
    }
    let tail: &[u8] = slice_subrange(script, TEMPLATE_PREFIX_LEN, script.len());
    assert(tail@ =~= script@.skip(2));
    if is_x_only_key(tail) {
        Some(Candidate { index, key: key_bytes(script) })
    } else {
        None
    }
}

/// The candidates among the outputs, in the order of the outputs.
pub fn select_candidates(outs: &Vec<Vec<u8>>) -> (candidates: Vec<Candidate>)
    ensures
        candidate_views(candidates@) == candidates_of(stack_view(outs@)),
{
    let mut candidates: Vec<Candidate> = Vec::new();
    let mut i: usize = 0;
    let ghost scripts = stack_view(outs@);
    assert(scripts.take(0) =~= Seq::<Seq<u8>>::empty());
    assert(candidate_views(candidates@) =~= Seq::<CandidateView>::empty());
    while i < outs.len()
        invariant
            i <= outs@.len(),
            scripts == stack_view(outs@),
            candidate_views(candidates@) == candidates_of(scripts.take(i as int)),
        decreases outs@.len() - i,
    {
        proof {
            let next = scripts.take(i + 1);
            assert(next.drop_last() =~= scripts.take(i as int));
            assert(next.last() == outs@[i as int]@);
        }
        match candidate_at(outs[i].as_slice(), i) {
            Some(c) => {
                let ghost before = candidates@;
                candidates.push(c);
                assert(candidate_views(candidates@) =~= candidate_views(before).push(c@));
            },
            None => {},
        }
        i += 1;
    }
    assert(scripts.take(i as int) =~= scripts);
    candidates
}

/// The tweak that a list of found outputs holds for a label and a key.
pub fn find_tweak(found: &Vec<FoundOutput>, label: Option<&[u8; 32]>, key: &[u8; 32]) -> (tweak:
    Option<[u8; 32]>)
    ensures
        ({
            let under = (
                match label {
                    Some(l) => Some(l@),
                    None => None,
                },
                key@,
            );
            match tweak {
                Some(t) => table_of(found@).dom().contains(under) && table_of(found@)[under] == t@,
                None => !table_of(found@).dom().contains(under),
            }
        }),
{
    let ghost under = (
        match label {
            Some(l) => Some(l@),
            None => None,
        },
        key@,
    );
    let mut tweak: Option<[u8; 32]> = None;
    let mut i: usize = 0;
    assert(found@.take(0) =~= Seq::<FoundOutput>::empty());
    while i < found.len()
        invariant
            i <= found@.len(),
            under == (
                match label {
                    Some(l) => Some(l@),
                    None => None,
                },
                key@,
            ),
            match tweak {
                Some(t) => table_of(found@.take(i as int)).dom().contains(under) && table_of(
                    found@.take(i as int),
                )[under] == t@,
                None => !table_of(found@.take(i as int)).dom().contains(under),
            },
        decreases found@.len() - i,
    {
        proof {
            let next = found@.take(i + 1);
            assert(next.drop_last() =~= found@.take(i as int));
            assert(next.last() == found@[i as int]);
        }
        let entry: &FoundOutput = &found[i];
        let same_label: bool = match (label, &entry.label) {
            (Some(mine), Some(theirs)) => bytes_equal(mine.as_slice(), theirs.as_slice()),
            (None, None) => true,
            _ => false,
        };
        if same_label && bytes_equal(key.as_slice(), entry.key.as_slice()) {
            tweak = Some(entry.tweak);
        }
        i += 1;
    }
    assert(found@.take(i as int) =~= found@);
    tweak
}

/// The matches for outputs that were found: for each candidate in turn the
/// unlabeled match, then the matches under the labels in their order.
pub fn resolve_matches(
    found: &Vec<FoundOutput>,
    labels: &Vec<LabelEntry>,
    candidates: &Vec<Candidate>,
) -> (matches: Vec<OutputMatch>)
    ensures
        match_views(matches@) == all_matches(
            table_of(found@),
            labels@,
            candidate_views(candidates@),
        ),
{
    let ghost table = table_of(found@);
    let mut matches: Vec<OutputMatch> = Vec::new();
    let mut i: usize = 0;
    assert(candidate_views(candidates@).take(0) =~= Seq::<CandidateView>::empty());
    assert(match_views(matches@) =~= Seq::<MatchView>::empty());
    while i < candidates.len()
        invariant
            i <= candidates@.len(),
            table == table_of(found@),
            match_views(matches@) == all_matches(
                table,
                labels@,
                candidate_views(candidates@).take(i as int),
            ),
        decreases candidates@.len() - i,
    {
        let candidate: Candidate = candidates[i];
        let ghost done = match_views(matches@);
        proof {
            let next = candidate_views(candidates@).take(i + 1);
            assert(next.drop_last() =~= candidate_views(candidates@).take(i as int));
            assert(next.last() == candidate@);
        }
        match find_tweak(found, None, &candidate.key) {
            Some(tweak) => {
                let entry = OutputMatch { label: None, output_index: candidate.index, tweak };
                let ghost before = matches@;
                matches.push(entry);
                assert(match_views(matches@) =~= match_views(before).push(entry@));
            },
            None => {},
        }
        let ghost unlabeled = match match_under(table, None, candidate@) {
            Some(m) => seq![m],
            None => Seq::empty(),
        };
        assert(match_views(matches@) =~= done + unlabeled);
        let mut j: usize = 0;
        assert(labels@.take(0) =~= Seq::<LabelEntry>::empty());
        while j < labels.len()
            invariant
                j <= labels@.len(),
                table == table_of(found@),
                match_views(matches@) == done + unlabeled + labeled_matches(
                    table,
                    labels@.take(j as int),
                    candidate@,
                ),
            decreases labels@.len() - j,
        {
            let label: LabelEntry = labels[j];
            proof {
                let next = labels@.take(j + 1);
                assert(next.drop_last() =~= labels@.take(j as int));
                assert(next.last() == label);
            }
            match find_tweak(found, Some(&label.scalar), &candidate.key) {
                Some(tweak) => {
                    let entry = OutputMatch {
                        label: Some(label.m),
                        output_index: candidate.index,
                        tweak,
                    };
                    let ghost before = matches@;
                    matches.push(entry);
                    assert(match_views(matches@) =~= match_views(before).push(entry@));
                },
                None => {},
            }
            j += 1;
        }
        assert(labels@.take(j as int) =~= labels@);
        assert(match_views(matches@) =~= done + matches_at(table, labels@, candidate@));
        i += 1;
    }
    assert(candidate_views(candidates@).take(i as int) =~= candidate_views(candidates@));
    matches
}

/// Matches the outputs of a transaction for a receiver and a shared secret.
///
/// Outputs that do not fit the template are left out. Where none fits, the
/// outcome holds no match and the receiver's keys are not consulted.
pub fn match_outputs(receiver: &Recipient, secret: &[u8; 33], outs: &Vec<Vec<u8>>) -> (outcome:
    MatchOutcome)
    ensures
        outcome@ == outcome_of(
            receiver.spend_key_view(),
            receiver.entries(),
            secret@,
            stack_view(outs@),
        ),
        candidates_of(stack_view(outs@)).len() == 0 ==> outcome@ == MatchOutcomeView::Matches(
            Seq::empty(),
        ),
{
    let candidates: Vec<Candidate> = select_candidates(outs);
    if candidates.len() == 0 {
        let none: Vec<OutputMatch> = Vec::new();
        assert(match_views(none@) =~= Seq::<MatchView>::empty());
        return MatchOutcome::Matches(none);
    }
    let mut keys: Vec<[u8; 32]> = Vec::new();
    let mut i: usize = 0;
    while i < candidates.len()
        invariant
            i <= candidates@.len(),
            keys@.len() == i,
            forall|j: int| 0 <= j < i ==> keys@[j] == candidates@[j].key,
        decreases candidates@.len() - i,
    {
        keys.push(candidates[i].key);
        i += 1;
    }
    assert(x_only_views(keys@) =~= candidate_keys(candidate_views(candidates@)));
    match receiver.scan(secret, &keys) {
        None => MatchOutcome::Failed,
        Some(found) => {
            proof {
                let table = spec_found_outputs(
                    receiver.spend_key_view(),
                    scalars_of(receiver.entries()),
                    secret@,
                    x_only_views(keys@),
                )->0;
                lemma_list_stands_for_table(found@, table);
            }
            MatchOutcome::Matches(resolve_matches(&found, receiver.labels(), &candidates))
        },
    }
}

} // verus!
