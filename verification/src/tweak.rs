//! The shared secret of a transaction: the public keys that its inputs
//! reveal, its smallest spent outpoint and the receiver's scan key.

use vstd::prelude::*;
use crate::bytes::stack_view;
use crate::crypto::{
    control_block_in_reach, input_public_key, key_views, shared_secret, spec_input_public_key,
    spec_shared_secret, spec_tweak_data, tweak_data, txid_text,
};
use crate::hex::hex_text;
use crate::outpoint::{smallest, smallest_outpoint, Outpoint};
use crate::unit::{input_views, Input, InputView, ScanTxHelper};

verus! {

/// What the computation of a transaction's shared secret came to.
#[derive(Clone, Copy, Debug)]
pub enum TweakOutcome {
    /// No input reveals a public key: the transaction cannot pay a receiver.
    NoCandidate,
    /// The keys could not be combined into a shared secret.
    Failed,
    /// The shared secret, a point in its compressed encoding.
    Secret([u8; 33]),
}

/// A `TweakOutcome` as plain values.
pub enum TweakView {
    NoCandidate,
    Failed,
    Secret(Seq<u8>),
}

impl View for TweakOutcome {
    type V = TweakView;

    open spec fn view(&self) -> TweakView {
        match *self {
            TweakOutcome::NoCandidate => TweakView::NoCandidate,
            TweakOutcome::Failed => TweakView::Failed,
            TweakOutcome::Secret(s) => TweakView::Secret(s@),
        }
    }
}

/// The public key that an input reveals, if any. An input whose witness is
/// too short for key recovery to read reveals none.
pub open spec fn recovered_key(input: InputView) -> Option<Seq<u8>> {
    if control_block_in_reach(input.script_sig, input.witness, input.prevout) {
        spec_input_public_key(input.script_sig, input.witness, input.prevout)
    } else {
        None
    }
}

/// The public keys that the inputs reveal, in the order of the inputs.
pub open spec fn recovered_keys(ins: Seq<InputView>) -> Seq<Seq<u8>>
    decreases ins.len(),
{
    if ins.len() == 0 {
        Seq::empty()
    } else {
        let front = recovered_keys(ins.drop_last());
        match recovered_key(ins.last()) {
            Some(k) => front.push(k),
            None => front,
        }
    }
}

/// The outpoints that the inputs spend, in the order of the inputs.
pub open spec fn spent_outpoints(ins: Seq<InputView>) -> Seq<Outpoint> {
    Seq::new(ins.len(), |i: int| ins[i].prevout_data)
}

/// The shared secret from a non-empty list of input keys, the smallest spent
/// outpoint and the scan key.
pub open spec fn secret_from(keys: Seq<Seq<u8>>, least: Outpoint, scan_key: Seq<u8>) -> TweakView {
    match spec_tweak_data(keys, hex_text(least.txid@.reverse()), least.vout) {
        None => TweakView::Failed,
        Some(t) => match spec_shared_secret(t, scan_key) {
            None => TweakView::Failed,
            Some(s) => TweakView::Secret(s),
        },
    }
}

/// The outcome for the inputs of a transaction and a scan key.
pub open spec fn tweak_of(ins: Seq<InputView>, scan_key: Seq<u8>) -> TweakView {
    let keys = recovered_keys(ins);
    if keys.len() == 0 {
        TweakView::NoCandidate
    } else {
        secret_from(keys, smallest(spent_outpoints(ins)), scan_key)
    }
}

/// Inputs that reveal a key exist only where there are inputs.
pub proof fn lemma_keys_need_inputs(ins: Seq<InputView>)
    ensures
        recovered_keys(ins).len() <= ins.len(),
    decreases ins.len(),
{
    if ins.len() > 0 {
        lemma_keys_need_inputs(ins.drop_last());
    }
}

/// Whether the witness of a taproot key-spend is long enough for key recovery
/// to read its control block.
fn control_block_readable(input: &Input) -> (readable: bool)
    ensures
        readable == control_block_in_reach(
            input.script_sig@,
            stack_view(input.witness@),
            input.prevout@,
        ),
{
    let n: usize = input.witness.len();
    if input.prevout.len() != 34 || input.prevout[0] != 0x51 || input.prevout[1] != 0x20 {
        return true;
    }
    if input.script_sig.len() != 0 || n == 0 {
        return true;
    }
    let last: &Vec<u8> = &input.witness[n - 1];
    assert(stack_view(input.witness@).last() == last@);
    if last.len() == 0 {
        return true;
    }
    let annex: usize = if last[0] == 0x50 {
        1
    } else {
        0
    };
    if n <= annex {
        return true;
    }
    assert(stack_view(input.witness@)[n - annex - 1] == input.witness@[n - annex - 1]@);
    input.witness[n - annex - 1].len() >= 33
}

/// The public key that authorised the spending of an input, where the input
/// reveals one. An input of a kind that reveals no key, or whose data are
/// malformed, gives `None`.
pub fn recover_input_key(input: &Input) -> (key: Option<[u8; 33]>)
    ensures
        match key {
            Some(k) => recovered_key(input@) == Some(k@),
            None => recovered_key(input@) is None,
        },
{
    if control_block_readable(input) {
        input_public_key(&input.script_sig, &input.witness, &input.prevout)
    } else {
        None
    }
}

/// The public keys that the inputs of a unit reveal, in the order of the
/// inputs.
pub fn recover_input_keys(unit: &ScanTxHelper) -> (keys: Vec<[u8; 33]>)
    ensures
        key_views(keys@) == recovered_keys(unit@.ins),
{
    let mut keys: Vec<[u8; 33]> = Vec::new();
    let mut i: usize = 0;
    let ghost ins = input_views(unit.ins@);
    assert(ins.take(0) =~= Seq::<InputView>::empty());
    assert(key_views(keys@) =~= Seq::<Seq<u8>>::empty());
    while i < unit.ins.len()
        invariant
            i <= unit.ins@.len(),
            ins == input_views(unit.ins@),
            key_views(keys@) == recovered_keys(ins.take(i as int)),
        decreases unit.ins@.len() - i,
    {
        proof {
            let next = ins.take(i + 1);
            assert(next.drop_last() =~= ins.take(i as int));
            assert(next.last() == unit.ins@[i as int]@);
        }
        let ghost before = keys@;
        match recover_input_key(&unit.ins[i]) {
            Some(k) => {
                keys.push(k);
                assert(key_views(keys@) =~= key_views(before).push(k@));
            },
            None => {},
        }
        i += 1;
    }
    assert(ins.take(i as int) =~= ins);
    keys
}

/// The smallest of the outpoints that the inputs of a unit spend; `None`
/// for a unit without inputs.
pub fn smallest_spent_outpoint(unit: &ScanTxHelper) -> (least: Option<Outpoint>)
    ensures
        match least {
            Some(o) => unit@.ins.len() > 0 && o == smallest(spent_outpoints(unit@.ins)),
            None => unit@.ins.len() == 0,
        },
{
    let mut outpoints: Vec<Outpoint> = Vec::new();
    let mut i: usize = 0;
    while i < unit.ins.len()
        invariant
            i <= unit.ins@.len(),
            outpoints@.len() == i,
            forall|j: int| 0 <= j < i ==> outpoints@[j] == unit.ins@[j].prevout_data,
        decreases unit.ins@.len() - i,
    {
        outpoints.push(unit.ins[i].prevout_data);
        i += 1;
    }
    assert(outpoints@ =~= spent_outpoints(unit@.ins));
    smallest_outpoint(&outpoints)
}

/// Combines input keys that were recovered, the smallest spent outpoint and
/// the scan key into the shared secret.
pub fn combine_keys(keys: &Vec<[u8; 33]>, least: &Outpoint, scan_key: &[u8; 32]) -> (outcome:
    TweakOutcome)
    ensures
        outcome@ == secret_from(key_views(keys@), *least, scan_key@),
{
    let txid: String = txid_text(&least.txid);
    match tweak_data(keys, &txid, least.vout) {
        None => TweakOutcome::Failed,
        Some(tweak) => match shared_secret(&tweak, scan_key) {
            None => TweakOutcome::Failed,
            Some(secret) => TweakOutcome::Secret(secret),
        },
    }
}

/// Computes the shared secret of a transaction for a scan key.
///
/// The inputs that reveal no public key are left out. Where none reveals
/// one, the outcome is `NoCandidate` and nothing else is computed.
pub fn compute_tweak(unit: &ScanTxHelper, scan_key: &[u8; 32]) -> (outcome: TweakOutcome)
    ensures
        outcome@ == tweak_of(unit@.ins, scan_key@),
        recovered_keys(unit@.ins).len() == 0 <==> outcome is NoCandidate,
{
    let keys: Vec<[u8; 33]> = recover_input_keys(unit);
    if keys.len() == 0 {
        return TweakOutcome::NoCandidate;
    }
    proof {
        lemma_keys_need_inputs(unit@.ins);
    }
    match smallest_spent_outpoint(unit) {
        Some(least) => combine_keys(&keys, &least, scan_key),
        None => TweakOutcome::NoCandidate,
    }
}

} // verus!
