//! Scan units: what is kept of a transaction for scanning, and how a unit is
//! built from a decoded transaction and the record of the outputs it spends.

use vstd::prelude::*;
use crate::bytes::{copy_bytes, copy_stack, stack_view};
use crate::outpoint::Outpoint;

verus! {

/// One input of a decoded transaction.
#[derive(Debug)]
pub struct TxInput {
    /// The outpoint that the input spends.
    pub previous_output: Outpoint,
    /// The script-sig bytes.
    pub script_sig: Vec<u8>,
    /// The witness stack, bottom first.
    pub witness: Vec<Vec<u8>>,
}

/// A decoded transaction, as far as scanning reads it.
#[derive(Debug)]
pub struct TxData {
    /// The inputs, in their order.
    pub input: Vec<TxInput>,
    /// The locking script of each output, in the order of the outputs.
    pub output: Vec<Vec<u8>>,
}

/// The record of the outputs that one transaction spends: the locking script
/// of each, in the order of the transaction's inputs.
#[derive(Debug)]
pub struct TxUndo {
    /// The locking scripts of the spent outputs.
    pub prevouts: Vec<Vec<u8>>,
}

/// One input of a scan unit.
#[derive(Debug)]
pub struct Input {
    /// Locking script of the spent output.
    pub prevout: Vec<u8>,
    /// The script-sig bytes.
    pub script_sig: Vec<u8>,
    /// The witness stack, bottom first.
    pub witness: Vec<Vec<u8>>,
    /// The outpoint that the input spends.
    pub prevout_data: Outpoint,
}

/// The scan-relevant data of one transaction.
#[derive(Debug)]
pub struct ScanTxHelper {
    /// The inputs, in the transaction's order.
    pub ins: Vec<Input>,
    /// The locking script of each output, in the transaction's order.
    pub outs: Vec<Vec<u8>>,
}

/// A transaction and the record of its spent outputs disagree on the number
/// of inputs.
#[derive(Clone, Copy, Debug, PartialEq, Eq)]
pub struct CountMismatch {
    /// Number of inputs of the transaction.
    pub inputs: usize,
    /// Number of spent outputs recorded for it.
    pub recorded: usize,
}

/// What a scan unit's input holds, as plain values.
pub struct InputView {
    pub prevout: Seq<u8>,
    pub script_sig: Seq<u8>,
    pub witness: Seq<Seq<u8>>,
    pub prevout_data: Outpoint,
}

impl Input {
    /// The input as plain values.
    pub open spec fn view(&self) -> InputView {
        InputView {
            prevout: self.prevout@,
            script_sig: self.script_sig@,
            witness: stack_view(self.witness@),
            prevout_data: self.prevout_data,
        }
    }
}

/// The views of a list of inputs, item by item.
pub open spec fn input_views(ins: Seq<Input>) -> Seq<InputView> {
    Seq::new(ins.len(), |i: int| ins[i]@)
}

/// What a scan unit holds, as plain values.
pub struct ScanUnitView {
    pub ins: Seq<InputView>,
    pub outs: Seq<Seq<u8>>,
}

impl View for ScanTxHelper {
    type V = ScanUnitView;

    open spec fn view(&self) -> ScanUnitView {
        ScanUnitView { ins: input_views(self.ins@), outs: stack_view(self.outs@) }
    }
}

/// The scan input that belongs to input `j` of a transaction whose spent
/// outputs are recorded in `undo`.
pub open spec fn input_of(tx: TxData, undo: TxUndo, j: int) -> InputView {
    InputView {
        prevout: undo.prevouts@[j]@,
        script_sig: tx.input@[j].script_sig@,
        witness: stack_view(tx.input@[j].witness@),
        prevout_data: tx.input@[j].previous_output,
    }
}

/// The scan unit of `tx` with the spent outputs of `undo`: one input for each
/// input of the transaction, in order, each with the locking script recorded
/// for it, and the output scripts unchanged.
pub open spec fn unit_of(tx: TxData, undo: TxUndo) -> ScanUnitView
    recommends
        tx.input@.len() == undo.prevouts@.len(),
{
    ScanUnitView {
        ins: Seq::new(tx.input@.len(), |j: int| input_of(tx, undo, j)),
        outs: stack_view(tx.output@),
    }
}

/// Builds the scan unit of a transaction that is not a coinbase.
///
/// The transaction and the record must agree on the number of inputs. Where
/// they do not, nothing is built, neither a shorter unit nor a padded one:
/// the error carries both counts.
pub fn build_scan_unit(tx: &TxData, undo: &TxUndo) -> (built: Result<ScanTxHelper, CountMismatch>)
    ensures
        tx.input@.len() == undo.prevouts@.len() <==> built is Ok,
        built matches Ok(unit) ==> unit@ == unit_of(*tx, *undo),
        built matches Err(e) ==> e.inputs == tx.input@.len() && e.recorded
            == undo.prevouts@.len(),
{
    if tx.input.len() != undo.prevouts.len() {
        return Err(CountMismatch { inputs: tx.input.len(), recorded: undo.prevouts.len() });
    }
    let mut ins: Vec<Input> = Vec::new();
    let mut j: usize = 0;
    while j < tx.input.len()
        invariant
            j <= tx.input@.len(),
            tx.input@.len() == undo.prevouts@.len(),
            ins@.len() == j,
            forall|k: int| 0 <= k < j ==> (#[trigger] ins@[k])@ == input_of(*tx, *undo, k),
        decreases tx.input@.len() - j,
    {
        let source: &TxInput = &tx.input[j];
        let input = Input {
            prevout: copy_bytes(undo.prevouts[j].as_slice()),
            script_sig: copy_bytes(source.script_sig.as_slice()),
            witness: copy_stack(&source.witness),
            prevout_data: source.previous_output,
        };
        assert(input@ == input_of(*tx, *undo, j as int));
        ins.push(input);
        j += 1;
    }
    let outs: Vec<Vec<u8>> = copy_stack(&tx.output);
    let unit = ScanTxHelper { ins, outs };
    assert(unit@.ins =~= unit_of(*tx, *undo).ins);
    Ok(unit)
}

} // verus!
