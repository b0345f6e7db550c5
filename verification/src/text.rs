//! Scan units as text, for logs and diagnostics.

use vstd::prelude::*;
use vstd::string::StrSliceExecFns;
use vstd::string::StringExecFns;
use crate::bytes::stack_view;
use crate::crypto::txid_text;
use crate::hex::{digit_text, hex_digit, hex_text, push_hex};
use crate::unit::{input_views, Input, InputView, ScanTxHelper, ScanUnitView};

verus! {

/// The decimal digits of a number, without leading zeros.
pub open spec fn decimal_text(n: nat) -> Seq<char>
    decreases n,
{
    if n < 10 {
        seq![hex_digit(n as u8)]
    } else {
        decimal_text(n / 10) + seq![hex_digit((n % 10) as u8)]
    }
}

/// The text of a witness stack: `witness: `, the item in hexadecimal and
/// `, ` for each item, in order.
pub open spec fn witness_text(witness: Seq<Seq<u8>>) -> Seq<char>
    decreases witness.len(),
{
    if witness.len() == 0 {
        Seq::empty()
    } else {
        witness_text(witness.drop_last()) + "witness: "@ + hex_text(witness.last()) + ", "@
    }
}

/// The text of an input: the spent output's script, the script-sig and the
/// witness items in hexadecimal, the spent transaction's id as it is
/// commonly written, that is with its bytes in reverse order, and the spent
/// output's index in decimal.
pub open spec fn input_text(input: InputView) -> Seq<char> {
    "prevout: "@ + hex_text(input.prevout) + ", script_sig: "@ + hex_text(input.script_sig) + ", "@
        + witness_text(input.witness) + "prevout txid: "@ + hex_text(
        input.prevout_data.txid@.reverse(),
    ) + ", prevout n: "@ + decimal_text(input.prevout_data.vout as nat) + ", "@
}

/// The lines for a list of inputs: `input: `, the input's text and a line
/// feed for each.
pub open spec fn input_lines(ins: Seq<InputView>) -> Seq<char>
    decreases ins.len(),
{
    if ins.len() == 0 {
        Seq::empty()
    } else {
        input_lines(ins.drop_last()) + "input: "@ + input_text(ins.last()) + "\n"@
    }
}

/// The lines for a list of output scripts: `output: `, the script in
/// hexadecimal and a line feed for each.
pub open spec fn output_lines(outs: Seq<Seq<u8>>) -> Seq<char>
    decreases outs.len(),
{
    if outs.len() == 0 {
        Seq::empty()
    } else {
        output_lines(outs.drop_last()) + "output: "@ + hex_text(outs.last()) + "\n"@
    }
}

/// The text of a scan unit: a line for each input, then a line for each
/// output.
pub open spec fn unit_text(unit: ScanUnitView) -> Seq<char> {
    input_lines(unit.ins) + output_lines(unit.outs)
}

/// A line without the line ending that closes it: without a final line feed
/// and the carriage return before it, if there is one.
pub open spec fn without_line_end(line: Seq<char>) -> Seq<char> {
    let n = line.len() as int;
    if n >= 1 && line[n - 1] == '\n' {
        if n >= 2 && line[n - 2] == '\r' {
            line.take(n - 2)
        } else {
            line.take(n - 1)
        }
    } else {
        line
    }
}

/// The message of a log line, without the line ending that closes it.
pub fn trim_line_end(line: &str) -> (message: &str)
    ensures
        message@ == without_line_end(line@),
{
    let n: usize = line.unicode_len();
    if n >= 1 && line.get_char(n - 1) == '\n' {
        if n >= 2 && line.get_char(n - 2) == '\r' {
            let message: &str = line.substring_char(0, n - 2);
            assert(message@ =~= line@.take(n - 2));
            message
        } else {
            let message: &str = line.substring_char(0, n - 1);
            assert(message@ =~= line@.take(n - 1));
            message
        }
    } else {
        line
    }
}

/// Appends the decimal digits of `n` to `text`.
pub fn push_decimal(text: &mut String, n: u32)
    ensures
        final(text)@ == old(text)@ + decimal_text(n as nat),
    decreases n,
{
    if n >= 10 {
        push_decimal(text, n / 10);
    }
    text.append(digit_text((n % 10) as u8));
    assert(text@ =~= old(text)@ + decimal_text(n as nat));
}

impl Input {
    /// The input as text.
    pub fn to_text(&self) -> (text: String)
        ensures
            text@ == input_text(self@),
    {
        let mut text: String = String::new();
        text.append("prevout: ");
        push_hex(&mut text, self.prevout.as_slice());
        text.append(", script_sig: ");
        push_hex(&mut text, self.script_sig.as_slice());
        text.append(", ");
        let ghost head = text@;
        let ghost witness = stack_view(self.witness@);
        let mut i: usize = 0;
        assert(witness.take(0) =~= Seq::<Seq<u8>>::empty());
        while i < self.witness.len()
            invariant
                i <= self.witness@.len(),
                witness == stack_view(self.witness@),
                text@ == head + witness_text(witness.take(i as int)),
            decreases self.witness@.len() - i,
        {
            proof {
                let next = witness.take(i + 1);
                assert(next.drop_last() =~= witness.take(i as int));
                assert(next.last() == self.witness@[i as int]@);
            }
            text.append("witness: ");
            push_hex(&mut text, self.witness[i].as_slice());
            text.append(", ");
            assert(text@ =~= head + witness_text(witness.take(i + 1)));
            i += 1;
        }
        assert(witness.take(i as int) =~= witness);
        text.append("prevout txid: ");
        let txid: String = txid_text(&self.prevout_data.txid);
        text.append(txid.as_str());
        text.append(", prevout n: ");
        push_decimal(&mut text, self.prevout_data.vout);
        text.append(", ");
        assert(text@ =~= input_text(self@));
        text
    }
}

impl ScanTxHelper {
    /// The unit as text, a line for each input and for each output.
    pub fn to_text(&self) -> (text: String)
        ensures
            text@ == unit_text(self@),
    {
        let mut text: String = String::new();
        let ghost ins = input_views(self.ins@);
        let mut i: usize = 0;
        assert(ins.take(0) =~= Seq::<InputView>::empty());
        while i < self.ins.len()
            invariant
                i <= self.ins@.len(),
                ins == input_views(self.ins@),
                text@ == input_lines(ins.take(i as int)),
            decreases self.ins@.len() - i,
        {
            proof {
                let next = ins.take(i + 1);
                assert(next.drop_last() =~= ins.take(i as int));
                assert(next.last() == self.ins@[i as int]@);
            }
            text.append("input: ");
            let line: String = self.ins[i].to_text();
            text.append(line.as_str());
            text.append("\n");
            i += 1;
        }
        assert(ins.take(i as int) =~= ins);
        let ghost head = text@;
        let ghost outs = stack_view(self.outs@);
        let mut j: usize = 0;
        assert(outs.take(0) =~= Seq::<Seq<u8>>::empty());
        while j < self.outs.len()
            invariant
                j <= self.outs@.len(),
                outs == stack_view(self.outs@),
                text@ == head + output_lines(outs.take(j as int)),
            decreases self.outs@.len() - j,
        {
            proof {
                let next = outs.take(j + 1);
                assert(next.drop_last() =~= outs.take(j as int));
                assert(next.last() == self.outs@[j as int]@);
            }
            text.append("output: ");
            push_hex(&mut text, self.outs[j].as_slice());
            text.append("\n");
            assert(text@ =~= head + output_lines(outs.take(j + 1)));
            j += 1;
        }
        assert(outs.take(j as int) =~= outs);
        text
    }
}

} // verus!
