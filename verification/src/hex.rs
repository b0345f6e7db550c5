//! Lowercase hexadecimal text for byte strings, and its inverse.

use vstd::prelude::*;
use vstd::string::StringExecFns;
use vstd::string::StrSliceExecFns;

verus! {

/// The lowercase hexadecimal digit for a value below 16.
pub open spec fn hex_digit(n: u8) -> char
    recommends
        n < 16,
{
    if n < 10 {
        (n + 48) as char
    } else {
        (n + 87) as char
    }
}

/// The value of a hexadecimal digit, in either case, or `None` for any other
/// character.
pub open spec fn hex_value(c: char) -> Option<u8> {
    let code = c as u32;
    if 48 <= code <= 57 {
        Some((code - 48) as u8)
    } else if 97 <= code <= 102 {
        Some((code - 87) as u8)
    } else if 65 <= code <= 70 {
        Some((code - 55) as u8)
    } else {
        None
    }
}

/// Whether `c` is one of `0` to `9` or `a` to `f`.
pub open spec fn is_lower_hex(c: char) -> bool {
    let code = c as u32;
    48 <= code <= 57 || 97 <= code <= 102
}

/// The hexadecimal text of a byte string: two lowercase digits for each byte,
/// the high half first, in the order of the bytes.
pub open spec fn hex_text(data: Seq<u8>) -> Seq<char>
    decreases data.len(),
{
    if data.len() == 0 {
        Seq::empty()
    } else {
        hex_text(data.drop_last()) + seq![
            hex_digit(data.last() / 16),
            hex_digit(data.last() % 16),
        ]
    }
}

/// The byte string that a hexadecimal text stands for, or `None` where the
/// text has an odd length or holds a character that is no hexadecimal digit.
pub open spec fn hex_bytes(text: Seq<char>) -> Option<Seq<u8>>
    decreases text.len(),
{
    if text.len() == 0 {
        Some(Seq::empty())
    } else if text.len() == 1 {
        None
    } else {
        let front = hex_bytes(text.take(text.len() - 2));
        let high = hex_value(text[text.len() - 2]);
        let low = hex_value(text[text.len() - 1]);
        if front is Some && high is Some && low is Some {
            Some(front->0.push((high->0 * 16 + low->0) as u8))
        } else {
            None
        }
    }
}

/// Each digit decodes to the value it was made from.
pub proof fn lemma_hex_digit_value(n: u8)
    requires
        n < 16,
    ensures
        hex_value(hex_digit(n)) == Some(n),
        is_lower_hex(hex_digit(n)),
{
}

/// The text of `n` bytes has `2 * n` characters, all of them lowercase
/// hexadecimal digits.
pub proof fn lemma_hex_text_shape(data: Seq<u8>)
    ensures
        hex_text(data).len() == 2 * data.len(),
        forall|i: int| 0 <= i < hex_text(data).len() ==> is_lower_hex(#[trigger] hex_text(data)[i]),
    decreases data.len(),
{
    if data.len() > 0 {
        lemma_hex_text_shape(data.drop_last());
        lemma_hex_digit_value(data.last() / 16);
        lemma_hex_digit_value(data.last() % 16);
    }
}

/// Decoding the text of a byte string gives the byte string back.
pub proof fn lemma_hex_round_trip(data: Seq<u8>)
    ensures
        hex_bytes(hex_text(data)) == Some(data),
    decreases data.len(),
{
    if data.len() > 0 {
        let front = data.drop_last();
        let text = hex_text(data);
        lemma_hex_round_trip(front);
        lemma_hex_text_shape(front);
        lemma_hex_digit_value(data.last() / 16);
        lemma_hex_digit_value(data.last() % 16);
        assert(text.take(text.len() - 2) =~= hex_text(front));
        assert(text[text.len() - 2] == hex_digit(data.last() / 16));
        assert(text[text.len() - 1] == hex_digit(data.last() % 16));
        assert(front.push(data.last()) =~= data);
    } else {
        assert(hex_text(data).len() == 0);
    }
}

/// Appending a byte appends its two digits.
pub proof fn lemma_hex_text_push(data: Seq<u8>, b: u8)
    ensures
        hex_text(data.push(b)) == hex_text(data) + seq![hex_digit(b / 16), hex_digit(b % 16)],
{
    assert(data.push(b).drop_last() =~= data);
}

/// A text decodes only if each of its prefixes of even length decodes.
pub proof fn lemma_hex_bytes_prefix(text: Seq<char>, k: int)
    requires
        0 <= k <= text.len(),
        k % 2 == 0,
        text.len() % 2 == 0,
        hex_bytes(text.take(k)) is None,
    ensures
        hex_bytes(text) is None,
    decreases text.len() - k,
{
    if k == text.len() {
        assert(text.take(k) =~= text);
    } else {
        let next = text.take(k + 2);
        assert(next.take(next.len() - 2) =~= text.take(k));
        lemma_hex_bytes_prefix(text, k + 2);
    }
}

/// The text of one hexadecimal digit.
pub fn digit_text(n: u8) -> (text: &'static str)
    requires
        n < 16,
    ensures
        text@ == seq![hex_digit(n)],
{
    let text: &'static str = match n {
        0 => "0",
        1 => "1",
        2 => "2",
        3 => "3",
        4 => "4",
        5 => "5",
        6 => "6",
        7 => "7",
        8 => "8",
        9 => "9",
        10 => "a",
        11 => "b",
        12 => "c",
        13 => "d",
        14 => "e",
        _ => "f",
    };
    proof {
        reveal_strlit("0");
        reveal_strlit("1");
        reveal_strlit("2");
        reveal_strlit("3");
        reveal_strlit("4");
        reveal_strlit("5");
        reveal_strlit("6");
        reveal_strlit("7");
        reveal_strlit("8");
        reveal_strlit("9");
        reveal_strlit("a");
        reveal_strlit("b");
        reveal_strlit("c");
        reveal_strlit("d");
        reveal_strlit("e");
        reveal_strlit("f");
        assert(text@ =~= seq![hex_digit(n)]);
    }
    text
}

/// The value of a hexadecimal digit, or `None` for any other character.
fn digit_value(c: char) -> (value: Option<u8>)
    ensures
        value == hex_value(c),
{
    let code: u32 = c as u32;
    if 48 <= code && code <= 57 {
        Some((code - 48) as u8)
    } else if 97 <= code && code <= 102 {
        Some((code - 87) as u8)
    } else if 65 <= code && code <= 70 {
        Some((code - 55) as u8)
    } else {
        None
    }
}

/// Appends the hexadecimal text of `data` to `text`.
pub fn push_hex(text: &mut String, data: &[u8])
    ensures
        final(text)@ == old(text)@ + hex_text(data@),
{
    let mut i: usize = 0;
    assert(data@.take(0) =~= Seq::<u8>::empty());
    while i < data.len()
        invariant
            i <= data@.len(),
            text@ == old(text)@ + hex_text(data@.take(i as int)),
        decreases data@.len() - i,
    {
        let b: u8 = data[i];
        proof {
            lemma_hex_text_push(data@.take(i as int), b);
            assert(data@.take(i + 1) =~= data@.take(i as int).push(b));
        }
        text.append(digit_text(b / 16));
        text.append(digit_text(b % 16));
        i += 1;
    }
    assert(data@.take(i as int) =~= data@);
}

/// The bytes of `data` as lowercase hexadecimal text, two digits per byte.
pub fn vec_to_hex_string(data: &[u8]) -> (text: String)
    ensures
        text@ == hex_text(data@),
        text@.len() == 2 * data@.len(),
        hex_bytes(text@) == Some(data@),
{
    let mut text: String = String::new();
    push_hex(&mut text, data);
    proof {
        assert(text@ =~= hex_text(data@));
        lemma_hex_text_shape(data@);
        lemma_hex_round_trip(data@);
    }
    text
}

/// The bytes that a hexadecimal text stands for. Digits of either case are
/// read; a text of odd length or with any other character gives `None`.
pub fn hex_string_to_vec(text: &str) -> (data: Option<Vec<u8>>)
    ensures
        match data {
            Some(bytes) => hex_bytes(text@) == Some(bytes@),
            None => hex_bytes(text@) is None,
        },
{
    let n: usize = text.unicode_len();
    if n % 2 != 0 {
        proof {
            lemma_hex_odd_length(text@);
        }
        return None;
    }
    let mut out: Vec<u8> = Vec::new();
    let mut i: usize = 0;
    assert(text@.take(0) =~= Seq::<char>::empty());
    while i < n
        invariant
            i <= n,
            i % 2 == 0,
            n % 2 == 0,
            n == text@.len(),
            hex_bytes(text@.take(i as int)) == Some(out@),
        decreases n - i,
    {
        let high: Option<u8> = digit_value(text.get_char(i));
        let low: Option<u8> = digit_value(text.get_char(i + 1));
        proof {
            let next = text@.take(i + 2);
            assert(next.take(next.len() - 2) =~= text@.take(i as int));
            assert(next[next.len() - 2] == text@[i as int]);
            assert(next[next.len() - 1] == text@[i + 1]);
        }
        match (high, low) {
            (Some(h), Some(l)) => {
                out.push(h * 16 + l);
            },
            _ => {
                proof {
                    lemma_hex_bytes_prefix(text@, i + 2);
                }
                return None;
            },
        }
        i += 2;
    }
    assert(text@.take(i as int) =~= text@);
    Some(out)
}

/// A text of odd length does not decode.
pub proof fn lemma_hex_odd_length(text: Seq<char>)
    requires
        text.len() % 2 == 1,
    ensures
        hex_bytes(text) is None,
    decreases text.len(),
{
    if text.len() > 1 {
        lemma_hex_odd_length(text.take(text.len() - 2));
    }
}

} // verus!
