//! Spent outpoints and the order by which the smallest of a transaction's
//! outpoints is chosen.
//!
//! An outpoint is ordered by its 36-byte serialization: the 32 bytes of the
//! transaction id as they are stored, followed by the output index in
//! little-endian byte order. Serializations are compared byte by byte.

use vstd::prelude::*;
use crate::bytes::{
    bytes_less, lemma_lex_asymmetric, lemma_lex_irreflexive, lemma_lex_total,
    lemma_lex_transitive, lex_less,
};

verus! {

/// Reference to an output of an earlier transaction.
#[derive(Clone, Copy, Debug)]
pub struct Outpoint {
    /// Transaction id, in the byte order in which a transaction stores it.
    pub txid: [u8; 32],
    /// Position of the output in that transaction.
    pub vout: u32,
}

/// The four bytes of `v`, least significant first.
pub open spec fn le_bytes(v: u32) -> Seq<u8> {
    seq![
        (v % 256) as u8,
        ((v / 256) % 256) as u8,
        ((v / 65536) % 256) as u8,
        (v / 16777216) as u8,
    ]
}

/// The 36-byte serialization of an outpoint.
pub open spec fn serialized(o: Outpoint) -> Seq<u8> {
    o.txid@ + le_bytes(o.vout)
}

/// Whether `a` comes strictly before `b`.
pub open spec fn precedes(a: Outpoint, b: Outpoint) -> bool {
    lex_less(serialized(a), serialized(b))
}

/// Whether `m` is an item of `s` that no item of `s` precedes.
pub open spec fn is_smallest(s: Seq<Outpoint>, m: Outpoint) -> bool {
    &&& s.contains(m)
    &&& forall|i: int| 0 <= i < s.len() ==> !precedes(#[trigger] s[i], m)
}

/// The smallest item of a non-empty sequence of outpoints.
pub open spec fn smallest(s: Seq<Outpoint>) -> Outpoint
    recommends
        s.len() > 0,
    decreases s.len(),
{
    if s.len() <= 1 {
        s[0]
    } else {
        let rest = smallest(s.drop_last());
        if precedes(s.last(), rest) {
            s.last()
        } else {
            rest
        }
    }
}

/// An outpoint is determined by its serialization.
pub proof fn lemma_serialized_injective(a: Outpoint, b: Outpoint)
    requires
        serialized(a) == serialized(b),
    ensures
        a == b,
{
    let sa = serialized(a);
    let sb = serialized(b);
    assert(a.txid@.len() == 32 && b.txid@.len() == 32);
    assert forall|i: int| 0 <= i < 32 implies a.txid[i] == b.txid[i] by {
        assert(sa[i] == a.txid@[i]);
        assert(sb[i] == b.txid@[i]);
    }
    assert(a.txid =~= b.txid);
    let la = le_bytes(a.vout);
    let lb = le_bytes(b.vout);
    assert forall|i: int| 0 <= i < 4 implies la[i] == lb[i] by {
        assert(sa[32 + i] == la[i]);
        assert(sb[32 + i] == lb[i]);
    }
    assert(la[0] == lb[0] && la[1] == lb[1] && la[2] == lb[2] && la[3] == lb[3]);
    assert(a.vout == b.vout);
}

/// The order on outpoints is total and strict: of two different outpoints
/// exactly one precedes the other, and no outpoint precedes itself.
pub proof fn lemma_outpoint_order_total(a: Outpoint, b: Outpoint)
    ensures
        a != b ==> (precedes(a, b) != precedes(b, a)),
        a == b ==> !precedes(a, b),
{
    lemma_lex_asymmetric(serialized(a), serialized(b));
    lemma_lex_total(serialized(a), serialized(b));
    lemma_lex_irreflexive(serialized(a));
    if serialized(a) == serialized(b) {
        lemma_serialized_injective(a, b);
    }
}

/// The order on outpoints is transitive.
pub proof fn lemma_outpoint_order_transitive(a: Outpoint, b: Outpoint, c: Outpoint)
    requires
        precedes(a, b),
        precedes(b, c),
    ensures
        precedes(a, c),
{
    lemma_lex_transitive(serialized(a), serialized(b), serialized(c));
}

/// `smallest` yields an item of the sequence that none of its items precedes.
pub proof fn lemma_smallest_is_smallest(s: Seq<Outpoint>)
    requires
        s.len() > 0,
    ensures
        is_smallest(s, smallest(s)),
    decreases s.len(),
{
    if s.len() == 1 {
        lemma_outpoint_order_total(s[0], s[0]);
        assert(s[0] == smallest(s));
    } else {
        let front = s.drop_last();
        let rest = smallest(front);
        let m = smallest(s);
        lemma_smallest_is_smallest(front);
        let k = choose|k: int| 0 <= k < front.len() && front[k] == rest;
        assert(s[k] == rest);
        assert(s[s.len() - 1] == s.last());
        assert forall|i: int| 0 <= i < s.len() implies !precedes(#[trigger] s[i], m) by {
            lemma_outpoint_order_total(s.last(), rest);
            lemma_outpoint_order_total(s.last(), s.last());
            if i < front.len() {
                assert(front[i] == s[i]);
                if precedes(s.last(), rest) && precedes(s[i], s.last()) {
                    lemma_outpoint_order_transitive(s[i], s.last(), rest);
                }
            }
        }
    }
}

/// A sequence of outpoints has one smallest item only.
pub proof fn lemma_smallest_unique(s: Seq<Outpoint>, m: Outpoint)
    requires
        is_smallest(s, m),
    ensures
        s.len() > 0,
        m == smallest(s),
{
    let k = choose|k: int| 0 <= k < s.len() && s[k] == m;
    lemma_smallest_is_smallest(s);
    let n = smallest(s);
    let j = choose|j: int| 0 <= j < s.len() && s[j] == n;
    assert(!precedes(s[j], m));
    assert(!precedes(s[k], n));
    lemma_outpoint_order_total(m, n);
}

/// The smallest outpoint does not depend on the order in which the outpoints
/// are listed, nor on how often each of them occurs: two non-empty sequences
/// with the same items have the same smallest item.
pub proof fn lemma_smallest_ignores_order(s: Seq<Outpoint>, t: Seq<Outpoint>)
    requires
        s.len() > 0,
        forall|o: Outpoint| s.contains(o) <==> t.contains(o),
    ensures
        smallest(s) == smallest(t),
{
    lemma_smallest_is_smallest(s);
    let m = smallest(s);
    assert(t.contains(m));
    assert forall|i: int| 0 <= i < t.len() implies !precedes(#[trigger] t[i], m) by {
        assert(t.contains(t[i]));
        assert(s.contains(t[i]));
        let k = choose|k: int| 0 <= k < s.len() && s[k] == t[i];
        assert(!precedes(s[k], m));
    }
    lemma_smallest_unique(t, m);
}

impl Outpoint {
    /// The 36-byte serialization by which outpoints are ordered.
    pub fn serialize(&self) -> (out: Vec<u8>)
        ensures
            out@ == serialized(*self),
    {
        let mut out: Vec<u8> = Vec::new();
        let mut i: usize = 0;
        while i < 32
            invariant
                i <= 32,
                out@ == self.txid@.subrange(0, i as int),
            decreases 32 - i,
        {
            out.push(self.txid[i]);
            i += 1;
        }
        let v: u32 = self.vout;
        out.push((v % 256) as u8);
        out.push(((v / 256) % 256) as u8);
        out.push(((v / 65536) % 256) as u8);
        out.push((v / 16777216) as u8);
        assert(out@ =~= serialized(*self));
        out
    }

    /// Whether this outpoint comes strictly before `other`.
    pub fn precedes(&self, other: &Outpoint) -> (before: bool)
        ensures
            before == precedes(*self, *other),
    {
        let mine: Vec<u8> = self.serialize();
        let theirs: Vec<u8> = other.serialize();
        bytes_less(mine.as_slice(), theirs.as_slice())
    }
}

/// The smallest of a list of outpoints; `None` for an empty list.
pub fn smallest_outpoint(outpoints: &Vec<Outpoint>) -> (least: Option<Outpoint>)
    ensures
        match least {
            Some(o) => outpoints@.len() > 0 && o == smallest(outpoints@) && is_smallest(
                outpoints@,
                o,
            ),
            None => outpoints@.len() == 0,
        },
{
    if outpoints.len() == 0 {
        return None;
    }
    let mut least: Outpoint = outpoints[0];
    let mut i: usize = 1;
    assert(outpoints@.take(1).len() == 1);
    assert(outpoints@.take(1)[0] == outpoints@[0]);
    while i < outpoints.len()
        invariant
            1 <= i <= outpoints@.len(),
            least == smallest(outpoints@.take(i as int)),
        decreases outpoints@.len() - i,
    {
        proof {
            let next = outpoints@.take(i + 1);
            assert(next.drop_last() =~= outpoints@.take(i as int));
            assert(next.last() == outpoints@[i as int]);
        }
        if outpoints[i].precedes(&least) {
            least = outpoints[i];
        }
        i += 1;
    }
    proof {
        assert(outpoints@.take(i as int) =~= outpoints@);
        lemma_smallest_is_smallest(outpoints@);
    }
    Some(least)
}

} // verus!
