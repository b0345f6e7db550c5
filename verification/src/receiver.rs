//! The recipient under scan: a scan key, a spend key and a list of labels.

use vstd::prelude::*;
use crate::crypto::{
    label_scalar, lists_table, outside_add_label, outside_receiver, outside_scan,
    public_key_from_text, receiver_labels, receiver_spend_key, spec_found_outputs,
    spec_label_scalar, spec_public_key_text, spec_wif_secret, wif_secret, x_only_views,
    FoundOutput, spec_receiver_made, spec_label_accepted,
};

verus! {

/// A label of a receiver: its index and the scalar derived from it.
#[derive(Clone, Copy, Debug)]
pub struct LabelEntry {
    /// The label's index.
    pub m: u32,
    /// The label's scalar, in big-endian bytes.
    pub scalar: [u8; 32],
}

/// Why key material was refused.
#[derive(Clone, Copy, Debug, PartialEq, Eq)]
pub enum KeyError {
    /// The scan key is no secret key in wallet import format.
    ScanKey,
    /// The spend key is no public key in hexadecimal text.
    SpendKey,
    /// The keys were read, but no receiver can be made of them.
    Rejected,
}

/// The identity under scan. A receiver always has the label with index 0,
/// its change label, as its first label; no index occurs twice.
pub struct Recipient {
    scan_key: [u8; 32],
    spend_key: [u8; 33],
    labels: Vec<LabelEntry>,
    outside: silentpayments::receiving::Receiver,
}

/// The indices of a list of labels, in order.
pub open spec fn indices_of(labels: Seq<LabelEntry>) -> Seq<u32> {
    Seq::new(labels.len(), |i: int| labels[i].m)
}

/// The scalars of a list of labels, as a set.
pub open spec fn scalars_of(labels: Seq<LabelEntry>) -> Set<Seq<u8>> {
    Set::new(|s: Seq<u8>| exists|i: int| 0 <= i < labels.len() && (#[trigger] labels[i]).scalar@ == s)
}

/// Whether each label of the list carries the scalar that belongs to its
/// index under the scan key, and no index occurs twice.
pub open spec fn labels_derived(scan_key: Seq<u8>, labels: Seq<LabelEntry>) -> bool {
    &&& forall|i: int|
        0 <= i < labels.len() ==> spec_label_scalar(scan_key, (#[trigger] labels[i]).m) == Some(
            labels[i].scalar@,
        )
    &&& forall|i: int, j: int|
        0 <= i < j < labels.len() ==> (#[trigger] labels[i]).m != (#[trigger] labels[j]).m
}

/// Adding a label to a list adds its scalar to the set of scalars.
pub proof fn lemma_scalars_push(labels: Seq<LabelEntry>, entry: LabelEntry)
    ensures
        scalars_of(labels.push(entry)) == scalars_of(labels).insert(entry.scalar@),
{
    let more = labels.push(entry);
    assert forall|s: Seq<u8>| scalars_of(more).contains(s) == scalars_of(labels).insert(
        entry.scalar@,
    ).contains(s) by {
        if scalars_of(more).contains(s) {
            let i = choose|i: int| 0 <= i < more.len() && (#[trigger] more[i]).scalar@ == s;
            if i < labels.len() {
                assert(labels[i].scalar@ == s);
            }
        }
        if scalars_of(labels).contains(s) {
            let i = choose|i: int| 0 <= i < labels.len() && (#[trigger] labels[i]).scalar@ == s;
            assert(more[i].scalar@ == s);
        }
        if s == entry.scalar@ {
            assert(more[labels.len() as int].scalar@ == s);
        }
    }
    assert(scalars_of(more) =~= scalars_of(labels).insert(entry.scalar@));
}

impl Recipient {
    #[verifier::type_invariant]
    closed spec fn well_formed(&self) -> bool {
        &&& self.labels@.len() >= 1
        &&& self.labels@[0].m == 0
        &&& labels_derived(self.scan_key@, self.labels@)
        &&& receiver_spend_key(self.outside) == self.spend_key@
        &&& receiver_labels(self.outside) == scalars_of(self.labels@)
    }

    /// The scan secret key.
    pub closed spec fn scan_key_view(&self) -> Seq<u8> {
        self.scan_key@
    }

    /// The spend public key, in its compressed encoding.
    pub closed spec fn spend_key_view(&self) -> Seq<u8> {
        self.spend_key@
    }

    /// The labels, in the order in which they were added.
    pub closed spec fn entries(&self) -> Seq<LabelEntry> {
        self.labels@
    }

    /// A receiver for a scan secret key and a spend public key, with the
    /// change label, index 0, as its only label. `None` where the scan key
    /// is no secret key, or the keys are refused.
    pub fn new(scan_key: [u8; 32], spend_key: [u8; 33]) -> (made: Option<Recipient>)
        ensures
            made is Some <==> can_be_made(scan_key@, spend_key@),
            made matches Some(r) ==> r.scan_key_view() == scan_key@ && r.spend_key_view()
                == spend_key@ && indices_of(r.entries()) == seq![0u32] && labels_derived(
                scan_key@,
                r.entries(),
            ),
    {
        let change: [u8; 32] = match label_scalar(&scan_key, 0) {
            Some(scalar) => scalar,
            None => {
                return None;
            },
        };
        match outside_receiver(&scan_key, &spend_key, &change) {
            None => None,
            Some(outside) => {
                let mut labels: Vec<LabelEntry> = Vec::new();
                labels.push(LabelEntry { m: 0, scalar: change });
                proof {
                    lemma_scalars_push(Seq::empty(), labels@[0]);
                    assert(labels@ =~= Seq::<LabelEntry>::empty().push(labels@[0]));
                    assert(scalars_of(Seq::<LabelEntry>::empty()) =~= Set::<Seq<u8>>::empty());
                    assert(indices_of(labels@) =~= seq![0u32]);
                }
                Some(Recipient { scan_key, spend_key, labels, outside })
            },
        }
    }

    /// The scan secret key.
    pub fn scan_key(&self) -> (key: &[u8; 32])
        ensures
            key@ == self.scan_key_view(),
    {
        &self.scan_key
    }

    /// The spend public key, in its compressed encoding.
    pub fn spend_key(&self) -> (key: &[u8; 33])
        ensures
            key@ == self.spend_key_view(),
    {
        &self.spend_key
    }

    /// The labels, in the order in which they were added. The first is the
    /// change label.
    pub fn labels(&self) -> (labels: &Vec<LabelEntry>)
        ensures
            labels@ == self.entries(),
            labels@.len() >= 1,
            labels@[0].m == 0,
            labels_derived(self.scan_key_view(), labels@),
    {
        proof {
            use_type_invariant(self);
        }
        &self.labels
    }

    /// Whether the receiver has a label with index `m`.
    pub fn has_label(&self, m: u32) -> (has: bool)
        ensures
            has == indices_of(self.entries()).contains(m),
    {
        let mut i: usize = 0;
        while i < self.labels.len()
            invariant
                i <= self.labels@.len(),
                forall|j: int| 0 <= j < i ==> self.labels@[j].m != m,
            decreases self.labels@.len() - i,
        {
            if self.labels[i].m == m {
                assert(indices_of(self.labels@)[i as int] == m);
                return true;
            }
            i += 1;
        }
        assert forall|j: int| 0 <= j < indices_of(self.labels@).len() implies indices_of(
            self.labels@,
        )[j] != m by {
            assert(self.labels@[j].m != m);
        }
        false
    }

    /// The receiver with the label of index `m` added to its labels, and
    /// whether it was added. A label that the receiver has already, or that
    /// is refused, leaves the receiver as it was.
    pub fn with_label(self, m: u32) -> (out: (Recipient, bool))
        ensures
            out.0.scan_key_view() == self.scan_key_view(),
            out.0.spend_key_view() == self.spend_key_view(),
            out.1 <==> !indices_of(self.entries()).contains(m) && can_be_added(
                self.scan_key_view(),
                self.spend_key_view(),
                m,
            ),
            out.1 ==> out.0.entries().len() == self.entries().len() + 1
                && out.0.entries().drop_last() == self.entries() && out.0.entries().last().m == m,
            out.1 ==> indices_of(out.0.entries()) == indices_of(self.entries()).push(m),
            !out.1 ==> out.0.entries() == self.entries(),
    {
        proof {
            use_type_invariant(&self);
        }
        if self.has_label(m) {
            return (self, false);
        }
        let scalar: [u8; 32] = match label_scalar(&self.scan_key, m) {
            Some(scalar) => scalar,
            None => {
                return (self, false);
            },
        };
        let ghost before = self.labels@;
        let Recipient { scan_key, spend_key, mut labels, mut outside } = self;
        let added: bool = outside_add_label(&mut outside, &scalar);
        if added {
            let entry = LabelEntry { m, scalar };
            labels.push(entry);
            proof {
                lemma_scalars_push(before, entry);
                assert(labels@.drop_last() =~= before);
                assert(indices_of(labels@) =~= indices_of(before).push(m));
                assert forall|i: int, j: int| 0 <= i < j < labels@.len() implies (
                #[trigger] labels@[i]).m != (#[trigger] labels@[j]).m by {
                    if j == before.len() {
                        assert(indices_of(before)[i] == before[i].m);
                    } else {
                        assert(before[i].m != before[j].m);
                    }
                }
            }
        }
        (Recipient { scan_key, spend_key, labels, outside }, added)
    }

    /// Asks which of the given output keys belong to this receiver under the
    /// given shared secret. `None` where the keys could not be examined.
    pub fn scan(&self, secret: &[u8; 33], keys: &Vec<[u8; 32]>) -> (found: Option<
        Vec<FoundOutput>,
    >)
        ensures
            match found {
                Some(list) => spec_found_outputs(
                    self.spend_key_view(),
                    scalars_of(self.entries()),
                    secret@,
                    x_only_views(keys@),
                ) matches Some(table) && lists_table(list@, table),
                None => spec_found_outputs(
                    self.spend_key_view(),
                    scalars_of(self.entries()),
                    secret@,
                    x_only_views(keys@),
                ) is None,
            },
    {
        proof {
            use_type_invariant(self);
        }
        outside_scan(&self.outside, secret, keys)
    }
}

/// Whether a receiver can be made of a scan secret key and a spend public
/// key: the change label, index 0, can be derived under the scan key, and
/// the keys are accepted together with that label.
pub open spec fn can_be_made(scan_key: Seq<u8>, spend_key: Seq<u8>) -> bool {
    match spec_label_scalar(scan_key, 0) {
        Some(change) => spec_receiver_made(scan_key, spend_key, change),
        None => false,
    }
}

/// Whether the label of index `m` can be added to a receiver with the given
/// keys: its scalar can be derived under the scan key, and the label is
/// accepted together with the spend key.
pub open spec fn can_be_added(scan_key: Seq<u8>, spend_key: Seq<u8>, m: u32) -> bool {
    match spec_label_scalar(scan_key, m) {
        Some(scalar) => spec_label_accepted(spend_key, scalar),
        None => false,
    }
}

/// Reads a receiver from a scan secret key in wallet import format and a
/// spend public key in hexadecimal text. The receiver has the change label,
/// index 0, as its only label.
pub fn parse_keys(scan_key: String, spend_pub_key: String) -> (parsed: Result<Recipient, KeyError>)
    ensures
        spec_wif_secret(scan_key@) is None ==> parsed == Err::<Recipient, KeyError>(
            KeyError::ScanKey,
        ),
        spec_wif_secret(scan_key@) is Some && spec_public_key_text(spend_pub_key@) is None
            ==> parsed == Err::<Recipient, KeyError>(KeyError::SpendKey),
        parsed matches Err(e) ==> (e == KeyError::ScanKey <==> spec_wif_secret(scan_key@) is None)
            && (e == KeyError::SpendKey <==> spec_wif_secret(scan_key@) is Some
            && spec_public_key_text(spend_pub_key@) is None),
        parsed is Ok <==> (spec_wif_secret(scan_key@) matches Some(secret)
            && spec_public_key_text(spend_pub_key@) matches Some(spend) && can_be_made(
            secret,
            spend,
        )),
        parsed matches Ok(r) ==> spec_wif_secret(scan_key@) == Some(r.scan_key_view())
            && spec_public_key_text(spend_pub_key@) == Some(r.spend_key_view()) && indices_of(
            r.entries(),
        ) == seq![0u32],
{
    let secret: [u8; 32] = match wif_secret(scan_key.as_str()) {
        Some(secret) => secret,
        None => {
            return Err(KeyError::ScanKey);
        },
    };
    let spend: [u8; 33] = match public_key_from_text(spend_pub_key.as_str()) {
        Some(spend) => spend,
        None => {
            return Err(KeyError::SpendKey);
        },
    };
    match Recipient::new(secret, spend) {
        Some(receiver) => Ok(receiver),
        None => Err(KeyError::Rejected),
    }
}

} // verus!
