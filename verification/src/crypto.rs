//! The elliptic-curve and key-encoding operations that this library takes
//! from `silentpayments`, `secp256k1` and `bitcoin`.
//!
//! Keys cross this boundary as plain bytes: a public key as its 33-byte
//! compressed encoding, a secret key, a scalar and an x-only key as 32 bytes
//! each. Nothing stated in this module is proved; each item says which outside
//! function it stands for and what is taken on trust about it.

use vstd::prelude::*;
use secp256k1::{PublicKey, Scalar, Secp256k1, SecretKey, XOnlyPublicKey};
use silentpayments::receiving::Label;
use silentpayments::utils::receiving::{
    calculate_shared_secret, calculate_tweak_data, get_pubkey_from_input,
};
use silentpayments::Network;
use std::str::FromStr;
use crate::bytes::stack_view;
use crate::hex::hex_text;

verus! {

/// The views of a list of 33-byte keys, item by item.
pub open spec fn key_views(keys: Seq<[u8; 33]>) -> Seq<Seq<u8>> {
    Seq::new(keys.len(), |i: int| keys[i]@)
}

/// The views of a list of 32-byte keys, item by item.
pub open spec fn x_only_views(keys: Seq<[u8; 32]>) -> Seq<Seq<u8>> {
    Seq::new(keys.len(), |i: int| keys[i]@)
}

/// Whether `script` has the shape of a taproot locking script: the two bytes
/// `0x51 0x20` followed by 32 more.
pub open spec fn is_taproot_script(script: Seq<u8>) -> bool {
    script.len() == 34 && script[0] == 0x51 && script[1] == 0x20
}

/// Whether key recovery may be asked for an input. For a taproot spend with a
/// witness and no script-sig, recovery reads bytes 1 to 32 of the last witness
/// item below an annex; the item has to be long enough for that.
pub open spec fn control_block_in_reach(
    script_sig: Seq<u8>,
    witness: Seq<Seq<u8>>,
    prevout: Seq<u8>,
) -> bool {
    (is_taproot_script(prevout) && script_sig.len() == 0 && witness.len() > 0
        && witness.last().len() > 0) ==> {
        let annex: int = if witness.last()[0] == 0x50 {
            1
        } else {
            0
        };
        witness.len() > annex ==> witness[witness.len() - annex - 1].len() >= 33
    }
}

/// The public key that an input reveals, as `get_pubkey_from_input` of
/// `silentpayments` finds it; `None` where that function finds none or
/// reports an error.
pub uninterp spec fn spec_input_public_key(
    script_sig: Seq<u8>,
    witness: Seq<Seq<u8>>,
    prevout: Seq<u8>,
) -> Option<Seq<u8>>;

/// Calls `silentpayments::utils::receiving::get_pubkey_from_input` on the
/// script-sig, the witness stack and the spent output's locking script.
///
/// Trusted: the outcome depends on the three arguments only. An error and
/// "no key" both come back as `None`; a key comes back in its compressed
/// encoding. The precondition leaves out the inputs on which the outside
/// function slices a witness item beyond its end.
#[verifier::external_body]
pub(crate) fn input_public_key(
    script_sig: &Vec<u8>,
    witness: &Vec<Vec<u8>>,
    prevout: &Vec<u8>,
) -> (key: Option<[u8; 33]>)
    requires
        control_block_in_reach(script_sig@, stack_view(witness@), prevout@),
    ensures
        match key {
            Some(k) => spec_input_public_key(script_sig@, stack_view(witness@), prevout@) == Some(
                k@,
            ),
            None => spec_input_public_key(script_sig@, stack_view(witness@), prevout@) is None,
        },
{
    get_pubkey_from_input(script_sig, witness, prevout).ok().flatten().map(|k| k.serialize())
}

/// Formats a transaction id with the `Display` of `bitcoin::Txid`.
///
/// Trusted: the text is the lowercase hexadecimal text of the 32 bytes taken
/// in reverse order, as the documentation of `Txid` states.
#[verifier::external_body]
pub(crate) fn txid_text(txid: &[u8; 32]) -> (text: String)
    ensures
        text@ == hex_text(txid@.reverse()),
{
    let id: bitcoin::Txid = bitcoin::hashes::Hash::from_byte_array(*txid);
    id.to_string()
}

/// The tweak data of a transaction, as `calculate_tweak_data` of
/// `silentpayments` computes it from the input public keys and one outpoint,
/// given by the text of its transaction id and its index; `None` where that
/// function reports an error.
pub uninterp spec fn spec_tweak_data(keys: Seq<Seq<u8>>, txid: Seq<char>, vout: u32) -> Option<
    Seq<u8>,
>;

/// Calls `silentpayments::utils::receiving::calculate_tweak_data` with the
/// given public keys and a list that holds the one given outpoint.
///
/// Trusted: the outcome depends on the arguments only; a key that does not
/// parse and an error of the outside function both come back as `None`. The
/// outside function stops with a panic where a SHA-256 digest is not below the
/// order of the curve; no input with such a digest is known.
#[verifier::external_body]
pub(crate) fn tweak_data(keys: &Vec<[u8; 33]>, txid: &String, vout: u32) -> (tweak: Option<
    [u8; 33],
>)
    ensures
        match tweak {
            Some(t) => spec_tweak_data(key_views(keys@), txid@, vout) == Some(t@),
            None => spec_tweak_data(key_views(keys@), txid@, vout) is None,
        },
{
    let parsed: Vec<PublicKey> =
        keys.iter().map(|k| PublicKey::from_slice(k)).collect::<Result<_, _>>().ok()?;
    let refs: Vec<&PublicKey> = parsed.iter().collect();
    calculate_tweak_data(&refs, &[(txid.clone(), vout)]).ok().map(|t| t.serialize())
}

/// The shared secret for a transaction's tweak data and a scan key, as
/// `calculate_shared_secret` of `silentpayments` computes it; `None` where it
/// reports an error.
pub uninterp spec fn spec_shared_secret(tweak: Seq<u8>, scan_key: Seq<u8>) -> Option<Seq<u8>>;

/// Calls `silentpayments::utils::receiving::calculate_shared_secret`.
///
/// Trusted: the outcome depends on the arguments only; bytes that are no key
/// and an error of the outside function both come back as `None`.
#[verifier::external_body]
pub(crate) fn shared_secret(tweak: &[u8; 33], scan_key: &[u8; 32]) -> (secret: Option<[u8; 33]>)
    ensures
        match secret {
            Some(s) => spec_shared_secret(tweak@, scan_key@) == Some(s@),
            None => spec_shared_secret(tweak@, scan_key@) is None,
        },
{
    let point: PublicKey = PublicKey::from_slice(tweak).ok()?;
    let key: SecretKey = SecretKey::from_slice(scan_key).ok()?;
    calculate_shared_secret(point, key).ok().map(|s| s.serialize())
}

/// Whether `secp256k1::XOnlyPublicKey::from_slice` accepts the bytes as the
/// x-coordinate of a point of the curve.
pub uninterp spec fn spec_is_x_only_key(bytes: Seq<u8>) -> bool;

/// Calls `secp256k1::XOnlyPublicKey::from_slice` and tells whether it
/// succeeded.
///
/// Trusted: the answer depends on the bytes only, and the outside function
/// refuses every slice that is not 32 bytes long.
#[verifier::external_body]
pub(crate) fn is_x_only_key(bytes: &[u8]) -> (valid: bool)
    ensures
        valid == spec_is_x_only_key(bytes@),
        valid ==> bytes@.len() == 32,
{
    XOnlyPublicKey::from_slice(bytes).is_ok()
}

/// The scalar of the label with index `m` under a scan key, as `Label::new`
/// of `silentpayments` derives it; `None` where the bytes are no secret key.
pub uninterp spec fn spec_label_scalar(scan_key: Seq<u8>, m: u32) -> Option<Seq<u8>>;

/// Calls `silentpayments::receiving::Label::new` and hands back the label's
/// scalar in big-endian bytes.
///
/// Trusted: the outcome depends on the arguments only. The outside function
/// stops with a panic where a SHA-256 digest is not below the order of the
/// curve; no input with such a digest is known.
#[verifier::external_body]
pub(crate) fn label_scalar(scan_key: &[u8; 32], m: u32) -> (scalar: Option<[u8; 32]>)
    ensures
        match scalar {
            Some(s) => spec_label_scalar(scan_key@, m) == Some(s@),
            None => spec_label_scalar(scan_key@, m) is None,
        },
{
    let key: SecretKey = SecretKey::from_slice(scan_key).ok()?;
    Some(Label::new(key, m).as_inner().to_be_bytes())
}

/// The receiver of `silentpayments`, which holds a spend key and a set of
/// labels and scans the outputs of a transaction.
#[verifier::external_type_specification]
#[verifier::external_body]
pub struct ExOutsideReceiver(silentpayments::receiving::Receiver);

/// The spend public key that an outside receiver holds, in its compressed
/// encoding.
pub uninterp spec fn receiver_spend_key(receiver: silentpayments::receiving::Receiver) -> Seq<u8>;

/// The scalars of the labels that an outside receiver holds.
pub uninterp spec fn receiver_labels(receiver: silentpayments::receiving::Receiver) -> Set<
    Seq<u8>,
>;

/// Whether `Receiver::new` of `silentpayments` makes a receiver of a scan
/// secret key, a spend public key and the scalar of a change label, for
/// version 0 on the main network. It makes none where the bytes are no keys
/// or no scalar, or where it reports an error.
pub uninterp spec fn spec_receiver_made(
    scan_key: Seq<u8>,
    spend_key: Seq<u8>,
    change_label: Seq<u8>,
) -> bool;

/// Calls `silentpayments::receiving::Receiver::new` for version 0 on the main
/// network, with the public key of `scan_key` as the scan key and the label of
/// the given scalar as the change label.
///
/// Trusted: whether a receiver comes back depends on the three arguments
/// only. One that comes back holds the given spend key and the change label
/// and no other label. Bytes that are no key or no scalar and an error of the
/// outside function come back as `None`.
#[verifier::external_body]
pub(crate) fn outside_receiver(
    scan_key: &[u8; 32],
    spend_key: &[u8; 33],
    change_label: &[u8; 32],
) -> (receiver: Option<silentpayments::receiving::Receiver>)
    ensures
        receiver is Some <==> spec_receiver_made(scan_key@, spend_key@, change_label@),
        receiver matches Some(r) ==> receiver_spend_key(r) == spend_key@ && receiver_labels(r)
            == set![change_label@],
{
    let scan: PublicKey = SecretKey::from_slice(scan_key).ok()?.public_key(&Secp256k1::new());
    let spend: PublicKey = PublicKey::from_slice(spend_key).ok()?;
    let label: Label = Label::from(Scalar::from_be_bytes(*change_label).ok()?);
    silentpayments::receiving::Receiver::new(0, scan, spend, label, Network::Mainnet).ok()
}

/// Whether `Receiver::add_label` of `silentpayments` takes the label of the
/// given scalar for a receiver with the given spend key. It takes none where
/// the bytes are no scalar, or where it reports an error.
pub uninterp spec fn spec_label_accepted(spend_key: Seq<u8>, label: Seq<u8>) -> bool;

/// Calls `silentpayments::receiving::Receiver::add_label` with the label of
/// the given scalar.
///
/// Trusted: whether the label is taken depends on the receiver's spend key
/// and on the scalar only. The spend key stays; on success the label is among
/// the receiver's labels afterwards and the others stay; on failure the
/// labels stay as they were.
#[verifier::external_body]
pub(crate) fn outside_add_label(
    receiver: &mut silentpayments::receiving::Receiver,
    label: &[u8; 32],
) -> (added: bool)
    ensures
        added == spec_label_accepted(receiver_spend_key(*old(receiver)), label@),
        receiver_spend_key(*final(receiver)) == receiver_spend_key(*old(receiver)),
        added ==> receiver_labels(*final(receiver)) == receiver_labels(*old(receiver)).insert(
            label@,
        ),
        !added ==> receiver_labels(*final(receiver)) == receiver_labels(*old(receiver)),
{
    match Scalar::from_be_bytes(*label) {
        Ok(scalar) => receiver.add_label(Label::from(scalar)).is_ok(),
        Err(_) => false,
    }
}

/// An output that the outside receiver recognised.
#[derive(Clone, Copy, Debug)]
pub struct FoundOutput {
    /// Scalar of the label under which the output was found, `None` for the
    /// unlabeled address.
    pub label: Option<[u8; 32]>,
    /// The output's x-only key.
    pub key: [u8; 32],
    /// The scalar to add to the spend secret key to spend the output.
    pub tweak: [u8; 32],
}

/// Under what an output was found: its label, if any, and its key.
pub open spec fn found_under(found: FoundOutput) -> (Option<Seq<u8>>, Seq<u8>) {
    (
        match found.label {
            Some(l) => Some(l@),
            None => None,
        },
        found.key@,
    )
}

/// Whether `list` holds the entries of `table`, each at least once and no
/// others, in any order.
pub open spec fn lists_table(
    list: Seq<FoundOutput>,
    table: Map<(Option<Seq<u8>>, Seq<u8>), Seq<u8>>,
) -> bool {
    &&& forall|i: int|
        0 <= i < list.len() ==> table.dom().contains(#[trigger] found_under(list[i]))
            && table[found_under(list[i])] == list[i].tweak@
    &&& forall|k: (Option<Seq<u8>>, Seq<u8>)| #[trigger]
        table.dom().contains(k) ==> exists|i: int|
            0 <= i < list.len() && found_under(#[trigger] list[i]) == k
}

/// What `Receiver::scan_transaction` of `silentpayments` finds for a receiver
/// with the given spend key and labels, a shared secret and the x-only keys of
/// a transaction's outputs in their order: the tweak for each pair of label
/// and key; `None` where it reports an error.
pub uninterp spec fn spec_found_outputs(
    spend_key: Seq<u8>,
    labels: Set<Seq<u8>>,
    secret: Seq<u8>,
    keys: Seq<Seq<u8>>,
) -> Option<Map<(Option<Seq<u8>>, Seq<u8>), Seq<u8>>>;

/// Calls `silentpayments::receiving::Receiver::scan_transaction`.
///
/// Trusted: the outcome depends only on the receiver's spend key and labels,
/// on the shared secret and on the list of keys. The entries of the outside
/// function's two-level table come back as a list in no stated order. Bytes
/// that are no key and an error of the outside function come back as `None`.
#[verifier::external_body]
pub(crate) fn outside_scan(
    receiver: &silentpayments::receiving::Receiver,
    secret: &[u8; 33],
    keys: &Vec<[u8; 32]>,
) -> (found: Option<Vec<FoundOutput>>)
    ensures
        match found {
            Some(list) => spec_found_outputs(
                receiver_spend_key(*receiver),
                receiver_labels(*receiver),
                secret@,
                x_only_views(keys@),
            ) matches Some(table) && lists_table(list@, table),
            None => spec_found_outputs(
                receiver_spend_key(*receiver),
                receiver_labels(*receiver),
                secret@,
                x_only_views(keys@),
            ) is None,
        },
{
    let point: PublicKey = PublicKey::from_slice(secret).ok()?;
    let keys: Vec<XOnlyPublicKey> =
        keys.iter().map(|k| XOnlyPublicKey::from_slice(k)).collect::<Result<_, _>>().ok()?;
    let table = receiver.scan_transaction(&point, keys).ok()?;
    Some(table.into_iter().flat_map(|(label, outputs)| {
        outputs.into_iter().map(move |(key, tweak)| FoundOutput {
            label: label.as_ref().map(|l| l.as_inner().to_be_bytes()),
            key: key.serialize(),
            tweak: tweak.to_be_bytes(),
        })
    }).collect())
}

/// The secret key that a text in wallet import format holds, as
/// `bitcoin::PrivateKey::from_wif` reads it; `None` where it reports an error.
pub uninterp spec fn spec_wif_secret(text: Seq<char>) -> Option<Seq<u8>>;

/// Calls `bitcoin::PrivateKey::from_wif` and hands back the bytes of the
/// secret key.
///
/// Trusted: the outcome depends on the text only.
#[verifier::external_body]
pub(crate) fn wif_secret(text: &str) -> (key: Option<[u8; 32]>)
    ensures
        match key {
            Some(k) => spec_wif_secret(text@) == Some(k@),
            None => spec_wif_secret(text@) is None,
        },
{
    bitcoin::PrivateKey::from_wif(text).ok().map(|k| k.inner.secret_bytes())
}

/// The public key that a hexadecimal text holds, as the `FromStr` of
/// `secp256k1::PublicKey` reads it, in its compressed encoding; `None` where
/// it reports an error.
pub uninterp spec fn spec_public_key_text(text: Seq<char>) -> Option<Seq<u8>>;

/// Calls `secp256k1::PublicKey::from_str` and hands back the compressed
/// encoding of the key.
///
/// Trusted: the outcome depends on the text only.
#[verifier::external_body]
pub(crate) fn public_key_from_text(text: &str) -> (key: Option<[u8; 33]>)
    ensures
        match key {
            Some(k) => spec_public_key_text(text@) == Some(k@),
            None => spec_public_key_text(text@) is None,
        },
{
    PublicKey::from_str(text).ok().map(|k| k.serialize())
}

} // verus!
