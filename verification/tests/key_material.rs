use bitcoin::hashes::hash160;
use secp256k1::{PublicKey, Scalar, Secp256k1, SecretKey};
use silent_scanner::hex::hex_string_to_vec;
use silent_scanner::matcher::{candidate_at, select_candidates};
use silent_scanner::outpoint::Outpoint;
use silent_scanner::receiver::{parse_keys, KeyError, Recipient};
use silent_scanner::tweak::{recover_input_key, recover_input_keys};
use silent_scanner::unit::{Input, ScanTxHelper};
use silentpayments::receiving::Label;

const KEY_ONE_WIF: &str = "KwDiBf89QgGbjEhKnhXJuH7LrciVrZi3qYjgd9M7rFU73sVHnoWn";
const GENERATOR: &str = "0279be667ef9dcbbac55a06295ce870b07029bfcdb2dce28d959f2815b16f81798";
const NUMS_H: &str = "50929b74c1a04954b78b4b6035e97a5e078a5a0f28ec96d547bfee9ace803ac0";

fn bytes(text: &str) -> Vec<u8> {
    hex_string_to_vec(text).unwrap()
}

fn key_one() -> [u8; 32] {
    let mut key = [0u8; 32];
    key[31] = 1;
    key
}

fn input(prevout: Vec<u8>, script_sig: Vec<u8>, witness: Vec<Vec<u8>>) -> Input {
    Input { prevout, script_sig, witness, prevout_data: Outpoint { txid: [0; 32], vout: 0 } }
}

fn taproot_script() -> Vec<u8> {
    let mut script = vec![0x51, 0x20];
    script.extend_from_slice(&bytes(GENERATOR)[1..]);
    script
}

fn witness_program(key: &[u8]) -> Vec<u8> {
    let hash: hash160::Hash = bitcoin::hashes::Hash::hash(key);
    let digest: [u8; 20] = bitcoin::hashes::Hash::to_byte_array(hash);
    let mut script = vec![0x00, 0x14];
    script.extend_from_slice(&digest);
    script
}

#[test]
fn keys_are_read_from_their_text_forms() {
    let receiver = parse_keys(KEY_ONE_WIF.to_string(), GENERATOR.to_string()).unwrap();
    assert_eq!(receiver.scan_key(), &key_one());
    assert_eq!(receiver.spend_key().to_vec(), bytes(GENERATOR));
    assert_eq!(receiver.labels().len(), 1);
    assert_eq!(receiver.labels()[0].m, 0);
    let expected = Label::new(SecretKey::from_slice(&key_one()).unwrap(), 0);
    assert_eq!(receiver.labels()[0].scalar, expected.as_inner().to_be_bytes());
}

#[test]
fn scan_key_that_is_no_wif_is_refused() {
    let parsed = parse_keys(GENERATOR.to_string(), GENERATOR.to_string());
    assert_eq!(parsed.err(), Some(KeyError::ScanKey));
    let parsed = parse_keys(String::new(), String::from("zz"));
    assert_eq!(parsed.err(), Some(KeyError::ScanKey));
}

#[test]
fn spend_key_that_is_no_public_key_is_refused() {
    let parsed = parse_keys(KEY_ONE_WIF.to_string(), KEY_ONE_WIF.to_string());
    assert_eq!(parsed.err(), Some(KeyError::SpendKey));
    let off_curve = "02".to_string() + &"00".repeat(32);
    let parsed = parse_keys(KEY_ONE_WIF.to_string(), off_curve);
    assert_eq!(parsed.err(), Some(KeyError::SpendKey));
}

#[test]
fn spend_key_that_cancels_the_change_label_is_rejected() {
    let secp = Secp256k1::new();
    let scan = SecretKey::from_slice(&key_one()).unwrap();
    let scalar: Scalar = Label::new(scan, 0).into_inner();
    let label_key = SecretKey::from_slice(&scalar.to_be_bytes()).unwrap().public_key(&secp);
    let spend = label_key.negate(&secp).to_string();
    let parsed = parse_keys(KEY_ONE_WIF.to_string(), spend);
    assert_eq!(parsed.err(), Some(KeyError::Rejected));
}

#[test]
fn scan_key_of_zero_makes_no_receiver() {
    let spend: [u8; 33] = bytes(GENERATOR).try_into().unwrap();
    assert!(Recipient::new([0u8; 32], spend).is_none());
    assert!(Recipient::new(key_one(), [0u8; 33]).is_none());
}

#[test]
fn label_is_added_once() {
    let spend: [u8; 33] = bytes(GENERATOR).try_into().unwrap();
    let receiver = Recipient::new(key_one(), spend).unwrap();
    assert!(receiver.has_label(0));
    assert!(!receiver.has_label(3));
    let (receiver, added) = receiver.with_label(3);
    assert!(added);
    assert!(receiver.has_label(3));
    let (receiver, added) = receiver.with_label(3);
    assert!(!added);
    let (receiver, added) = receiver.with_label(0);
    assert!(!added);
    let indices: Vec<u32> = receiver.labels().iter().map(|l| l.m).collect();
    assert_eq!(indices, vec![0, 3]);
    let expected = Label::new(SecretKey::from_slice(&key_one()).unwrap(), 3);
    assert_eq!(receiver.labels()[1].scalar, expected.as_inner().to_be_bytes());
    assert_eq!(receiver.scan_key(), &key_one());
    assert_eq!(receiver.spend_key(), &spend);
}

#[test]
fn label_that_cancels_the_spend_key_is_not_added() {
    let secp = Secp256k1::new();
    let scan = SecretKey::from_slice(&key_one()).unwrap();
    let scalar: Scalar = Label::new(scan, 3).into_inner();
    let label_key = SecretKey::from_slice(&scalar.to_be_bytes()).unwrap().public_key(&secp);
    let spend = label_key.negate(&secp).serialize();
    let receiver = Recipient::new(key_one(), spend).unwrap();
    let (receiver, added) = receiver.with_label(3);
    assert!(!added);
    assert!(!receiver.has_label(3));
    assert_eq!(receiver.labels().len(), 1);
    let (receiver, added) = receiver.with_label(4);
    assert!(added);
    let indices: Vec<u32> = receiver.labels().iter().map(|l| l.m).collect();
    assert_eq!(indices, vec![0, 4]);
}

#[test]
fn segwit_input_reveals_the_key_in_its_witness() {
    let key = bytes(GENERATOR);
    let spent = input(witness_program(&key), vec![], vec![vec![0x30; 71], key.clone()]);
    assert_eq!(recover_input_key(&spent).map(|k| k.to_vec()), Some(key));
}

#[test]
fn taproot_key_spend_reveals_the_output_key() {
    let spent = input(taproot_script(), vec![], vec![vec![0x01; 64]]);
    assert_eq!(recover_input_key(&spent).map(|k| k.to_vec()), Some(bytes(GENERATOR)));
}

#[test]
fn taproot_key_spend_with_annex_reveals_the_output_key() {
    let spent = input(taproot_script(), vec![], vec![vec![0x01; 64], vec![0x50, 0x00]]);
    assert_eq!(recover_input_key(&spent).map(|k| k.to_vec()), Some(bytes(GENERATOR)));
}

#[test]
fn taproot_script_spend_with_unspendable_internal_key_reveals_none() {
    let mut control = vec![0xc0];
    control.extend_from_slice(&bytes(NUMS_H));
    let spent = input(taproot_script(), vec![], vec![vec![0x51], control]);
    assert_eq!(recover_input_key(&spent), None);
}

#[test]
fn taproot_spend_with_a_short_witness_item_reveals_none() {
    let spent = input(taproot_script(), vec![], vec![vec![0x01]]);
    assert_eq!(recover_input_key(&spent), None);
    let spent = input(taproot_script(), vec![], vec![vec![0x01; 32]]);
    assert_eq!(recover_input_key(&spent), None);
    let spent = input(taproot_script(), vec![], vec![vec![], vec![0x50]]);
    assert_eq!(recover_input_key(&spent), None);
    let spent = input(taproot_script(), vec![], vec![vec![0x02; 32], vec![0x50, 0x01]]);
    assert_eq!(recover_input_key(&spent), None);
}

#[test]
fn taproot_spend_with_only_an_annex_reveals_the_output_key() {
    let spent = input(taproot_script(), vec![], vec![vec![0x50]]);
    assert_eq!(recover_input_key(&spent).map(|k| k.to_vec()), Some(bytes(GENERATOR)));
}

#[test]
fn malformed_and_foreign_inputs_reveal_no_key() {
    assert_eq!(recover_input_key(&input(vec![], vec![], vec![])), None);
    assert_eq!(recover_input_key(&input(vec![0x51], vec![0x51], vec![])), None);
    assert_eq!(recover_input_key(&input(taproot_script(), vec![], vec![])), None);
    assert_eq!(recover_input_key(&input(taproot_script(), vec![0x00], vec![vec![0x01; 64]])), None);
    assert_eq!(recover_input_key(&input(taproot_script(), vec![], vec![vec![]])), None);
    let key = bytes(GENERATOR);
    assert_eq!(recover_input_key(&input(witness_program(&key), vec![], vec![])), None);
    assert_eq!(recover_input_key(&input(witness_program(&key), vec![], vec![vec![0x02; 32]])), None);
    let spent = bytes("76a91419c2f3ae0ca3b642bd3e49598b8da89f50c1416188ac");
    assert_eq!(recover_input_key(&input(spent, vec![], vec![])), None);
}

#[test]
fn keys_come_in_the_order_of_the_inputs_that_reveal_one() {
    let generator = PublicKey::from_slice(&bytes(GENERATOR)).unwrap();
    let first = generator.combine(&generator).unwrap().serialize().to_vec();
    let second = bytes(GENERATOR);
    let unit = ScanTxHelper {
        ins: vec![
            input(vec![0x6a], vec![], vec![]),
            input(witness_program(&first), vec![], vec![vec![0x30; 70], first.clone()]),
            input(taproot_script(), vec![], vec![vec![0x01]]),
            input(taproot_script(), vec![], vec![vec![0x01; 65]]),
        ],
        outs: vec![],
    };
    let keys: Vec<Vec<u8>> = recover_input_keys(&unit).iter().map(|k| k.to_vec()).collect();
    assert_eq!(keys, vec![first, second]);
}

#[test]
fn candidates_are_the_outputs_with_a_key_after_the_prefix() {
    let key = bytes(GENERATOR)[1..].to_vec();
    let mut fits = vec![0x51, 0x20];
    fits.extend_from_slice(&key);
    let mut other_prefix = vec![0xaa, 0xbb];
    other_prefix.extend_from_slice(&key);
    let mut off_curve = vec![0x51, 0x20];
    off_curve.extend_from_slice(&[0u8; 32]);
    let mut too_long = fits.clone();
    too_long.push(0);
    let outs = vec![vec![], vec![0x51], too_long, fits.clone(), off_curve, other_prefix, fits[..33].to_vec()];
    let found = select_candidates(&outs);
    let places: Vec<usize> = found.iter().map(|c| c.index).collect();
    assert_eq!(places, vec![3, 5]);
    assert_eq!(found[0].key.to_vec(), key);
    assert_eq!(found[1].key.to_vec(), key);
    assert!(candidate_at(&fits, 9).is_some());
    assert_eq!(candidate_at(&fits, 9).unwrap().index, 9);
    assert!(candidate_at(&[0x51, 0x20], 0).is_none());
}
