use silent_scanner::hex::hex_string_to_vec;
use silent_scanner::matcher::{find_tweak, match_outputs, resolve_matches, Candidate, MatchOutcome};
use silent_scanner::crypto::FoundOutput;
use silent_scanner::outpoint::Outpoint;
use silent_scanner::receiver::{LabelEntry, Recipient};
use silent_scanner::scanner::{scan_tx, ScanOutcome};
use silent_scanner::tweak::{combine_keys, compute_tweak, TweakOutcome};
use silent_scanner::unit::{Input, ScanTxHelper};

const GENERATOR: &str = "0279be667ef9dcbbac55a06295ce870b07029bfcdb2dce28d959f2815b16f81798";

fn generator(parity: u8) -> Vec<u8> {
    let mut key = hex_string_to_vec(GENERATOR).unwrap();
    key[0] = parity;
    key
}

fn key_one() -> [u8; 32] {
    let mut key = [0u8; 32];
    key[31] = 1;
    key
}

fn receiver() -> Recipient {
    Recipient::new(key_one(), generator(2).try_into().unwrap()).unwrap()
}

fn segwit_input(key: Vec<u8>, tag: u8) -> Input {
    let mut prevout = vec![0x00, 0x14];
    prevout.extend_from_slice(&[tag; 20]);
    Input {
        prevout,
        script_sig: vec![],
        witness: vec![vec![0x30; 71], key],
        prevout_data: Outpoint { txid: [tag; 32], vout: 0 },
    }
}

fn fitting_output() -> Vec<u8> {
    let mut script = vec![0x51, 0x20];
    script.extend_from_slice(&generator(2)[1..]);
    script
}

#[test]
fn keys_that_cancel_each_other_fail_the_transaction() {
    let unit = ScanTxHelper {
        ins: vec![segwit_input(generator(2), 1), segwit_input(generator(3), 2)],
        outs: vec![fitting_output()],
    };
    assert!(matches!(compute_tweak(&unit, &key_one()), TweakOutcome::Failed));
    assert!(matches!(scan_tx(&receiver(), &unit), ScanOutcome::Failed));
}

#[test]
fn scan_key_of_zero_fails_the_shared_secret() {
    let unit = ScanTxHelper { ins: vec![segwit_input(generator(2), 1)], outs: vec![] };
    assert!(matches!(compute_tweak(&unit, &[0u8; 32]), TweakOutcome::Failed));
    assert!(matches!(compute_tweak(&unit, &key_one()), TweakOutcome::Secret(_)));
}

#[test]
fn no_keys_at_all_fail_the_combination() {
    let least = Outpoint { txid: [1; 32], vout: 0 };
    assert!(matches!(combine_keys(&Vec::new(), &least, &key_one()), TweakOutcome::Failed));
}

#[test]
fn secret_that_is_no_point_fails_the_matching() {
    let outs = vec![fitting_output()];
    assert!(matches!(match_outputs(&receiver(), &[0u8; 33], &outs), MatchOutcome::Failed));
}

#[test]
fn secret_that_is_no_point_is_not_looked_at_without_candidates() {
    let outs = vec![vec![0x6a], vec![]];
    match match_outputs(&receiver(), &[0u8; 33], &outs) {
        MatchOutcome::Matches(found) => assert!(found.is_empty()),
        other => panic!("no matches: {:?}", other),
    }
}

#[test]
fn found_outputs_are_listed_by_candidate_then_by_label() {
    let labels = vec![
        LabelEntry { m: 0, scalar: [10; 32] },
        LabelEntry { m: 5, scalar: [15; 32] },
        LabelEntry { m: 2, scalar: [12; 32] },
    ];
    let candidates = vec![
        Candidate { index: 1, key: [0xa1; 32] },
        Candidate { index: 4, key: [0xa4; 32] },
        Candidate { index: 6, key: [0xa6; 32] },
    ];
    let found = vec![
        FoundOutput { label: Some([12; 32]), key: [0xa4; 32], tweak: [3; 32] },
        FoundOutput { label: None, key: [0xa4; 32], tweak: [1; 32] },
        FoundOutput { label: Some([15; 32]), key: [0xa1; 32], tweak: [4; 32] },
        FoundOutput { label: Some([15; 32]), key: [0xa4; 32], tweak: [2; 32] },
        FoundOutput { label: Some([99; 32]), key: [0xa6; 32], tweak: [5; 32] },
        FoundOutput { label: None, key: [0xff; 32], tweak: [6; 32] },
    ];
    let matches = resolve_matches(&found, &labels, &candidates);
    let listed: Vec<(Option<u32>, usize, u8)> =
        matches.iter().map(|m| (m.label, m.output_index, m.tweak[0])).collect();
    assert_eq!(listed, vec![(Some(5), 1, 4), (None, 4, 1), (Some(5), 4, 2), (Some(2), 4, 3)]);
}

#[test]
fn tweak_is_looked_up_by_label_and_key() {
    let found = vec![
        FoundOutput { label: None, key: [1; 32], tweak: [7; 32] },
        FoundOutput { label: Some([2; 32]), key: [1; 32], tweak: [8; 32] },
        FoundOutput { label: None, key: [1; 32], tweak: [9; 32] },
    ];
    assert_eq!(find_tweak(&found, None, &[1; 32]), Some([9; 32]));
    assert_eq!(find_tweak(&found, Some(&[2; 32]), &[1; 32]), Some([8; 32]));
    assert_eq!(find_tweak(&found, Some(&[3; 32]), &[1; 32]), None);
    assert_eq!(find_tweak(&found, None, &[2; 32]), None);
    assert_eq!(find_tweak(&Vec::new(), None, &[1; 32]), None);
}
