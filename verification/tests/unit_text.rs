use silent_scanner::outpoint::Outpoint;
use silent_scanner::text::{push_decimal, trim_line_end};
use silent_scanner::unit::{Input, ScanTxHelper};

fn counting_txid() -> [u8; 32] {
    let mut txid = [0u8; 32];
    for (i, b) in txid.iter_mut().enumerate() {
        *b = i as u8;
    }
    txid
}

fn sample_input() -> Input {
    Input {
        prevout: vec![0x51, 0x20, 0xff],
        script_sig: vec![],
        witness: vec![vec![0xab, 0x01], vec![]],
        prevout_data: Outpoint { txid: counting_txid(), vout: 4294967295 },
    }
}

const SAMPLE_TEXT: &str = "prevout: 5120ff, script_sig: , witness: ab01, witness: , prevout txid: 1f1e1d1c1b1a191817161514131211100f0e0d0c0b0a09080706050403020100, prevout n: 4294967295, ";

#[test]
fn input_text_lists_its_parts() {
    assert_eq!(sample_input().to_text(), SAMPLE_TEXT);
}

#[test]
fn input_text_writes_the_txid_as_the_chain_tools_do() {
    let id: bitcoin::Txid = bitcoin::hashes::Hash::from_byte_array(counting_txid());
    assert!(sample_input().to_text().contains(&format!("prevout txid: {}, ", id)));
}

#[test]
fn unit_text_has_a_line_for_each_input_and_output() {
    let unit = ScanTxHelper {
        ins: vec![sample_input(), sample_input()],
        outs: vec![vec![0x6a], vec![], vec![0x00, 0x14]],
    };
    let expected = format!("input: {}\ninput: {}\noutput: 6a\noutput: \noutput: 0014\n", SAMPLE_TEXT, SAMPLE_TEXT);
    assert_eq!(unit.to_text(), expected);
}

#[test]
fn unit_text_of_an_empty_unit_is_empty() {
    let unit = ScanTxHelper { ins: vec![], outs: vec![] };
    assert_eq!(unit.to_text(), "");
}

#[test]
fn decimal_digits_have_no_leading_zeros() {
    for (n, expected) in [(0u32, "0"), (7, "7"), (10, "10"), (909, "909"), (u32::MAX, "4294967295")] {
        let mut text = String::from("n=");
        push_decimal(&mut text, n);
        assert_eq!(text, format!("n={}", expected));
    }
}

#[test]
fn log_line_loses_the_line_ending_that_closes_it() {
    assert_eq!(trim_line_end("tip updated\r\n"), "tip updated");
    assert_eq!(trim_line_end("tip updated\n"), "tip updated");
    assert_eq!(trim_line_end("tip updated"), "tip updated");
    assert_eq!(trim_line_end("tip updated\n\n"), "tip updated\n");
    assert_eq!(trim_line_end("tip updated\r"), "tip updated\r");
    assert_eq!(trim_line_end("tip\r\nupdated"), "tip\r\nupdated");
    assert_eq!(trim_line_end("\n"), "");
    assert_eq!(trim_line_end("\r\n"), "");
    assert_eq!(trim_line_end(""), "");
    assert_eq!(trim_line_end("h\u{e9}\r\n"), "h\u{e9}");
}
