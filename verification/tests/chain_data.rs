use silent_scanner::outpoint::Outpoint;
use silent_scanner::receiver::Recipient;
use silent_scanner::scanner::{
    build_block_units, scan_block, BlockData, BlockUndo, ChainDataError, ScanOutcome,
};
use silent_scanner::unit::{build_scan_unit, CountMismatch, TxData, TxInput, TxUndo};

fn tx_input(tag: u8, vout: u32) -> TxInput {
    TxInput {
        previous_output: Outpoint { txid: [tag; 32], vout },
        script_sig: vec![tag, 1],
        witness: vec![vec![tag, 2], vec![], vec![tag, 3, 4]],
    }
}

fn tx(tags: &[u8]) -> TxData {
    TxData {
        input: tags.iter().map(|t| tx_input(*t, *t as u32)).collect(),
        output: vec![vec![0x6a], vec![]],
    }
}

fn undo(tags: &[u8]) -> TxUndo {
    TxUndo { prevouts: tags.iter().map(|t| vec![0x51, *t]).collect() }
}

fn receiver() -> Recipient {
    let mut scan = [0u8; 32];
    scan[31] = 1;
    let spend: [u8; 33] = [
        0x02, 0x79, 0xbe, 0x66, 0x7e, 0xf9, 0xdc, 0xbb, 0xac, 0x55, 0xa0, 0x62, 0x95, 0xce, 0x87,
        0x0b, 0x07, 0x02, 0x9b, 0xfc, 0xdb, 0x2d, 0xce, 0x28, 0xd9, 0x59, 0xf2, 0x81, 0x5b, 0x16,
        0xf8, 0x17, 0x98,
    ];
    Recipient::new(scan, spend).unwrap()
}

#[test]
fn unit_pairs_each_input_with_its_recorded_script() {
    let unit = build_scan_unit(&tx(&[7, 8]), &undo(&[7, 8])).unwrap();
    assert_eq!(unit.ins.len(), 2);
    assert_eq!(unit.ins[0].prevout, vec![0x51, 7]);
    assert_eq!(unit.ins[1].prevout, vec![0x51, 8]);
    assert_eq!(unit.ins[1].script_sig, vec![8, 1]);
    assert_eq!(unit.ins[1].witness, vec![vec![8, 2], vec![], vec![8, 3, 4]]);
    assert_eq!(unit.ins[1].prevout_data.txid, [8u8; 32]);
    assert_eq!(unit.ins[1].prevout_data.vout, 8);
    assert_eq!(unit.outs, vec![vec![0x6a], vec![]]);
}

#[test]
fn unit_is_refused_when_the_record_is_shorter() {
    let built = build_scan_unit(&tx(&[7, 8]), &undo(&[7]));
    assert_eq!(built.unwrap_err(), CountMismatch { inputs: 2, recorded: 1 });
}

#[test]
fn unit_is_refused_when_the_record_is_longer() {
    let built = build_scan_unit(&tx(&[7]), &undo(&[7, 8, 9]));
    assert_eq!(built.unwrap_err(), CountMismatch { inputs: 1, recorded: 3 });
}

#[test]
fn unit_of_a_transaction_without_inputs_is_empty() {
    let unit = build_scan_unit(&tx(&[]), &undo(&[])).unwrap();
    assert!(unit.ins.is_empty());
    assert_eq!(unit.outs.len(), 2);
}

#[test]
fn block_units_leave_the_coinbase_out() {
    let block = BlockData { txdata: vec![tx(&[0]), tx(&[1, 2]), tx(&[3])] };
    let records = BlockUndo { tx_undo: vec![undo(&[1, 2]), undo(&[3])] };
    let units = build_block_units(&block, &records).unwrap();
    assert_eq!(units.len(), 2);
    assert_eq!(units[0].ins.len(), 2);
    assert_eq!(units[1].ins.len(), 1);
    assert_eq!(units[1].ins[0].prevout, vec![0x51, 3]);
}

#[test]
fn empty_block_is_refused() {
    let block = BlockData { txdata: vec![] };
    let records = BlockUndo { tx_undo: vec![] };
    assert_eq!(build_block_units(&block, &records).unwrap_err(), ChainDataError::EmptyBlock);
}

#[test]
fn block_with_a_missing_record_is_refused() {
    let block = BlockData { txdata: vec![tx(&[0]), tx(&[1]), tx(&[2])] };
    let records = BlockUndo { tx_undo: vec![undo(&[1])] };
    assert_eq!(
        build_block_units(&block, &records).unwrap_err(),
        ChainDataError::UndoCountMismatch { transactions: 2, records: 1 }
    );
}

#[test]
fn block_names_the_first_transaction_that_disagrees() {
    let block = BlockData { txdata: vec![tx(&[0]), tx(&[1]), tx(&[2, 3]), tx(&[4])] };
    let records = BlockUndo { tx_undo: vec![undo(&[1]), undo(&[2]), undo(&[])] };
    let expected = ChainDataError::InputCountMismatch { tx_index: 1, inputs: 2, recorded: 1 };
    assert_eq!(build_block_units(&block, &records).unwrap_err(), expected);
    assert_eq!(scan_block(&receiver(), &block, &records).unwrap_err(), expected);
}

#[test]
fn block_scan_gives_one_outcome_for_each_transaction_after_the_coinbase() {
    let block = BlockData { txdata: vec![tx(&[0]), tx(&[1, 2]), tx(&[3])] };
    let records = BlockUndo { tx_undo: vec![undo(&[1, 2]), undo(&[3])] };
    let outcomes = scan_block(&receiver(), &block, &records).unwrap();
    assert_eq!(outcomes.len(), 2);
    assert!(outcomes.iter().all(|o| matches!(o, ScanOutcome::NoCandidate)));
}

#[test]
fn block_with_only_a_coinbase_has_nothing_to_scan() {
    let block = BlockData { txdata: vec![tx(&[0])] };
    let records = BlockUndo { tx_undo: vec![] };
    assert!(scan_block(&receiver(), &block, &records).unwrap().is_empty());
}
