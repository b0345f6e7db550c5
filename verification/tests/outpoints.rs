use silent_scanner::bytes::{bytes_equal, bytes_less};
use silent_scanner::outpoint::{smallest_outpoint, Outpoint};

fn outpoint(first: u8, last: u8, vout: u32) -> Outpoint {
    let mut txid = [0x11u8; 32];
    txid[0] = first;
    txid[31] = last;
    Outpoint { txid, vout }
}

#[test]
fn serialization_is_txid_then_index_least_byte_first() {
    let bytes = outpoint(0xaa, 0xbb, 0x0102_0304).serialize();
    assert_eq!(bytes.len(), 36);
    assert_eq!(bytes[0], 0xaa);
    assert_eq!(bytes[31], 0xbb);
    assert_eq!(&bytes[32..], &[0x04, 0x03, 0x02, 0x01]);
}

#[test]
fn first_byte_of_the_txid_decides_first() {
    let low = outpoint(0x01, 0xff, 9);
    let high = outpoint(0x02, 0x00, 0);
    assert!(low.precedes(&high));
    assert!(!high.precedes(&low));
}

#[test]
fn index_is_compared_by_its_bytes_not_by_its_value() {
    let one = outpoint(0, 0, 1);
    let two_five_six = outpoint(0, 0, 256);
    assert!(two_five_six.precedes(&one));
    assert!(!one.precedes(&two_five_six));
}

#[test]
fn of_two_different_outpoints_exactly_one_precedes() {
    let all = [outpoint(0, 0, 0), outpoint(0, 0, 1), outpoint(0, 1, 0), outpoint(1, 0, 0), outpoint(0, 0, 256)];
    for (i, a) in all.iter().enumerate() {
        for (j, b) in all.iter().enumerate() {
            if i == j {
                assert!(!a.precedes(b));
            } else {
                assert_ne!(a.precedes(b), b.precedes(a));
            }
        }
    }
}

#[test]
fn smallest_does_not_depend_on_the_order_of_the_list() {
    let a = outpoint(3, 0, 7);
    let b = outpoint(1, 9, 2);
    let c = outpoint(1, 9, 1);
    let d = outpoint(2, 0, 0);
    let orders = [vec![a, b, c, d], vec![d, c, b, a], vec![c, a, d, b], vec![b, d, a, c, c, a]];
    for order in orders.iter() {
        let least = smallest_outpoint(order).unwrap();
        assert_eq!(least.txid, c.txid);
        assert_eq!(least.vout, 1);
    }
}

#[test]
fn smallest_of_one_is_that_one() {
    let only = outpoint(9, 9, 9);
    let least = smallest_outpoint(&vec![only]).unwrap();
    assert_eq!(least.txid, only.txid);
    assert_eq!(least.vout, 9);
}

#[test]
fn empty_list_has_no_smallest() {
    assert!(smallest_outpoint(&Vec::new()).is_none());
}

#[test]
fn byte_strings_compare_lexicographically() {
    assert!(bytes_less(&[], &[0]));
    assert!(!bytes_less(&[], &[]));
    assert!(bytes_less(&[1, 2], &[1, 2, 0]));
    assert!(bytes_less(&[1, 2, 255], &[1, 3]));
    assert!(!bytes_less(&[2], &[1, 255]));
    assert!(bytes_equal(&[1, 2, 3], &[1, 2, 3]));
    assert!(!bytes_equal(&[1, 2, 3], &[1, 2]));
    assert!(!bytes_equal(&[1, 2, 3], &[1, 2, 4]));
}
