use silent_scanner::walker::{BlockCursor, WalkStep};

#[test]
fn walk_visits_each_height_up_to_the_tip_once() {
    let tip = 7;
    let mut cursor = BlockCursor::start(5);
    let mut visited = Vec::new();
    while let WalkStep::Visit(height) = cursor.step(tip) {
        visited.push(height);
        cursor = cursor.advance(tip);
    }
    assert_eq!(visited, vec![5, 6, 7]);
    assert_eq!(cursor.processed(), 3);
    assert_eq!(cursor.step(tip), WalkStep::Finished);
}

#[test]
fn walk_from_above_the_tip_is_finished_at_once() {
    let cursor = BlockCursor::start(8);
    assert_eq!(cursor.step(7), WalkStep::Finished);
    assert_eq!(cursor.processed(), 0);
    let after = cursor.advance(7);
    assert_eq!(after.processed(), 0);
    assert_eq!(after.step(7), WalkStep::Finished);
}

#[test]
fn walk_reaches_the_highest_height() {
    let cursor = BlockCursor::start(i32::MAX);
    assert_eq!(cursor.step(i32::MAX), WalkStep::Visit(i32::MAX));
    let after = cursor.advance(i32::MAX);
    assert_eq!(after.step(i32::MAX), WalkStep::Finished);
    assert_eq!(after.processed(), 1);
}

#[test]
fn walk_counts_blocks_from_a_negative_start() {
    let mut cursor = BlockCursor::start(-2);
    assert_eq!(cursor.step(0), WalkStep::Visit(-2));
    cursor = cursor.advance(0);
    cursor = cursor.advance(0);
    assert_eq!(cursor.step(0), WalkStep::Visit(0));
    assert_eq!(cursor.processed(), 2);
}

#[test]
fn report_is_due_at_each_multiple() {
    let tip = 100;
    let mut cursor = BlockCursor::start(1);
    assert!(!cursor.report_due(3));
    let mut due = Vec::new();
    for _ in 0..7 {
        cursor = cursor.advance(tip);
        if cursor.report_due(3) {
            due.push(cursor.processed());
        }
    }
    assert_eq!(due, vec![3, 6]);
    assert!(!cursor.report_due(0));
    assert!(cursor.report_due(1));
    assert!(cursor.report_due(7));
}
