use koto::frame::Frame;

#[test]
fn new_frame_is_empty() {
    let frame = Frame::default();
    assert!(!frame.contains_yield);
    assert_eq!(frame.local_count(), 0);
    assert!(frame.captures().is_empty());
    assert_eq!(frame.access_count(3), 0);
}

#[test]
fn assignment_takes_back_its_read() {
    // a = 1
    let mut frame = Frame::default();
    frame.increment_expression_access_for_id(7);
    assert_eq!(frame.decrement_expression_access_for_id(7), Ok(()));
    frame.ids_assigned_in_scope.insert(7);
    assert_eq!(frame.access_count(7), 0);
    frame.finish_expressions();
    assert_eq!(frame.local_count(), 1);
    assert!(frame.captures().is_empty());
}

#[test]
fn reads_of_assigned_ids_are_counted() {
    // a = a
    let mut frame = Frame::default();
    frame.increment_expression_access_for_id(7);
    assert_eq!(frame.decrement_expression_access_for_id(7), Ok(()));
    frame.increment_expression_access_for_id(7);
    assert_eq!(frame.access_count(7), 1);
    // a = a = a
    assert_eq!(frame.decrement_expression_access_for_id(7), Ok(()));
    frame.increment_expression_access_for_id(7);
    assert_eq!(frame.access_count(7), 1);
    assert_eq!(frame.access_count(8), 0);
}

#[test]
fn declared_ids() {
    let mut frame = Frame::default();
    // a = 1
    frame.declare_assigned_id(1);
    // b = b
    frame.increment_expression_access_for_id(2);
    frame.declare_assigned_id(2);
    assert_eq!(frame.access_count(2), 1);
    // a = a
    frame.increment_expression_access_for_id(1);
    frame.declare_assigned_id(1);
    frame.finish_expressions();
    assert_eq!(frame.captures(), [2]);
    assert_eq!(frame.local_count(), 1);
}

#[test]
fn id_that_was_not_accessed() {
    let mut frame = Frame::default();
    assert_eq!(frame.decrement_expression_access_for_id(1), Err(()));
}

#[test]
fn positive_counts_become_non_locals() {
    let mut frame = Frame::default();
    frame.increment_expression_access_for_id(1);
    frame.increment_expression_access_for_id(2);
    frame.ids_assigned_in_scope.insert(2);
    frame.finish_expressions();
    assert_eq!(frame.captures(), [1]);
    assert_eq!(frame.local_count(), 1);
    assert_eq!(frame.access_count(1), 0);
    // An id that was captured doesn't become a local any more
    frame.ids_assigned_in_scope.insert(1);
    assert_eq!(frame.local_count(), 1);
    frame.finish_expressions();
    assert_eq!(frame.captures(), [1]);
}

#[test]
fn nested_captures() {
    let mut nested = Frame::default();
    for id in 0..5 {
        nested.increment_expression_access_for_id(id);
    }
    nested.finish_expressions();
    let mut outer = Frame::default();
    outer.ids_assigned_in_scope.insert(3);
    assert!(outer.can_access_nested(&nested));
    outer.add_nested_accessed_non_locals(&nested);
    assert_eq!(outer.access_count(0), 1);
    assert_eq!(outer.access_count(3), 1);
    outer.finish_expressions();
    let mut captures = outer.captures();
    captures.sort();
    assert_eq!(captures, [0, 1, 2, 4]);
    assert_eq!(outer.local_count(), 1);
}

#[test]
fn counts_at_their_limit() {
    let mut nested = Frame::default();
    nested.increment_expression_access_for_id(1);
    nested.finish_expressions();
    let mut outer = Frame::default();
    outer.expression_id_accesses.insert(1, usize::MAX);
    assert!(!outer.can_access_nested(&nested));
}

#[test]
fn assigning_args() {
    let mut frame = Frame::default();
    frame.assign_all(&vec![4, 5, 4]);
    assert_eq!(frame.local_count(), 2);
}
