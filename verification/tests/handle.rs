use shepherd::handle::HandleSlot;

#[test]
fn empty_slot_gives_nothing_to_close() {
    let mut slot = HandleSlot::new();
    assert_eq!(slot.take(), None);
    assert_eq!(slot.take(), None);
}

#[test]
fn handle_is_taken_once() {
    let mut slot = HandleSlot::new();
    assert!(slot.install(7));
    assert_eq!(slot.take(), Some(7));
    assert_eq!(slot.take(), None);
    assert_eq!(slot.take(), None);
}

#[test]
fn filled_slot_keeps_its_handle() {
    let mut slot = HandleSlot::new();
    assert!(slot.install(7));
    assert!(!slot.install(8));
    assert_eq!(slot.take(), Some(7));
    assert!(slot.install(8));
    assert_eq!(slot.take(), Some(8));
}

#[test]
fn any_handle_value_can_be_kept() {
    for handle in [0i64, -1, i64::MIN, i64::MAX] {
        let mut slot = HandleSlot::new();
        assert!(slot.install(handle));
        assert_eq!(slot.take(), Some(handle));
    }
}
