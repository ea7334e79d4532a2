use zeus_fm::statefullist::StatefulList;

fn three() -> StatefulList<u32> {
    StatefulList::with_items(vec![10, 20, 30])
}

#[test]
fn next_selects_zero_first() {
    let mut l = three();
    assert_eq!(l.selected(), None);
    l.next();
    assert_eq!(l.selected(), Some(0));
}

#[test]
fn previous_selects_zero_first() {
    let mut l = three();
    l.previous();
    assert_eq!(l.selected(), Some(0));
}

#[test]
fn next_wraps_at_end() {
    let mut l = three();
    l.select(2);
    l.next();
    assert_eq!(l.selected(), Some(0));
}

#[test]
fn previous_wraps_at_start() {
    let mut l = three();
    l.select(0);
    l.previous();
    assert_eq!(l.selected(), Some(2));
}

#[test]
fn steps_stay_in_range() {
    let mut l = three();
    for _ in 0..10 {
        l.next();
        let i = l.selected().unwrap();
        assert!(i < 3);
    }
    for _ in 0..10 {
        l.previous();
        let i = l.selected().unwrap();
        assert!(i < 3);
    }
}

#[test]
fn empty_list_is_noop() {
    let mut l: StatefulList<u32> = StatefulList::new();
    l.next();
    assert_eq!(l.selected(), None);
    l.previous();
    assert_eq!(l.selected(), None);
}

#[test]
fn unselect_keeps_cursor() {
    let mut l = three();
    l.select(1);
    l.unselect();
    assert_eq!(l.selected(), None);
    assert_eq!(l.cursor_pos, 1);
}

#[test]
fn set_items_clears_dangling_selection() {
    let mut l = three();
    l.select(2);
    l.set_items(vec![1, 2]);
    assert_eq!(l.selected(), None);
    let mut l2 = three();
    l2.select(1);
    l2.set_items(vec![1, 2]);
    assert_eq!(l2.selected(), Some(1));
}
