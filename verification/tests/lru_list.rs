use wgpu_terminal::lru_list::LruList;

#[test]
fn pushed_items_keep_their_slots() {
    let mut list: LruList<u32> = LruList::new();
    assert_eq!(list.len(), 0);
    assert_eq!(list.get_oldest(), None);
    assert_eq!(list.push(&10), 0);
    assert_eq!(list.push(&20), 1);
    assert_eq!(list.push(&30), 2);
    assert_eq!(list.len(), 3);
    assert_eq!(*list.get_data(0), 10);
    assert_eq!(*list.get_data(2), 30);
    *list.get_mut_data(1) = 25;
    assert_eq!(*list.get_data(1), 25);
}

#[test]
fn oldest_is_least_recently_used() {
    let mut list: LruList<char> = LruList::with_capacity(4);
    list.push(&'a');
    list.push(&'b');
    list.push(&'c');
    assert_eq!(list.get_oldest(), Some(0));
    assert!(list.promote(0));
    assert_eq!(list.get_oldest(), Some(1));
    assert!(!list.promote(0));
    assert!(list.promote(1));
    assert_eq!(list.get_oldest(), Some(2));
    assert!(list.promote(2));
    assert_eq!(list.get_oldest(), Some(0));
}

#[test]
fn promoted_is_not_oldest() {
    let mut list: LruList<u8> = LruList::new();
    for i in 0..5u8 {
        list.push(&i);
    }
    for i in [4usize, 0, 3, 1, 2, 2, 0] {
        list.promote(i);
        assert_ne!(list.get_oldest(), Some(i));
    }
    let mut single: LruList<u8> = LruList::new();
    single.push(&7);
    single.promote(0);
    assert_eq!(single.get_oldest(), Some(0));
}
