use lineage::ArrayVec;

#[test]
fn push_until_full() {
    let mut a: ArrayVec<u32, 2> = ArrayVec::new();
    assert_eq!(a.len(), 0);
    assert_eq!(a.try_push(1), None);
    assert_eq!(a.try_push(2), None);
    assert_eq!(a.try_push(3), Some(3));
    assert_eq!(a.len(), 2);
}

#[test]
fn zero_capacity_refuses() {
    let mut a: ArrayVec<u32, 0> = ArrayVec::new();
    assert_eq!(a.try_push(1), Some(1));
    assert_eq!(a.len(), 0);
    assert_eq!(a.pop(), None);
}

#[test]
fn pop_is_last_in_first_out() {
    let mut a: ArrayVec<u32, 3> = ArrayVec::new();
    assert_eq!(a.pop(), None);
    a.try_push(1);
    a.try_push(2);
    assert_eq!(a.pop(), Some(2));
    assert_eq!(a.pop(), Some(1));
    assert_eq!(a.pop(), None);
}

#[test]
fn last_mut_edits_top() {
    let mut a: ArrayVec<u32, 3> = ArrayVec::new();
    assert!(a.last_mut().is_none());
    a.try_push(1);
    a.try_push(2);
    if let Some(top) = a.last_mut() {
        *top = 20;
    }
    assert_eq!(a.pop(), Some(20));
    assert_eq!(a.pop(), Some(1));
}

#[test]
fn clear_empties_and_frees_room() {
    let mut a: ArrayVec<String, 1> = ArrayVec::new();
    assert_eq!(a.try_push("a".into()), None);
    a.clear();
    assert_eq!(a.len(), 0);
    assert_eq!(a.try_push("b".into()), None);
    assert_eq!(a.pop(), Some("b".to_string()));
}
