use lineage::Unique;

#[test]
fn unique_holds_value() {
    let u = Unique::new(String::from("boxed"));
    assert_eq!(u.get_ref(), "boxed");
    assert_eq!(u.into_inner(), "boxed");
}

#[test]
fn unique_get_mut_writes_through() {
    let mut u = Unique::new(5u64);
    *u.get_mut() += 1;
    assert_eq!(*u.get_ref(), 6);
    assert_eq!(u.into_inner(), 6);
}
