use echodb::Ptr;

#[test]
fn ptr_holds_and_replaces_a_value() {
    let mut p = Ptr::new(7u64);
    assert_eq!(*p.get(), 7);
    p.set(9);
    assert_eq!(*p.get(), 9);
}
