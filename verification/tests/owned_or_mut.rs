use fuel_vm::owned_or_mut::OwnedOrMut;

#[test]
fn borrowed_values_are_written_through() {
    let mut x = 5u32;
    {
        let mut b = OwnedOrMut::Borrowed(&mut x);
        *b.as_mut() = 6;
        assert_eq!(*b.as_ref(), 6);
    }
    assert_eq!(x, 6);
}

#[test]
fn owned_values() {
    let mut o: OwnedOrMut<u32> = 7.into();
    assert_eq!(*o.as_ref(), 7);
    *o.as_mut() += 1;
    assert_eq!(*o.as_ref(), 8);
    let d: OwnedOrMut<u32> = Default::default();
    assert!(matches!(d, OwnedOrMut::Owned(0)));
}
