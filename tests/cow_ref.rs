use minimax_strategy::CowRef;

#[test]
fn test_cor_ref_from_owned() {
    let cr = CowRef::Owned(String::from("abc"));
    assert_eq!("abc", cr.as_ref())
}

#[test]
fn test_cow_ref_from_borrowed() {
    let s = &String::from("abc");
    let cr = CowRef::Borrowed(s);
    assert_eq!("abc", cr.as_ref())
}

#[test]
fn cow_ref_from_value_owns_it() {
    let cr: CowRef<String> = CowRef::from(String::from("xyz"));
    assert!(matches!(cr, CowRef::Owned(_)));
    assert_eq!("xyz", cr.as_ref());
}

#[test]
fn cow_ref_from_reference_borrows_it() {
    let s = String::from("xyz");
    let cr: CowRef<String> = CowRef::from(&s);
    assert!(matches!(cr, CowRef::Borrowed(_)));
    assert!(std::ptr::eq(&s, cr.as_ref()));
}
