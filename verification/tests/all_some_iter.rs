use bevy_ecs_ldtk::ldtk::all_some_iter::{AllSomeIter, NotAllSomeError};

#[test]
fn all_some_values_are_iterated_in_order() {
    let values = [Some(1), Some(2), Some(3)];
    let mut iter = AllSomeIter::try_from(&values[..]).unwrap();
    assert_eq!(iter.next(), Some(&1));
    assert_eq!(iter.next(), Some(&2));
    assert_eq!(iter.next(), Some(&3));
    assert_eq!(iter.next(), None);
    assert_eq!(iter.next(), None);
}

#[test]
fn a_none_refuses_the_iterator() {
    let values = [Some(1), None, Some(3)];
    assert!(matches!(
        AllSomeIter::try_from(&values[..]),
        Err(NotAllSomeError)
    ));
    assert_eq!(
        NotAllSomeError.message(),
        "Option<T> iterator contains one or more Nones"
    );
}

#[test]
fn no_values_give_an_empty_iterator() {
    let values: [Option<u8>; 0] = [];
    let mut iter = AllSomeIter::try_from(&values[..]).unwrap();
    assert_eq!(iter.next(), None);
}
