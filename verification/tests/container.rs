use specfile::assoc::AssocList;

#[test]
fn test_assoclist() {
    let mut l: AssocList<String, isize> = AssocList::new();
    l.insert("foo".to_string(), 1);
    l.insert("bar".to_string(), 2);

    let mut iter = l.as_slice().iter().map(|&(ref k, v)| (k.as_str(), v));
    assert_eq!(iter.next(), Some(("foo", 1)));
    assert_eq!(iter.next(), Some(("bar", 2)));
    assert_eq!(iter.next(), None);

    assert_eq!(l.find_str("bar").map(|x| *x), Some(2));
    assert_eq!(l.find_str("foo").map(|x| *x), Some(1));
    assert_eq!(l.find_str("baz"), None);
}

#[test]
fn test_assoclist_round_trip_duplicates() {
    let mut l: AssocList<String, i64> = AssocList::new();
    let pairs = [("k", 1), ("j", 2), ("k", 3), ("k", 3)];
    for (k, v) in pairs {
        l.insert(k.to_string(), v);
    }
    assert_eq!(l.len(), 4);
    for (i, (k, v)) in pairs.iter().enumerate() {
        assert_eq!(l.get(i).0, *k);
        assert_eq!(l.get(i).1, *v);
    }
    assert_eq!(l.find_str("k").map(|x| *x), Some(1));
}

#[test]
fn test_assoclist_empty() {
    let l: AssocList<String, u32> = AssocList::new();
    assert_eq!(l.len(), 0);
    assert_eq!(l.as_slice().len(), 0);
    assert_eq!(l.find_str(""), None);
}
