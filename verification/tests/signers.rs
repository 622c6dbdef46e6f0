use albatross_validator::signers::Signers;

fn of(indices: &[u16]) -> Signers {
    let mut set = Signers::new();
    for i in indices {
        set.insert(*i);
    }
    set
}

#[test]
fn insert_and_contains() {
    let mut set = Signers::new();
    assert_eq!(set.len(), 0);
    assert!(!set.contains(5));
    set.insert(5);
    set.insert(5);
    set.insert(511);
    set.insert(0);
    assert_eq!(set.len(), 3);
    assert!(set.contains(5) && set.contains(511) && set.contains(0));
    assert!(!set.contains(6));
    assert!(!set.contains(512));
    assert!(!set.contains(u16::MAX));
    assert!(set.contains_position(511));
    assert!(!set.contains_position(512));
    assert!(!set.contains_position(usize::MAX));
    assert_eq!(set.to_vec(), vec![0, 5, 511]);
}

#[test]
fn union_and_disjoint() {
    let a = of(&[1, 64, 200]);
    let b = of(&[2, 65]);
    let c = of(&[200, 300]);
    assert!(a.is_disjoint(&b));
    assert!(!a.is_disjoint(&c));
    assert!(Signers::new().is_disjoint(&a));
    assert_eq!(a.union(&b).to_vec(), vec![1, 2, 64, 65, 200]);
    assert_eq!(a.union(&c).to_vec(), vec![1, 64, 200, 300]);
    assert_eq!(a.union(&c).len(), 4);
    assert_eq!(a.duplicate().to_vec(), a.to_vec());
}

#[test]
fn capacity_is_a_hint() {
    for capacity in [0usize, 1, 63, 64, 65, 512, 513, usize::MAX] {
        let mut set = Signers::with_capacity(capacity);
        assert_eq!(set.len(), 0);
        set.insert(511);
        assert_eq!(set.to_vec(), vec![511]);
    }
}

#[test]
fn serialized_layout_and_round_trip() {
    let set = of(&[300, 2, 511]);
    let mut out = vec![0xEEu8];
    set.serialize_into(&mut out);
    assert_eq!(out, vec![0xEE, 0, 3, 0, 2, 1, 44, 1, 255]);
    let (back, end) = Signers::parse(&out, 1).expect("well-formed");
    assert_eq!(end, out.len());
    assert_eq!(back.to_vec(), vec![2, 300, 511]);
    let mut empty = Vec::new();
    Signers::new().serialize_into(&mut empty);
    assert_eq!(empty, vec![0, 0]);
    assert_eq!(Signers::parse(&empty, 0).map(|p| (p.0.len(), p.1)), Some((0, 2)));
}

#[test]
fn parse_rejects_what_is_no_encoding() {
    assert!(Signers::parse(&vec![], 0).is_none());
    assert!(Signers::parse(&vec![0], 0).is_none());
    assert!(Signers::parse(&vec![0, 1, 0], 0).is_none());
    assert!(Signers::parse(&vec![0, 1, 2, 0], 0).is_none());
    assert!(Signers::parse(&vec![0, 2, 0, 5, 0, 5], 0).is_none());
    assert!(Signers::parse(&vec![0, 2, 0, 6, 0, 5], 0).is_none());
    assert!(Signers::parse(&vec![0xFF, 0xFF, 0, 1], 0).is_none());
    assert!(Signers::parse(&vec![0, 2, 0, 5, 0, 6], 0).is_some());
}
