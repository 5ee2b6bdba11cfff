use faction_motion::allegiance::{Faction, FactionRelationships, Factions, Relationship};

#[test]
fn faction_cycle() {
    let mut factions = Faction::iter_cycle();

    assert_eq!(factions.next(), Some(Faction::A));
    assert_eq!(factions.next(), Some(Faction::B));
    assert_eq!(factions.next(), Some(Faction::C));
    assert_eq!(factions.next(), Some(Faction::D));
    assert_eq!(factions.next(), Some(Faction::E));
    assert_eq!(factions.next(), Some(Faction::F));
    assert_eq!(factions.next(), Some(Faction::G));
    assert_eq!(factions.next(), Some(Faction::H));

    assert_eq!(factions.next(), Some(Faction::A));
}

#[test]
fn faction_once() {
    let mut factions = Faction::iter_once();

    assert_eq!(factions.next(), Some(Faction::A));
    assert_eq!(factions.next(), Some(Faction::B));
    assert_eq!(factions.next(), Some(Faction::C));
    assert_eq!(factions.next(), Some(Faction::D));
    assert_eq!(factions.next(), Some(Faction::E));
    assert_eq!(factions.next(), Some(Faction::F));
    assert_eq!(factions.next(), Some(Faction::G));
    assert_eq!(factions.next(), Some(Faction::H));

    assert_eq!(factions.next(), None);
}

fn all_factions() -> Vec<Faction> {
    let mut factions = Vec::new();
    let mut iter = Faction::iter_once();
    while let Some(f) = iter.next() {
        factions.push(f);
    }
    factions
}

#[test]
fn pair_index_covers_every_slot_once() {
    let factions = all_factions();
    let matrix = FactionRelationships::new();
    let mut seen = [false; 28];
    let mut count = 0;
    for (i, &a) in factions.iter().enumerate() {
        for &b in &factions[i + 1..] {
            let (index, shift) = matrix.get_index_and_shift(a, b);
            assert!(index < 28);
            assert_eq!(shift, index * 2);
            assert!(!seen[index], "slot used twice");
            seen[index] = true;
            count += 1;
            // the slot does not depend on the order of the pair
            let (index_rev, shift_rev) = matrix.get_index_and_shift(b, a);
            assert_eq!(index_rev, index);
            assert_eq!(shift_rev, shift);
        }
    }
    assert_eq!(count, 28);
    assert!(seen.iter().all(|&s| s));
}

#[test]
fn fresh_matrix_is_all_neutral() {
    let factions = all_factions();
    let matrix = FactionRelationships::new();
    for &a in &factions {
        for &b in &factions {
            if a != b {
                assert_eq!(matrix.get_relationship(a, b), Relationship::Neutral);
            }
        }
    }
}

#[test]
fn default_matrix_is_all_neutral() {
    let matrix: FactionRelationships = Default::default();
    assert_eq!(matrix.get_relationship(Faction::C, Faction::G), Relationship::Neutral);
}

#[test]
fn with_default_sets_every_pair() {
    let factions = all_factions();
    let matrix = FactionRelationships::with_default(Relationship::Hostile);
    for &a in &factions {
        for &b in &factions {
            if a != b {
                assert_eq!(matrix.get_relationship(a, b), Relationship::Hostile);
            }
        }
    }
}

#[test]
fn setting_one_pair_leaves_the_rest() {
    let factions = all_factions();
    let mut matrix = FactionRelationships::with_default(Relationship::Hostile);
    matrix.set_relationship(Faction::B, Faction::E, Relationship::Allied);
    for &a in &factions {
        for &b in &factions {
            if a != b {
                let expected = if (a == Faction::B && b == Faction::E) || (a == Faction::E && b == Faction::B) {
                    Relationship::Allied
                } else {
                    Relationship::Hostile
                };
                assert_eq!(matrix.get_relationship(a, b), expected);
            }
        }
    }
}

#[test]
fn relationships_are_reciprocal() {
    let factions = all_factions();
    let mut matrix = FactionRelationships::new();
    matrix.set_relationship(Faction::H, Faction::A, Relationship::Allied);
    matrix.set_relationship(Faction::D, Faction::F, Relationship::Hostile);
    for &a in &factions {
        for &b in &factions {
            if a != b {
                assert_eq!(matrix.get_relationship(a, b), matrix.get_relationship(b, a));
            }
        }
    }
    assert_eq!(matrix.get_relationship(Faction::A, Faction::H), Relationship::Allied);
    assert_eq!(matrix.get_relationship(Faction::F, Faction::D), Relationship::Hostile);
}

#[test]
fn from_mapping_applies_overrides_in_order() {
    let map = vec![
        ((Faction::A, Faction::B), Relationship::Hostile),
        ((Faction::C, Faction::D), Relationship::Allied),
        ((Faction::B, Faction::A), Relationship::Allied),
    ];
    let matrix = FactionRelationships::from_mapping(&map);
    // the last entry naming the unordered pair {A, B} wins
    assert_eq!(matrix.get_relationship(Faction::A, Faction::B), Relationship::Allied);
    assert_eq!(matrix.get_relationship(Faction::D, Faction::C), Relationship::Allied);
    assert_eq!(matrix.get_relationship(Faction::A, Faction::C), Relationship::Neutral);
}

#[test]
fn from_closure_asks_once_per_pair() {
    let matrix = FactionRelationships::from_closure(|a: Faction, b: Faction| {
        if a == Faction::A || b == Faction::A {
            Relationship::Allied
        } else {
            Relationship::Hostile
        }
    });
    assert_eq!(matrix.get_relationship(Faction::A, Faction::G), Relationship::Allied);
    assert_eq!(matrix.get_relationship(Faction::G, Faction::A), Relationship::Allied);
    assert_eq!(matrix.get_relationship(Faction::B, Faction::C), Relationship::Hostile);
}

#[test]
fn faction_bits_are_one_hot() {
    let factions = all_factions();
    for (i, &f) in factions.iter().enumerate() {
        assert_eq!(f.bits(), 1u8 << i);
        assert_eq!(f.num() as usize, i);
        assert_eq!(Faction::from_u8(f.bits()), Some(f));
    }
    assert_eq!(Faction::from_u8(0), None);
    assert_eq!(Faction::from_u8(3), None);
}

#[test]
fn faction_sets_union_and_intersection() {
    let ab = Factions::just(Faction::A).union(Factions::just(Faction::B));
    let bc = Factions::just(Faction::B).union(Factions::just(Faction::C));
    assert!(ab.contains(Faction::A));
    assert!(ab.contains(Faction::B));
    assert!(!ab.contains(Faction::C));
    let only_b = ab.intersection(bc);
    assert!(only_b.contains(Faction::B));
    assert!(!only_b.contains(Faction::A));
    assert!(!only_b.contains(Faction::C));
    assert!(Factions::all().contains(Faction::H));
    assert!(!Factions::none().contains(Faction::H));
}
