use aquarium_espresso::behavior::SpKey;
use aquarium_espresso::tank::{
    guppy_roster, school_slots, shown_kind, shuffle_slots, tank_stocking, TankCounts, N_CARDS, N_GUPPY,
};

#[test]
fn shuffling_school_slots() {
    assert_eq!(shuffle_slots(2, 1), [0, 1, 2]);
    assert_eq!(shuffle_slots(0, 1), [2, 1, 0]);
    assert_eq!(shuffle_slots(2, 0), [1, 0, 2]);
    assert_eq!(shuffle_slots(1, 0), [2, 0, 1]);
    assert_eq!(shuffle_slots(0, 0), [1, 2, 0]);
    assert_eq!(shuffle_slots(1, 1), [0, 2, 1]);
}

#[test]
fn random_school_slots_are_permutations_and_vary() {
    let mut saw_other = false;
    for _ in 0..300 {
        let s = school_slots();
        let mut sorted = s;
        sorted.sort();
        assert_eq!(sorted, [0, 1, 2]);
        if s != [0, 1, 2] {
            saw_other = true;
        }
    }
    assert!(saw_other);
}

#[test]
fn guppy_roster_in_strain_order() {
    assert_eq!(guppy_roster(&[2, 0, 1, 3, 0]), vec![0, 0, 2, 3, 3, 3]);
}

#[test]
fn guppy_roster_is_capped() {
    let r = guppy_roster(&[3, 3, 3, 3, 3]);
    assert_eq!(r.len(), N_GUPPY);
    assert_eq!(r, vec![0, 0, 0, 1, 1, 1, 2, 2]);
    assert_eq!(guppy_roster(&[0, 0, 0, 0, 0]), Vec::<usize>::new());
}

fn counts() -> TankCounts {
    TankCounts { neon: 7, guppy: [1, 1, 0, 0, 1], black_tetra: 2, corydoras: 3, yamato: 4 }
}

#[test]
fn ordinary_day_stocking() {
    let plan = tank_stocking(&counts(), false, false, 0);
    assert_eq!(plan.len(), 7 + 3 + 2 + 3);
    for (k, s) in plan[..7].iter().enumerate() {
        assert_eq!(s.home, SpKey::Neon);
        assert!(s.school);
        assert_eq!(s.sid, k % 3);
    }
    let strains: Vec<usize> = plan[7..10].iter().map(|s| s.strain).collect();
    assert_eq!(strains, vec![0, 1, 4]);
    assert!(plan[7..10].iter().all(|s| s.home == SpKey::Guppy && s.shown == SpKey::Guppy));
    assert!(plan[10..12].iter().all(|s| s.home == SpKey::BlackTetra && !s.school));
    assert!(plan[12..15].iter().all(|s| s.home == SpKey::Corydoras));
    assert!(plan.iter().all(|s| s.home != SpKey::Yamato));
}

#[test]
fn shrimp_day_stocking() {
    let plan = tank_stocking(&counts(), true, false, 0);
    assert_eq!(plan.len(), 5 + 3 + 2 + 3 + 4);
    assert!(plan[..5].iter().all(|s| s.home == SpKey::Neon && s.sid == 1));
    assert!(plan[13..].iter().all(|s| s.home == SpKey::Yamato && s.shown == SpKey::Yamato));
}

#[test]
fn ebi_day_stocking() {
    let plan = tank_stocking(&counts(), false, true, 0);
    assert!(plan[7..10].iter().all(|s| s.home == SpKey::Guppy && s.shown == SpKey::EbiFry));
    assert!(plan[..7].iter().all(|s| s.shown == SpKey::Neon));
}

#[test]
fn ebi_guise() {
    assert_eq!(shown_kind(SpKey::Guppy, true), SpKey::EbiFry);
    assert_eq!(shown_kind(SpKey::Guppy, false), SpKey::Guppy);
    assert_eq!(shown_kind(SpKey::Neon, true), SpKey::Neon);
    assert_eq!(shown_kind(SpKey::Yamato, false), SpKey::Yamato);
}

#[test]
fn custom_character_replaces_the_first_guppies() {
    let c = TankCounts { neon: 2, guppy: [2, 2, 1, 0, 0], black_tetra: 1, corydoras: 1, yamato: 0 };
    let plan = tank_stocking(&c, false, true, N_CARDS);
    assert_eq!(plan.len(), 2 + 5 + 1 + 1);
    assert!(plan[2..5].iter().all(|s| s.home == SpKey::Card && s.shown == SpKey::Card));
    assert!(plan[5..7].iter().all(|s| s.home == SpKey::Guppy && s.shown == SpKey::EbiFry));
    assert_eq!(plan[5].strain, 1);
    assert_eq!(plan[6].strain, 2);
    assert_eq!(plan.iter().filter(|s| s.shown == SpKey::Card).count(), 3);
}

#[test]
fn custom_character_with_few_guppies() {
    let c = TankCounts { neon: 1, guppy: [1, 0, 0, 0, 0], black_tetra: 0, corydoras: 0, yamato: 0 };
    let plan = tank_stocking(&c, false, false, N_CARDS);
    assert_eq!(plan.len(), 2);
    assert_eq!(plan[1].shown, SpKey::Card);
    let plan = tank_stocking(&c, false, false, 0);
    assert_eq!(plan[1].shown, SpKey::Guppy);
}
