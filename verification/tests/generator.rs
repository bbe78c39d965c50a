//! Tests of the tree generator: determinism, boundaries, cardinality, the
//! shape of a small tree, the fixed counts of generated people, referential
//! integrity, and the exact identifier formulas.
use mftree::{
    make_familly_list, Config, FamilyRelationship, Generation, PersonalID, PersonalInfo,
    Probability,
};
use rand::{RngCore, SeedableRng};

fn demo_config(children: u8, partners: u8) -> Config {
    Config {
        seed: "puripuri2100".to_string(),
        original: PersonalInfo {
            id: PersonalID::str_to_id("original"),
            number_of_children: children,
            number_of_partners: partners,
        },
        average_life: 78,
        infant_death_rate: Probability::make(5, 1000),
        total_fertility_rate: Probability::make(105, 100),
        probability_of_having_partner: Probability::make(70, 100),
    }
}

#[test]
fn determinism_two_runs_agree() {
    let cfg = demo_config(2, 2);
    let a = make_familly_list(&cfg, Generation::u64_to_generation(4));
    let b = make_familly_list(&cfg, Generation::u64_to_generation(4));
    assert_eq!(a, b);
}

#[test]
fn boundary_depth_zero_and_one_yield_only_the_original() {
    let cfg = demo_config(1, 1);
    for depth in [0u64, 1u64] {
        let out = make_familly_list(&cfg, Generation::u64_to_generation(depth));
        assert_eq!(out.len(), 1);
        assert_eq!(out[0], FamilyRelationship::Original(cfg.original.clone()));
    }
}

#[test]
fn scenario_depth_three_produces_five_records() {
    let cfg = demo_config(1, 1);
    let out = make_familly_list(&cfg, Generation::u64_to_generation(3));
    assert_eq!(out.len(), 5);
    let orig_id = PersonalID::str_to_id("original");
    assert_eq!(out[0], FamilyRelationship::Original(cfg.original.clone()));
    let gen2_child_id = match (&out[1], &out[2]) {
        (
            FamilyRelationship::Partner(person, _),
            FamilyRelationship::Child(g, parent, _, info),
        ) => {
            assert_eq!(person, &orig_id);
            assert_eq!(g, &Generation::u64_to_generation(2));
            assert_eq!(parent, &orig_id);
            info.id.clone()
        }
        _ => panic!("expected a partner record then a child record"),
    };
    match (&out[3], &out[4]) {
        (
            FamilyRelationship::Partner(person, _),
            FamilyRelationship::Child(g, parent, _, _),
        ) => {
            assert_eq!(person, &gen2_child_id);
            assert_eq!(g, &Generation::u64_to_generation(3));
            assert_eq!(parent, &gen2_child_id);
        }
        _ => panic!("expected a partner record then a child record"),
    }
}

#[test]
fn cardinality_matches_the_counts_of_the_expanded_person() {
    let cfg = demo_config(2, 3);
    let out = make_familly_list(&cfg, Generation::u64_to_generation(2));
    assert_eq!(out.len(), 1 + 3 + 2);
    let orig_id = PersonalID::str_to_id("original");
    for rec in &out[1..4] {
        match rec {
            FamilyRelationship::Partner(person, _) => assert_eq!(person, &orig_id),
            _ => panic!("expected a partner record"),
        }
    }
    for rec in &out[4..6] {
        match rec {
            FamilyRelationship::Child(g, parent, _, _) => {
                assert_eq!(g, &Generation::u64_to_generation(2));
                assert_eq!(parent, &orig_id);
            }
            _ => panic!("expected a child record"),
        }
    }
}

#[test]
fn generated_people_always_carry_unit_counts() {
    let cfg = demo_config(3, 2);
    let out = make_familly_list(&cfg, Generation::u64_to_generation(4));
    let mut seen_children = 0usize;
    for rec in &out {
        if let FamilyRelationship::Child(_, _, _, info) = rec {
            assert_eq!(info.number_of_children, 1);
            assert_eq!(info.number_of_partners, 1);
            seen_children += 1;
        }
    }
    assert!(seen_children > 0);
}

#[test]
fn no_partner_means_no_second_parent() {
    let cfg = demo_config(1, 0);
    let out = make_familly_list(&cfg, Generation::u64_to_generation(2));
    assert_eq!(out.len(), 2);
    match &out[1] {
        FamilyRelationship::Child(g, parent, other, _) => {
            assert_eq!(g, &Generation::u64_to_generation(2));
            assert_eq!(parent, &PersonalID::str_to_id("original"));
            assert_eq!(other, &None);
        }
        _ => panic!("expected a child record"),
    }
}

#[test]
fn references_resolve_to_earlier_records() {
    let cfg = demo_config(2, 2);
    let out = make_familly_list(&cfg, Generation::u64_to_generation(4));
    let mut person_ids: Vec<PersonalID> = Vec::new();
    let mut partner_ids: Vec<PersonalID> = Vec::new();
    for rec in &out {
        match rec {
            FamilyRelationship::Original(info) => person_ids.push(info.id.clone()),
            FamilyRelationship::Partner(person, pinfo) => {
                assert!(person_ids.iter().any(|p| p == person));
                partner_ids.push(pinfo.id.clone());
            }
            FamilyRelationship::Child(_, parent, other, info) => {
                assert!(person_ids.iter().any(|p| p == parent));
                if let Some(oid) = other {
                    assert!(partner_ids.iter().any(|p| p == oid));
                }
                person_ids.push(info.id.clone());
            }
        }
    }
}

#[test]
fn child_generation_is_one_above_its_parents_layer() {
    let cfg = demo_config(2, 1);
    let out = make_familly_list(&cfg, Generation::u64_to_generation(4));
    let mut intro: Vec<(PersonalID, u64)> = Vec::new();
    for rec in &out {
        match rec {
            FamilyRelationship::Original(info) => intro.push((info.id.clone(), 1)),
            FamilyRelationship::Child(g, parent, _, info) => {
                let parent_layer = intro
                    .iter()
                    .find(|(id, _)| id == parent)
                    .map(|(_, layer)| *layer)
                    .expect("parent must have been introduced earlier");
                assert_eq!(g, &Generation::u64_to_generation(parent_layer + 1));
                assert_eq!(g.i, parent_layer + 1);
                intro.push((info.id.clone(), g.i));
            }
            FamilyRelationship::Partner(_, _) => {}
        }
    }
}

const FNV_OFFSET: u64 = 0xcbf2_9ce4_8422_2325;

fn fnv1a(h0: u64, bytes: &[u8]) -> u64 {
    let mut h = h0;
    for &b in bytes {
        h ^= b as u64;
        h = h.wrapping_mul(0x100_0000_01b3);
    }
    h
}

fn person_hash(id: &str, children: u8, partners: u8) -> u64 {
    fnv1a(fnv1a(FNV_OFFSET, id.as_bytes()), &[children, partners])
}

fn config_hash(cfg: &Config) -> u64 {
    let mut h = fnv1a(FNV_OFFSET, cfg.seed.as_bytes());
    h = fnv1a(h, cfg.original.id.id.as_bytes());
    h = fnv1a(
        h,
        &[cfg.original.number_of_children, cfg.original.number_of_partners],
    );
    h = fnv1a(h, &[cfg.average_life as u8]);
    for v in [
        cfg.infant_death_rate.value,
        cfg.infant_death_rate.base,
        cfg.total_fertility_rate.value,
        cfg.total_fertility_rate.base,
        cfg.probability_of_having_partner.value,
        cfg.probability_of_having_partner.base,
    ] {
        h = fnv1a(h, &(v as u64).to_le_bytes());
    }
    h
}

#[test]
fn identifiers_follow_the_hash_and_stream_formulas() {
    let cfg = demo_config(1, 1);
    let out = make_familly_list(&cfg, Generation::u64_to_generation(2));
    assert_eq!(out.len(), 3);
    let pseed = person_hash("original", 1, 1);
    let gseed = config_hash(&cfg);
    let mut grng = rand_pcg::Pcg64::seed_from_u64(gseed);
    let mut prng = rand_pcg::Pcg64::seed_from_u64(pseed);
    let pd = prng.next_u64();
    let gd = grng.next_u64();
    let partner_id = format!("{}-{}#{}", pseed, pd as u32, gd as u8);
    match &out[1] {
        FamilyRelationship::Partner(person, pinfo) => {
            assert_eq!(person, &PersonalID::str_to_id("original"));
            assert_eq!(pinfo.id, PersonalID::str_to_id(&partner_id));
        }
        _ => panic!("second record should be a partner record"),
    }
    let b = grng.next_u64();
    let absent = ((b as u32) >> 8) < 1_677_722;
    let (other_hash, expected_other) = if absent {
        (String::new(), None)
    } else {
        let d = prng.next_u64();
        assert_eq!((d % 1) as usize, 0);
        (
            format!("{}", fnv1a(FNV_OFFSET, partner_id.as_bytes())),
            Some(PersonalID::str_to_id(&partner_id)),
        )
    };
    let rd = prng.next_u64();
    let sd = grng.next_u64();
    let child_id = format!("{}+{}+{}#{}", pseed, other_hash, rd as u32, sd as u8);
    match &out[2] {
        FamilyRelationship::Child(g, parent, other, info) => {
            assert_eq!(g, &Generation::u64_to_generation(2));
            assert_eq!(parent, &PersonalID::str_to_id("original"));
            assert_eq!(other, &expected_other);
            assert_eq!(info.id, PersonalID::str_to_id(&child_id));
            assert_eq!(info.number_of_children, 1);
            assert_eq!(info.number_of_partners, 1);
        }
        _ => panic!("third record should be a child record"),
    }
}
