//! Tests of the small value types.
use mftree::{Date, Generation, PersonalID, Probability};

#[test]
fn probability_make_stores_pair_unchanged() {
    let p = Probability::make(5, 1000);
    assert_eq!(p.value, 5);
    assert_eq!(p.base, 1000);
    let q = Probability::make(-3, 0);
    assert_eq!(q.value, -3);
    assert_eq!(q.base, 0);
}

#[test]
fn generation_construction_and_increment() {
    let one = Generation::gen_one();
    assert_eq!(one, Generation::u64_to_generation(1));
    assert_eq!(one.increment(), Generation::u64_to_generation(2));
    assert_eq!(
        Generation::u64_to_generation(41).increment(),
        Generation::u64_to_generation(42)
    );
    assert!(Generation::u64_to_generation(1) < Generation::u64_to_generation(2));
}

#[test]
fn personal_id_equality_is_string_equality() {
    let a = PersonalID::str_to_id("original");
    let b = PersonalID::str_to_id("original");
    let c = PersonalID::str_to_id("other");
    assert_eq!(a, b);
    assert_ne!(a, c);
}

#[test]
fn date_gen_stores_fields() {
    let d = Date::gen(2024, 2, 29);
    assert_eq!(d, Date::gen(2024, 2, 29));
    assert_ne!(d, Date::gen(2024, 3, 1));
}
