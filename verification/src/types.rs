//! The data model: value types for probabilities, generations, identifiers
//! and the family-relationship records, together with their mathematical
//! views.
use vstd::prelude::*;

verus! {

/// A probability stored as two signed integers, so that the configuration
/// stays hashable and comparable without floating point.  No validation or
/// normalisation is performed; the pair is kept exactly as given.
#[derive(Copy, Clone, Debug, PartialEq, Eq, Hash, PartialOrd, Ord)]
pub struct Probability {
    pub value: i64,
    pub base: i64,
}

/// The mathematical content of a [`Probability`]: the two integers as stored.
pub ghost struct ProbV {
    pub value: i64,
    pub base: i64,
}

impl View for Probability {
    type V = ProbV;

    open spec fn view(&self) -> ProbV {
        ProbV { value: self.value, base: self.base }
    }
}

impl Probability {
    /// Builds the pair as given; no validation is performed.
    pub fn make(value: i64, base: i64) -> (r: Self)
        ensures
            r@ == (ProbV { value, base }),
    {
        Probability { value, base }
    }
}

/// A tree layer: a non-negative counter that only ever moves forward.
/// Generation 1 is the layer holding the original person.
#[derive(Clone, Debug, PartialEq, Eq, Hash, PartialOrd, Ord)]
pub struct Generation {
    pub i: u64,
}

impl View for Generation {
    type V = nat;

    open spec fn view(&self) -> nat {
        self.i as nat
    }
}

impl Generation {
    pub fn u64_to_generation(i: u64) -> (r: Self)
        ensures
            r@ == i,
    {
        Generation { i }
    }

    /// The layer that holds the original person.
    pub fn gen_one() -> (r: Self)
        ensures
            r@ == 1,
    {
        Generation { i: 1 }
    }

    /// Returns a counter one greater; generations never move backward.
    pub fn increment(&self) -> (r: Self)
        requires
            self@ < u64::MAX,
        ensures
            r@ == self@ + 1,
    {
        let i = self.i;
        Generation { i: i + 1 }
    }
}

/// The unique identifier given to each person that appears in the tree.
/// Equality is string equality; uniqueness across a tree is derived from
/// hashing and is desired, not enforced.
#[derive(Clone, Debug, PartialEq, Eq, Hash, PartialOrd, Ord)]
pub struct PersonalID {
    pub id: String,
}

impl View for PersonalID {
    type V = Seq<char>;

    open spec fn view(&self) -> Seq<char> {
        self.id@
    }
}

impl PersonalID {
    pub fn str_to_id(id: &str) -> (r: Self)
        ensures
            r@ == id@,
    {
        PersonalID { id: id.to_owned() }
    }
}

/// A calendar date.  Stored data only: the generator does not yet consult it.
#[derive(Clone, Debug, PartialEq, Eq, Hash, PartialOrd, Ord)]
pub struct Date {
    pub year: u64,
    pub month: u8,
    pub day: u8,
}

/// The mathematical content of a [`Date`].
pub ghost struct DateV {
    pub year: u64,
    pub month: u8,
    pub day: u8,
}

impl View for Date {
    type V = DateV;

    open spec fn view(&self) -> DateV {
        DateV { year: self.year, month: self.month, day: self.day }
    }
}

impl Date {
    pub fn gen(y: u64, m: u8, d: u8) -> (r: Self)
        ensures
            r@ == (DateV { year: y, month: m, day: d }),
    {
        Date { year: y, month: m, day: d }
    }
}

/// A person's fixed-at-birth attributes: the identifier and how many partner
/// and child records that person will spawn when its generation is expanded.
/// Both counts are fixed when the record is created and never change.
#[derive(Clone, Debug, PartialEq, Eq, Hash, PartialOrd, Ord)]
pub struct PersonalInfo {
    pub id: PersonalID,
    /// How many child records this person spawns on expansion.
    pub number_of_children: u8,
    /// How many partner records this person spawns on expansion.
    pub number_of_partners: u8,
}

/// The mathematical content of a [`PersonalInfo`].
pub ghost struct PersonV {
    pub id: Seq<char>,
    pub number_of_children: u8,
    pub number_of_partners: u8,
}

impl View for PersonalInfo {
    type V = PersonV;

    open spec fn view(&self) -> PersonV {
        PersonV {
            id: self.id@,
            number_of_children: self.number_of_children,
            number_of_partners: self.number_of_partners,
        }
    }
}

/// The description of a partner relationship target.
#[derive(Clone, Debug, PartialEq, Eq, Hash, PartialOrd, Ord)]
pub struct PartnerInfo {
    pub id: PersonalID,
}

impl View for PartnerInfo {
    type V = Seq<char>;

    open spec fn view(&self) -> Seq<char> {
        self.id@
    }
}

/// One fact the tree records: a birth, a partner relationship, or the
/// original person the whole tree grows from.
#[derive(Clone, Debug, PartialEq, Eq, Hash, PartialOrd, Ord)]
pub enum FamilyRelationship {
    /// A birth: the layer the new person belongs to, the primary parent's
    /// id, an optional second parent's id, and the new person's own record.
    Child(Generation, PersonalID, Option<PersonalID>, PersonalInfo),
    /// `person` has acquired the partner described by `partner`.
    Partner(PersonalID, PartnerInfo),
    /// The originating person; always the first record of a tree.
    Original(PersonalInfo),
}

/// The mathematical content of a [`FamilyRelationship`].
pub ghost enum RelV {
    Child { generation: nat, parent: Seq<char>, other_parent: Option<Seq<char>>, info: PersonV },
    Partner { person: Seq<char>, partner: Seq<char> },
    Original { info: PersonV },
}

/// The view of an optional identifier.
pub open spec fn opt_id_view(o: Option<PersonalID>) -> Option<Seq<char>> {
    match o {
        Option::Some(p) => Option::Some(p@),
        Option::None => Option::None,
    }
}

impl View for FamilyRelationship {
    type V = RelV;

    open spec fn view(&self) -> RelV {
        match self {
            FamilyRelationship::Child(g, parent, other, info) => RelV::Child {
                generation: g@,
                parent: parent@,
                other_parent: opt_id_view(*other),
                info: info@,
            },
            FamilyRelationship::Partner(person, partner) => RelV::Partner {
                person: person@,
                partner: partner@,
            },
            FamilyRelationship::Original(info) => RelV::Original { info: info@ },
        }
    }
}

/// The view of a whole record list.
pub open spec fn rels_view(s: Seq<FamilyRelationship>) -> Seq<RelV> {
    s.map_values(|r: FamilyRelationship| r@)
}

/// The generation parameters: a seed string, the originating person, and the
/// demographic rates.  The rate fields are stored and hashed into the seed of
/// the pseudorandom stream, but the expansion itself does not read them: the
/// chance of a missing second parent and the counts given to new people are
/// fixed in the algorithm.
#[derive(Clone, Debug, PartialEq, Eq, Hash)]
pub struct Config {
    /// Seed material for the whole run.
    pub seed: String,
    /// The person the tree grows from.
    pub original: PersonalInfo,
    /// Average life span; stored only.
    pub average_life: i8,
    /// Infant death rate; stored only.
    pub infant_death_rate: Probability,
    /// Total fertility rate; stored only.
    pub total_fertility_rate: Probability,
    /// Chance of acquiring a partner; stored only.
    pub probability_of_having_partner: Probability,
}

/// The mathematical content of a [`Config`].
pub ghost struct ConfigV {
    pub seed: Seq<char>,
    pub original: PersonV,
    pub average_life: i8,
    pub infant_death_rate: ProbV,
    pub total_fertility_rate: ProbV,
    pub probability_of_having_partner: ProbV,
}

impl View for Config {
    type V = ConfigV;

    open spec fn view(&self) -> ConfigV {
        ConfigV {
            seed: self.seed@,
            original: self.original@,
            average_life: self.average_life,
            infant_death_rate: self.infant_death_rate@,
            total_fertility_rate: self.total_fertility_rate@,
            probability_of_having_partner: self.probability_of_having_partner@,
        }
    }
}

/// A copy of a string, with its content stated.
pub(crate) fn dup_string(s: &String) -> (r: String)
    ensures
        r@ == s@,
{
    s.clone()
}

/// A copy of an identifier, with its content stated.
pub(crate) fn dup_id(p: &PersonalID) -> (r: PersonalID)
    ensures
        r@ == p@,
{
    PersonalID { id: dup_string(&p.id) }
}

/// A copy of a person record, with its content stated.
pub(crate) fn dup_person(p: &PersonalInfo) -> (r: PersonalInfo)
    ensures
        r@ == p@,
{
    PersonalInfo {
        id: dup_id(&p.id),
        number_of_children: p.number_of_children,
        number_of_partners: p.number_of_partners,
    }
}

} // verus!
