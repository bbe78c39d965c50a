//! Structural hashing: a 64-bit FNV-1a hash applied to a canonical byte
//! rendering of each record type.
//!
//! The hash must be a pure function of a value's fields taken in a fixed
//! order, because both the stream seeds and the identifier fragments of the
//! tree are derived from it.  The canonical orders are:
//! - a person: the UTF-8 bytes of the id, then `number_of_children`, then
//!   `number_of_partners` (one byte each);
//! - a partner: the UTF-8 bytes of the id;
//! - a configuration: the UTF-8 bytes of the seed, the original person by the
//!   person rule, then `average_life` (one byte) and the three probabilities,
//!   each as its two 64-bit integers in little-endian byte order.
use crate::types::{ConfigV, PersonV};
use crate::types::{Config, PersonalID, PersonalInfo};
use vstd::prelude::*;
use vstd::string::StringSliceAdditionalSpecFns;

verus! {

/// The FNV-1a 64-bit offset basis.
pub const FNV_OFFSET: u64 = 0xcbf2_9ce4_8422_2325;

/// The FNV-1a 64-bit prime.
pub const FNV_PRIME: u64 = 0x100_0000_01b3;

/// One FNV-1a step: fold one byte into the running hash.
pub open spec fn fnv_step(h: u64, b: u8) -> u64 {
    (((h ^ b as u64) * (FNV_PRIME as int)) % 0x1_0000_0000_0000_0000) as u64
}

/// Fold a whole byte sequence into the running hash, front to back.
pub open spec fn fnv_extend(h: u64, s: Seq<u8>) -> u64
    decreases s.len(),
{
    if s.len() == 0 {
        h
    } else {
        fnv_extend(fnv_step(h, s[0]), s.drop_first())
    }
}

/// The hash of a person folded onto a running hash: id bytes, then the two
/// counts.
pub open spec fn person_hash_from(h: u64, p: PersonV) -> u64 {
    fnv_step(
        fnv_step(fnv_extend(h, vstd::utf8::encode_utf8(p.id)), p.number_of_children),
        p.number_of_partners,
    )
}

/// The hash of a person's record, seeding that person's own stream and the
/// identifier fragments derived from it.
pub open spec fn spec_person_hash(p: PersonV) -> u64 {
    person_hash_from(FNV_OFFSET, p)
}

/// The hash of a partner record: its id bytes alone.
pub open spec fn spec_partner_hash(id: Seq<char>) -> u64 {
    fnv_extend(FNV_OFFSET, vstd::utf8::encode_utf8(id))
}

/// A 64-bit value folded onto a running hash, little-endian byte by byte.
pub open spec fn u64_fold(h: u64, x: u64) -> u64 {
    fnv_step(
        fnv_step(
            fnv_step(
                fnv_step(
                    fnv_step(
                        fnv_step(
                            fnv_step(
                                fnv_step(h, (x & 0xff) as u8),
                                ((x >> 8) & 0xff) as u8,
                            ),
                            ((x >> 16) & 0xff) as u8,
                        ),
                        ((x >> 24) & 0xff) as u8,
                    ),
                    ((x >> 32) & 0xff) as u8,
                ),
                ((x >> 40) & 0xff) as u8,
            ),
            ((x >> 48) & 0xff) as u8,
        ),
        ((x >> 56) & 0xff) as u8,
    )
}

/// The hash of a whole configuration, seeding the run's global stream:
/// seed bytes, the original person, the average life byte, and the three
/// probabilities' integers in declared order.
pub open spec fn spec_config_hash(c: ConfigV) -> u64 {
    u64_fold(
        u64_fold(
            u64_fold(
                u64_fold(
                    u64_fold(
                        u64_fold(
                            fnv_step(
                                person_hash_from(
                                    fnv_extend(FNV_OFFSET, vstd::utf8::encode_utf8(c.seed)),
                                    c.original,
                                ),
                                c.average_life as u8,
                            ),
                            c.infant_death_rate.value as u64,
                        ),
                        c.infant_death_rate.base as u64,
                    ),
                    c.total_fertility_rate.value as u64,
                ),
                c.total_fertility_rate.base as u64,
            ),
            c.probability_of_having_partner.value as u64,
        ),
        c.probability_of_having_partner.base as u64,
    )
}

/// One executable FNV-1a step.
fn fnv_step_exec(h: u64, b: u8) -> (r: u64)
    ensures
        r == fnv_step(h, b),
{
    let x: u64 = h ^ (b as u64);
    let wide: u128 = (x as u128) * (FNV_PRIME as u128);
    (wide % 0x1_0000_0000_0000_0000u128) as u64
}

/// Fold a byte slice into the running hash.
fn bytes_extend(h0: u64, bytes: &[u8]) -> (h: u64)
    ensures
        h == fnv_extend(h0, bytes@),
{
    let mut h = h0;
    let mut i: usize = 0;
    proof {
        assert(bytes@.skip(0) =~= bytes@);
    }
    while i < bytes.len()
        invariant
            i <= bytes@.len(),
            fnv_extend(h0, bytes@) == fnv_extend(h, bytes@.skip(i as int)),
        decreases bytes@.len() - i,
    {
        proof {
            assert(bytes@.skip(i as int)[0] == bytes@[i as int]);
            assert(bytes@.skip(i as int).drop_first() =~= bytes@.skip(i as int + 1));
        }
        h = fnv_step_exec(h, bytes[i]);
        i = i + 1;
    }
    proof {
        assert(bytes@.skip(i as int) =~= Seq::<u8>::empty());
    }
    h
}

/// Fold a string's UTF-8 bytes into the running hash.
fn str_extend(h0: u64, s: &str) -> (h: u64)
    ensures
        h == fnv_extend(h0, s.spec_bytes()),
{
    bytes_extend(h0, s.as_bytes())
}

/// Fold a 64-bit value into the running hash, little-endian.
fn u64_extend(h0: u64, x: u64) -> (h: u64)
    ensures
        h == u64_fold(h0, x),
{
    let h1 = fnv_step_exec(h0, (x & 0xff) as u8);
    let h2 = fnv_step_exec(h1, ((x >> 8) & 0xff) as u8);
    let h3 = fnv_step_exec(h2, ((x >> 16) & 0xff) as u8);
    let h4 = fnv_step_exec(h3, ((x >> 24) & 0xff) as u8);
    let h5 = fnv_step_exec(h4, ((x >> 32) & 0xff) as u8);
    let h6 = fnv_step_exec(h5, ((x >> 40) & 0xff) as u8);
    let h7 = fnv_step_exec(h6, ((x >> 48) & 0xff) as u8);
    fnv_step_exec(h7, ((x >> 56) & 0xff) as u8)
}

/// Fold a person record onto a running hash.
fn person_extend(h0: u64, p: &PersonalInfo) -> (h: u64)
    ensures
        h == person_hash_from(h0, p@),
{
    let h1 = str_extend(h0, p.id.id.as_str());
    let h2 = fnv_step_exec(h1, p.number_of_children);
    fnv_step_exec(h2, p.number_of_partners)
}

/// The hash of a person's record.
pub(crate) fn person_hash(p: &PersonalInfo) -> (h: u64)
    ensures
        h == spec_person_hash(p@),
{
    person_extend(FNV_OFFSET, p)
}

/// The hash of a partner record, identified by its id.
pub(crate) fn partner_hash(id: &PersonalID) -> (h: u64)
    ensures
        h == spec_partner_hash(id@),
{
    str_extend(FNV_OFFSET, id.id.as_str())
}

/// The hash of a whole configuration.
pub(crate) fn config_hash(c: &Config) -> (h: u64)
    ensures
        h == spec_config_hash(c@),
{
    let h1 = str_extend(FNV_OFFSET, c.seed.as_str());
    let h2 = person_extend(h1, &c.original);
    let h3 = fnv_step_exec(h2, c.average_life as u8);
    let h4 = u64_extend(h3, c.infant_death_rate.value as u64);
    let h5 = u64_extend(h4, c.infant_death_rate.base as u64);
    let h6 = u64_extend(h5, c.total_fertility_rate.value as u64);
    let h7 = u64_extend(h6, c.total_fertility_rate.base as u64);
    let h8 = u64_extend(h7, c.probability_of_having_partner.value as u64);
    u64_extend(h8, c.probability_of_having_partner.base as u64)
}

} // verus!
