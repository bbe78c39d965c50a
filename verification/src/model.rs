//! The mathematical model of the generator: what the output list is, as a
//! function of the configuration and the requested depth.
//!
//! The executable generator is proved to return exactly
//! [`spec_make_familly_list`], so every run is reproducible by construction.
use crate::digits::dec_chars;
use crate::hashing::{spec_partner_hash, spec_person_hash};
use crate::stream::pcg_output;
use crate::types::{PersonV, RelV};
use vstd::prelude::*;

verus! {

/// The low 32 bits of a raw 64-bit draw, as the algorithm's 32-bit values.
pub open spec fn u32_of(x: u64) -> u32 {
    (x & 0xffff_ffff) as u32
}

/// The low 8 bits of a raw 64-bit draw, as the algorithm's byte values.
pub open spec fn u8_of(x: u64) -> u8 {
    (x & 0xff) as u8
}

/// The largest 24-bit sample that still counts as "below one tenth": a draw
/// reduced to 24 bits is uniform in `[0, 2^24)`, and samples strictly below
/// `1_677_722` are exactly those whose value as a fraction of `2^24` is less
/// than one tenth.
pub const TENTH_OF_24_BITS: u32 = 1_677_722;

/// Whether a raw draw from the global stream decides that a child has no
/// recorded second parent: the draw's low 32 bits, reduced to their top 24
/// bits, fall below one tenth of the sample space.
pub open spec fn spec_other_absent(draw: u64) -> bool {
    (u32_of(draw) >> 8) < TENTH_OF_24_BITS
}

/// A partner identifier: the decimal hash of the person being expanded, a
/// `-`, a decimal 32-bit draw from that person's own stream, a `#`, and a
/// decimal byte draw from the global stream.
pub open spec fn partner_id_chars(pseed: u64, pd: u64, gd: u64) -> Seq<char> {
    dec_chars(pseed as nat) + seq!['-'] + dec_chars(u32_of(pd) as nat) + seq!['#'] + dec_chars(
        u8_of(gd) as nat,
    )
}

/// A child identifier: the decimal hash of the person being expanded, a `+`,
/// the second parent's decimal hash (empty when absent), another `+`, a
/// decimal 32-bit draw from the person's stream, a `#`, and a decimal byte
/// draw from the global stream.
pub open spec fn child_id_chars(pseed: u64, other_hash: Seq<char>, pd: u64, gd: u64) -> Seq<char> {
    dec_chars(pseed as nat) + seq!['+'] + other_hash + seq!['+'] + dec_chars(u32_of(pd) as nat)
        + seq!['#'] + dec_chars(u8_of(gd) as nat)
}

/// The identifiers of `n` partners produced for the person hashed to
/// `pseed`, with the person's stream at draw `pk` and the global stream at
/// draw `gk`; also the two streams' positions afterwards.  Each partner
/// consumes one draw from each stream.
pub open spec fn spec_partners(pseed: u64, gseed: u64, n: nat, pk: nat, gk: nat) -> (
    Seq<Seq<char>>,
    nat,
    nat,
)
    decreases n,
{
    if n == 0 {
        (Seq::<Seq<char>>::empty(), pk, gk)
    } else {
        let id = partner_id_chars(pseed, pcg_output(pseed, pk), pcg_output(gseed, gk));
        let rest = spec_partners(pseed, gseed, (n - 1) as nat, pk + 1, gk + 1);
        (seq![id] + rest.0, rest.1, rest.2)
    }
}

/// The child records produced for `parent` (hashed to `pseed`), given the
/// partner identifiers just produced, the generation to stamp, and the two
/// stream positions; also the stream positions afterwards.
///
/// Each child first consumes a global draw deciding whether the second
/// parent is absent; when one is chosen, picking it consumes a draw from the
/// person's stream.  The identifier then consumes one more draw from each
/// stream.  Every new person's own counts are fixed to one.
pub open spec fn spec_children(
    parent: PersonV,
    pseed: u64,
    gseed: u64,
    pids: Seq<Seq<char>>,
    generation: nat,
    n: nat,
    pk: nat,
    gk: nat,
) -> (Seq<RelV>, nat, nat)
    decreases n,
{
    if n == 0 {
        (Seq::<RelV>::empty(), pk, gk)
    } else {
        let absent = spec_other_absent(pcg_output(gseed, gk)) || pids.len() == 0;
        let other = if absent {
            Option::<Seq<char>>::None
        } else {
            Option::Some(pids[pcg_output(pseed, pk) as int % pids.len() as int])
        };
        let pk1 = if absent {
            pk
        } else {
            pk + 1
        };
        let other_hash = match other {
            Option::Some(oid) => dec_chars(spec_partner_hash(oid) as nat),
            Option::None => Seq::<char>::empty(),
        };
        let id = child_id_chars(pseed, other_hash, pcg_output(pseed, pk1), pcg_output(gseed, gk + 1));
        let info = PersonV { id, number_of_children: 1, number_of_partners: 1 };
        let rel = RelV::Child { generation, parent: parent.id, other_parent: other, info };
        let rest = spec_children(parent, pseed, gseed, pids, generation, (n - 1) as nat, pk1 + 1, gk + 2);
        (seq![rel] + rest.0, rest.1, rest.2)
    }
}

/// The partner records of one person, from the partner identifiers.
pub open spec fn partner_recs_of(person: Seq<char>, ids: Seq<Seq<char>>) -> Seq<RelV> {
    ids.map_values(|pid: Seq<char>| RelV::Partner { person, partner: pid })
}

/// Everything one person contributes when expanded: that person's partner
/// records, then that person's child records, stamped with `generation`; and
/// the global stream's position afterwards.  The person's own stream starts
/// fresh, seeded by the person's hash.
pub open spec fn spec_expand_person(p: PersonV, generation: nat, gseed: u64, gk: nat) -> (
    Seq<RelV>,
    nat,
) {
    let pseed = spec_person_hash(p);
    let partners = spec_partners(pseed, gseed, p.number_of_partners as nat, 0, gk);
    let partner_recs = partner_recs_of(p.id, partners.0);
    let children = spec_children(
        p,
        pseed,
        gseed,
        partners.0,
        generation,
        p.number_of_children as nat,
        partners.1,
        partners.2,
    );
    (partner_recs + children.0, children.2)
}

/// The records contributed by a whole frontier, person by person in order,
/// and the global stream's position afterwards.
pub open spec fn spec_expand_frontier(ps: Seq<PersonV>, generation: nat, gseed: u64, gk: nat) -> (
    Seq<RelV>,
    nat,
)
    decreases ps.len(),
{
    if ps.len() == 0 {
        (Seq::<RelV>::empty(), gk)
    } else {
        let first = spec_expand_person(ps[0], generation, gseed, gk);
        let rest = spec_expand_frontier(ps.drop_first(), generation, gseed, first.1);
        (first.0 + rest.0, rest.1)
    }
}

/// What one record contributes to the frontier of generation `g`: a child of
/// that generation, or the original person when `g` is one.
pub open spec fn frontier_contrib(r: RelV, g: nat) -> Seq<PersonV> {
    match r {
        RelV::Child { generation, info, .. } => if generation == g {
            seq![info]
        } else {
            Seq::<PersonV>::empty()
        },
        RelV::Original { info } => if g == 1 {
            seq![info]
        } else {
            Seq::<PersonV>::empty()
        },
        RelV::Partner { .. } => Seq::<PersonV>::empty(),
    }
}

/// The frontier: every person belonging to generation `g`, in list order.
pub open spec fn spec_frontier(s: Seq<RelV>, g: nat) -> Seq<PersonV>
    decreases s.len(),
{
    if s.len() == 0 {
        Seq::<PersonV>::empty()
    } else {
        spec_frontier(s.drop_last(), g) + frontier_contrib(s.last(), g)
    }
}

/// The main loop: while the generation counter is below the maximum, expand
/// the current generation's frontier, stamp its records with the advanced
/// counter, and append them.
pub open spec fn spec_loop(lst: Seq<RelV>, g: nat, max: nat, gseed: u64, gk: nat) -> Seq<RelV>
    decreases max - g,
{
    if g >= max {
        lst
    } else {
        let step = spec_expand_frontier(spec_frontier(lst, g), g + 1, gseed, gk);
        spec_loop(lst + step.0, g + 1, max, gseed, step.1)
    }
}

/// The whole output: one original record, then the layers produced by the
/// loop, driven by the global stream seeded with the configuration's hash.
pub open spec fn spec_make_familly_list(c: crate::types::ConfigV, max: nat) -> Seq<RelV> {
    spec_loop(
        seq![RelV::Original { info: c.original }],
        1,
        max,
        crate::hashing::spec_config_hash(c),
        0,
    )
}

} // verus!
