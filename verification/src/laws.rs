//! The general laws of the generator, stated over the model and proved once
//! and for all: determinism, the boundary behaviour, the cardinality of an
//! expansion, the fixed counts of generated people, and the integrity of the
//! references between records.
use crate::hashing::spec_config_hash;
use crate::model::{
    partner_recs_of, spec_children, spec_expand_frontier, spec_expand_person, spec_frontier,
    spec_loop, spec_make_familly_list, spec_partners,
};
use crate::types::{ConfigV, PersonV, RelV};
use vstd::prelude::*;

verus! {

/// Determinism: the output list is a function of the configuration and the
/// requested depth alone, so any two runs with equal inputs agree.
pub proof fn lemma_deterministic(c: ConfigV, max: nat, r1: Seq<RelV>, r2: Seq<RelV>)
    requires
        r1 == spec_make_familly_list(c, max),
        r2 == spec_make_familly_list(c, max),
    ensures
        r1 == r2,
{
}

/// Boundary: asking for depth zero or one yields only the original record,
/// since the first layer is never expanded below the requested maximum.
pub proof fn lemma_boundary(c: ConfigV)
    ensures
        spec_make_familly_list(c, 0) == seq![RelV::Original { info: c.original }],
        spec_make_familly_list(c, 1) == seq![RelV::Original { info: c.original }],
{
}

/// The shape of a partner run: `n` identifiers, one draw from each stream
/// per identifier.
proof fn lemma_partners_shape(pseed: u64, gseed: u64, n: nat, pk: nat, gk: nat)
    ensures
        spec_partners(pseed, gseed, n, pk, gk).0.len() == n,
        spec_partners(pseed, gseed, n, pk, gk).1 == pk + n,
        spec_partners(pseed, gseed, n, pk, gk).2 == gk + n,
    decreases n,
{
    if n > 0 {
        lemma_partners_shape(pseed, gseed, (n - 1) as nat, pk + 1, gk + 1);
    }
}

/// The form of every record a children run produces: a child of `parent`,
/// stamped with `generation`, its own counts fixed to one, and any second
/// parent drawn from the given partner identifiers.
pub open spec fn child_rec_form(r: RelV, parent: Seq<char>, generation: nat, pids: Seq<Seq<char>>) -> bool {
    match r {
        RelV::Child { generation: g, parent: q, other_parent, info } => g == generation && q
            == parent && info.number_of_children == 1 && info.number_of_partners == 1 && (
        other_parent matches Option::Some(oid) ==> exists|m: int|
            0 <= m < pids.len() && pids[m] == oid),
        _ => false,
    }
}

/// The shape of a children run: `n` records, each of the child form.
proof fn lemma_children_shape(
    p: PersonV,
    pseed: u64,
    gseed: u64,
    pids: Seq<Seq<char>>,
    generation: nat,
    n: nat,
    pk: nat,
    gk: nat,
)
    ensures
        spec_children(p, pseed, gseed, pids, generation, n, pk, gk).0.len() == n,
        forall|i: int|
            0 <= i < n ==> child_rec_form(
                #[trigger] spec_children(p, pseed, gseed, pids, generation, n, pk, gk).0[i],
                p.id,
                generation,
                pids,
            ),
    decreases n,
{
    if n > 0 {
        let r = spec_children(p, pseed, gseed, pids, generation, n, pk, gk);
        let absent = crate::model::spec_other_absent(crate::stream::pcg_output(gseed, gk))
            || pids.len() == 0;
        let pk1: nat = if absent {
            pk
        } else {
            pk + 1
        };
        let rest = spec_children(p, pseed, gseed, pids, generation, (n - 1) as nat, pk1 + 1, gk + 2);
        lemma_children_shape(p, pseed, gseed, pids, generation, (n - 1) as nat, pk1 + 1, gk + 2);
        assert(r.0.len() == n);
        if !absent {
            let d = crate::stream::pcg_output(pseed, pk) as int;
            assert(0 <= (d % (pids.len() as int)) && (d % (pids.len() as int))
                < pids.len() as int) by {
                vstd::arithmetic::div_mod::lemma_mod_bound(d, pids.len() as int);
            }
        }
        assert(child_rec_form(r.0[0], p.id, generation, pids));
        assert forall|i: int| 1 <= i < n implies child_rec_form(
            #[trigger] r.0[i],
            p.id,
            generation,
            pids,
        ) by {
            assert(r.0[i] == rest.0[i - 1]);
        }
    }
}

/// Cardinality: a person expanded with `p` partners and `c` children
/// contributes exactly `p + c` records, the first `p` of which are partner
/// records of that person and the remaining `c` child records of that
/// person, stamped with the expansion's generation.
pub proof fn lemma_expansion_cardinality(p: PersonV, generation: nat, gseed: u64, gk: nat)
    ensures
        spec_expand_person(p, generation, gseed, gk).0.len() == p.number_of_partners
            + p.number_of_children,
        forall|i: int|
            0 <= i < p.number_of_partners ==> #[trigger] spec_expand_person(
                p,
                generation,
                gseed,
                gk,
            ).0[i] == (RelV::Partner {
                person: p.id,
                partner: spec_partners(
                    crate::hashing::spec_person_hash(p),
                    gseed,
                    p.number_of_partners as nat,
                    0,
                    gk,
                ).0[i],
            }),
        forall|i: int|
            p.number_of_partners <= i < spec_expand_person(p, generation, gseed, gk).0.len()
                ==> child_rec_form(
                #[trigger] spec_expand_person(p, generation, gseed, gk).0[i],
                p.id,
                generation,
                spec_partners(
                    crate::hashing::spec_person_hash(p),
                    gseed,
                    p.number_of_partners as nat,
                    0,
                    gk,
                ).0,
            ),
{
    let pseed = crate::hashing::spec_person_hash(p);
    let partners = spec_partners(pseed, gseed, p.number_of_partners as nat, 0, gk);
    let precs = partner_recs_of(p.id, partners.0);
    let children = spec_children(
        p,
        pseed,
        gseed,
        partners.0,
        generation,
        p.number_of_children as nat,
        partners.1,
        partners.2,
    );
    lemma_partners_shape(pseed, gseed, p.number_of_partners as nat, 0, gk);
    lemma_children_shape(
        p,
        pseed,
        gseed,
        partners.0,
        generation,
        p.number_of_children as nat,
        partners.1,
        partners.2,
    );
    assert(precs.len() == p.number_of_partners);
    assert forall|i: int| 0 <= i < p.number_of_partners implies #[trigger] spec_expand_person(
        p,
        generation,
        gseed,
        gk,
    ).0[i] == (RelV::Partner { person: p.id, partner: partners.0[i] }) by {
        assert(spec_expand_person(p, generation, gseed, gk).0[i] == precs[i]);
        assert(precs[i] == (RelV::Partner { person: p.id, partner: partners.0[i] }));
    }
    assert forall|i: int|
        p.number_of_partners <= i < spec_expand_person(p, generation, gseed, gk).0.len() implies
        child_rec_form(
        #[trigger] spec_expand_person(p, generation, gseed, gk).0[i],
        p.id,
        generation,
        partners.0,
    ) by {
        assert(spec_expand_person(p, generation, gseed, gk).0[i] == children.0[i
            - p.number_of_partners]);
    }
}

/// Whether a record's embedded person (if any) carries the fixed counts a
/// generated person receives: one child, one partner.
pub open spec fn child_counts_unit(r: RelV) -> bool {
    match r {
        RelV::Child { info, .. } => info.number_of_children == 1 && info.number_of_partners == 1,
        _ => true,
    }
}

/// Whether every child record of a list carries the fixed counts.
pub open spec fn all_child_counts_unit(s: Seq<RelV>) -> bool {
    forall|i: int| 0 <= i < s.len() ==> child_counts_unit(#[trigger] s[i])
}

proof fn lemma_unit_concat(a: Seq<RelV>, b: Seq<RelV>)
    requires
        all_child_counts_unit(a),
        all_child_counts_unit(b),
    ensures
        all_child_counts_unit(a + b),
{
    assert forall|i: int| 0 <= i < (a + b).len() implies child_counts_unit(#[trigger] (a + b)[i]) by {
        if i < a.len() {
            assert((a + b)[i] == a[i]);
        } else {
            assert((a + b)[i] == b[i - a.len()]);
        }
    }
}

proof fn lemma_expand_person_unit(p: PersonV, generation: nat, gseed: u64, gk: nat)
    ensures
        all_child_counts_unit(spec_expand_person(p, generation, gseed, gk).0),
{
    lemma_expansion_cardinality(p, generation, gseed, gk);
    let recs = spec_expand_person(p, generation, gseed, gk).0;
    assert forall|i: int| 0 <= i < recs.len() implies child_counts_unit(#[trigger] recs[i]) by {
        if i < p.number_of_partners {
            assert(recs[i] matches RelV::Partner { .. });
        } else {
            assert(child_rec_form(
                recs[i],
                p.id,
                generation,
                spec_partners(
                    crate::hashing::spec_person_hash(p),
                    gseed,
                    p.number_of_partners as nat,
                    0,
                    gk,
                ).0,
            ));
        }
    }
}

proof fn lemma_expand_frontier_unit(ps: Seq<PersonV>, generation: nat, gseed: u64, gk: nat)
    ensures
        all_child_counts_unit(spec_expand_frontier(ps, generation, gseed, gk).0),
    decreases ps.len(),
{
    if ps.len() == 0 {
    } else {
        let first = spec_expand_person(ps[0], generation, gseed, gk);
        lemma_expand_person_unit(ps[0], generation, gseed, gk);
        lemma_expand_frontier_unit(ps.drop_first(), generation, gseed, first.1);
        lemma_unit_concat(first.0, spec_expand_frontier(ps.drop_first(), generation, gseed, first.1).0);
    }
}

proof fn lemma_loop_unit(lst: Seq<RelV>, g: nat, max: nat, gseed: u64, gk: nat)
    requires
        all_child_counts_unit(lst),
    ensures
        all_child_counts_unit(spec_loop(lst, g, max, gseed, gk)),
    decreases max - g,
{
    if g < max {
        let step = spec_expand_frontier(spec_frontier(lst, g), g + 1, gseed, gk);
        lemma_expand_frontier_unit(spec_frontier(lst, g), g + 1, gseed, gk);
        lemma_unit_concat(lst, step.0);
        lemma_loop_unit(lst + step.0, g + 1, max, gseed, step.1);
    }
}

/// Fixed counts: every generated (non-original) person embedded in a child
/// record of the output carries `number_of_children == 1` and
/// `number_of_partners == 1`; the fertility parameters do not yet drive
/// these counts.
pub proof fn lemma_fixed_counts(c: ConfigV, max: nat)
    ensures
        all_child_counts_unit(spec_make_familly_list(c, max)),
{
    let init = seq![RelV::Original { info: c.original }];
    assert(all_child_counts_unit(init)) by {
        assert(child_counts_unit(init[0]));
    }
    lemma_loop_unit(init, 1, max, spec_config_hash(c), 0);
}

/// Whether record `r` introduces the person with identifier `id` at layer
/// `g`: the original person introduces itself at layer one, and a child
/// record introduces its embedded person at the record's own layer.
pub open spec fn introduces(r: RelV, id: Seq<char>, g: nat) -> bool {
    match r {
        RelV::Original { info } => g == 1 && info.id == id,
        RelV::Child { generation, info, .. } => generation == g && info.id == id,
        RelV::Partner { .. } => false,
    }
}

/// Whether some record of `s` introduces `id` at layer `g`.
pub open spec fn introduced_in(s: Seq<RelV>, id: Seq<char>, g: nat) -> bool {
    exists|j: int| 0 <= j < s.len() && introduces(#[trigger] s[j], id, g)
}

/// Whether some record strictly before position `i` introduces `id` at
/// layer `g`.
pub open spec fn has_introducer_before(s: Seq<RelV>, i: int, id: Seq<char>, g: nat) -> bool {
    exists|j: int| 0 <= j < i && introduces(#[trigger] s[j], id, g)
}

/// Whether some record strictly before position `i` introduces `id` at any
/// layer.
pub open spec fn has_any_introducer_before(s: Seq<RelV>, i: int, id: Seq<char>) -> bool {
    exists|j: int, g: nat| 0 <= j < i && #[trigger] introduces(s[j], id, g)
}

/// Whether some record strictly before position `i` is the partner record
/// pairing `person` with `oid`.
pub open spec fn has_partner_rec_before(s: Seq<RelV>, i: int, person: Seq<char>, oid: Seq<char>) -> bool {
    exists|j: int| 0 <= j < i && #[trigger] s[j] == (RelV::Partner { person, partner: oid })
}

/// Whether the references of the record at position `i` all resolve to
/// earlier records: a child's primary parent was introduced one layer below
/// the child, its second parent (when present) is the target of an earlier
/// partner record of the same parent, and a partner record's person was
/// introduced earlier.
pub open spec fn refs_ok_at(s: Seq<RelV>, i: int) -> bool {
    match s[i] {
        RelV::Child { generation, parent, other_parent, .. } => has_introducer_before(
            s,
            i,
            parent,
            (generation - 1) as nat,
        ) && (other_parent matches Option::Some(oid) ==> has_partner_rec_before(
            s,
            i,
            parent,
            oid,
        )),
        RelV::Partner { person, .. } => has_any_introducer_before(s, i, person),
        RelV::Original { .. } => true,
    }
}

/// Whether every record's references resolve to earlier records.
pub open spec fn refs_ok(s: Seq<RelV>) -> bool {
    forall|i: int| 0 <= i < s.len() ==> refs_ok_at(s, i)
}

/// A record with resolving references keeps them when the list grows.
proof fn lemma_refs_ok_at_extend(s: Seq<RelV>, ext: Seq<RelV>, i: int)
    requires
        0 <= i < s.len(),
        refs_ok_at(s, i),
    ensures
        refs_ok_at(s + ext, i),
{
    assert((s + ext)[i] == s[i]);
    match s[i] {
        RelV::Child { generation, parent, other_parent, .. } => {
            let j1 = choose|j: int|
                0 <= j < i && introduces(#[trigger] s[j], parent, (generation - 1) as nat);
            assert((s + ext)[j1] == s[j1]);
            assert(has_introducer_before(s + ext, i, parent, (generation - 1) as nat));
            if other_parent is Some {
                let oid = other_parent->0;
                let j2 = choose|j: int|
                    0 <= j < i && #[trigger] s[j] == (RelV::Partner {
                        person: parent,
                        partner: oid,
                    });
                assert((s + ext)[j2] == s[j2]);
                assert(has_partner_rec_before(s + ext, i, parent, oid));
            }
        },
        RelV::Partner { person, .. } => {
            let (j1, g1): (int, nat) = choose|j: int, g: nat|
                0 <= j < i && #[trigger] introduces(s[j], person, g);
            assert((s + ext)[j1] == s[j1]);
            assert(introduces((s + ext)[j1], person, g1));
            assert(has_any_introducer_before(s + ext, i, person));
        },
        RelV::Original { .. } => {},
    }
}

/// An introduction stays in place when the list grows.
proof fn lemma_introduced_in_extend(s: Seq<RelV>, ext: Seq<RelV>, id: Seq<char>, g: nat)
    requires
        introduced_in(s, id, g),
    ensures
        introduced_in(s + ext, id, g),
{
    let j = choose|j: int| 0 <= j < s.len() && introduces(#[trigger] s[j], id, g);
    assert((s + ext)[j] == s[j]);
    assert(introduces((s + ext)[j], id, g));
}

/// Every member of the frontier of layer `g` was introduced in the list at
/// layer `g`.
proof fn lemma_frontier_introduced(s: Seq<RelV>, g: nat)
    ensures
        forall|m: int|
            0 <= m < spec_frontier(s, g).len() ==> introduced_in(
                s,
                (#[trigger] spec_frontier(s, g)[m]).id,
                g,
            ),
    decreases s.len(),
{
    if s.len() > 0 {
        let pre = s.drop_last();
        lemma_frontier_introduced(pre, g);
        let f = spec_frontier(s, g);
        let fpre = spec_frontier(pre, g);
        let last_part = crate::model::frontier_contrib(s.last(), g);
        assert forall|m: int| 0 <= m < f.len() implies introduced_in(
            s,
            (#[trigger] f[m]).id,
            g,
        ) by {
            if m < fpre.len() {
                assert(f[m] == fpre[m]);
                let j = choose|j: int|
                    0 <= j < pre.len() && introduces(#[trigger] pre[j], fpre[m].id, g);
                assert(s[j] == pre[j]);
                assert(introduces(s[j], f[m].id, g));
            } else {
                assert(f[m] == last_part[m - fpre.len()]);
                let last = s.len() - 1;
                assert(s[last] == s.last());
                match s.last() {
                    RelV::Child { generation, info, .. } => {
                        assert(introduces(s[last], info.id, g));
                    },
                    RelV::Original { info } => {
                        assert(introduces(s[last], info.id, g));
                    },
                    RelV::Partner { .. } => {
                        assert(false);
                    },
                }
            }
        }
    }
}

/// One record of a person's block has resolving references.  The block is
/// given abstractly: partner records of `parent_id` targeting `pids`, then
/// child records of the child form.
proof fn lemma_block_rec_refs(
    base: Seq<RelV>,
    precs: Seq<RelV>,
    crecs: Seq<RelV>,
    pids: Seq<Seq<char>>,
    parent_id: Seq<char>,
    generation: nat,
    i: int,
)
    requires
        generation >= 1,
        introduced_in(base, parent_id, (generation - 1) as nat),
        precs.len() == pids.len(),
        forall|m: int|
            0 <= m < precs.len() ==> #[trigger] precs[m] == (RelV::Partner {
                person: parent_id,
                partner: pids[m],
            }),
        forall|m: int|
            0 <= m < crecs.len() ==> child_rec_form(#[trigger] crecs[m], parent_id, generation, pids),
        base.len() <= i < base.len() + precs.len() + crecs.len(),
    ensures
        refs_ok_at(base + (precs + crecs), i),
{
    let recs = precs + crecs;
    let s = base + recs;
    let jw = choose|j: int|
        0 <= j < base.len() && introduces(#[trigger] base[j], parent_id, (generation - 1) as nat);
    assert(s[jw] == base[jw]);
    let k = i - base.len();
    assert(s[i] == recs[k]);
    if k < precs.len() {
        assert(recs[k] == precs[k]);
        assert(introduces(s[jw], parent_id, (generation - 1) as nat));
        assert(has_any_introducer_before(s, i, parent_id));
    } else {
        assert(recs[k] == crecs[k - precs.len()]);
        assert(child_rec_form(recs[k], parent_id, generation, pids));
        match recs[k] {
            RelV::Child { generation: cg, parent, other_parent, .. } => {
                assert(cg == generation && parent == parent_id);
                assert(introduces(s[jw], parent, (cg - 1) as nat));
                assert(has_introducer_before(s, i, parent_id, (generation - 1) as nat));
                if other_parent is Some {
                    let oid = other_parent->0;
                    let m = choose|m: int| 0 <= m < pids.len() && pids[m] == oid;
                    assert(recs[m] == precs[m]);
                    assert(s[base.len() + m] == recs[m]);
                    assert(s[base.len() + m] == (RelV::Partner { person: parent, partner: oid }));
                    assert(base.len() + m < i);
                    assert(has_partner_rec_before(s, i, parent_id, oid));
                }
            },
            _ => {
                assert(false);
            },
        }
    }
}

/// The block one person contributes has resolving references, provided that
/// person was introduced one layer below.
proof fn lemma_expand_person_refs(
    base: Seq<RelV>,
    p: PersonV,
    generation: nat,
    gseed: u64,
    gk: nat,
)
    requires
        generation >= 1,
        introduced_in(base, p.id, (generation - 1) as nat),
    ensures
        forall|i: int|
            base.len() <= i < base.len() + spec_expand_person(p, generation, gseed, gk).0.len()
                ==> #[trigger] refs_ok_at(base + spec_expand_person(p, generation, gseed, gk).0, i),
{
    lemma_expansion_cardinality(p, generation, gseed, gk);
    let recs = spec_expand_person(p, generation, gseed, gk).0;
    let pids = spec_partners(
        crate::hashing::spec_person_hash(p),
        gseed,
        p.number_of_partners as nat,
        0,
        gk,
    ).0;
    let np = p.number_of_partners as int;
    let precs = recs.take(np);
    let crecs = recs.skip(np);
    lemma_partners_shape(
        crate::hashing::spec_person_hash(p),
        gseed,
        p.number_of_partners as nat,
        0,
        gk,
    );
    assert(recs =~= precs + crecs);
    assert forall|m: int| 0 <= m < precs.len() implies #[trigger] precs[m] == (RelV::Partner {
        person: p.id,
        partner: pids[m],
    }) by {
        assert(precs[m] == recs[m]);
    }
    assert forall|m: int| 0 <= m < crecs.len() implies child_rec_form(
        #[trigger] crecs[m],
        p.id,
        generation,
        pids,
    ) by {
        assert(crecs[m] == recs[m + np]);
    }
    assert forall|i: int| base.len() <= i < base.len() + recs.len() implies #[trigger] refs_ok_at(
        base + recs,
        i,
    ) by {
        lemma_block_rec_refs(base, precs, crecs, pids, p.id, generation, i);
        assert(base + (precs + crecs) == base + recs);
    }
}

/// The block a whole frontier contributes has resolving references,
/// provided every frontier member was introduced one layer below.
proof fn lemma_expand_frontier_refs(
    base: Seq<RelV>,
    ps: Seq<PersonV>,
    generation: nat,
    gseed: u64,
    gk: nat,
)
    requires
        generation >= 1,
        forall|m: int|
            0 <= m < ps.len() ==> introduced_in(
                base,
                (#[trigger] ps[m]).id,
                (generation - 1) as nat,
            ),
    ensures
        forall|i: int|
            base.len() <= i < base.len() + spec_expand_frontier(ps, generation, gseed, gk).0.len()
                ==> #[trigger] refs_ok_at(
                base + spec_expand_frontier(ps, generation, gseed, gk).0,
                i,
            ),
    decreases ps.len(),
{
    if ps.len() > 0 {
        let first = spec_expand_person(ps[0], generation, gseed, gk);
        let rest = spec_expand_frontier(ps.drop_first(), generation, gseed, first.1);
        let recs = spec_expand_frontier(ps, generation, gseed, gk).0;
        lemma_expand_person_refs(base, ps[0], generation, gseed, gk);
        assert forall|m: int| 0 <= m < ps.drop_first().len() implies introduced_in(
            base + first.0,
            (#[trigger] ps.drop_first()[m]).id,
            (generation - 1) as nat,
        ) by {
            assert(ps.drop_first()[m] == ps[m + 1]);
            lemma_introduced_in_extend(base, first.0, ps[m + 1].id, (generation - 1) as nat);
        }
        lemma_expand_frontier_refs(base + first.0, ps.drop_first(), generation, gseed, first.1);
        assert(recs == first.0 + rest.0);
        assert((base + first.0) + rest.0 =~= base + (first.0 + rest.0));
        assert forall|i: int| base.len() <= i < base.len() + recs.len() implies #[trigger] refs_ok_at(
            base + recs,
            i,
        ) by {
            if i < base.len() + first.0.len() {
                lemma_refs_ok_at_extend(base + first.0, rest.0, i);
                assert(refs_ok_at((base + first.0) + rest.0, i));
            } else {
                assert(refs_ok_at((base + first.0) + rest.0, i));
            }
        }
    }
}

proof fn lemma_loop_refs(lst: Seq<RelV>, g: nat, max: nat, gseed: u64, gk: nat)
    requires
        refs_ok(lst),
        g >= 1,
    ensures
        refs_ok(spec_loop(lst, g, max, gseed, gk)),
    decreases max - g,
{
    if g < max {
        let f = spec_frontier(lst, g);
        let step = spec_expand_frontier(f, g + 1, gseed, gk);
        lemma_frontier_introduced(lst, g);
        lemma_expand_frontier_refs(lst, f, g + 1, gseed, gk);
        assert forall|i: int| 0 <= i < (lst + step.0).len() implies refs_ok_at(
            lst + step.0,
            i,
        ) by {
            if i < lst.len() {
                lemma_refs_ok_at_extend(lst, step.0, i);
            }
        }
        lemma_loop_refs(lst + step.0, g + 1, max, gseed, step.1);
    }
}

/// Referential integrity: in the whole output, every child's primary parent
/// was introduced one layer below it by an earlier record, every partner
/// record's person was introduced by an earlier record, and every second
/// parent is the target of an earlier partner record of the same parent.
pub proof fn lemma_referential_integrity(c: ConfigV, max: nat)
    ensures
        refs_ok(spec_make_familly_list(c, max)),
{
    let init = seq![RelV::Original { info: c.original }];
    assert(refs_ok_at(init, 0));
    lemma_loop_refs(init, 1, max, spec_config_hash(c), 0);
}

/// Whether the child record at position `i` (if it is one) is stamped one
/// layer above an earlier record introducing its primary parent.
pub open spec fn parent_one_layer_below(s: Seq<RelV>, i: int) -> bool {
    match s[i] {
        RelV::Child { generation, parent, .. } => has_introducer_before(
            s,
            i,
            parent,
            (generation - 1) as nat,
        ),
        _ => true,
    }
}

/// Generation monotonicity: every child record's layer is one more than the
/// layer at which its primary parent was introduced.
pub proof fn lemma_generation_monotonicity(c: ConfigV, max: nat)
    ensures
        forall|i: int|
            0 <= i < spec_make_familly_list(c, max).len() ==> parent_one_layer_below(
                spec_make_familly_list(c, max),
                i,
            ),
{
    lemma_referential_integrity(c, max);
    let s = spec_make_familly_list(c, max);
    assert forall|i: int| 0 <= i < s.len() implies parent_one_layer_below(s, i) by {
        assert(refs_ok_at(s, i));
    }
}


/// Whether a record is something other than the original record.
pub open spec fn not_original(r: RelV) -> bool {
    !(r is Original)
}

/// Whether no record of a list is an original record.
pub open spec fn all_not_original(s: Seq<RelV>) -> bool {
    forall|i: int| 0 <= i < s.len() ==> not_original(#[trigger] s[i])
}

proof fn lemma_expand_person_not_original(p: PersonV, generation: nat, gseed: u64, gk: nat)
    ensures
        all_not_original(spec_expand_person(p, generation, gseed, gk).0),
{
    lemma_expansion_cardinality(p, generation, gseed, gk);
    let recs = spec_expand_person(p, generation, gseed, gk).0;
    assert forall|i: int| 0 <= i < recs.len() implies not_original(#[trigger] recs[i]) by {
        if i >= p.number_of_partners {
            assert(child_rec_form(
                recs[i],
                p.id,
                generation,
                spec_partners(
                    crate::hashing::spec_person_hash(p),
                    gseed,
                    p.number_of_partners as nat,
                    0,
                    gk,
                ).0,
            ));
        }
    }
}

proof fn lemma_expand_frontier_not_original(ps: Seq<PersonV>, generation: nat, gseed: u64, gk: nat)
    ensures
        all_not_original(spec_expand_frontier(ps, generation, gseed, gk).0),
    decreases ps.len(),
{
    if ps.len() > 0 {
        let first = spec_expand_person(ps[0], generation, gseed, gk);
        let rest = spec_expand_frontier(ps.drop_first(), generation, gseed, first.1);
        lemma_expand_person_not_original(ps[0], generation, gseed, gk);
        lemma_expand_frontier_not_original(ps.drop_first(), generation, gseed, first.1);
        assert forall|i: int| 0 <= i < (first.0 + rest.0).len() implies not_original(
            #[trigger] (first.0 + rest.0)[i],
        ) by {
            if i < first.0.len() {
                assert((first.0 + rest.0)[i] == first.0[i]);
            } else {
                assert((first.0 + rest.0)[i] == rest.0[i - first.0.len()]);
            }
        }
    }
}

/// The loop only ever appends: what it returns extends its input list, and
/// everything appended is a partner or child record.
proof fn lemma_loop_prefix(lst: Seq<RelV>, g: nat, max: nat, gseed: u64, gk: nat)
    ensures
        spec_loop(lst, g, max, gseed, gk).len() >= lst.len(),
        forall|i: int|
            0 <= i < lst.len() ==> #[trigger] spec_loop(lst, g, max, gseed, gk)[i] == lst[i],
        forall|i: int|
            lst.len() <= i < spec_loop(lst, g, max, gseed, gk).len() ==> not_original(
                #[trigger] spec_loop(lst, g, max, gseed, gk)[i],
            ),
    decreases max - g,
{
    if g < max {
        let step = spec_expand_frontier(spec_frontier(lst, g), g + 1, gseed, gk);
        let r = spec_loop(lst + step.0, g + 1, max, gseed, step.1);
        lemma_expand_frontier_not_original(spec_frontier(lst, g), g + 1, gseed, gk);
        lemma_loop_prefix(lst + step.0, g + 1, max, gseed, step.1);
        assert forall|i: int| 0 <= i < lst.len() implies #[trigger] spec_loop(
            lst,
            g,
            max,
            gseed,
            gk,
        )[i] == lst[i] by {
            assert(r[i] == (lst + step.0)[i]);
            assert((lst + step.0)[i] == lst[i]);
        }
        assert forall|i: int| lst.len() <= i < r.len() implies not_original(
            #[trigger] spec_loop(lst, g, max, gseed, gk)[i],
        ) by {
            if i < (lst + step.0).len() {
                assert(r[i] == (lst + step.0)[i]);
                assert((lst + step.0)[i] == step.0[i - lst.len()]);
            }
        }
    }
}

/// The output always begins with the original person's record, and no other
/// record is an original record: there is exactly one, and it comes first.
pub proof fn lemma_single_original(c: ConfigV, max: nat)
    ensures
        spec_make_familly_list(c, max).len() >= 1,
        spec_make_familly_list(c, max)[0] == (RelV::Original { info: c.original }),
        forall|i: int|
            1 <= i < spec_make_familly_list(c, max).len() ==> not_original(
                #[trigger] spec_make_familly_list(c, max)[i],
            ),
{
    let init = seq![RelV::Original { info: c.original }];
    lemma_loop_prefix(init, 1, max, spec_config_hash(c), 0);
}


} // verus!
