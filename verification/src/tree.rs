//! The executable generator, proved to return exactly the list that the
//! mathematical model describes.
use crate::digits::u64_to_dec;
use crate::hashing::{config_hash, partner_hash, person_hash};
use crate::model::{
    child_id_chars, partner_id_chars, partner_recs_of, spec_children, spec_expand_frontier,
    spec_expand_person, spec_frontier, spec_loop, spec_make_familly_list, spec_partners,
    TENTH_OF_24_BITS,
};
use crate::stream::{stream_new, stream_next, RandomStream};
use crate::types::{
    dup_id, dup_person, rels_view, Config, FamilyRelationship, Generation, PartnerInfo, PersonV,
    PersonalID, PersonalInfo, RelV,
};
use vstd::prelude::*;
use vstd::string::StringExecFns;

verus! {

/// The views of a list of partner identifiers.
pub open spec fn ids_view(s: Seq<PersonalID>) -> Seq<Seq<char>> {
    s.map_values(|p: PersonalID| p@)
}

/// The views of a list of person records.
pub open spec fn persons_view(s: Seq<PersonalInfo>) -> Seq<PersonV> {
    s.map_values(|p: PersonalInfo| p@)
}

/// Builds one partner identifier string.
fn build_partner_id(pseed: u64, pd: u64, gd: u64) -> (s: String)
    ensures
        s@ == partner_id_chars(pseed, pd, gd),
{
    proof {
        reveal_strlit("-");
        reveal_strlit("#");
        assert("-"@ =~= seq!['-']);
        assert("#"@ =~= seq!['#']);
        assert(pd & 0xffff_ffff <= 0xffff_ffff && gd & 0xff <= 0xff) by (bit_vector);
    }
    let mut s = u64_to_dec(pseed);
    s.append("-");
    let pd_dec = u64_to_dec(pd & 0xffff_ffff);
    s.append(pd_dec.as_str());
    s.append("#");
    let gd_dec = u64_to_dec(gd & 0xff);
    s.append(gd_dec.as_str());
    s
}

/// Builds one child identifier string.
fn build_child_id(pseed: u64, other_hash: &String, pd: u64, gd: u64) -> (s: String)
    ensures
        s@ == child_id_chars(pseed, other_hash@, pd, gd),
{
    proof {
        reveal_strlit("+");
        reveal_strlit("#");
        assert("+"@ =~= seq!['+']);
        assert("#"@ =~= seq!['#']);
        assert(pd & 0xffff_ffff <= 0xffff_ffff && gd & 0xff <= 0xff) by (bit_vector);
    }
    let mut s = u64_to_dec(pseed);
    s.append("+");
    s.append(other_hash.as_str());
    s.append("+");
    let pd_dec = u64_to_dec(pd & 0xffff_ffff);
    s.append(pd_dec.as_str());
    s.append("#");
    let gd_dec = u64_to_dec(gd & 0xff);
    s.append(gd_dec.as_str());
    s
}

/// Produces one person's partner records, appending them to `acc`, and
/// returns the partner identifiers for the children step.
fn expand_partners(
    info: &PersonalInfo,
    pseed: u64,
    pstream: &mut RandomStream,
    global: &mut RandomStream,
    acc: &mut Vec<FamilyRelationship>,
) -> (partner_ids: Vec<PersonalID>)
    requires
        pseed == old(pstream).seed(),
    ensures
        final(pstream).seed() == old(pstream).seed(),
        final(global).seed() == old(global).seed(),
        ids_view(partner_ids@) == spec_partners(
            pseed,
            old(global).seed(),
            info@.number_of_partners as nat,
            old(pstream).drawn(),
            old(global).drawn(),
        ).0,
        final(pstream).drawn() == spec_partners(
            pseed,
            old(global).seed(),
            info@.number_of_partners as nat,
            old(pstream).drawn(),
            old(global).drawn(),
        ).1,
        final(global).drawn() == spec_partners(
            pseed,
            old(global).seed(),
            info@.number_of_partners as nat,
            old(pstream).drawn(),
            old(global).drawn(),
        ).2,
        rels_view(final(acc)@) == rels_view(old(acc)@) + partner_recs_of(
            info@.id,
            ids_view(partner_ids@),
        ),
        partner_ids@.len() == info@.number_of_partners as nat,
{
    let ghost gseed = global.seed();
    let ghost pk0 = pstream.drawn();
    let ghost gk0 = global.drawn();
    let ghost acc0 = rels_view(acc@);
    let ghost full = spec_partners(pseed, gseed, info@.number_of_partners as nat, pk0, gk0);
    let n_partners = info.number_of_partners;
    let mut partner_ids: Vec<PersonalID> = Vec::new();
    let mut i: u8 = 0;
    proof {
        assert(ids_view(partner_ids@) =~= Seq::<Seq<char>>::empty());
        assert(Seq::<Seq<char>>::empty() + full.0 =~= full.0);
        assert(acc0 + partner_recs_of(info@.id, ids_view(partner_ids@)) =~= acc0);
    }
    while i < n_partners
        invariant
            i <= n_partners,
            pstream.seed() == pseed,
            global.seed() == gseed,
            pstream.drawn() == pk0 + i as nat,
            global.drawn() == gk0 + i as nat,
            full == spec_partners(pseed, gseed, n_partners as nat, pk0, gk0),
            full.0 == ids_view(partner_ids@) + spec_partners(
                pseed,
                gseed,
                (n_partners - i) as nat,
                pk0 + i as nat,
                gk0 + i as nat,
            ).0,
            full.1 == spec_partners(
                pseed,
                gseed,
                (n_partners - i) as nat,
                pk0 + i as nat,
                gk0 + i as nat,
            ).1,
            full.2 == spec_partners(
                pseed,
                gseed,
                (n_partners - i) as nat,
                pk0 + i as nat,
                gk0 + i as nat,
            ).2,
            partner_ids@.len() == i as nat,
            rels_view(acc@) == acc0 + partner_recs_of(info@.id, ids_view(partner_ids@)),
        decreases n_partners - i,
    {
        let pd = stream_next(pstream);
        let gd = stream_next(global);
        let id_string = build_partner_id(pseed, pd, gd);
        let pid = PersonalID { id: id_string };
        let rec = FamilyRelationship::Partner(dup_id(&info.id), PartnerInfo { id: dup_id(&pid) });
        proof {
            let rest1 = spec_partners(
                pseed,
                gseed,
                (n_partners - i - 1) as nat,
                pk0 + i as nat + 1,
                gk0 + i as nat + 1,
            );
            assert(ids_view(partner_ids@.push(pid)) =~= ids_view(partner_ids@) + seq![pid@]);
            assert(full.0 =~= ids_view(partner_ids@.push(pid)) + rest1.0);
            assert(partner_recs_of(info@.id, ids_view(partner_ids@.push(pid))) =~= partner_recs_of(
                info@.id,
                ids_view(partner_ids@),
            ) + seq![rec@]);
            assert(rels_view(acc@.push(rec)) =~= rels_view(acc@) + seq![rec@]);
            assert(acc0 + (partner_recs_of(info@.id, ids_view(partner_ids@)) + seq![rec@]) =~= (acc0
                + partner_recs_of(info@.id, ids_view(partner_ids@))) + seq![rec@]);
        }
        acc.push(rec);
        partner_ids.push(pid);
        i = i + 1;
    }
    proof {
        assert(spec_partners(
            pseed,
            gseed,
            (n_partners - i) as nat,
            pk0 + i as nat,
            gk0 + i as nat,
        ).0 =~= Seq::<Seq<char>>::empty());
        assert(ids_view(partner_ids@) + Seq::<Seq<char>>::empty() =~= ids_view(partner_ids@));
    }
    partner_ids
}

/// Produces one person's child records, appending them to `acc`, stamped
/// with `generation` and drawing the decision values as the model says.
fn expand_children(
    info: &PersonalInfo,
    pseed: u64,
    generation: u64,
    partner_ids: &Vec<PersonalID>,
    pstream: &mut RandomStream,
    global: &mut RandomStream,
    acc: &mut Vec<FamilyRelationship>,
)
    requires
        pseed == old(pstream).seed(),
        partner_ids@.len() <= u8::MAX,
    ensures
        final(pstream).seed() == old(pstream).seed(),
        final(global).seed() == old(global).seed(),
        rels_view(final(acc)@) == rels_view(old(acc)@) + spec_children(
            info@,
            pseed,
            old(global).seed(),
            ids_view(partner_ids@),
            generation as nat,
            info@.number_of_children as nat,
            old(pstream).drawn(),
            old(global).drawn(),
        ).0,
        final(pstream).drawn() == spec_children(
            info@,
            pseed,
            old(global).seed(),
            ids_view(partner_ids@),
            generation as nat,
            info@.number_of_children as nat,
            old(pstream).drawn(),
            old(global).drawn(),
        ).1,
        final(global).drawn() == spec_children(
            info@,
            pseed,
            old(global).seed(),
            ids_view(partner_ids@),
            generation as nat,
            info@.number_of_children as nat,
            old(pstream).drawn(),
            old(global).drawn(),
        ).2,
{
    let ghost gseed = global.seed();
    let ghost pids = ids_view(partner_ids@);
    let ghost acc0 = rels_view(acc@);
    let ghost full = spec_children(
        info@,
        pseed,
        gseed,
        pids,
        generation as nat,
        info@.number_of_children as nat,
        old(pstream).drawn(),
        old(global).drawn(),
    );
    let n_children = info.number_of_children;
    let mut j: u8 = 0;
    let ghost mut added = Seq::<RelV>::empty();
    proof {
        assert(Seq::<RelV>::empty() + full.0 =~= full.0);
        assert(acc0 + Seq::<RelV>::empty() =~= acc0);
    }
    while j < n_children
        invariant
            j <= n_children,
            pstream.seed() == pseed,
            global.seed() == gseed,
            pids == ids_view(partner_ids@),
            pids.len() <= u8::MAX,
            full == spec_children(
                info@,
                pseed,
                gseed,
                pids,
                generation as nat,
                n_children as nat,
                old(pstream).drawn(),
                old(global).drawn(),
            ),
            full.0 == added + spec_children(
                info@,
                pseed,
                gseed,
                pids,
                generation as nat,
                (n_children - j) as nat,
                pstream.drawn(),
                global.drawn(),
            ).0,
            full.1 == spec_children(
                info@,
                pseed,
                gseed,
                pids,
                generation as nat,
                (n_children - j) as nat,
                pstream.drawn(),
                global.drawn(),
            ).1,
            full.2 == spec_children(
                info@,
                pseed,
                gseed,
                pids,
                generation as nat,
                (n_children - j) as nat,
                pstream.drawn(),
                global.drawn(),
            ).2,
            rels_view(acc@) == acc0 + added,
        decreases n_children - j,
    {
        let ghost pk_cur = pstream.drawn();
        let ghost gk_cur = global.drawn();
        let bdraw = stream_next(global);
        let low32 = (bdraw & 0xffff_ffff) as u32;
        let absent = (low32 >> 8) < TENTH_OF_24_BITS;
        let no_other = absent || partner_ids.len() == 0;
        let (other_hash_s, other_id_opt): (String, Option<PersonalID>) = if no_other {
            (String::new(), Option::None)
        } else {
            let d = stream_next(pstream);
            let len = partner_ids.len();
            let idx = (d % (len as u64)) as usize;
            proof {
                assert(d % (len as u64) == d as int % pids.len() as int);
                assert(ids_view(partner_ids@)[idx as int] == partner_ids@[idx as int]@);
            }
            let oid_ref = &partner_ids[idx];
            let oh = partner_hash(oid_ref);
            (u64_to_dec(oh), Option::Some(dup_id(oid_ref)))
        };
        let rd = stream_next(pstream);
        let sd = stream_next(global);
        let id_s = build_child_id(pseed, &other_hash_s, rd, sd);
        let new_info = PersonalInfo {
            id: PersonalID { id: id_s },
            number_of_children: 1,
            number_of_partners: 1,
        };
        let rec = FamilyRelationship::Child(
            Generation { i: generation },
            dup_id(&info.id),
            other_id_opt,
            new_info,
        );
        proof {
            let rest = spec_children(
                info@,
                pseed,
                gseed,
                pids,
                generation as nat,
                (n_children - j) as nat,
                pk_cur,
                gk_cur,
            );
            let rest1 = spec_children(
                info@,
                pseed,
                gseed,
                pids,
                generation as nat,
                (n_children - j - 1) as nat,
                pstream.drawn(),
                global.drawn(),
            );
            assert(rest.0 == seq![rec@] + rest1.0);
            assert(rels_view(acc@.push(rec)) =~= rels_view(acc@) + seq![rec@]);
            assert(acc0 + (added + seq![rec@]) =~= (acc0 + added) + seq![rec@]);
            assert((added + seq![rec@]) + rest1.0 =~= added + (seq![rec@] + rest1.0));
        }
        acc.push(rec);
        proof {
            added = added + seq![rec@];
        }
        j = j + 1;
    }
    proof {
        assert(spec_children(
            info@,
            pseed,
            gseed,
            pids,
            generation as nat,
            (n_children - j) as nat,
            pstream.drawn(),
            global.drawn(),
        ).0 =~= Seq::<RelV>::empty());
        assert(added + Seq::<RelV>::empty() =~= added);
    }
}

/// Expands one person: appends that person's partner records, then child
/// records stamped with `generation`, drawing from the person's own fresh
/// stream and from the global stream.
fn expand_person(
    info: &PersonalInfo,
    generation: u64,
    global: &mut RandomStream,
    acc: &mut Vec<FamilyRelationship>,
)
    ensures
        final(global).seed() == old(global).seed(),
        rels_view(final(acc)@) == rels_view(old(acc)@) + spec_expand_person(
            info@,
            generation as nat,
            old(global).seed(),
            old(global).drawn(),
        ).0,
        final(global).drawn() == spec_expand_person(
            info@,
            generation as nat,
            old(global).seed(),
            old(global).drawn(),
        ).1,
{
    let ghost acc0 = rels_view(acc@);
    let ghost sep = spec_expand_person(info@, generation as nat, global.seed(), global.drawn());
    let pseed = person_hash(info);
    let mut pstream = stream_new(pseed);
    let partner_ids = expand_partners(info, pseed, &mut pstream, global, acc);
    expand_children(info, pseed, generation, &partner_ids, &mut pstream, global, acc);
    proof {
        assert(rels_view(acc@) =~= acc0 + sep.0);
    }
}

/// Generates the whole family-relationship list for `config`, down to and
/// including the layer numbered `generation_max`.
///
/// The result is exactly the list that the model describes: it starts with
/// the original person, and every run with equal inputs returns the same
/// list.
pub fn make_familly_list(config: &Config, generation_max: Generation) -> (r: Vec<
    FamilyRelationship,
>)
    ensures
        rels_view(r@) == spec_make_familly_list(config@, generation_max@),
{
    let seed = config_hash(config);
    let mut global = stream_new(seed);
    let mut lst: Vec<FamilyRelationship> = Vec::new();
    lst.push(FamilyRelationship::Original(dup_person(&config.original)));
    let max: u64 = generation_max.i;
    let mut generation: u64 = 1;
    proof {
        assert(rels_view(lst@) =~= seq![RelV::Original { info: config@.original }]);
    }
    while generation < max
        invariant
            1 <= generation,
            global.seed() == seed,
            seed == crate::hashing::spec_config_hash(config@),
            spec_loop(
                rels_view(lst@),
                generation as nat,
                max as nat,
                seed,
                global.drawn(),
            ) == spec_make_familly_list(config@, generation_max@),
        decreases max - generation,
    {
        let ghost lst0 = rels_view(lst@);
        let ghost g0 = generation as nat;
        let ghost gk0 = global.drawn();
        // Select the frontier: everyone belonging to the current generation.
        let mut frontier: Vec<PersonalInfo> = Vec::new();
        let mut fi: usize = 0;
        proof {
            assert(persons_view(frontier@) =~= spec_frontier(rels_view(lst@).take(0), g0));
        }
        while fi < lst.len()
            invariant
                fi <= lst@.len(),
                g0 == generation as nat,
                persons_view(frontier@) == spec_frontier(rels_view(lst@).take(fi as int), g0),
                rels_view(lst@) == lst0,
            decreases lst@.len() - fi,
        {
            proof {
                assert(rels_view(lst@).take(fi as int + 1).drop_last() =~= rels_view(lst@).take(
                    fi as int,
                ));
                assert(rels_view(lst@).take(fi as int + 1).last() == lst@[fi as int]@);
            }
            match &lst[fi] {
                FamilyRelationship::Child(g2, _parent, _other, pinfo) => {
                    if g2.i == generation {
                        let p = dup_person(pinfo);
                        proof {
                            assert(persons_view(frontier@.push(p)) =~= persons_view(frontier@)
                                + seq![pinfo@]);
                        }
                        frontier.push(p);
                    } else {
                        proof {
                            assert(persons_view(frontier@) + Seq::<PersonV>::empty()
                                =~= persons_view(frontier@));
                        }
                    }
                },
                FamilyRelationship::Original(pinfo) => {
                    if generation == 1 {
                        let p = dup_person(pinfo);
                        proof {
                            assert(persons_view(frontier@.push(p)) =~= persons_view(frontier@)
                                + seq![pinfo@]);
                        }
                        frontier.push(p);
                    } else {
                        proof {
                            assert(persons_view(frontier@) + Seq::<PersonV>::empty()
                                =~= persons_view(frontier@));
                        }
                    }
                },
                FamilyRelationship::Partner(_person, _partner) => {
                    proof {
                        assert(persons_view(frontier@) + Seq::<PersonV>::empty() =~= persons_view(
                            frontier@,
                        ));
                    }
                },
            }
            fi = fi + 1;
        }
        proof {
            assert(rels_view(lst@).take(lst@.len() as int) =~= rels_view(lst@));
        }
        // Advance the counter: new records belong to the next layer.
        generation = generation + 1;
        // Expand every frontier person, partners first, then children.
        let ghost fv = persons_view(frontier@);
        let ghost full = spec_expand_frontier(fv, generation as nat, seed, gk0);
        let mut newrecs: Vec<FamilyRelationship> = Vec::new();
        let mut k: usize = 0;
        proof {
            assert(Seq::<RelV>::empty() + full.0 =~= full.0);
            assert(rels_view(newrecs@) =~= Seq::<RelV>::empty());
            assert(fv.skip(0) =~= fv);
        }
        while k < frontier.len()
            invariant
                k <= frontier@.len(),
                global.seed() == seed,
                fv == persons_view(frontier@),
                full == spec_expand_frontier(fv, generation as nat, seed, gk0),
                full.0 == rels_view(newrecs@) + spec_expand_frontier(
                    fv.skip(k as int),
                    generation as nat,
                    seed,
                    global.drawn(),
                ).0,
                full.1 == spec_expand_frontier(
                    fv.skip(k as int),
                    generation as nat,
                    seed,
                    global.drawn(),
                ).1,
            decreases frontier@.len() - k,
        {
            proof {
                assert(fv.skip(k as int)[0] == fv[k as int]);
                assert(fv.skip(k as int).drop_first() =~= fv.skip(k as int + 1));
                assert(fv[k as int] == frontier@[k as int]@);
            }
            let ghost acc_before = rels_view(newrecs@);
            let ghost gk_before = global.drawn();
            expand_person(&frontier[k], generation, &mut global, &mut newrecs);
            proof {
                let sep = spec_expand_person(fv[k as int], generation as nat, seed, gk_before);
                assert((acc_before + sep.0) + spec_expand_frontier(
                    fv.skip(k as int + 1),
                    generation as nat,
                    seed,
                    global.drawn(),
                ).0 =~= acc_before + (sep.0 + spec_expand_frontier(
                    fv.skip(k as int + 1),
                    generation as nat,
                    seed,
                    global.drawn(),
                ).0));
            }
            k = k + 1;
        }
        proof {
            assert(spec_expand_frontier(
                fv.skip(k as int),
                generation as nat,
                seed,
                global.drawn(),
            ).0 =~= Seq::<RelV>::empty());
            assert(rels_view(newrecs@) + Seq::<RelV>::empty() =~= rels_view(newrecs@));
            assert(full.0 == rels_view(newrecs@));
            assert(full.1 == global.drawn());
        }
        let ghost newv = rels_view(newrecs@);
        lst.append(&mut newrecs);
        proof {
            assert(rels_view(lst@) =~= lst0 + newv);
            assert(spec_frontier(lst0, g0) == fv);
            assert(spec_loop(lst0, g0, max as nat, seed, gk0) == spec_loop(
                lst0 + full.0,
                g0 + 1,
                max as nat,
                seed,
                full.1,
            ));
        }
    }
    lst
}

} // verus!
