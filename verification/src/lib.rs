//! A deterministic genealogical-tree generator.
//!
//! From a configuration (a seed string, an originating person and a few
//! demographic parameters) the library produces a reproducible, ordered list
//! of family-relationship records, layer by layer: the people of the current
//! generation are expanded into partner and child records until the requested
//! depth is reached.  Reproducibility is the central contract: the whole
//! output is a function of the configuration and the depth alone, which
//! [`make_familly_list`] is proved to compute exactly.

mod digits;
mod hashing;
mod laws;
mod model;
mod stream;
mod tree;
mod types;

pub use digits::dec_chars;
pub use hashing::{spec_config_hash, spec_partner_hash, spec_person_hash};
pub use laws::{
    all_child_counts_unit, child_counts_unit, child_rec_form, has_any_introducer_before,
    has_introducer_before, has_partner_rec_before, introduced_in, introduces, lemma_boundary,
    lemma_deterministic, lemma_expansion_cardinality, lemma_fixed_counts,
    lemma_generation_monotonicity, lemma_referential_integrity, lemma_single_original,
    all_not_original, not_original, parent_one_layer_below, refs_ok, refs_ok_at,
};
pub use model::{
    child_id_chars, frontier_contrib, partner_id_chars, partner_recs_of, spec_children,
    spec_expand_frontier, spec_expand_person, spec_frontier, spec_loop, spec_make_familly_list,
    spec_other_absent, spec_partners, u32_of, u8_of,
};
pub use stream::pcg_output;
pub use tree::make_familly_list;
pub use types::{
    rels_view, Config, ConfigV, Date, DateV, FamilyRelationship, Generation, PartnerInfo, PersonV,
    PersonalID, PersonalInfo, ProbV, Probability, RelV,
};
