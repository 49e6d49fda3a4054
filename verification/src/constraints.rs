//! The constraint evaluator: rejects a layer combination that contains
//! both members of any forbidden trait pair.

use vstd::prelude::*;
use crate::choice::LayerChoice;
use crate::config::{Config, ForbiddenPair};

verus! {

/// A trait fact (trait name, value) is present in a combination iff some
/// chosen layer carries exactly that pair.
pub open spec fn spec_present(layers: Seq<LayerChoice>, t: Seq<char>, v: Seq<char>) -> bool {
    exists|i: int|
        0 <= i < layers.len() && layers[i].trait_type@ == t && layers[i].value@ == v
}

/// A combination violates one forbidden pair iff both of its members are
/// simultaneously present.
pub open spec fn spec_violates_pair(layers: Seq<LayerChoice>, p: ForbiddenPair) -> bool {
    spec_present(layers, p.a.trait_type@, p.a.value@)
        && spec_present(layers, p.b.trait_type@, p.b.value@)
}

/// A combination violates a rule set iff it violates some pair in it.
pub open spec fn spec_violates(layers: Seq<LayerChoice>, pairs: Seq<ForbiddenPair>) -> bool {
    exists|k: int| 0 <= k < pairs.len() && spec_violates_pair(layers, pairs[k])
}

/// The forbidden pairs a configuration carries; none when the optional
/// constraint section (or its pair list) is absent.
pub open spec fn spec_forbidden_pairs(cfg: Config) -> Seq<ForbiddenPair> {
    match cfg.constraints {
        Some(c) => match c.forbidden_pairs {
            Some(ps) => ps@,
            None => Seq::empty(),
        },
        None => Seq::empty(),
    }
}

/// Whether the trait fact (`t`, `v`) occurs among the chosen layers.
pub fn present(layers: &Vec<LayerChoice>, t: &String, v: &String) -> (r: bool)
    ensures
        r == spec_present(layers@, t@, v@),
{
    let mut i: usize = 0;
    while i < layers.len()
        invariant
            0 <= i <= layers@.len(),
            forall|j: int|
                0 <= j < i ==> !(layers@[j].trait_type@ == t@ && layers@[j].value@ == v@),
        decreases layers@.len() - i,
    {
        if layers[i].trait_type == *t && layers[i].value == *v {
            return true;
        }
        i = i + 1;
    }
    false
}

/// Whether the combination contains both members of some pair in `pairs`.
/// Pure: no side effects, short-circuits on the first violated pair.
pub fn violates(layers: &Vec<LayerChoice>, pairs: &Vec<ForbiddenPair>) -> (r: bool)
    ensures
        r == spec_violates(layers@, pairs@),
{
    let mut k: usize = 0;
    while k < pairs.len()
        invariant
            0 <= k <= pairs@.len(),
            forall|j: int| 0 <= j < k ==> !spec_violates_pair(layers@, pairs@[j]),
        decreases pairs@.len() - k,
    {
        let p = &pairs[k];
        if present(layers, &p.a.trait_type, &p.a.value)
            && present(layers, &p.b.trait_type, &p.b.value) {
            return true;
        }
        k = k + 1;
    }
    false
}

/// Whether the combination violates the configuration's forbidden pairs;
/// a configuration without constraints forbids nothing.
pub fn violates_constraints(cfg: &Config, layers: &Vec<LayerChoice>) -> (r: bool)
    ensures
        r == spec_violates(layers@, spec_forbidden_pairs(*cfg)),
{
    match &cfg.constraints {
        None => false,
        Some(c) => match &c.forbidden_pairs {
            None => false,
            Some(ps) => violates(layers, ps),
        },
    }
}

} // verus!
