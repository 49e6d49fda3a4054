//! The layer catalog and the token assembler: validating the catalog and
//! the feasibility of the requested count, and one token's bounded
//! attempt loop (sample, constrain, reserve).

use vstd::prelude::*;
use vstd::arithmetic::mul::lemma_mul_inequality;
use crate::choice::LayerChoice;
use crate::config::{ForbiddenPair, LayerConfig};
use crate::constraints::{spec_violates, violates};
use crate::ledger::{build_pattern_key, spec_pattern_key, Ledger};
use crate::paths::{spec_trait_value, trait_value_of};
use crate::sampler::{choose_layer_index, spec_weights_of, total_weight};
use rand::rngs::ThreadRng;

verus! {

/// One trait category as the assembler sees it: its configuration and
/// the candidate files found under its directory.
#[derive(Debug)]
pub struct LayerCandidate {
    pub layer: LayerConfig,
    pub files: Vec<String>,
}

impl LayerCandidate {
    /// Well-formed: the category has at least one candidate file.
    pub open spec fn wf(self) -> bool {
        self.files@.len() >= 1
    }
}

/// Why a catalog cannot support a generation run.
#[derive(Clone, Copy, PartialEq, Eq, Structural, Debug)]
pub enum ConfigError {
    /// The category at this index has no candidate files.
    EmptyLayer(usize),
    /// The requested count exceeds the number of distinct combinations.
    InfeasibleCount,
}

/// Why one token's attempt loop gave up.
#[derive(Clone, Copy, PartialEq, Eq, Structural, Debug)]
pub enum GenError {
    /// No novel valid combination was found within the retry budget.
    RetryExhausted,
}

/// The theoretical maximum number of distinct combinations: the product
/// of the per-category candidate counts.
pub open spec fn spec_max_combinations(files: Seq<Vec<String>>) -> int
    decreases files.len(),
{
    if files.len() == 0 {
        1
    } else {
        spec_max_combinations(files.drop_last()) * files.last()@.len()
    }
}

/// Validates the catalog and the requested count: every category must
/// have at least one candidate, and `count` must not exceed the number
/// of distinct combinations, since unique generation is then impossible.
/// `EmptyLayer` names the first empty category. On success the candidate
/// list pairs each category with its files, in declaration order.
pub fn build_catalog(
    layers: Vec<LayerConfig>,
    files: Vec<Vec<String>>,
    count: u32,
) -> (r: Result<Vec<LayerCandidate>, ConfigError>)
    requires
        layers@.len() == files@.len(),
    ensures
        match r {
            Ok(cands) => {
                &&& cands@.len() == layers@.len()
                &&& forall|j: int| 0 <= j < cands@.len() ==>
                    (#[trigger] cands@[j]).layer == layers@[j] && cands@[j].files == files@[j]
                &&& forall|j: int| 0 <= j < cands@.len() ==> (#[trigger] cands@[j]).wf()
                &&& count as int <= spec_max_combinations(files@)
            },
            Err(ConfigError::EmptyLayer(i)) => {
                &&& (i as int) < files@.len()
                &&& files@[i as int]@.len() == 0
                &&& forall|j: int| 0 <= j < i ==> (#[trigger] files@[j])@.len() >= 1
            },
            Err(ConfigError::InfeasibleCount) => {
                &&& forall|j: int| 0 <= j < files@.len() ==> (#[trigger] files@[j])@.len() >= 1
                &&& count as int > spec_max_combinations(files@)
            },
        },
{
    let ghost l0 = layers@;
    let ghost f0 = files@;
    let mut rest_layers = layers;
    let mut rest_files = files;
    let n: usize = rest_layers.len();
    let mut cands: Vec<LayerCandidate> = Vec::new();
    let mut i: usize = 0;
    proof {
        assert(layers@ =~= l0.skip(0));
        assert(files@ =~= f0.skip(0));
    }
    while i < n
        invariant
            i <= n,
            l0 == layers@,
            f0 == files@,
            n == l0.len(),
            l0.len() == f0.len(),
            rest_layers@ == l0.skip(i as int),
            rest_files@ == f0.skip(i as int),
            cands@.len() == i,
            forall|j: int| 0 <= j < i ==>
                (#[trigger] cands@[j]).layer == l0[j] && cands@[j].files == f0[j],
            forall|j: int| 0 <= j < i ==> (#[trigger] f0[j])@.len() >= 1,
        decreases n - i,
    {
        let layer = rest_layers.remove(0);
        let fs = rest_files.remove(0);
        proof {
            assert(l0.skip(i as int)[0] == l0[i as int]);
            assert(f0.skip(i as int)[0] == f0[i as int]);
            assert(l0.skip(i as int).remove(0) =~= l0.skip(i + 1));
            assert(f0.skip(i as int).remove(0) =~= f0.skip(i + 1));
        }
        if fs.len() == 0 {
            return Err(ConfigError::EmptyLayer(i));
        }
        cands.push(LayerCandidate { layer, files: fs });
        i = i + 1;
    }
    // Every category is non-empty; check feasibility of the count with a
    // saturating 128-bit product.
    let mut prod: u128 = 1;
    let mut k: usize = 0;
    proof {
        assert(f0.take(0).len() == 0);
    }
    while k < n
        invariant
            k <= n,
            l0 == layers@,
            f0 == files@,
            n == f0.len(),
            cands@.len() == n,
            forall|j: int| 0 <= j < n ==>
                (#[trigger] cands@[j]).layer == l0[j] && cands@[j].files == f0[j],
            forall|j: int| 0 <= j < n ==> (#[trigger] f0[j])@.len() >= 1,
            1 <= prod,
            prod as int <= spec_max_combinations(f0.take(k as int)),
            prod == u128::MAX || prod as int == spec_max_combinations(f0.take(k as int)),
        decreases n - k,
    {
        let len_k: u128 = cands[k].files.len() as u128;
        let ghost before = spec_max_combinations(f0.take(k as int));
        let ghost after = spec_max_combinations(f0.take(k + 1));
        proof {
            assert(f0.take(k + 1).drop_last() =~= f0.take(k as int));
            assert(f0.take(k + 1).last() == f0[k as int]);
            assert(after == before * len_k);
            lemma_mul_inequality(prod as int, before, len_k as int);
        }
        match prod.checked_mul(len_k) {
            Some(p) => {
                proof {
                    if prod == u128::MAX {
                        assert(len_k == 1) by {
                            assert(prod * len_k <= u128::MAX);
                            if len_k >= 2 {
                                assert(prod * len_k >= prod * 2) by (nonlinear_arith)
                                    requires len_k >= 2, prod >= 1;
                            }
                        }
                    }
                    assert(p >= 1) by (nonlinear_arith)
                        requires prod >= 1, len_k >= 1, p == prod * len_k;
                }
                prod = p;
            },
            None => {
                prod = u128::MAX;
            },
        }
        k = k + 1;
    }
    proof {
        assert(f0.take(n as int) =~= f0);
    }
    if (count as u128) > prod {
        return Err(ConfigError::InfeasibleCount);
    }
    Ok(cands)
}

/// One sampled combination is drawn from the catalog: one choice per
/// category in order, its path one of that category's candidates, its
/// trait name the category's name, and its value derived from the path.
pub open spec fn spec_combo_from(combo: Seq<LayerChoice>, cands: Seq<LayerCandidate>) -> bool {
    &&& combo.len() == cands.len()
    &&& forall|i: int| 0 <= i < combo.len() ==> {
        &&& (#[trigger] combo[i]).trait_type@ == cands[i].layer.name@
        &&& exists|j: int|
            0 <= j < cands[i].files@.len() && combo[i].path@ == cands[i].files@[j]@
        &&& combo[i].value@ == spec_trait_value(combo[i].path@)
    }
}

/// The category at `i` raises the sampling warning: it has a rarity
/// table whose resolved weights sum to zero.
pub open spec fn spec_warns(cands: Seq<LayerCandidate>, i: int) -> bool {
    match cands[i].layer.rarity {
        Some(t) => total_weight(spec_weights_of(cands[i].files@, t)) == 0,
        None => false,
    }
}

/// Samples one combination: one weighted draw per category, independent
/// of any earlier draw. The flag reports the sampling warning: some
/// category fell back to uniform selection over a zero-sum rarity table.
pub fn sample_combination(cands: &Vec<LayerCandidate>, rng: &mut ThreadRng) -> (res: (
    Vec<LayerChoice>,
    bool,
))
    requires
        forall|i: int| 0 <= i < cands@.len() ==> (#[trigger] cands@[i]).wf(),
    ensures
        spec_combo_from(res.0@, cands@),
        res.1 == exists|i: int| 0 <= i < cands@.len() && spec_warns(cands@, i),
{
    let n: usize = cands.len();
    let mut combo: Vec<LayerChoice> = Vec::new();
    let mut warned: bool = false;
    let mut i: usize = 0;
    while i < n
        invariant
            i <= n,
            n == cands@.len(),
            forall|t: int| 0 <= t < n ==> (#[trigger] cands@[t]).wf(),
            combo@.len() == i,
            forall|t: int| 0 <= t < i ==> {
                &&& (#[trigger] combo@[t]).trait_type@ == cands@[t].layer.name@
                &&& exists|j: int|
                    0 <= j < cands@[t].files@.len() && combo@[t].path@ == cands@[t].files@[j]@
                &&& combo@[t].value@ == spec_trait_value(combo@[t].path@)
            },
            warned == exists|t: int| 0 <= t < i && spec_warns(cands@, t),
        decreases n - i,
    {
        let cand = &cands[i];
        let (idx, w) = choose_layer_index(&cand.files, &cand.layer.rarity, rng);
        let path = cand.files[idx].clone();
        let value = trait_value_of(path.as_str());
        combo.push(LayerChoice { path, trait_type: cand.layer.name.clone(), value });
        warned = warned || w;
        proof {
            assert(combo@[i as int].path@ == cands@[i as int].files@[idx as int]@);
            if w {
                assert(spec_warns(cands@, i as int));
            }
        }
        i = i + 1;
    }
    (combo, warned)
}

/// One attempt of the assembler's loop up to its constraint check: a
/// sampled combination together with its pattern key when it satisfies
/// the forbidden pairs, nothing when the draw violated them. The flag is
/// the sampling warning. A draw can only come back empty when some
/// combination of the catalog violates the pairs; with no forbidden
/// pairs every draw is returned.
pub fn sample_valid(
    cands: &Vec<LayerCandidate>,
    pairs: &Vec<ForbiddenPair>,
    rng: &mut ThreadRng,
) -> (res: (Option<(Vec<LayerChoice>, String)>, bool))
    requires
        forall|i: int| 0 <= i < cands@.len() ==> (#[trigger] cands@[i]).wf(),
    ensures
        match res.0 {
            Some((combo, key)) => {
                &&& spec_combo_from(combo@, cands@)
                &&& !spec_violates(combo@, pairs@)
                &&& key@ == spec_pattern_key(combo@)
            },
            None => exists|c: Seq<LayerChoice>|
                spec_combo_from(c, cands@) && spec_violates(c, pairs@),
        },
{
    let (combo, warned) = sample_combination(cands, rng);
    if violates(&combo, pairs) {
        proof {
            assert(spec_combo_from(combo@, cands@) && spec_violates(combo@, pairs@));
        }
        (None, warned)
    } else {
        let key = build_pattern_key(&combo);
        (Some((combo, key)), warned)
    }
}

/// What one token's successful attempt loop hands back.
#[derive(Debug)]
pub struct TokenDraw {
    /// The accepted combination, one choice per category in order.
    pub layers: Vec<LayerChoice>,
    /// Its pattern key, freshly reserved in the ledger.
    pub pattern_key: String,
    /// Whether any category raised the sampling warning.
    pub warned: bool,
}

/// Every combination of the catalog is open to the next attempt: it
/// violates no forbidden pair and its pattern key is not among `taken`.
pub open spec fn spec_all_open(
    cands: Seq<LayerCandidate>,
    pairs: Seq<ForbiddenPair>,
    taken: Set<Seq<char>>,
) -> bool {
    forall|c: Seq<LayerChoice>| #[trigger] spec_combo_from(c, cands)
        ==> !spec_violates(c, pairs) && !taken.contains(spec_pattern_key(c))
}

/// One token's full attempt loop: sample, check the forbidden pairs,
/// and try to reserve the pattern key, at most `max_retry` times.
///
/// On success the combination is drawn from the catalog, violates no
/// forbidden pair, and its key was novel and is now reserved; the ledger
/// grows by exactly that key, so no other token can hold it. When the
/// retry budget runs out the ledger is unchanged and the token fails
/// alone with `RetryExhausted`. Failure can come only from the draws:
/// when every combination of the catalog is still open and there is at
/// least one attempt, the very first attempt succeeds whatever the
/// generator returns.
pub fn generate_token(
    cands: &Vec<LayerCandidate>,
    pairs: &Vec<ForbiddenPair>,
    ledger: &mut Ledger,
    max_retry: u32,
    rng: &mut ThreadRng,
) -> (r: Result<TokenDraw, GenError>)
    requires
        forall|i: int| 0 <= i < cands@.len() ==> (#[trigger] cands@[i]).wf(),
    ensures
        match r {
            Ok(draw) => {
                &&& spec_combo_from(draw.layers@, cands@)
                &&& !spec_violates(draw.layers@, pairs@)
                &&& draw.pattern_key@ == spec_pattern_key(draw.layers@)
                &&& !old(ledger)@.contains(draw.pattern_key@)
                &&& final(ledger)@ == old(ledger)@.insert(draw.pattern_key@)
            },
            Err(GenError::RetryExhausted) => final(ledger)@ == old(ledger)@,
        },
        max_retry >= 1 && spec_all_open(cands@, pairs@, old(ledger)@) ==> r is Ok,
{
    let mut attempt: u32 = 0;
    while attempt < max_retry
        invariant
            ledger@ == old(ledger)@,
            forall|i: int| 0 <= i < cands@.len() ==> (#[trigger] cands@[i]).wf(),
            spec_all_open(cands@, pairs@, old(ledger)@) ==> attempt == 0,
        decreases max_retry - attempt,
    {
        let (drawn, warned) = sample_valid(cands, pairs, rng);
        match drawn {
            Some((combo, key)) => {
                if ledger.try_reserve(&key) {
                    return Ok(TokenDraw { layers: combo, pattern_key: key, warned });
                }
                proof {
                    // The key was taken, so this combination's key was
                    // already reserved: not every combination was open.
                    if spec_all_open(cands@, pairs@, old(ledger)@) {
                        assert(spec_combo_from(combo@, cands@));
                        assert(false);
                    }
                }
            },
            None => {
                proof {
                    // The draw violated the pairs, so some combination
                    // of the catalog does: not every combination was open.
                    if spec_all_open(cands@, pairs@, old(ledger)@) {
                        let c = choose|c: Seq<LayerChoice>|
                            spec_combo_from(c, cands@) && spec_violates(c, pairs@);
                        assert(spec_combo_from(c, cands@));
                        assert(false);
                    }
                }
            },
        }
        attempt = attempt + 1;
    }
    Err(GenError::RetryExhausted)
}

} // verus!
