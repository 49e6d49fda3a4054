//! The sampler: weighted-random selection of one candidate per category
//! by cumulative-weight inverse transform over integer weights.
//!
//! A draw is one uniform value `r` below the total weight; the selected
//! candidate is the one whose cumulative-weight interval contains `r`, so
//! each candidate owns exactly `weight` of the equally likely draws
//! (`lemma_weighted_share`).

use vstd::prelude::*;
use crate::config::{RarityEntry, RarityTable};
use crate::paths::{file_name_of, spec_file_name};
use crate::rng::rng_below;
use rand::rngs::ThreadRng;

verus! {

/// The weight a rarity table gives one candidate file name: the first
/// entry for that name, or the table's default weight when none exists.
pub open spec fn spec_weight_for(
    entries: Seq<RarityEntry>,
    default_weight: u64,
    name: Seq<char>,
) -> u64
    decreases entries.len(),
{
    if entries.len() == 0 {
        default_weight
    } else if entries[0].file_name@ == name {
        entries[0].weight
    } else {
        spec_weight_for(entries.drop_first(), default_weight, name)
    }
}

/// The weights of a candidate list under a rarity table, looked up by
/// each candidate path's file-name component.
pub open spec fn spec_weights_of(files: Seq<String>, table: RarityTable) -> Seq<u64> {
    Seq::new(
        files.len(),
        |i: int| spec_weight_for(table.entries@, table.default_weight, spec_file_name(files[i]@)),
    )
}

/// The sum of the first `i` weights.
pub open spec fn cum_weight(ws: Seq<u64>, i: int) -> int
    decreases i,
{
    if i <= 0 {
        0
    } else {
        cum_weight(ws, i - 1) + ws[i - 1]
    }
}

/// The sum of all weights: the size of the draw space.
pub open spec fn total_weight(ws: Seq<u64>) -> int {
    cum_weight(ws, ws.len() as int)
}

/// The candidate the inverse transform selects for draw `r`: the first
/// index whose cumulative-weight interval contains `r`.
pub open spec fn spec_pick(ws: Seq<u64>, r: int) -> int
    decreases ws.len(),
{
    if ws.len() == 0 {
        0
    } else if r < ws[0] {
        0
    } else {
        1 + spec_pick(ws.drop_first(), r - ws[0])
    }
}

/// Cumulative weights are monotone in the index.
proof fn lemma_cum_mono(ws: Seq<u64>, i: int, j: int)
    requires
        0 <= i <= j <= ws.len(),
    ensures
        cum_weight(ws, i) <= cum_weight(ws, j),
    decreases j,
{
    if j > i {
        lemma_cum_mono(ws, i, j - 1);
    }
}

/// A cumulative weight of `i` terms is at most `i` times the largest
/// possible weight.
proof fn lemma_cum_bound(ws: Seq<u64>, i: int)
    requires
        0 <= i <= ws.len(),
    ensures
        cum_weight(ws, i) <= i * 18446744073709551615,
    decreases i,
{
    if i > 0 {
        lemma_cum_bound(ws, i - 1);
        assert((i - 1) * 18446744073709551615 + 18446744073709551615
            == i * 18446744073709551615) by (nonlinear_arith);
    }
}

/// Dropping the first weight shifts cumulative sums by that weight.
proof fn lemma_cum_drop_first(ws: Seq<u64>, j: int)
    requires
        ws.len() >= 1,
        0 <= j <= ws.len() - 1,
    ensures
        cum_weight(ws.drop_first(), j) == cum_weight(ws, j + 1) - ws[0],
    decreases j,
{
    if j > 0 {
        lemma_cum_drop_first(ws, j - 1);
        assert(ws.drop_first()[j - 1] == ws[j]);
    } else {
        assert(cum_weight(ws.drop_first(), 0) == 0);
        assert(cum_weight(ws, 0) == 0);
        assert(cum_weight(ws, 1) == cum_weight(ws, 0) + ws[0]);
    }
}

/// Law: the draws that select candidate `i` are exactly the `r` with
/// `cum_weight(ws, i) <= r < cum_weight(ws, i) + ws[i]` — an interval of
/// exactly `ws[i]` of the `total_weight(ws)` equally likely draws, so the
/// selection frequency of each candidate is proportional to its weight.
pub proof fn lemma_weighted_share(ws: Seq<u64>, i: int, r: int)
    requires
        0 <= i < ws.len(),
        cum_weight(ws, i) <= r < cum_weight(ws, i) + ws[i],
    ensures
        spec_pick(ws, r) == i,
        0 <= r < total_weight(ws),
    decreases i,
{
    lemma_cum_mono(ws, 0, i);
    assert(cum_weight(ws, i + 1) == cum_weight(ws, i) + ws[i]);
    lemma_cum_mono(ws, i + 1, ws.len() as int);
    if i > 0 {
        lemma_cum_mono(ws, 1, i);
        assert(cum_weight(ws, 1) == ws[0]);
        lemma_cum_drop_first(ws, i - 1);
        assert(ws.drop_first()[i - 1] == ws[i]);
        lemma_weighted_share(ws.drop_first(), i - 1, r - ws[0]);
    }
}

/// Looks up the weight of one candidate file name in a rarity table.
pub fn weight_for(table: &RarityTable, name: &String) -> (w: u64)
    ensures
        w == spec_weight_for(table.entries@, table.default_weight, name@),
{
    let ghost entries = table.entries@;
    let n: usize = table.entries.len();
    proof {
        assert(entries.skip(0) =~= entries);
    }
    let mut i: usize = 0;
    while i < n
        invariant
            i <= n,
            n == entries.len(),
            entries == table.entries@,
            spec_weight_for(entries, table.default_weight, name@)
                == spec_weight_for(entries.skip(i as int), table.default_weight, name@),
        decreases n - i,
    {
        proof {
            assert(entries.skip(i as int)[0] == entries[i as int]);
            assert(entries.skip(i as int).drop_first() =~= entries.skip(i + 1));
        }
        if table.entries[i].file_name == *name {
            return table.entries[i].weight;
        }
        i = i + 1;
    }
    table.default_weight
}

/// Resolves the weight of every candidate of one category.
pub fn resolve_weights(files: &Vec<String>, table: &RarityTable) -> (ws: Vec<u64>)
    ensures
        ws@ == spec_weights_of(files@, *table),
{
    let mut ws: Vec<u64> = Vec::new();
    let n: usize = files.len();
    let mut i: usize = 0;
    while i < n
        invariant
            i <= n,
            n == files@.len(),
            ws@.len() == i,
            forall|j: int| 0 <= j < i ==> ws@[j] == spec_weights_of(files@, *table)[j],
        decreases n - i,
    {
        let name = file_name_of(files[i].as_str());
        ws.push(weight_for(table, &name));
        i = i + 1;
    }
    proof {
        assert(ws@ =~= spec_weights_of(files@, *table));
    }
    ws
}

/// Sums all weights; the sum of at most `usize::MAX` 64-bit weights
/// always fits in 128 bits.
pub fn total_of(ws: &Vec<u64>) -> (t: u128)
    ensures
        t as int == total_weight(ws@),
{
    let n: usize = ws.len();
    let mut acc: u128 = 0;
    let mut i: usize = 0;
    while i < n
        invariant
            i <= n,
            n == ws@.len(),
            acc as int == cum_weight(ws@, i as int),
        decreases n - i,
    {
        proof {
            lemma_cum_bound(ws@, i + 1);
            assert((i + 1) * 18446744073709551615 <= 18446744073709551616 * 18446744073709551615)
                by (nonlinear_arith)
                requires i + 1 <= 18446744073709551616;
        }
        acc = acc + ws[i] as u128;
        i = i + 1;
    }
    acc
}

/// The inverse transform: the candidate whose cumulative-weight interval
/// contains the draw `r`.
pub fn pick_weighted(ws: &Vec<u64>, r: u128) -> (i: usize)
    requires
        (r as int) < total_weight(ws@),
    ensures
        i < ws@.len(),
        cum_weight(ws@, i as int) <= r as int,
        (r as int) < cum_weight(ws@, i as int) + ws@[i as int],
        i as int == spec_pick(ws@, r as int),
{
    let n: usize = ws.len();
    let mut acc: u128 = 0;
    let mut i: usize = 0;
    while i < n
        invariant
            i <= n,
            n == ws@.len(),
            acc as int == cum_weight(ws@, i as int),
            acc as int <= r as int,
            (r as int) < total_weight(ws@),
        decreases n - i,
    {
        proof {
            lemma_cum_bound(ws@, i + 1);
            assert((i + 1) * 18446744073709551615 <= 18446744073709551616 * 18446744073709551615)
                by (nonlinear_arith)
                requires i + 1 <= 18446744073709551616;
        }
        let step: u128 = acc + ws[i] as u128;
        if r < step {
            proof {
                lemma_weighted_share(ws@, i as int, r as int);
            }
            return i;
        }
        acc = step;
        i = i + 1;
    }
    proof {
        assert(false);
    }
    0
}

/// Selects one candidate index for a category: by rarity weights when a
/// table is present and usable, uniformly otherwise. The second result is
/// the sampling warning: the table was present but its weights sum to
/// zero, so the selection fell back to uniform. A weighted selection
/// never returns a candidate of weight zero.
pub fn choose_layer_index(
    files: &Vec<String>,
    rarity: &Option<RarityTable>,
    rng: &mut ThreadRng,
) -> (res: (usize, bool))
    requires
        files@.len() >= 1,
    ensures
        res.0 < files@.len(),
        match rarity {
            Some(t) => {
                &&& res.1 == (total_weight(spec_weights_of(files@, *t)) == 0)
                &&& (total_weight(spec_weights_of(files@, *t)) > 0
                    ==> spec_weights_of(files@, *t)[res.0 as int] > 0)
            },
            None => res.1 == false,
        },
{
    match rarity {
        None => {
            let r = rng_below(rng, files.len() as u128);
            ((r as usize), false)
        },
        Some(table) => {
            let ws = resolve_weights(files, table);
            let total = total_of(&ws);
            if total == 0 {
                let r = rng_below(rng, files.len() as u128);
                ((r as usize), true)
            } else {
                let r = rng_below(rng, total);
                let i = pick_weighted(&ws, r);
                (i, false)
            }
        },
    }
}

} // verus!
