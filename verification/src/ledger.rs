//! The uniqueness ledger: the pattern key of a combination, and the shared
//! registry of keys already taken. A key, once reserved, is never removed,
//! and of two attempts to reserve the same key exactly one succeeds.

use vstd::prelude::*;
use crate::choice::LayerChoice;

verus! {

/// The pattern key of a combination: the chosen files' full paths in
/// category order, joined by `|`. It identifies the combination by its
/// source assets, not by its trait values.
pub open spec fn spec_pattern_key(layers: Seq<LayerChoice>) -> Seq<char>
    decreases layers.len(),
{
    if layers.len() == 0 {
        Seq::empty()
    } else if layers.len() == 1 {
        layers[0].path@
    } else {
        spec_pattern_key(layers.drop_last()) + "|"@ + layers.last().path@
    }
}

/// Builds the pattern key of a combination.
pub fn build_pattern_key(layers: &Vec<LayerChoice>) -> (key: String)
    ensures
        key@ == spec_pattern_key(layers@),
{
    let mut key = String::new();
    let n: usize = layers.len();
    let mut i: usize = 0;
    while i < n
        invariant
            i <= n,
            n == layers@.len(),
            key@ == spec_pattern_key(layers@.take(i as int)),
        decreases n - i,
    {
        if i > 0 {
            key.append("|");
        }
        key.append(layers[i].path.as_str());
        proof {
            let taken = layers@.take(i + 1);
            assert(taken.drop_last() =~= layers@.take(i as int));
            assert(taken.last() == layers@[i as int]);
            if i == 0 {
                assert(key@ =~= spec_pattern_key(taken));
            }
        }
        i = i + 1;
    }
    proof {
        assert(layers@.take(n as int) =~= layers@);
    }
    key
}

/// The registry of pattern keys already taken by accepted combinations.
pub struct Ledger {
    keys: Vec<String>,
}

impl View for Ledger {
    type V = Set<Seq<char>>;

    /// The set of keys reserved so far.
    closed spec fn view(&self) -> Set<Seq<char>> {
        Set::new(|k: Seq<char>| exists|i: int| 0 <= i < self.keys@.len() && self.keys@[i]@ == k)
    }
}

impl Ledger {
    /// An empty ledger: no key is taken.
    pub fn new() -> (l: Ledger)
        ensures
            l@ == Set::<Seq<char>>::empty(),
    {
        let l = Ledger { keys: Vec::new() };
        proof {
            assert(l@ =~= Set::<Seq<char>>::empty());
        }
        l
    }

    /// Whether a key has already been reserved.
    pub fn contains_key(&self, key: &String) -> (r: bool)
        ensures
            r == self@.contains(key@),
    {
        let n: usize = self.keys.len();
        let mut i: usize = 0;
        while i < n
            invariant
                i <= n,
                n == self.keys@.len(),
                forall|j: int| 0 <= j < i ==> self.keys@[j]@ != key@,
            decreases n - i,
        {
            if self.keys[i] == *key {
                return true;
            }
            i = i + 1;
        }
        false
    }

    /// The atomic check-and-insert: succeeds and records the key iff it
    /// was not yet taken; a taken key leaves the ledger unchanged. Keys
    /// are never removed.
    pub fn try_reserve(&mut self, key: &String) -> (fresh: bool)
        ensures
            fresh == !old(self)@.contains(key@),
            final(self)@ == if fresh {
                old(self)@.insert(key@)
            } else {
                old(self)@
            },
    {
        if self.contains_key(key) {
            return false;
        }
        self.keys.push(key.clone());
        proof {
            assert forall|k: Seq<char>| final(self)@.contains(k)
                implies old(self)@.insert(key@).contains(k) by {
                let i = choose|i: int|
                    0 <= i < final(self).keys@.len() && final(self).keys@[i]@ == k;
                if i < old(self).keys@.len() {
                    assert(old(self)@.contains(k));
                }
            }
            assert forall|k: Seq<char>| old(self)@.insert(key@).contains(k)
                implies final(self)@.contains(k) by {
                if k == key@ {
                    assert(final(self).keys@[old(self).keys@.len() as int]@ == k);
                } else {
                    let i = choose|i: int|
                        0 <= i < old(self).keys@.len() && old(self).keys@[i]@ == k;
                    assert(final(self).keys@[i]@ == k);
                }
            }
            assert(final(self)@ =~= old(self)@.insert(key@));
        }
        true
    }
}

/// A run of reservations that all succeeded, starting from the key set
/// `s0`: each key was fresh with respect to `s0` and to all keys reserved
/// before it.
pub open spec fn spec_all_reserved(s0: Set<Seq<char>>, ks: Seq<Seq<char>>) -> bool
    decreases ks.len(),
{
    if ks.len() == 0 {
        true
    } else {
        !s0.contains(ks[0]) && spec_all_reserved(s0.insert(ks[0]), ks.drop_first())
    }
}

/// A key already in the set never comes back in a run of successful
/// reservations.
proof fn lemma_reserved_avoid(s0: Set<Seq<char>>, ks: Seq<Seq<char>>, k: Seq<char>)
    requires
        spec_all_reserved(s0, ks),
        s0.contains(k),
    ensures
        forall|i: int| 0 <= i < ks.len() ==> ks[i] != k,
    decreases ks.len(),
{
    if ks.len() > 0 {
        lemma_reserved_avoid(s0.insert(ks[0]), ks.drop_first(), k);
        assert forall|i: int| 0 <= i < ks.len() implies ks[i] != k by {
            if i > 0 {
                assert(ks.drop_first()[i - 1] == ks[i]);
            }
        }
    }
}

/// Law: the pattern keys of the tokens a run emits have no duplicates.
/// Every emitted token made one successful reservation, and a run of
/// successful reservations carries pairwise distinct keys.
pub proof fn lemma_reserved_keys_distinct(s0: Set<Seq<char>>, ks: Seq<Seq<char>>)
    requires
        spec_all_reserved(s0, ks),
    ensures
        forall|i: int, j: int| 0 <= i < j < ks.len() ==> ks[i] != ks[j],
    decreases ks.len(),
{
    if ks.len() > 0 {
        lemma_reserved_keys_distinct(s0.insert(ks[0]), ks.drop_first());
        lemma_reserved_avoid(s0.insert(ks[0]), ks.drop_first(), ks[0]);
        assert forall|i: int, j: int| 0 <= i < j < ks.len() implies ks[i] != ks[j] by {
            if i > 0 {
                assert(ks.drop_first()[i - 1] == ks[i]);
                assert(ks.drop_first()[j - 1] == ks[j]);
            } else {
                assert(ks.drop_first()[j - 1] == ks[j]);
            }
        }
    }
}

} // verus!
