//! The order of a ranking, found with an ordered map from each score to
//! the entry that holds it.

use vstd::prelude::*;
use vstd::std_specs::btree::*;
use vstd::std_specs::cmp::OrdSpec;
use vstd::std_specs::iter::IteratorSpec;
use std::collections::BTreeMap;
use crate::predict::{falls, is_first_best, represented};

verus! {

/// Scores that the map hands out in increasing order rise strictly.
proof fn lemma_increasing_scores_rise(s: Seq<u128>)
    requires
        increasing_seq(s),
    ensures
        forall|i: int, j: int| 0 <= i < j < s.len() ==> #[trigger] s[i] < #[trigger] s[j],
{
    axiom_increasing_seq_meaning(s);
    assert forall|i: int, j: int| 0 <= i < j < s.len() implies #[trigger] s[i] < #[trigger] s[j] by {
        assert(s[i].cmp_spec(&s[j]) is Less);
    }
}

/// The entries that hold a score, by rising score: each score occurs once,
/// held by the entry with the largest identity among those that have it, and
/// among entries of the same score and identity by the first.
pub fn ascending_holders(scores: &Vec<u128>, ids: &Vec<u128>) -> (asc: Vec<usize>)
    requires
        scores.len() == ids.len(),
    ensures
        forall|i: int| 0 <= i < asc.len() ==> #[trigger] asc[i] < scores.len(),
        forall|i: int, j: int|
            0 <= i < j < asc.len() ==> scores[#[trigger] asc[i] as int] < scores[#[trigger] asc[j] as int],
        forall|k: int| 0 <= k < scores.len() ==> #[trigger] represented(scores@, ids@, asc@, k),
        forall|i: int| 0 <= i < asc.len() ==> is_first_best(scores@, ids@, #[trigger] asc[i] as int),
{
    let mut best: BTreeMap<u128, usize> = BTreeMap::new();
    let mut k: usize = 0;
    while k < scores.len()
        invariant
            k <= scores.len(),
            scores.len() == ids.len(),
            forall|s: u128| #[trigger]
                best@.contains_key(s) ==> best@[s] < scores.len() && scores[best@[s] as int] == s
                    && is_first_best(scores@, ids@, best@[s] as int),
            forall|j: int|
                0 <= j < k ==> best@.contains_key(#[trigger] scores[j]) && ids[best@[scores[j]] as int]
                    >= ids[j],
        decreases scores.len() - k,
    {
        let s: u128 = scores[k];
        let replace: bool = match best.get(&s) {
            Some(holder) => ids[*holder] < ids[k],
            None => true,
        };
        if replace {
            proof {
                assert forall|j: int| 0 <= j < k && #[trigger] scores[j] == scores[k as int] implies ids[j]
                    < ids[k as int] by {
                    assert(best@.contains_key(scores[j]));
                }
            }
            best.insert(s, k);
        }
        k += 1;
    }
    let mut asc: Vec<usize> = Vec::new();
    let it = best.iter();
    let ghost all = it.remaining();
    proof {
        axiom_spec_btree_map_iter(&best);
    }
    for pair in iter: it
        invariant
            iter.seq() == all,
            all == spec_btree_map_iter(&best).remaining(),
            asc.len() == iter.index(),
            forall|i: int| 0 <= i < asc.len() ==> #[trigger] asc[i] == *all[i].1,
    {
        asc.push(*pair.1);
    }
    proof {
        assert(asc.len() == all.len());
        assert forall|i: int| 0 <= i < asc.len() implies #[trigger] asc[i] < scores.len() && scores[asc[i] as int] == *all[i].0
            && is_first_best(scores@, ids@, asc[i] as int) by {
            assert(best@.contains_key(*all[i].0));
            assert(best@[*all[i].0] == *all[i].1);
        }
        let keys_seq = all.map_values(|kv: (&u128, &usize)| *kv.0);
        assert(increasing_seq(keys_seq));
        lemma_increasing_scores_rise(keys_seq);
        assert forall|i: int, j: int| 0 <= i < j < asc.len() implies scores[#[trigger] asc[i] as int] < scores[#[trigger] asc[j] as int] by {
            assert(keys_seq[i] == *all[i].0);
            assert(keys_seq[j] == *all[j].0);
            assert(keys_seq[i] < keys_seq[j]);
        }
        assert forall|k: int| 0 <= k < scores.len() implies #[trigger] represented(
            scores@,
            ids@,
            asc@,
            k,
        ) by {
            let s = scores[k];
            assert(best@.contains_key(s));
            let h = best@[s];
            assert(all.contains((&s, &h)));
            let i = choose|i: int| 0 <= i < all.len() && all[i] == (&s, &h);
            assert(asc[i] == h);
        }
    }
    asc
}

} // verus!
