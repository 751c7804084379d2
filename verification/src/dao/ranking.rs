//! The order in which accounts are preferred, and the choice of the first
//! preferred one.

use vstd::prelude::*;

use crate::model::account::{multiplier_key, total_order_key};
use crate::text::{
    compare_char_slices, compare_chars, compare_int, lemma_compare_chars_antisym,
    lemma_compare_chars_lexicographic, lemma_compare_chars_trans,
};

verus! {

/// What an account is ranked by: whether it lists the requested model,
/// its priority, its multiplier (as `f64` bits), its average probe duration,
/// its lower-cased name and its id.
pub struct RankKey {
    pub explicit: bool,
    pub priority: i64,
    pub multiplier: u64,
    pub duration: Option<i64>,
    pub name: Vec<char>,
    pub id: Vec<char>,
}

/// A [`RankKey`] as plain values.
pub struct Rank {
    pub explicit: bool,
    pub priority: int,
    pub multiplier: u64,
    pub duration: Option<i64>,
    pub name: Seq<char>,
    pub id: Seq<char>,
}

impl View for RankKey {
    type V = Rank;

    open spec fn view(&self) -> Rank {
        Rank {
            explicit: self.explicit,
            priority: self.priority as int,
            multiplier: self.multiplier,
            duration: self.duration,
            name: self.name@,
            id: self.id@,
        }
    }
}

/// A missing average duration counts as the longest.
pub open spec fn duration_key(d: Option<i64>) -> int {
    match d {
        Some(v) => v as int,
        None => i64::MAX as int,
    }
}

/// `x`, or `y` when `x` is 0 (`Ordering::then`).
pub open spec fn tie_break(x: int, y: int) -> int {
    if x != 0 {
        x
    } else {
        y
    }
}

/// Accounts listing the model explicitly first.
pub open spec fn compare_explicit(a: bool, b: bool) -> int {
    if a == b {
        0
    } else if a {
        -1
    } else {
        1
    }
}

/// The preference order: negative when `a` is preferred to `b`. Explicit
/// listing first, then higher priority, lower multiplier (in `total_cmp`
/// order), shorter average duration (missing counts as longest), then name
/// and id.
pub open spec fn compare_rank(a: Rank, b: Rank) -> int {
    tie_break(
        compare_explicit(a.explicit, b.explicit),
        tie_break(
            compare_int(b.priority, a.priority),
            tie_break(
                compare_int(total_order_key(a.multiplier), total_order_key(b.multiplier)),
                tie_break(
                    compare_int(duration_key(a.duration), duration_key(b.duration)),
                    tie_break(compare_chars(a.name, b.name), compare_chars(a.id, b.id)),
                ),
            ),
        ),
    )
}

/// The preference order, key by key: an account that lists the model is
/// preferred to one that does not; then the higher priority; then, for
/// non-negative multipliers, the lower multiplier; then the shorter average
/// duration, a missing duration counting as `i64::MAX`.
pub proof fn lemma_rank_preferences(a: Rank, b: Rank)
    ensures
        a.explicit && !b.explicit ==> compare_rank(a, b) < 0,
        a.explicit == b.explicit && a.priority > b.priority ==> compare_rank(a, b) < 0,
        a.explicit == b.explicit && a.priority == b.priority && a.multiplier < b.multiplier
            < 0x8000_0000_0000_0000u64 ==> compare_rank(a, b) < 0,
        a.explicit == b.explicit && a.priority == b.priority && a.multiplier == b.multiplier && (match a.duration {
            Some(v) => v as int,
            None => i64::MAX as int,
        }) < (match b.duration {
            Some(v) => v as int,
            None => i64::MAX as int,
        }) ==> compare_rank(a, b) < 0,
{
}

/// The last keys of the preference order: with every earlier key equal, the
/// lower-cased name that comes first in `str` order is preferred, and with
/// equal names, the id that comes first: `k` characters are shared before
/// the first one ends or the two differ.
pub proof fn lemma_rank_name_then_id(a: Rank, b: Rank, k: int)
    requires
        a.explicit == b.explicit,
        a.priority == b.priority,
        a.multiplier == b.multiplier,
        a.duration == b.duration,
    ensures
        ({
            &&& 0 <= k <= a.name.len()
            &&& k <= b.name.len()
            &&& forall|j: int| 0 <= j < k ==> a.name[j] == b.name[j]
            &&& (k == a.name.len() && k < b.name.len()) || (k < a.name.len() && k < b.name.len() && (
            a.name[k] as int) < (b.name[k] as int))
        }) ==> compare_rank(a, b) < 0,
        ({
            &&& a.name == b.name
            &&& 0 <= k <= a.id.len()
            &&& k <= b.id.len()
            &&& forall|j: int| 0 <= j < k ==> a.id[j] == b.id[j]
            &&& (k == a.id.len() && k < b.id.len()) || (k < a.id.len() && k < b.id.len() && (a.id[k] as int)
                < (b.id[k] as int))
        }) ==> compare_rank(a, b) < 0,
{
    if 0 <= k <= a.name.len() && k <= b.name.len() && (forall|j: int| 0 <= j < k ==> a.name[j] == b.name[j])
        && ((k == a.name.len() && k < b.name.len()) || (k < a.name.len() && k < b.name.len() && (
    a.name[k] as int) < (b.name[k] as int))) {
        lemma_compare_chars_lexicographic(a.name, b.name, k);
    }
    if a.name == b.name {
        lemma_compare_chars_antisym(a.name, b.name);
        if 0 <= k <= a.id.len() && k <= b.id.len() && (forall|j: int| 0 <= j < k ==> a.id[j] == b.id[j]) && ((
        k == a.id.len() && k < b.id.len()) || (k < a.id.len() && k < b.id.len() && (a.id[k] as int) < (
        b.id[k] as int))) {
            lemma_compare_chars_lexicographic(a.id, b.id, k);
        }
    }
}

/// `compare_rank` is antisymmetric and transitive, strictly when either step
/// is strict: a total preorder.
pub proof fn lemma_compare_rank(a: Rank, b: Rank, c: Rank)
    ensures
        compare_rank(a, b) == -compare_rank(b, a),
        compare_rank(a, b) <= 0 && compare_rank(b, c) <= 0 ==> compare_rank(a, c) <= 0,
        compare_rank(a, b) < 0 && compare_rank(b, c) <= 0 ==> compare_rank(a, c) < 0,
        compare_rank(a, b) <= 0 && compare_rank(b, c) < 0 ==> compare_rank(a, c) < 0,
{
    lemma_compare_chars_antisym(a.name, b.name);
    lemma_compare_chars_antisym(b.name, c.name);
    lemma_compare_chars_antisym(a.name, c.name);
    lemma_compare_chars_antisym(a.id, b.id);
    lemma_compare_chars_antisym(b.id, c.id);
    lemma_compare_chars_antisym(a.id, c.id);
    if compare_chars(a.name, b.name) <= 0 && compare_chars(b.name, c.name) <= 0 {
        lemma_compare_chars_trans(a.name, b.name, c.name);
    }
    if compare_chars(a.id, b.id) <= 0 && compare_chars(b.id, c.id) <= 0 {
        lemma_compare_chars_trans(a.id, b.id, c.id);
    }
}

/// Index `i` holds the first of the most preferred ranks: no rank is
/// preferred to it, and it is preferred to every rank before it (what the
/// first element is after a stable sort, or what `min_by` returns).
pub open spec fn is_first_best(ranks: Seq<Rank>, i: int) -> bool {
    &&& 0 <= i < ranks.len()
    &&& forall|j: int| 0 <= j < ranks.len() ==> compare_rank(ranks[i], #[trigger] ranks[j]) <= 0
    &&& forall|j: int| 0 <= j < i ==> compare_rank(ranks[i], #[trigger] ranks[j]) < 0
}

/// There is at most one first best index.
pub proof fn lemma_first_best_unique(ranks: Seq<Rank>, i: int, k: int)
    requires
        is_first_best(ranks, i),
        is_first_best(ranks, k),
    ensures
        i == k,
{
    lemma_compare_rank(ranks[i], ranks[k], ranks[i]);
    if i < k {
        assert(compare_rank(ranks[k], ranks[i]) < 0);
        assert(compare_rank(ranks[i], ranks[k]) <= 0);
    } else if k < i {
        assert(compare_rank(ranks[i], ranks[k]) < 0);
        assert(compare_rank(ranks[k], ranks[i]) <= 0);
    }
}

/// The views of a list of keys.
pub open spec fn ranks_view(keys: Seq<RankKey>) -> Seq<Rank> {
    keys.map_values(|k: RankKey| k@)
}

/// `compare_rank` of two keys, as -1, 0 or 1.
pub fn compare_keys(a: &RankKey, b: &RankKey) -> (r: i8)
    ensures
        r == compare_rank(a@, b@),
{
    if a.explicit != b.explicit {
        return if a.explicit {
            -1
        } else {
            1
        };
    }
    if a.priority != b.priority {
        return if b.priority < a.priority {
            -1
        } else {
            1
        };
    }
    let ka = multiplier_key(a.multiplier);
    let kb = multiplier_key(b.multiplier);
    if ka != kb {
        return if ka < kb {
            -1
        } else {
            1
        };
    }
    let da = match a.duration {
        Some(v) => v,
        None => i64::MAX,
    };
    let db = match b.duration {
        Some(v) => v,
        None => i64::MAX,
    };
    if da != db {
        return if da < db {
            -1
        } else {
            1
        };
    }
    let by_name = compare_char_slices(a.name.as_slice(), b.name.as_slice());
    if by_name != 0 {
        return by_name;
    }
    compare_char_slices(a.id.as_slice(), b.id.as_slice())
}

/// The index of the first most preferred key, `None` for no keys.
pub fn first_best(keys: &Vec<RankKey>) -> (r: Option<usize>)
    ensures
        r is None <==> keys@.len() == 0,
        r matches Some(i) ==> is_first_best(ranks_view(keys@), i as int),
{
    if keys.len() == 0 {
        return None;
    }
    let ghost ranks = ranks_view(keys@);
    let mut best: usize = 0;
    let mut i: usize = 1;
    proof {
        lemma_compare_rank(ranks[0], ranks[0], ranks[0]);
    }
    while i < keys.len()
        invariant
            ranks == ranks_view(keys@),
            best < i <= keys@.len(),
            forall|j: int| 0 <= j < i ==> compare_rank(ranks[best as int], #[trigger] ranks[j]) <= 0,
            forall|j: int| 0 <= j < best ==> compare_rank(ranks[best as int], #[trigger] ranks[j]) < 0,
        decreases keys@.len() - i,
    {
        let c = compare_keys(&keys[i], &keys[best]);
        assert(ranks[i as int] == keys@[i as int]@);
        assert(ranks[best as int] == keys@[best as int]@);
        if c < 0 {
            proof {
                assert forall|j: int| 0 <= j < i + 1 implies compare_rank(
                    ranks[i as int],
                    #[trigger] ranks[j],
                ) <= 0 && (j < i ==> compare_rank(ranks[i as int], ranks[j]) < 0) by {
                    lemma_compare_rank(ranks[i as int], ranks[best as int], ranks[j]);
                    lemma_compare_rank(ranks[i as int], ranks[i as int], ranks[i as int]);
                }
            }
            best = i;
        } else {
            proof {
                lemma_compare_rank(ranks[i as int], ranks[best as int], ranks[i as int]);
            }
        }
        i = i + 1;
    }
    Some(best)
}

} // verus!
