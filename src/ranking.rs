use std::collections::HashMap;
use vstd::prelude::*;
use vstd::relations::injective_on;
use vstd::set_lib::*;

use crate::user::User;

verus! {

broadcast use vstd::std_specs::hash::group_hash_axioms;

/// Actor `j` stands before actor `k` in the leaderboard: a higher score, or an
/// equal score and a smaller identifier.
pub open spec fn ahead(users: Map<u16, User>, j: u16, k: u16) -> bool {
    users[j].score > users[k].score || (users[j].score == users[k].score && j < k)
}

pub open spec fn ahead_pred(users: Map<u16, User>, k: u16) -> spec_fn(u16) -> bool {
    |j: u16| ahead(users, j, k)
}

/// The actors that stand before `k`.
pub open spec fn ahead_of(users: Map<u16, User>, k: u16) -> Set<u16> {
    users.dom().filter(ahead_pred(users, k))
}

/// The 1-based leaderboard position of `k`: one more than the number of actors
/// before it.
pub open spec fn rank_of(users: Map<u16, User>, k: u16) -> nat {
    1 + ahead_of(users, k).len()
}

/// The registry with every actor's rank set to its leaderboard position and
/// nothing else changed.
pub open spec fn with_ranks(users: Map<u16, User>) -> Map<u16, User> {
    Map::new(|k: u16| users.contains_key(k), |k: u16| User { rank: rank_of(users, k) as u32, ..users[k] })
}

/// The actor whose score is strictly higher than every other actor's is
/// ranked first.
pub proof fn lemma_top_scorer_ranked_first(users: Map<u16, User>, k: u16)
    requires
        users.contains_key(k),
        forall|j: u16| users.contains_key(j) && j != k ==> users[j].score < users[k].score,
    ensures
        rank_of(users, k) == 1,
        with_ranks(users)[k].rank == 1,
{
    assert(ahead_of(users, k) =~= Set::<u16>::empty());
}

/// An actor that stands before another gets a strictly smaller rank; in
/// particular, of two actors with equal scores the smaller identifier is
/// ranked first, and no two actors share a rank.
pub proof fn lemma_ahead_ranked_before(users: Map<u16, User>, j: u16, k: u16)
    requires
        users.dom().finite(),
        users.contains_key(j),
        users.contains_key(k),
        ahead(users, j, k),
    ensures
        rank_of(users, j) < rank_of(users, k),
{
    let aj = ahead_of(users, j);
    let ak = ahead_of(users, k);
    users.dom().lemma_len_filter(ahead_pred(users, k));
    assert(aj.subset_of(ak));
    assert(!aj.contains(j));
    assert(ak.contains(j));
    lemma_len_subset(aj.insert(j), ak);
}

/// Two distinct actors never share a rank.
pub proof fn lemma_ranks_distinct(users: Map<u16, User>, j: u16, k: u16)
    requires
        users.dom().finite(),
        users.contains_key(j),
        users.contains_key(k),
        j != k,
    ensures
        rank_of(users, j) != rank_of(users, k),
{
    if ahead(users, j, k) {
        lemma_ahead_ranked_before(users, j, k);
    } else {
        lemma_ahead_ranked_before(users, k, j);
    }
}

/// Ranking depends on the scores alone, so ranking again a registry whose
/// scores did not change leaves every rank as it was.
pub proof fn lemma_ranking_repeatable(users: Map<u16, User>)
    ensures
        with_ranks(with_ranks(users)) == with_ranks(users),
{
    let m1 = with_ranks(users);
    assert forall|k: u16| m1.contains_key(k) implies rank_of(m1, k) == rank_of(users, k) by {
        assert(ahead_of(m1, k) =~= ahead_of(users, k));
    }
    assert(with_ranks(m1) =~= m1);
}

/// Ranks depend on identifiers and scores alone: two registries with the same
/// actors and the same scores are ranked alike, whatever else differs.
pub proof fn lemma_ranks_depend_on_scores(a: Map<u16, User>, b: Map<u16, User>)
    requires
        a.dom() == b.dom(),
        forall|k: u16| a.contains_key(k) ==> #[trigger] a[k].score == b[k].score,
    ensures
        forall|k: u16| a.contains_key(k) ==> #[trigger] with_ranks(a)[k].rank == with_ranks(b)[k].rank,
{
    assert forall|k: u16| a.contains_key(k) implies #[trigger] with_ranks(a)[k].rank == with_ranks(
        b,
    )[k].rank by {
        assert(ahead_of(a, k) =~= ahead_of(b, k));
    }
}

/// A set of 16-bit identifiers has at most 65536 members.
pub proof fn lemma_u16_set_len(s: Set<u16>)
    requires
        s.finite(),
    ensures
        s.len() <= 0x10000,
{
    let f = |k: u16| k as int;
    let img = s.map(f);
    assert(injective_on(f, s));
    lemma_map_size(s, img, f);
    lemma_int_range(0, 0x10000);
    assert(img.subset_of(set_int_range(0, 0x10000)));
    lemma_len_subset(img, set_int_range(0, 0x10000));
}

/// Counting a predicate along a duplicate-free sequence, one more element.
proof fn lemma_filter_prefix_step(s: Seq<u16>, t: int, p: spec_fn(u16) -> bool)
    requires
        s.no_duplicates(),
        0 <= t < s.len(),
    ensures
        s.take(t).to_set().filter(p).finite(),
        s.take(t + 1).to_set().filter(p).len() == s.take(t).to_set().filter(p).len() + if p(
            s[t],
        ) {
            1int
        } else {
            0
        },
{
    broadcast use vstd::seq_lib::seq_to_set_is_finite;

    let a = s.take(t).to_set();
    let b = s.take(t + 1).to_set();
    assert(s.take(t + 1) == s.take(t).push(s[t]));
    assert(b == a.insert(s[t])) by {
        s.take(t).lemma_push_to_set_commute(s[t]);
    }
    a.lemma_len_filter(p);
    assert(!a.contains(s[t])) by {
        if a.contains(s[t]) {
            let i = choose|i: int| 0 <= i < t && s.take(t)[i] == s[t];
            assert(s[i] == s[t]);
        }
    }
    if p(s[t]) {
        assert(b.filter(p) == a.filter(p).insert(s[t]));
    } else {
        assert(b.filter(p) == a.filter(p));
    }
}

/// The identifiers of a map, in the order the map hands them out.
pub(crate) fn collect_ids(users: &HashMap<u16, User>) -> (ids: Vec<u16>)
    ensures
        ids@.no_duplicates(),
        ids@.to_set() == users@.dom(),
{
    let mut ids: Vec<u16> = Vec::new();
    for k in it: users.keys()
        invariant
            ids@ == it.seq().take(it.index()).unref(),
            it.seq().unref().to_set() == users@.dom(),
            it.seq().unref().no_duplicates(),
            it.index() == it.seq().len() ==> ids@.to_set() == users@.dom() && ids@.no_duplicates(),
    {
        ids.push(*k);
        assert(ids@ == it.seq().take(it.index() + 1).unref());
        assert(it.index() + 1 == it.seq().len() ==> ids@ == it.seq().unref());
    }
    ids
}

/// Sets the rank of every actor to its leaderboard position: by score,
/// highest first; among equal scores, the smaller identifier first.
pub fn assign_ranks(users: &mut HashMap<u16, User>)
    ensures
        final(users)@ == with_ranks(old(users)@),
{
    let ids = collect_ids(users);
    let ghost m = users@;
    proof {
        vstd::seq_lib::seq_to_set_is_finite(ids@);
        ids@.unique_seq_to_set();
        lemma_u16_set_len(m.dom());
    }
    let n = ids.len();
    let mut scores: Vec<u32> = Vec::new();
    let mut i: usize = 0;
    while i < n
        invariant
            n == ids@.len(),
            users@ == m,
            ids@.to_set() == m.dom(),
            scores@.len() == i,
            i <= n,
            forall|t: int| 0 <= t < i ==> scores@[t] == m[ids@[t]].score,
        decreases n - i,
    {
        assert(m.dom().contains(ids@[i as int]));
        let s = users.get(&ids[i]).unwrap().score;
        scores.push(s);
        i = i + 1;
    }
    let mut ranks: Vec<u32> = Vec::new();
    i = 0;
    while i < n
        invariant
            n == ids@.len(),
            n <= 0x10000,
            ids@.no_duplicates(),
            ids@.to_set() == m.dom(),
            scores@.len() == n,
            forall|t: int| 0 <= t < n ==> scores@[t] == m[ids@[t]].score,
            ranks@.len() == i,
            i <= n,
            forall|t: int| 0 <= t < i ==> ranks@[t] == rank_of(m, ids@[t]),
        decreases n - i,
    {
        let ghost k = ids@[i as int];
        let mut count: u32 = 0;
        let mut j: usize = 0;
        assert(ids@.take(0).to_set().filter(ahead_pred(m, k)) =~= Set::<u16>::empty());
        while j < n
            invariant
                n == ids@.len(),
                n <= 0x10000,
                0 <= i < n,
                k == ids@[i as int],
                ids@.no_duplicates(),
                scores@.len() == n,
                forall|t: int| 0 <= t < n ==> scores@[t] == m[ids@[t]].score,
                j <= n,
                count <= j,
                count == ids@.take(j as int).to_set().filter(ahead_pred(m, k)).len(),
            decreases n - j,
        {
            proof {
                lemma_filter_prefix_step(ids@, j as int, ahead_pred(m, k));
            }
            if scores[j] > scores[i] || (scores[j] == scores[i] && ids[j] < ids[i]) {
                count = count + 1;
            }
            j = j + 1;
        }
        assert(ids@.take(n as int) == ids@);
        ranks.push(count + 1);
        i = i + 1;
    }
    i = 0;
    while i < n
        invariant
            n == ids@.len(),
            ids@.no_duplicates(),
            ids@.to_set() == m.dom(),
            ranks@.len() == n,
            forall|t: int| 0 <= t < n ==> ranks@[t] == rank_of(m, ids@[t]),
            i <= n,
            users@.dom() == m.dom(),
            forall|t: int|
                0 <= t < i ==> users@[#[trigger] ids@[t]] == (User {
                    rank: rank_of(m, ids@[t]) as u32,
                    ..m[ids@[t]]
                }),
            forall|t: int| i <= t < n ==> users@[#[trigger] ids@[t]] == m[ids@[t]],
        decreases n - i,
    {
        let id = ids[i];
        assert(ids@.to_set().contains(id));
        let mut u = users.remove(&id).unwrap();
        u.rank = ranks[i];
        users.insert(id, u);
        proof {
            assert forall|t: int| 0 <= t < n && t != i implies ids@[t] != id by {
                assert(ids@.no_duplicates());
            }
        }
        i = i + 1;
    }
    proof {
        assert forall|k: u16| m.contains_key(k) implies #[trigger] users@[k] == (User {
            rank: rank_of(m, k) as u32,
            ..m[k]
        }) by {
            assert(ids@.to_set().contains(k));
            let t = choose|t: int| 0 <= t < n && ids@[t] == k;
            assert(users@[ids@[t]] == users@[k]);
        }
        assert(users@ =~= with_ranks(m));
    }
}

} // verus!
