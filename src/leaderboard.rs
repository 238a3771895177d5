use vstd::prelude::*;

use crate::ranking::collect_ids;
use crate::user::User;
use std::collections::HashMap;

verus! {

broadcast use vstd::std_specs::hash::group_hash_axioms;

/// Actors shown on the leaderboard.
pub const LEADERBOARD_SIZE: usize = 10;

/// Actor `j` is listed before actor `k`: a smaller rank, or an equal rank and
/// a smaller identifier.
pub open spec fn listed_before(users: Map<u16, User>, j: u16, k: u16) -> bool {
    users[j].rank < users[k].rank || (users[j].rank == users[k].rank && j < k)
}

/// `k` is the first actor not yet in `prefix`.
pub open spec fn is_next(users: Map<u16, User>, prefix: Seq<u16>, k: u16) -> bool {
    &&& users.contains_key(k)
    &&& !prefix.contains(k)
    &&& forall|j: u16|
        users.contains_key(j) && !#[trigger] prefix.contains(j) && j != k ==> listed_before(
            users,
            k,
            j,
        )
}

/// The identifiers of the first `n` actors in leaderboard order.
pub open spec fn top_ids(users: Map<u16, User>, n: nat) -> Seq<u16>
    decreases n,
{
    if n == 0 {
        Seq::empty()
    } else {
        let p = top_ids(users, (n - 1) as nat);
        p.push(choose|k: u16| is_next(users, p, k))
    }
}

pub open spec fn users_at(users: Map<u16, User>, ids: Seq<u16>) -> Seq<User> {
    ids.map_values(|k: u16| users[k])
}

fn contains_id(v: &Vec<u16>, k: u16) -> (r: bool)
    ensures
        r == v@.contains(k),
{
    let mut i: usize = 0;
    while i < v.len()
        invariant
            i <= v@.len(),
            forall|j: int| 0 <= j < i ==> v@[j] != k,
        decreases v@.len() - i,
    {
        if v[i] == k {
            assert(v@[i as int] == k);
            return true;
        }
        i = i + 1;
    }
    false
}

/// The first `LEADERBOARD_SIZE` actors (all of them, if fewer) by rank, the
/// smaller identifier first among equal ranks.
pub fn leaderboard(users: &HashMap<u16, User>) -> (r: Vec<User>)
    ensures
        r@ == users_at(
            users@,
            top_ids(
                users@,
                if users@.len() < LEADERBOARD_SIZE {
                    users@.len()
                } else {
                    LEADERBOARD_SIZE as nat
                },
            ),
        ),
{
    let ghost m = users@;
    let ids = collect_ids(users);
    proof {
        vstd::seq_lib::seq_to_set_is_finite(ids@);
        ids@.unique_seq_to_set();
    }
    let n = ids.len();
    let count: usize = if n < LEADERBOARD_SIZE {
        n
    } else {
        LEADERBOARD_SIZE
    };
    let mut chosen: Vec<u16> = Vec::new();
    let mut out: Vec<User> = Vec::new();
    while chosen.len() < count
        invariant
            users@ == m,
            n == ids@.len(),
            ids@.no_duplicates(),
            ids@.to_set() == m.dom(),
            m.dom().len() == n,
            count <= n,
            chosen@.len() <= count,
            chosen@ == top_ids(m, chosen@.len() as nat),
            chosen@.no_duplicates(),
            forall|t: int| 0 <= t < chosen@.len() ==> m.contains_key(#[trigger] chosen@[t]),
            out@ == users_at(m, chosen@),
        decreases count - chosen@.len(),
    {
        let mut best: Option<(u16, u32)> = None;
        let mut i: usize = 0;
        while i < n
            invariant
                users@ == m,
                n == ids@.len(),
                ids@.to_set() == m.dom(),
                i <= n,
                match best {
                    Some((b, br)) => {
                        &&& m.contains_key(b)
                        &&& !chosen@.contains(b)
                        &&& br == m[b].rank
                        &&& forall|t: int|
                            0 <= t < i && !chosen@.contains(#[trigger] ids@[t]) && ids@[t] != b
                                ==> listed_before(m, b, ids@[t])
                    },
                    None => forall|t: int| 0 <= t < i ==> chosen@.contains(#[trigger] ids@[t]),
                },
            decreases n - i,
        {
            let k = ids[i];
            assert(ids@.to_set().contains(k));
            if !contains_id(&chosen, k) {
                let rk = users.get(&k).unwrap().rank;
                match best {
                    Some((b, br)) => {
                        if rk < br || (rk == br && k < b) {
                            best = Some((k, rk));
                        }
                    },
                    None => {
                        best = Some((k, rk));
                    },
                }
            }
            i = i + 1;
        }
        proof {
            if best is None {
                assert(m.dom().subset_of(chosen@.to_set())) by {
                    assert forall|k: u16| m.contains_key(k) implies chosen@.to_set().contains(k) by {
                        assert(ids@.to_set().contains(k));
                        let t = choose|t: int| 0 <= t < n && ids@[t] == k;
                        assert(chosen@.contains(ids@[t]));
                    }
                }
                chosen@.unique_seq_to_set();
                vstd::set_lib::lemma_len_subset(m.dom(), chosen@.to_set());
            }
        }
        let (b, _) = best.unwrap();
        proof {
            let p = chosen@;
            assert(is_next(m, p, b)) by {
                assert forall|j: u16| m.contains_key(j) && !#[trigger] p.contains(j) && j != b implies listed_before(m, b, j) by {
                    assert(ids@.to_set().contains(j));
                    let t = choose|t: int| 0 <= t < n && ids@[t] == j;
                    assert(!p.contains(ids@[t]));
                }
            }
            let c = choose|k: u16| is_next(m, p, k);
            if c != b {
                assert(listed_before(m, c, b));
                assert(!p.contains(c));
                assert(listed_before(m, b, c));
            }
            assert(top_ids(m, (p.len() + 1) as nat) == p.push(b));
        }
        chosen.push(b);
        let u = users.get(&b).unwrap().clone();
        out.push(u);
        proof {
            assert(out@ =~= users_at(m, chosen@));
        }
    }
    out
}

} // verus!
