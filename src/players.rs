use vstd::prelude::*;
use vstd::multiset::Multiset;

use crate::body::PlayerOut;
use crate::win::{bingos, is_grid_len, is_side, line_count};

verus! {

broadcast use vstd::seq_lib::group_to_multiset_ensures;

/// Number of checked flags.
pub open spec fn checked_count(h: Seq<bool>) -> nat
    decreases h.len(),
{
    if h.len() == 0 {
        0
    } else {
        checked_count(h.drop_last()) + if h.last() {
            1nat
        } else {
            0nat
        }
    }
}

/// Completed lines of a board given as its checked flags, zero where the
/// flags form no accepted square board.
pub open spec fn score(h: Seq<bool>) -> int {
    if is_grid_len(h.len() as int) {
        line_count(h, choose|n: int| is_side(h.len() as int, n)) as int
    } else {
        0
    }
}

/// `a` ranks strictly above `b`: more completed lines, or as many and more
/// checked cells.
pub open spec fn outranks(a: PlayerOut, b: PlayerOut) -> bool {
    a.bingos > b.bingos || (a.bingos == b.bingos && checked_count(a.hits@) > checked_count(
        b.hits@,
    ))
}

/// No player ranks strictly above one listed before it.
pub open spec fn is_ranked(s: Seq<PlayerOut>) -> bool {
    forall|i: int, j: int| 0 <= i < j < s.len() ==> !outranks(#[trigger] s[j], #[trigger] s[i])
}

/// `p` shows the player `user_id` named `username` with board flags `hits`
/// to the user `me`.
pub open spec fn shows(p: PlayerOut, user_id: u128, username: String, hits: Seq<bool>, me: u128) -> bool {
    &&& p.user_id == user_id
    &&& p.username == username
    &&& p.hits@ == hits
    &&& p.bingos == score(hits)
    &&& p.is_me == (user_id == me)
}

/// Number of checked flags in `hits`.
pub fn count_checked(hits: &Vec<bool>) -> (r: usize)
    ensures
        r == checked_count(hits@),
{
    let mut c: usize = 0;
    let mut i: usize = 0;
    while i < hits.len()
        invariant
            i <= hits.len(),
            c <= i,
            c == checked_count(hits@.subrange(0, i as int)),
        decreases hits.len() - i,
    {
        assert(hits@.subrange(0, i + 1).drop_last() =~= hits@.subrange(0, i as int));
        if hits[i] {
            c = c + 1;
        }
        i = i + 1;
    }
    assert(hits@.subrange(0, hits.len() as int) =~= hits@);
    c
}

fn copy_flags(hits: &Vec<bool>) -> (r: Vec<bool>)
    ensures
        r@ == hits@,
{
    let mut r: Vec<bool> = Vec::new();
    let mut i: usize = 0;
    while i < hits.len()
        invariant
            i <= hits.len(),
            r@ == hits@.subrange(0, i as int),
        decreases hits.len() - i,
    {
        r.push(hits[i]);
        i = i + 1;
        assert(r@ =~= hits@.subrange(0, i as int));
    }
    assert(hits@.subrange(0, hits.len() as int) =~= hits@);
    r
}

/// The view of one player for the user `me`, scored from its board flags.
pub fn player_view(user_id: u128, username: String, hits: Vec<bool>, me: u128) -> (r: PlayerOut)
    ensures
        shows(r, user_id, username, hits@, me),
{
    let flags = copy_flags(&hits);
    let lines = bingos(flags);
    proof {
        if is_grid_len(hits@.len() as int) {
            let n = choose|n: int| is_side(hits@.len() as int, n);
            assert(is_side(hits@.len() as int, n));
        }
    }
    PlayerOut { user_id, username, bingos: lines, hits, is_me: user_id == me }
}

/// Whether `a` ranks strictly above `b`.
fn ranks_above(a: &PlayerOut, b: &PlayerOut) -> (r: bool)
    ensures
        r == outranks(*a, *b),
{
    if a.bingos != b.bingos {
        a.bingos > b.bingos
    } else {
        count_checked(&a.hits) > count_checked(&b.hits)
    }
}

/// Orders players by completed lines, then by checked cells, both from most
/// to fewest.
pub fn rank_players(players: Vec<PlayerOut>) -> (r: Vec<PlayerOut>)
    ensures
        is_ranked(r@),
        r@.to_multiset() == players@.to_multiset(),
{
    let ghost all = players@;
    let mut rest = players;
    let mut ranked: Vec<PlayerOut> = Vec::new();
    while rest.len() > 0
        invariant
            is_ranked(ranked@),
            ranked@.to_multiset().add(rest@.to_multiset()) == all.to_multiset(),
        decreases rest.len(),
    {
        let ghost before = rest@;
        let p = rest.pop().unwrap();
        assert(before == rest@.push(p));
        let mut at: usize = 0;
        while at < ranked.len() && ranks_above(&ranked[at], &p)
            invariant
                at <= ranked.len(),
                forall|q: int| 0 <= q < at ==> outranks(#[trigger] ranked@[q], p),
            decreases ranked.len() - at,
        {
            at = at + 1;
        }
        let ghost old_ranked = ranked@;
        proof {
            assert forall|q: int| at <= q < old_ranked.len() implies !outranks(
                #[trigger] old_ranked[q],
                p,
            ) by {
                if q > at {
                    assert(!outranks(old_ranked[q], old_ranked[at as int]));
                }
            }
        }
        ranked.insert(at, p);
        proof {
            let s = ranked@;
            assert(s == old_ranked.insert(at as int, p));
            assert forall|i: int, j: int| 0 <= i < j < s.len() implies !outranks(
                #[trigger] s[j],
                #[trigger] s[i],
            ) by {
                if j < at {
                    assert(!outranks(old_ranked[j], old_ranked[i]));
                } else if j == at {
                    assert(outranks(old_ranked[i], p));
                } else if i == at {
                    assert(!outranks(old_ranked[j - 1], p));
                } else if i < at {
                    assert(outranks(old_ranked[i], p));
                    assert(!outranks(old_ranked[j - 1], p));
                } else {
                    assert(!outranks(old_ranked[j - 1], old_ranked[i - 1]));
                }
            }
            assert(ranked@.to_multiset().add(rest@.to_multiset()) =~= all.to_multiset());
        }
    }
    assert(rest@.to_multiset() =~= Multiset::<PlayerOut>::empty());
    assert(ranked@.to_multiset().add(rest@.to_multiset()) =~= ranked@.to_multiset());
    ranked
}

/// The name shown to the requesting user: that of the first player marked as
/// them, or "unknown" where none is.
pub fn my_username(players: &Vec<PlayerOut>) -> (r: String)
    ensures
        (exists|i: int| 0 <= i < players.len() && (#[trigger] players@[i]).is_me) ==> exists|i: int|
            0 <= i < players.len() && (#[trigger] players@[i]).is_me && r == players@[i].username
                && forall|k: int| 0 <= k < i ==> !(#[trigger] players@[k]).is_me,
        (forall|i: int| 0 <= i < players.len() ==> !(#[trigger] players@[i]).is_me) ==> r@
            == "unknown"@,
{
    let mut i: usize = 0;
    while i < players.len()
        invariant
            i <= players.len(),
            forall|k: int| 0 <= k < i ==> !(#[trigger] players@[k]).is_me,
        decreases players.len() - i,
    {
        if players[i].is_me {
            return players[i].username.clone();
        }
        i = i + 1;
    }
    "unknown".to_owned()
}

} // verus!
