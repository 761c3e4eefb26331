//! Building result lists ordered newest first.

use vstd::prelude::*;
use vstd::seq_lib::to_multiset_insert;
use crate::invitation::LeagueInvitation;
use crate::league::{league_views, League};
use crate::state::{invitations_newest_first, leagues_newest_first};

verus! {

/// Inserts `l` into `out`, which lists the newest league first, keeping that order.
pub fn insert_league_newest_first(out: &mut Vec<League>, l: League)
    requires
        leagues_newest_first(league_views(old(out)@)),
    ensures
        leagues_newest_first(league_views(final(out)@)),
        league_views(final(out)@).to_multiset() == league_views(old(out)@).to_multiset().insert(l@),
{
    let ghost before = league_views(out@);
    let ghost x = l@;
    let mut p: usize = 0;
    while p < out.len() && out[p].created_at > l.created_at
        invariant
            p <= out.len(),
            out@ == old(out)@,
            before == league_views(out@),
            x == l@,
            forall|j: int| 0 <= j < p ==> (#[trigger] before[j]).created_at > x.created_at,
        decreases out.len() - p,
    {
        assert(before[p as int] == out@[p as int]@);
        p = p + 1;
    }
    out.insert(p, l);
    proof {
        let after = league_views(out@);
        assert(after =~= before.insert(p as int, x));
        to_multiset_insert(before, p as int, x);
        assert forall|i: int, j: int| 0 <= i < j < after.len() implies after[i].created_at
            >= after[j].created_at by {
            if j < p {
            } else if j == p {
                assert(after[i] == before[i]);
            } else if i < p {
                assert(after[j] == before[j - 1]);
                assert(after[i] == before[i]);
            } else if i == p {
                assert(after[j] == before[j - 1]);
                assert(before[p as int].created_at <= x.created_at);
            } else {
                assert(after[j] == before[j - 1]);
                assert(after[i] == before[i - 1]);
            }
        }
    }
}

/// Inserts `inv` into `out`, which lists the newest invitation first, keeping
/// that order.
pub fn insert_invitation_newest_first(out: &mut Vec<LeagueInvitation>, inv: LeagueInvitation)
    requires
        invitations_newest_first(old(out)@),
    ensures
        invitations_newest_first(final(out)@),
        final(out)@.to_multiset() == old(out)@.to_multiset().insert(inv),
{
    let ghost before = out@;
    let mut p: usize = 0;
    while p < out.len() && out[p].created_at > inv.created_at
        invariant
            p <= out.len(),
            out@ == before,
            forall|j: int| 0 <= j < p ==> (#[trigger] before[j]).created_at > inv.created_at,
        decreases out.len() - p,
    {
        p = p + 1;
    }
    out.insert(p, inv);
    proof {
        let after = out@;
        to_multiset_insert(before, p as int, inv);
        assert forall|i: int, j: int| 0 <= i < j < after.len() implies after[i].created_at
            >= after[j].created_at by {
            if j < p {
            } else if j == p {
                assert(after[i] == before[i]);
            } else if i < p {
                assert(after[j] == before[j - 1]);
                assert(after[i] == before[i]);
            } else if i == p {
                assert(after[j] == before[j - 1]);
                assert(before[p as int].created_at <= inv.created_at);
            } else {
                assert(after[j] == before[j - 1]);
                assert(after[i] == before[i - 1]);
            }
        }
    }
}

} // verus!
