//! The membership and store invariants hold after every successful change.

use vstd::prelude::*;
use crate::ids::{differs_from, drop_id, held_by, keep_ids};
use crate::invitation::LeagueInvitation;
use crate::league::{founded, LeagueView, NewLeague, UpdateLeague};
use crate::state::{invalidated, StoreView};

verus! {

/// Appending an identifier not yet present keeps a sequence free of duplicates.
pub proof fn lemma_push_fresh(s: Seq<i64>, x: i64)
    requires
        s.no_duplicates(),
        !s.contains(x),
    ensures
        s.push(x).no_duplicates(),
{
    assert forall|i: int, j: int| 0 <= i < s.push(x).len() && 0 <= j < s.push(x).len() && i != j
        implies s.push(x)[i] != s.push(x)[j] by {
        if i == s.len() {
            assert(s.contains(s[j]));
        } else if j == s.len() {
            assert(s.contains(s[i]));
        }
    }
}

/// Filtering keeps a sequence free of duplicates.
pub proof fn lemma_filter_unique<A>(s: Seq<A>, pred: spec_fn(A) -> bool)
    requires
        s.no_duplicates(),
    ensures
        s.filter(pred).no_duplicates(),
    decreases s.len(),
{
    reveal(Seq::filter);
    if s.len() > 0 {
        let init = s.drop_last();
        assert(init.no_duplicates());
        lemma_filter_unique(init, pred);
        if pred(s.last()) {
            if init.filter(pred).contains(s.last()) {
                init.lemma_filter_contains_rev(pred, s.last());
                let k = choose|k: int| 0 <= k < init.len() && init[k] == s.last();
                assert(s[k] == s[s.len() - 1]);
            }
            let f = init.filter(pred);
            let x = s.last();
            assert forall|i: int, j: int| 0 <= i < f.push(x).len() && 0 <= j < f.push(x).len() && i != j
                implies f.push(x)[i] != f.push(x)[j] by {
                if i == f.len() {
                    assert(f.contains(f[j]));
                } else if j == f.len() {
                    assert(f.contains(f[i]));
                }
            }
        }
    }
}

/// An element that the predicate accepts survives filtering.
pub proof fn lemma_filter_keeps<A>(s: Seq<A>, pred: spec_fn(A) -> bool, x: A)
    requires
        s.contains(x),
        pred(x),
    ensures
        s.filter(pred).contains(x),
{
    let k = choose|k: int| 0 <= k < s.len() && s[k] == x;
    s.lemma_filter_contains(pred, k);
}

/// A freshly founded league is well formed.
pub proof fn lemma_founded_well_formed(id: i64, settings: NewLeague, creator_id: i64, now: i64)
    ensures
        founded(id, settings, creator_id, now).well_formed(),
{
    let s = founded(id, settings, creator_id, now).participants;
    assert(s[0] == creator_id);
}

/// Joining keeps a league well formed.
pub proof fn lemma_join_keeps_league(l: LeagueView, user_id: i64, invited: bool, now: i64)
    requires
        l.well_formed(),
        l.join_error(user_id, invited) is None,
    ensures
        l.with_member(user_id, now).well_formed(),
{
    lemma_push_fresh(l.participants, user_id);
    let k = choose|k: int| 0 <= k < l.participants.len() && l.participants[k] == l.admin_id;
    assert(l.participants.push(user_id)[k] == l.admin_id);
}

/// Leaving keeps a league well formed, and someone always remains.
pub proof fn lemma_leave_keeps_league(l: LeagueView, user_id: i64, now: i64)
    requires
        l.well_formed(),
        l.leave_error(user_id, now) is None,
    ensures
        l.without_member(user_id, now).well_formed(),
        l.without_member(user_id, now).participants.len() > 0,
        !l.without_member(user_id, now).participants.contains(user_id),
{
    let rest = drop_id(l.participants, user_id);
    lemma_filter_unique(l.participants, differs_from(user_id));
    if l.admin_id != user_id {
        lemma_filter_keeps(l.participants, differs_from(user_id), l.admin_id);
    } else {
        assert(rest.contains(rest[0]));
    }
    if rest.contains(user_id) {
        let k = choose|k: int| 0 <= k < rest.len() && rest[k] == user_id;
        l.participants.lemma_filter_pred(differs_from(user_id), k);
    }
}

/// A settings update keeps a league well formed.
pub proof fn lemma_update_keeps_league(l: LeagueView, requester: i64, update: UpdateLeague, now: i64)
    requires
        l.well_formed(),
        l.update_error(requester, update.participants@, now) is None,
    ensures
        l.with_settings(requester, update, now).well_formed(),
        l.with_settings(requester, update, now).participants == l.kept(update.participants@),
{
    let requested = update.participants@;
    let kept = keep_ids(l.participants, requested);
    lemma_filter_unique(l.participants, held_by(requested));
    let p = requested[0];
    assert(l.is_member(p));
    lemma_filter_keeps(l.participants, held_by(requested), p);
    assert(kept.contains(kept[0]));
}

/// Accepting an invitation keeps a league well formed.
pub proof fn lemma_accept_keeps_league(l: LeagueView, user_id: i64, now: i64)
    requires
        l.well_formed(),
    ensures
        l.with_invitee(user_id, now).well_formed(),
{
    if !l.is_member(user_id) {
        lemma_push_fresh(l.participants, user_id);
        let k = choose|k: int| 0 <= k < l.participants.len() && l.participants[k] == l.admin_id;
        assert(l.participants.push(user_id)[k] == l.admin_id);
    }
}

/// In a well-formed store, the league found at `i` is the one its identifier names.
pub proof fn lemma_league_index(s: StoreView, i: int)
    requires
        s.well_formed(),
        0 <= i < s.leagues.len(),
    ensures
        s.has_league(s.leagues[i].id),
        s.league_index(s.leagues[i].id) == i,
{
    let id = s.leagues[i].id;
    assert(s.has_league(id));
    let j = s.league_index(id);
    if j < i {
        assert(s.leagues[j].id < s.leagues[i].id);
    } else if i < j {
        assert(s.leagues[i].id < s.leagues[j].id);
    }
}

/// In a well-formed store, the invitation found at `i` is the one its identifier names.
pub proof fn lemma_invitation_index(s: StoreView, i: int)
    requires
        s.well_formed(),
        0 <= i < s.invitations.len(),
    ensures
        s.has_invitation(s.invitations[i].id),
        s.invitation_index(s.invitations[i].id) == i,
{
    let id = s.invitations[i].id;
    assert(s.has_invitation(id));
    let j = s.invitation_index(id);
    if j < i {
        assert(s.invitations[j].id < s.invitations[i].id);
    } else if i < j {
        assert(s.invitations[i].id < s.invitations[j].id);
    }
}

/// Replacing a league by a well-formed one with the same identifier keeps the
/// store well formed.
pub proof fn lemma_replace_league(s: StoreView, league_id: i64, l: LeagueView)
    requires
        s.well_formed(),
        s.has_league(league_id),
        l.id == league_id,
        l.well_formed(),
    ensures
        s.with_league(league_id, l).well_formed(),
{
    let i = s.league_index(league_id);
    let t = s.with_league(league_id, l);
    assert forall|a: int| 0 <= a < t.leagues.len() implies (#[trigger] t.leagues[a]).well_formed() by {
        if a != i {
            assert(s.leagues[a].well_formed());
        }
    }
    assert forall|a: int| 0 <= a < t.leagues.len() implies (#[trigger] t.leagues[a]).id < t.next_league_id by {
        assert(s.leagues[a].id < s.next_league_id);
    }
}

/// Replacing an invitation by one with the same identifier keeps the store
/// well formed.
pub proof fn lemma_replace_invitation(s: StoreView, invitation_id: i64, inv: LeagueInvitation)
    requires
        s.well_formed(),
        s.has_invitation(invitation_id),
        inv.id == invitation_id,
    ensures
        s.with_invitation(invitation_id, inv).well_formed(),
{
    let t = s.with_invitation(invitation_id, inv);
    assert forall|a: int| 0 <= a < t.invitations.len() implies (#[trigger] t.invitations[a]).id < t.next_invitation_id by {
        assert(s.invitations[a].id < s.next_invitation_id);
    }
}

/// Creating a league keeps the store well formed.
pub proof fn lemma_create_keeps_store(s: StoreView, settings: NewLeague, creator_id: i64, now: i64)
    requires
        s.well_formed(),
        s.next_league_id < i64::MAX,
    ensures
        s.after_create(settings, creator_id, now).well_formed(),
{
    lemma_founded_well_formed(s.next_league_id, settings, creator_id, now);
    let t = s.after_create(settings, creator_id, now);
    assert forall|a: int| 0 <= a < t.leagues.len() implies (#[trigger] t.leagues[a]).well_formed() by {
        if a < s.leagues.len() {
            assert(s.leagues[a].well_formed());
        }
    }
    assert forall|a: int| 0 <= a < t.leagues.len() implies (#[trigger] t.leagues[a]).id < t.next_league_id by {
        if a < s.leagues.len() {
            assert(s.leagues[a].id < s.next_league_id);
        }
    }
    assert forall|a: int, b: int| 0 <= a < b < t.leagues.len() implies t.leagues[a].id < t.leagues[b].id by {
        if b < s.leagues.len() {
        } else {
            assert(s.leagues[a].id < s.next_league_id);
        }
    }
}

/// A successful join keeps the store well formed.
pub proof fn lemma_join_keeps_store(s: StoreView, league_id: i64, user_id: i64, now: i64)
    requires
        s.well_formed(),
        s.join_error(league_id, user_id) is None,
    ensures
        s.after_join(league_id, user_id, now).well_formed(),
{
    let i = s.league_index(league_id);
    assert(s.leagues[i].well_formed());
    lemma_join_keeps_league(s.league(league_id), user_id, s.invited(league_id, user_id), now);
    lemma_replace_league(s, league_id, s.joined(league_id, user_id, now));
}

/// A successful leave keeps the store well formed.
pub proof fn lemma_leave_keeps_store(s: StoreView, league_id: i64, user_id: i64, now: i64)
    requires
        s.well_formed(),
        s.leave_error(league_id, user_id, now) is None,
    ensures
        s.after_leave(league_id, user_id, now).well_formed(),
{
    let i = s.league_index(league_id);
    assert(s.leagues[i].well_formed());
    lemma_leave_keeps_league(s.league(league_id), user_id, now);
    lemma_replace_league(s, league_id, s.left(league_id, user_id, now));
    let t = s.after_leave(league_id, user_id, now);
    assert(t.leagues == s.with_league(league_id, s.left(league_id, user_id, now)).leagues);
    let invs = invalidated(s.invitations, league_id, user_id, now);
    assert forall|a: int| 0 <= a < invs.len() implies (#[trigger] invs[a]).id == s.invitations[a].id by {}
    assert forall|a: int| 0 <= a < t.invitations.len() implies (#[trigger] t.invitations[a]).id < t.next_invitation_id by {
        assert(s.invitations[a].id < s.next_invitation_id);
    }
    assert forall|a: int, b: int| 0 <= a < b < t.invitations.len() implies t.invitations[a].id < t.invitations[b].id by {
        assert(invs[a].id == s.invitations[a].id);
        assert(invs[b].id == s.invitations[b].id);
    }
}

/// A successful settings update keeps the store well formed.
pub proof fn lemma_update_keeps_store(
    s: StoreView,
    league_id: i64,
    requester: i64,
    update: UpdateLeague,
    now: i64,
)
    requires
        s.well_formed(),
        s.update_error(league_id, requester, update.participants@, now) is None,
    ensures
        s.after_update(league_id, requester, update, now).well_formed(),
{
    let i = s.league_index(league_id);
    assert(s.leagues[i].well_formed());
    lemma_update_keeps_league(s.league(league_id), requester, update, now);
    lemma_replace_league(s, league_id, s.updated(league_id, requester, update, now));
}

/// Deleting a league keeps the store well formed.
pub proof fn lemma_delete_keeps_store(s: StoreView, league_id: i64)
    requires
        s.well_formed(),
        s.has_league(league_id),
    ensures
        s.after_delete(league_id).well_formed(),
{
    let i = s.league_index(league_id);
    let t = s.after_delete(league_id);
    assert forall|a: int| 0 <= a < t.leagues.len() implies (#[trigger] t.leagues[a]).well_formed() by {
        if a < i {
            assert(s.leagues[a].well_formed());
        } else {
            assert(s.leagues[a + 1].well_formed());
        }
    }
    assert forall|a: int| 0 <= a < t.leagues.len() implies (#[trigger] t.leagues[a]).id < t.next_league_id by {
        if a < i {
            assert(s.leagues[a].id < s.next_league_id);
        } else {
            assert(s.leagues[a + 1].id < s.next_league_id);
        }
    }
    assert forall|a: int, b: int| 0 <= a < b < t.leagues.len() implies t.leagues[a].id < t.leagues[b].id by {
        let a2 = if a < i { a } else { a + 1 };
        let b2 = if b < i { b } else { b + 1 };
        assert(t.leagues[a] == s.leagues[a2]);
        assert(t.leagues[b] == s.leagues[b2]);
    }
}

/// Sending an invitation keeps the store well formed.
pub proof fn lemma_invite_keeps_store(
    s: StoreView,
    league_id: i64,
    invitee_id: i64,
    inviter_id: i64,
    now: i64,
)
    requires
        s.well_formed(),
        s.next_invitation_id < i64::MAX,
    ensures
        s.after_invite(league_id, invitee_id, inviter_id, now).well_formed(),
{
    let t = s.after_invite(league_id, invitee_id, inviter_id, now);
    assert forall|a: int| 0 <= a < t.invitations.len() implies (#[trigger] t.invitations[a]).id < t.next_invitation_id by {
        if a < s.invitations.len() {
            assert(s.invitations[a].id < s.next_invitation_id);
        }
    }
    assert forall|a: int, b: int| 0 <= a < b < t.invitations.len() implies t.invitations[a].id < t.invitations[b].id by {
        if b == s.invitations.len() {
            assert(s.invitations[a].id < s.next_invitation_id);
        }
    }
    assert forall|a: int| 0 <= a < t.leagues.len() implies (#[trigger] t.leagues[a]).well_formed() by {
        assert(s.leagues[a].well_formed());
    }
}

/// Accepting an invitation keeps the store well formed.
pub proof fn lemma_accept_keeps_store(s: StoreView, invitation_id: i64, user_id: i64, now: i64)
    requires
        s.well_formed(),
        s.accept_error(invitation_id, user_id) is None,
    ensures
        s.after_accept(invitation_id, user_id, now).well_formed(),
{
    let inv = s.invitation(invitation_id);
    let s1 = s.with_invitation(invitation_id, inv.moved_to(crate::invitation::InvitationStatus::Accepted, now));
    lemma_replace_invitation(s, invitation_id, inv.moved_to(crate::invitation::InvitationStatus::Accepted, now));
    assert(s1.leagues == s.leagues);
    let i = s.league_index(inv.league_id);
    assert(s.leagues[i].well_formed());
    lemma_accept_keeps_league(s.league(inv.league_id), user_id, now);
    assert(s1.has_league(inv.league_id));
    assert(s1.league_index(inv.league_id) == s.league_index(inv.league_id));
    lemma_replace_league(s1, inv.league_id, s.accepted(invitation_id, user_id, now));
}

/// Declining an invitation keeps the store well formed.
pub proof fn lemma_decline_keeps_store(s: StoreView, invitation_id: i64, now: i64)
    requires
        s.well_formed(),
        s.has_invitation(invitation_id),
    ensures
        s.after_decline(invitation_id, now).well_formed(),
{
    lemma_replace_invitation(
        s,
        invitation_id,
        s.invitation(invitation_id).moved_to(crate::invitation::InvitationStatus::Declined, now),
    );
}

} // verus!
