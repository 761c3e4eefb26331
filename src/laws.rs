//! Properties of the league operations, stated over their contracts and
//! proved.

use vstd::prelude::*;
use crate::error::LeagueError;
use crate::ids::{differs_from, held_by};
use crate::league::{League, LeagueView, UpdateLeague};
use crate::preservation::{
    lemma_decline_keeps_store, lemma_filter_keeps, lemma_invitation_index, lemma_join_keeps_store, lemma_league_index, lemma_leave_keeps_league,
    lemma_update_keeps_league,
};
use crate::state::StoreView;
use crate::store::{declines, joins, leaves, updates};

verus! {

/// A successful join never takes a league past `max_teams` participants.
pub proof fn join_respects_capacity(
    s: StoreView,
    after: StoreView,
    league_id: i64,
    user_id: i64,
    now: i64,
    r: Result<League, LeagueError>,
)
    requires
        s.well_formed(),
        joins(s, after, league_id, user_id, now, r),
        r is Ok,
    ensures
        r->Ok_0@.participants.len() <= r->Ok_0@.max_teams as int,
        after.league(league_id) == r->Ok_0@,
{
    let i = s.league_index(league_id);
    lemma_join_keeps_store(s, league_id, user_id, now);
    assert(after.leagues[i] == r->Ok_0@);
    lemma_league_index(after, i);
}

/// In a well-formed store the admin of every league takes part in it.
pub proof fn admin_is_participant(s: StoreView)
    requires
        s.well_formed(),
    ensures
        forall|i: int|
            0 <= i < s.leagues.len() ==> (#[trigger] s.leagues[i]).participants.contains(
                s.leagues[i].admin_id,
            ),
{
    assert forall|i: int| 0 <= i < s.leagues.len() implies (#[trigger] s.leagues[i]).participants.contains(
        s.leagues[i].admin_id,
    ) by {
        assert(s.leagues[i].well_formed());
    }
}

/// Joining a league that already holds `max_teams` participants fails with
/// `LeagueFull` and changes nothing, once the earlier checks (league exists,
/// invitation for a private league, not yet a participant) pass.
pub proof fn join_full_league_fails(
    s: StoreView,
    after: StoreView,
    league_id: i64,
    user_id: i64,
    now: i64,
    r: Result<League, LeagueError>,
)
    requires
        s.has_league(league_id),
        s.league(league_id).is_public || s.invited(league_id, user_id),
        !s.league(league_id).is_member(user_id),
        s.league(league_id).participants.len() >= s.league(league_id).max_teams as int,
        joins(s, after, league_id, user_id, now, r),
    ensures
        r == Err::<League, LeagueError>(LeagueError::LeagueFull),
        after == s,
{
}

/// The only participant of a league cannot leave it: the attempt fails with
/// `LastMember` and changes nothing.
pub proof fn sole_member_cannot_leave(
    s: StoreView,
    after: StoreView,
    league_id: i64,
    user_id: i64,
    now: i64,
    r: Result<League, LeagueError>,
)
    requires
        s.has_league(league_id),
        s.league(league_id).participants.len() == 1,
        s.league(league_id).is_member(user_id),
        leaves(s, after, league_id, user_id, now, r),
    ensures
        r == Err::<League, LeagueError>(LeagueError::LastMember),
        after == s,
{
    let p = s.league(league_id).participants;
    assert(p[0] == user_id);
    assert(p.drop_last() =~= Seq::<i64>::empty());
    reveal(Seq::filter);
    assert(p.drop_last().filter(differs_from(user_id)) =~= Seq::<i64>::empty());
    assert(p.filter(differs_from(user_id)).len() == 0);
}

/// In a well-formed league, a participant is the last member exactly when
/// the league has a single participant.
pub proof fn last_member_is_sole_participant(l: LeagueView, user_id: i64)
    requires
        l.well_formed(),
        l.is_member(user_id),
    ensures
        (l.others(user_id).len() == 0) == (l.participants.len() == 1),
{
    let p = l.participants;
    if p.len() == 1 {
        let k = choose|k: int| 0 <= k < p.len() && p[k] == user_id;
        assert(p[0] == user_id);
        assert(p.drop_last() =~= Seq::<i64>::empty());
        reveal(Seq::filter);
        assert(p.drop_last().filter(differs_from(user_id)) =~= Seq::<i64>::empty());
    } else {
        let j: int = if p[0] != user_id { 0 } else { 1 };
        assert(p[0] != p[1]);
        lemma_filter_keeps(p, differs_from(user_id), p[j]);
    }
}

/// A successful leave never empties a league.
pub proof fn leave_keeps_someone(
    s: StoreView,
    after: StoreView,
    league_id: i64,
    user_id: i64,
    now: i64,
    r: Result<League, LeagueError>,
)
    requires
        s.well_formed(),
        leaves(s, after, league_id, user_id, now, r),
        r is Ok,
    ensures
        r->Ok_0@.participants.len() > 0,
{
    let i = s.league_index(league_id);
    assert(s.leagues[i].well_formed());
    lemma_leave_keeps_league(s.league(league_id), user_id, now);
}

/// When the admin leaves, the admin role passes to someone who still takes
/// part.
pub proof fn leaving_admin_hands_over(
    s: StoreView,
    after: StoreView,
    league_id: i64,
    user_id: i64,
    now: i64,
    r: Result<League, LeagueError>,
)
    requires
        s.well_formed(),
        s.has_league(league_id),
        s.league(league_id).admin_id == user_id,
        leaves(s, after, league_id, user_id, now, r),
        r is Ok,
    ensures
        r->Ok_0@.admin_id != user_id,
        r->Ok_0@.participants.contains(r->Ok_0@.admin_id),
{
    let i = s.league_index(league_id);
    assert(s.leagues[i].well_formed());
    lemma_leave_keeps_league(s.league(league_id), user_id, now);
}

/// A settings update naming someone who does not take part fails with
/// `CannotAddParticipants` and changes nothing, once the earlier checks
/// (league exists, requester is admin, draft time ahead) pass.
pub proof fn update_cannot_add_participants(
    s: StoreView,
    after: StoreView,
    league_id: i64,
    requester: i64,
    update: UpdateLeague,
    now: i64,
    r: Result<League, LeagueError>,
    outsider: i64,
)
    requires
        s.has_league(league_id),
        requester == s.league(league_id).admin_id,
        !s.league(league_id).draft_started(now),
        update.participants@.contains(outsider),
        !s.league(league_id).is_member(outsider),
        updates(s, after, league_id, requester, update, now, r),
    ensures
        r == Err::<League, LeagueError>(LeagueError::CannotAddParticipants),
        after == s,
{
    let k = choose|k: int|
        0 <= k < update.participants@.len() && update.participants@[k] == outsider;
    assert(!s.league(league_id).is_member(update.participants@[k]));
}

/// A requester who removes themself in a settings update changes only the
/// participants and the admin: every other setting keeps its value, and the
/// new admin takes part.
pub proof fn self_removal_keeps_settings(
    s: StoreView,
    after: StoreView,
    league_id: i64,
    requester: i64,
    update: UpdateLeague,
    now: i64,
    r: Result<League, LeagueError>,
)
    requires
        s.well_formed(),
        !update.participants@.contains(requester),
        updates(s, after, league_id, requester, update, now, r),
        r is Ok,
    ensures
        ({
            let before = s.league(league_id);
            let l = r->Ok_0@;
            &&& l.id == before.id
            &&& l.name == before.name
            &&& l.max_teams == before.max_teams
            &&& l.is_public == before.is_public
            &&& l.draft_time == before.draft_time
            &&& l.scoring_type == before.scoring_type
            &&& l.draft_order == before.draft_order
            &&& l.created_at == before.created_at
            &&& l.participants == before.kept(update.participants@)
            &&& l.participants.contains(l.admin_id)
        }),
{
    let before = s.league(league_id);
    let i = s.league_index(league_id);
    assert(s.leagues[i].well_formed());
    lemma_update_keeps_league(before, requester, update, now);
    let kept = before.kept(update.participants@);
    if kept.contains(requester) {
        let k = choose|k: int| 0 <= k < kept.len() && kept[k] == requester;
        before.participants.lemma_filter_pred(held_by(update.participants@), k);
    }
}

/// Declining twice: the first call succeeds, the second fails with
/// `InvitationNotPending` and changes nothing.
pub proof fn decline_twice(
    s: StoreView,
    s1: StoreView,
    s2: StoreView,
    invitation_id: i64,
    user_id: i64,
    now1: i64,
    now2: i64,
    r1: Result<(), LeagueError>,
    r2: Result<(), LeagueError>,
)
    requires
        s.well_formed(),
        s.has_invitation(invitation_id),
        s.invitation(invitation_id).invitee_id == user_id,
        s.invitation(invitation_id).status == crate::invitation::InvitationStatus::Pending,
        declines(s, s1, invitation_id, user_id, now1, r1),
        declines(s1, s2, invitation_id, user_id, now2, r2),
    ensures
        r1 is Ok,
        r2 == Err::<(), LeagueError>(LeagueError::InvitationNotPending),
        s2 == s1,
{
    let k = s.invitation_index(invitation_id);
    lemma_decline_keeps_store(s, invitation_id, now1);
    lemma_invitation_index(s1, k);
}

} // verus!
