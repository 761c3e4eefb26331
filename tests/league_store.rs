use efantasy::error::LeagueError;
use efantasy::invitation::InvitationStatus;
use efantasy::league::{League, NewLeague, UpdateLeague};
use efantasy::store::{
    accept_league_invitation, accept_league_invitation_at, create_league, create_league_at,
    create_league_invitation, create_league_invitation_at, decline_league_invitation,
    decline_league_invitation_at, delete_league, delete_league_at,
    get_pending_league_invitations, get_public_leagues, get_user_leagues, join_league,
    join_league_at, leave_league, leave_league_at, update_league_settings,
    update_league_settings_at, LeagueStore,
};

const FUTURE: i64 = i64::MAX;

fn settings(name: &str, max_teams: i32, is_public: bool, draft_time: i64) -> NewLeague {
    NewLeague {
        name: name.to_string(),
        max_teams,
        is_public,
        draft_time,
        scoring_type: "standard".to_string(),
    }
}

fn new_league(store: &mut LeagueStore, max_teams: i32, is_public: bool, creator: i64) -> League {
    create_league_at(store, settings("League", max_teams, is_public, FUTURE), creator, 100).unwrap()
}

fn update(participants: Vec<i64>) -> UpdateLeague {
    UpdateLeague {
        name: "Renamed".to_string(),
        max_teams: 12,
        is_public: false,
        draft_time: 5_000,
        scoring_type: "ppr".to_string(),
        participants,
    }
}

#[test]
fn create_then_fill_to_capacity() {
    let mut store = LeagueStore::new();
    let league = new_league(&mut store, 2, true, 1);
    assert_eq!(league.participants, vec![1]);
    assert_eq!(league.admin_id, 1);
    let joined = join_league_at(&mut store, league.id, 2, 200).unwrap();
    assert_eq!(joined.participants, vec![1, 2]);
    assert_eq!(joined.updated_at, 200);
    assert_eq!(join_league_at(&mut store, league.id, 3, 300), Err(LeagueError::LeagueFull));
    assert_eq!(store.league(league.id).unwrap().participants, vec![1, 2]);
}

#[test]
fn created_league_fields() {
    let mut store = LeagueStore::new();
    let league =
        create_league_at(&mut store, settings("Friends", 8, false, 9_000), 7, 1_234).unwrap();
    assert_eq!(league.id, 1);
    assert_eq!(league.name, "Friends");
    assert_eq!(league.max_teams, 8);
    assert!(!league.is_public);
    assert_eq!(league.draft_time, 9_000);
    assert_eq!(league.scoring_type, "standard");
    assert_eq!(league.draft_order, None);
    assert_eq!(league.created_at, 1_234);
    assert_eq!(league.updated_at, 1_234);
    let second = new_league(&mut store, 2, true, 7);
    assert_eq!(second.id, 2);
}

#[test]
fn create_stamps_current_time() {
    let mut store = LeagueStore::new();
    let league = create_league(&mut store, settings("Now", 4, true, FUTURE), 1).unwrap();
    // 2020-01-01T00:00:00Z in microseconds.
    assert!(league.created_at > 1_577_836_800_000_000);
    assert_eq!(league.created_at, league.updated_at);
}

#[test]
fn join_respects_capacity_at_every_step() {
    let mut store = LeagueStore::new();
    let league = new_league(&mut store, 4, true, 1);
    for user in 2..=4 {
        let l = join_league_at(&mut store, league.id, user, 10).unwrap();
        assert!(l.participants.len() <= l.max_teams as usize);
    }
    assert_eq!(join_league_at(&mut store, league.id, 5, 10), Err(LeagueError::LeagueFull));
    assert_eq!(store.league(league.id).unwrap().participants, vec![1, 2, 3, 4]);
}

#[test]
fn join_with_non_positive_capacity_is_full() {
    let mut store = LeagueStore::new();
    let league = new_league(&mut store, 0, true, 1);
    assert_eq!(join_league_at(&mut store, league.id, 2, 10), Err(LeagueError::LeagueFull));
    let negative = new_league(&mut store, -3, true, 1);
    assert_eq!(join_league_at(&mut store, negative.id, 2, 10), Err(LeagueError::LeagueFull));
}

#[test]
fn join_errors() {
    let mut store = LeagueStore::new();
    let league = new_league(&mut store, 5, true, 1);
    assert_eq!(join_league_at(&mut store, 99, 2, 10), Err(LeagueError::NotFound));
    assert_eq!(join_league_at(&mut store, league.id, 1, 10), Err(LeagueError::AlreadyJoined));
    let private = new_league(&mut store, 5, false, 1);
    assert_eq!(join_league_at(&mut store, private.id, 2, 10), Err(LeagueError::NotAuthorized));
}

#[test]
fn join_through_clock() {
    let mut store = LeagueStore::new();
    let league = new_league(&mut store, 3, true, 1);
    let joined = join_league(&mut store, league.id, 2).unwrap();
    assert_eq!(joined.participants, vec![1, 2]);
    assert!(joined.updated_at > 1_577_836_800_000_000);
}

#[test]
fn private_league_invitation_flow() {
    let mut store = LeagueStore::new();
    let league = new_league(&mut store, 10, false, 1);
    let invitation = create_league_invitation_at(&mut store, league.id, 5, 1, 50).unwrap();
    assert_eq!(invitation.status, InvitationStatus::Pending);
    assert_eq!(invitation.invitee_id, 5);
    assert_eq!(invitation.inviter_id, 1);
    assert_eq!(invitation.league_id, league.id);
    assert_eq!(join_league_at(&mut store, league.id, 5, 60), Err(LeagueError::NotAuthorized));
    let accepted = accept_league_invitation_at(&mut store, invitation.id, 5, 70).unwrap();
    assert_eq!(accepted.participants, vec![1, 5]);
    assert_eq!(store.invitation(invitation.id).unwrap().status, InvitationStatus::Accepted);
    assert_eq!(join_league_at(&mut store, league.id, 5, 80), Err(LeagueError::AlreadyJoined));
}

#[test]
fn accepted_member_who_left_cannot_rejoin() {
    let mut store = LeagueStore::new();
    let league = new_league(&mut store, 10, false, 1);
    let invitation = create_league_invitation_at(&mut store, league.id, 5, 1, 50).unwrap();
    accept_league_invitation_at(&mut store, invitation.id, 5, 60).unwrap();
    let left = leave_league_at(&mut store, league.id, 5, 70).unwrap();
    assert_eq!(left.participants, vec![1]);
    let stored = store.invitation(invitation.id).unwrap();
    assert_eq!(stored.status, InvitationStatus::Invalidated);
    assert_eq!(stored.updated_at, 70);
    assert_eq!(join_league_at(&mut store, league.id, 5, 80), Err(LeagueError::NotAuthorized));
}

#[test]
fn invitation_errors() {
    let mut store = LeagueStore::new();
    let public = new_league(&mut store, 10, true, 1);
    let private = new_league(&mut store, 10, false, 1);
    assert_eq!(create_league_invitation_at(&mut store, 99, 5, 1, 0), Err(LeagueError::NotFound));
    assert_eq!(
        create_league_invitation_at(&mut store, public.id, 5, 1, 0),
        Err(LeagueError::LeagueIsPublic)
    );
    assert_eq!(
        create_league_invitation_at(&mut store, private.id, 5, 2, 0),
        Err(LeagueError::NotAuthorized)
    );
    assert_eq!(
        create_league_invitation_at(&mut store, private.id, 1, 1, 0),
        Err(LeagueError::AlreadyJoined)
    );
}

#[test]
fn accept_errors() {
    let mut store = LeagueStore::new();
    let league = new_league(&mut store, 10, false, 1);
    let invitation = create_league_invitation_at(&mut store, league.id, 5, 1, 0).unwrap();
    assert_eq!(
        accept_league_invitation_at(&mut store, 99, 5, 0),
        Err(LeagueError::InvitationNotFound)
    );
    assert_eq!(
        accept_league_invitation_at(&mut store, invitation.id, 6, 0),
        Err(LeagueError::InvitationNotFound)
    );
    accept_league_invitation_at(&mut store, invitation.id, 5, 0).unwrap();
    assert_eq!(
        accept_league_invitation_at(&mut store, invitation.id, 5, 0),
        Err(LeagueError::InvitationNotPending)
    );
}

#[test]
fn accept_ignores_capacity() {
    let mut store = LeagueStore::new();
    let league = new_league(&mut store, 1, false, 1);
    let invitation = create_league_invitation_at(&mut store, league.id, 5, 1, 0).unwrap();
    let accepted = accept_league_invitation_at(&mut store, invitation.id, 5, 0).unwrap();
    assert_eq!(accepted.participants, vec![1, 5]);
}

#[test]
fn accept_for_deleted_league() {
    let mut store = LeagueStore::new();
    let league = new_league(&mut store, 4, false, 1);
    let invitation = create_league_invitation_at(&mut store, league.id, 5, 1, 0).unwrap();
    delete_league_at(&mut store, league.id, 1, 0).unwrap();
    assert_eq!(store.invitation(invitation.id).unwrap().status, InvitationStatus::Pending);
    assert_eq!(
        accept_league_invitation_at(&mut store, invitation.id, 5, 0),
        Err(LeagueError::NotFound)
    );
    assert_eq!(store.invitation(invitation.id).unwrap().status, InvitationStatus::Pending);
}

#[test]
fn accept_through_clock() {
    let mut store = LeagueStore::new();
    let league = new_league(&mut store, 4, false, 1);
    let invitation = create_league_invitation_at(&mut store, league.id, 5, 1, 0).unwrap();
    let accepted = accept_league_invitation(&mut store, invitation.id, 5).unwrap();
    assert_eq!(accepted.participants, vec![1, 5]);
}

#[test]
fn decline_twice() {
    let mut store = LeagueStore::new();
    let league = new_league(&mut store, 10, false, 1);
    let invitation = create_league_invitation_at(&mut store, league.id, 5, 1, 0).unwrap();
    assert_eq!(decline_league_invitation_at(&mut store, invitation.id, 5, 10), Ok(()));
    let stored = store.invitation(invitation.id).unwrap();
    assert_eq!(stored.status, InvitationStatus::Declined);
    assert_eq!(stored.updated_at, 10);
    assert_eq!(
        decline_league_invitation_at(&mut store, invitation.id, 5, 20),
        Err(LeagueError::InvitationNotPending)
    );
    assert_eq!(store.invitation(invitation.id).unwrap(), stored);
}

#[test]
fn decline_errors() {
    let mut store = LeagueStore::new();
    let league = new_league(&mut store, 10, false, 1);
    let invitation = create_league_invitation_at(&mut store, league.id, 5, 1, 0).unwrap();
    assert_eq!(
        decline_league_invitation_at(&mut store, 42, 5, 0),
        Err(LeagueError::InvitationNotFound)
    );
    assert_eq!(
        decline_league_invitation_at(&mut store, invitation.id, 6, 0),
        Err(LeagueError::NotAuthorized)
    );
}

#[test]
fn leave_and_delete_after_draft_started() {
    let mut store = LeagueStore::new();
    let league = create_league_at(&mut store, settings("Past", 4, true, 0), 1, 0).unwrap();
    join_league_at(&mut store, league.id, 2, 0).unwrap();
    assert_eq!(leave_league(&mut store, league.id, 2), Err(LeagueError::DraftAlreadyStarted));
    assert_eq!(delete_league(&mut store, league.id, 2), Err(LeagueError::NotAuthorized));
    assert_eq!(delete_league(&mut store, league.id, 1), Err(LeagueError::DraftAlreadyStarted));
    assert_eq!(store.league(league.id).unwrap().participants, vec![1, 2]);
}

#[test]
fn draft_time_reached_exactly_freezes() {
    let mut store = LeagueStore::new();
    let league = create_league_at(&mut store, settings("Edge", 4, true, 500), 1, 0).unwrap();
    join_league_at(&mut store, league.id, 2, 0).unwrap();
    assert_eq!(leave_league_at(&mut store, league.id, 2, 500), Err(LeagueError::DraftAlreadyStarted));
    assert!(leave_league_at(&mut store, league.id, 2, 499).is_ok());
}

#[test]
fn sole_member_cannot_leave() {
    let mut store = LeagueStore::new();
    let league = new_league(&mut store, 4, true, 1);
    assert_eq!(leave_league_at(&mut store, league.id, 1, 0), Err(LeagueError::LastMember));
    assert_eq!(store.league(league.id).unwrap().participants, vec![1]);
}

#[test]
fn leave_errors() {
    let mut store = LeagueStore::new();
    let league = new_league(&mut store, 4, true, 1);
    assert_eq!(leave_league_at(&mut store, 99, 1, 0), Err(LeagueError::NotFound));
    assert_eq!(leave_league_at(&mut store, league.id, 2, 0), Err(LeagueError::NotInLeague));
}

#[test]
fn admin_leaving_hands_over() {
    let mut store = LeagueStore::new();
    let league = new_league(&mut store, 4, true, 1);
    join_league_at(&mut store, league.id, 2, 0).unwrap();
    join_league_at(&mut store, league.id, 3, 0).unwrap();
    let left = leave_league_at(&mut store, league.id, 1, 10).unwrap();
    assert_eq!(left.participants, vec![2, 3]);
    assert_eq!(left.admin_id, 2);
    assert!(left.participants.contains(&left.admin_id));
    assert_eq!(store.league(league.id).unwrap(), left);
}

#[test]
fn member_leaving_keeps_admin() {
    let mut store = LeagueStore::new();
    let league = new_league(&mut store, 4, true, 1);
    join_league_at(&mut store, league.id, 2, 0).unwrap();
    let left = leave_league(&mut store, league.id, 2).unwrap();
    assert_eq!(left.participants, vec![1]);
    assert_eq!(left.admin_id, 1);
}

#[test]
fn update_applies_settings() {
    let mut store = LeagueStore::new();
    let league = new_league(&mut store, 4, true, 1);
    join_league_at(&mut store, league.id, 2, 0).unwrap();
    join_league_at(&mut store, league.id, 3, 0).unwrap();
    let updated = update_league_settings_at(&mut store, league.id, 1, update(vec![3, 1]), 40).unwrap();
    assert_eq!(updated.name, "Renamed");
    assert_eq!(updated.max_teams, 12);
    assert!(!updated.is_public);
    assert_eq!(updated.draft_time, 5_000);
    assert_eq!(updated.scoring_type, "ppr");
    assert_eq!(updated.participants, vec![1, 3]);
    assert_eq!(updated.admin_id, 1);
    assert_eq!(updated.updated_at, 40);
    assert_eq!(updated.created_at, 100);
}

#[test]
fn update_with_outsider_fails() {
    let mut store = LeagueStore::new();
    let league = new_league(&mut store, 4, true, 1);
    join_league_at(&mut store, league.id, 2, 0).unwrap();
    let before = store.league(league.id).unwrap();
    assert_eq!(
        update_league_settings_at(&mut store, league.id, 1, update(vec![1, 2, 9]), 0),
        Err(LeagueError::CannotAddParticipants)
    );
    assert_eq!(store.league(league.id).unwrap(), before);
}

#[test]
fn update_self_removal_keeps_settings() {
    let mut store = LeagueStore::new();
    let league = new_league(&mut store, 4, true, 1);
    join_league_at(&mut store, league.id, 2, 0).unwrap();
    join_league_at(&mut store, league.id, 3, 0).unwrap();
    let before = store.league(league.id).unwrap();
    let updated = update_league_settings_at(&mut store, league.id, 1, update(vec![3, 2]), 70).unwrap();
    assert_eq!(updated.participants, vec![2, 3]);
    assert_eq!(updated.admin_id, 2);
    assert_eq!(updated.name, before.name);
    assert_eq!(updated.max_teams, before.max_teams);
    assert_eq!(updated.is_public, before.is_public);
    assert_eq!(updated.draft_time, before.draft_time);
    assert_eq!(updated.scoring_type, before.scoring_type);
    assert_eq!(updated.created_at, before.created_at);
}

#[test]
fn update_errors() {
    let mut store = LeagueStore::new();
    let league = new_league(&mut store, 4, true, 1);
    join_league_at(&mut store, league.id, 2, 0).unwrap();
    assert_eq!(
        update_league_settings_at(&mut store, 99, 1, update(vec![1]), 0),
        Err(LeagueError::NotFound)
    );
    assert_eq!(
        update_league_settings_at(&mut store, league.id, 2, update(vec![1]), 0),
        Err(LeagueError::NotAuthorized)
    );
    assert_eq!(
        update_league_settings_at(&mut store, league.id, 1, update(vec![]), 0),
        Err(LeagueError::NoParticipantsLeft)
    );
    let past = create_league_at(&mut store, settings("Past", 4, true, 0), 1, 0).unwrap();
    assert_eq!(
        update_league_settings(&mut store, past.id, 1, update(vec![1])),
        Err(LeagueError::DraftAlreadyStarted)
    );
}

#[test]
fn update_with_repeated_ids() {
    let mut store = LeagueStore::new();
    let league = new_league(&mut store, 4, true, 1);
    join_league_at(&mut store, league.id, 2, 0).unwrap();
    let updated = update_league_settings_at(&mut store, league.id, 1, update(vec![2, 2, 1, 1]), 0).unwrap();
    assert_eq!(updated.participants, vec![1, 2]);
}

#[test]
fn delete_removes_league_only() {
    let mut store = LeagueStore::new();
    let league = new_league(&mut store, 4, false, 1);
    let invitation = create_league_invitation_at(&mut store, league.id, 5, 1, 0).unwrap();
    assert_eq!(delete_league_at(&mut store, 99, 1, 0), Err(LeagueError::NotFound));
    assert_eq!(delete_league_at(&mut store, league.id, 1, 0), Ok(()));
    assert_eq!(store.league(league.id), None);
    assert!(store.invitation(invitation.id).is_some());
    assert_eq!(join_league_at(&mut store, league.id, 2, 0), Err(LeagueError::NotFound));
}

#[test]
fn public_leagues_newest_first() {
    let mut store = LeagueStore::new();
    let a = create_league_at(&mut store, settings("A", 4, true, FUTURE), 1, 300).unwrap();
    let b = create_league_at(&mut store, settings("B", 4, false, FUTURE), 1, 400).unwrap();
    let c = create_league_at(&mut store, settings("C", 4, true, FUTURE), 1, 100).unwrap();
    let d = create_league_at(&mut store, settings("D", 4, true, FUTURE), 1, 500).unwrap();
    let ids: Vec<i64> = get_public_leagues(&store).iter().map(|l| l.id).collect();
    assert_eq!(ids, vec![d.id, a.id, c.id]);
    assert!(!ids.contains(&b.id));
}

#[test]
fn user_leagues_newest_first() {
    let mut store = LeagueStore::new();
    let a = create_league_at(&mut store, settings("A", 4, true, FUTURE), 1, 100).unwrap();
    let b = create_league_at(&mut store, settings("B", 4, true, FUTURE), 2, 200).unwrap();
    let c = create_league_at(&mut store, settings("C", 4, true, FUTURE), 1, 300).unwrap();
    join_league_at(&mut store, b.id, 1, 0).unwrap();
    let ids: Vec<i64> = get_user_leagues(&store, 1).iter().map(|l| l.id).collect();
    assert_eq!(ids, vec![c.id, b.id, a.id]);
    let ids2: Vec<i64> = get_user_leagues(&store, 2).iter().map(|l| l.id).collect();
    assert_eq!(ids2, vec![b.id]);
    assert!(get_user_leagues(&store, 3).is_empty());
}

#[test]
fn pending_invitations_newest_first() {
    let mut store = LeagueStore::new();
    let l1 = new_league(&mut store, 4, false, 1);
    let l2 = new_league(&mut store, 4, false, 1);
    let l3 = new_league(&mut store, 4, false, 1);
    let i1 = create_league_invitation_at(&mut store, l1.id, 5, 1, 10).unwrap();
    let i2 = create_league_invitation_at(&mut store, l2.id, 5, 1, 30).unwrap();
    let i3 = create_league_invitation_at(&mut store, l3.id, 5, 1, 20).unwrap();
    create_league_invitation_at(&mut store, l3.id, 6, 1, 40).unwrap();
    decline_league_invitation_at(&mut store, i3.id, 5, 50).unwrap();
    let pending = get_pending_league_invitations(&store, 5);
    let ids: Vec<i64> = pending.iter().map(|i| i.id).collect();
    assert_eq!(ids, vec![i2.id, i1.id]);
    assert!(pending.iter().all(|i| i.status == InvitationStatus::Pending && i.invitee_id == 5));
}

#[test]
fn admin_stays_a_participant() {
    let mut store = LeagueStore::new();
    let league = new_league(&mut store, 6, true, 1);
    for user in 2..=4 {
        join_league_at(&mut store, league.id, user, 0).unwrap();
    }
    leave_league_at(&mut store, league.id, 1, 0).unwrap();
    update_league_settings_at(&mut store, league.id, 2, update(vec![3, 4]), 0).unwrap();
    for l in get_user_leagues(&store, 3) {
        assert!(l.participants.contains(&l.admin_id));
    }
    let l = store.league(league.id).unwrap();
    assert_eq!(l.admin_id, 3);
    assert!(l.participants.contains(&l.admin_id));
}

#[test]
fn invitation_flow_through_clock() {
    let mut store = LeagueStore::new();
    let league = new_league(&mut store, 4, false, 1);
    let invitation = create_league_invitation(&mut store, league.id, 8, 1).unwrap();
    assert_eq!(invitation.status, InvitationStatus::Pending);
    assert!(invitation.created_at > 1_577_836_800_000_000);
    assert_eq!(decline_league_invitation(&mut store, invitation.id, 8), Ok(()));
    assert_eq!(
        decline_league_invitation(&mut store, invitation.id, 8),
        Err(LeagueError::InvitationNotPending)
    );
    assert!(get_pending_league_invitations(&store, 8).is_empty());
}

#[test]
fn update_through_clock() {
    let mut store = LeagueStore::new();
    let league = new_league(&mut store, 4, true, 1);
    join_league_at(&mut store, league.id, 2, 0).unwrap();
    let updated = update_league_settings(&mut store, league.id, 1, update(vec![1])).unwrap();
    assert_eq!(updated.participants, vec![1]);
    assert_eq!(updated.name, "Renamed");
    // The update moved the draft time into the past.
    assert_eq!(delete_league(&mut store, league.id, 1), Err(LeagueError::DraftAlreadyStarted));
    let other = new_league(&mut store, 4, true, 1);
    assert_eq!(delete_league(&mut store, other.id, 1), Ok(()));
    assert_eq!(store.league(other.id), None);
}
