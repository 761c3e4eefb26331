use vstd::prelude::*;
use crate::error::LeagueError;
use crate::invitation::{InvitationStatus, LeagueInvitation};
use crate::league::{founded, LeagueView, NewLeague, UpdateLeague};

verus! {

/// The mathematical state of a league store: both tables, in insertion
/// order, and the next identifiers to hand out.
pub struct StoreView {
    pub leagues: Seq<LeagueView>,
    pub invitations: Seq<LeagueInvitation>,
    pub next_league_id: i64,
    pub next_invitation_id: i64,
}

/// Whether `s` lists the newest league first (by `created_at`).
pub open spec fn leagues_newest_first(s: Seq<LeagueView>) -> bool {
    forall|i: int, j: int| 0 <= i < j < s.len() ==> s[i].created_at >= s[j].created_at
}

/// Whether `s` lists the newest invitation first (by `created_at`).
pub open spec fn invitations_newest_first(s: Seq<LeagueInvitation>) -> bool {
    forall|i: int, j: int| 0 <= i < j < s.len() ==> s[i].created_at >= s[j].created_at
}

pub open spec fn public_pred() -> spec_fn(LeagueView) -> bool {
    |l: LeagueView| l.is_public
}

pub open spec fn member_pred(user_id: i64) -> spec_fn(LeagueView) -> bool {
    |l: LeagueView| l.participants.contains(user_id)
}

pub open spec fn pending_pred(user_id: i64) -> spec_fn(LeagueInvitation) -> bool {
    |i: LeagueInvitation| i.invitee_id == user_id && i.status == InvitationStatus::Pending
}

/// Every invitation after `user_id` left `league_id` at `now`.
pub open spec fn invalidated(
    invitations: Seq<LeagueInvitation>,
    league_id: i64,
    user_id: i64,
    now: i64,
) -> Seq<LeagueInvitation> {
    invitations.map_values(|inv: LeagueInvitation| inv.after_leaving(league_id, user_id, now))
}

impl StoreView {
    /// The store invariant: every league keeps its membership invariant, and
    /// identifiers are unique, increasing in insertion order and below the
    /// next one to hand out.
    pub open spec fn well_formed(self) -> bool {
        &&& forall|i: int| 0 <= i < self.leagues.len() ==> (#[trigger] self.leagues[i]).well_formed()
        &&& forall|i: int, j: int|
            0 <= i < j < self.leagues.len() ==> self.leagues[i].id < self.leagues[j].id
        &&& forall|i: int|
            0 <= i < self.leagues.len() ==> (#[trigger] self.leagues[i]).id < self.next_league_id
        &&& forall|i: int, j: int|
            0 <= i < j < self.invitations.len() ==> self.invitations[i].id < self.invitations[j].id
        &&& forall|i: int|
            0 <= i < self.invitations.len() ==> (#[trigger] self.invitations[i]).id
                < self.next_invitation_id
    }

    pub open spec fn has_league(self, league_id: i64) -> bool {
        exists|i: int| 0 <= i < self.leagues.len() && self.leagues[i].id == league_id
    }

    pub open spec fn league_index(self, league_id: i64) -> int {
        choose|i: int| 0 <= i < self.leagues.len() && self.leagues[i].id == league_id
    }

    /// The league with identifier `league_id`, when `has_league`.
    pub open spec fn league(self, league_id: i64) -> LeagueView {
        self.leagues[self.league_index(league_id)]
    }

    pub open spec fn has_invitation(self, invitation_id: i64) -> bool {
        exists|i: int| 0 <= i < self.invitations.len() && self.invitations[i].id == invitation_id
    }

    pub open spec fn invitation_index(self, invitation_id: i64) -> int {
        choose|i: int| 0 <= i < self.invitations.len() && self.invitations[i].id == invitation_id
    }

    /// The invitation with identifier `invitation_id`, when `has_invitation`.
    pub open spec fn invitation(self, invitation_id: i64) -> LeagueInvitation {
        self.invitations[self.invitation_index(invitation_id)]
    }

    /// Whether `user_id` holds an accepted invitation to `league_id`.
    pub open spec fn invited(self, league_id: i64, user_id: i64) -> bool {
        exists|k: int|
            0 <= k < self.invitations.len() && (#[trigger] self.invitations[k]).admits(
                league_id,
                user_id,
            )
    }

    /// The store with league `league_id` replaced by `l`.
    pub open spec fn with_league(self, league_id: i64, l: LeagueView) -> StoreView {
        StoreView { leagues: self.leagues.update(self.league_index(league_id), l), ..self }
    }

    /// The store with invitation `invitation_id` replaced by `inv`.
    pub open spec fn with_invitation(self, invitation_id: i64, inv: LeagueInvitation) -> StoreView {
        StoreView {
            invitations: self.invitations.update(self.invitation_index(invitation_id), inv),
            ..self
        }
    }

    // Creating a league.
    /// The league that the next creation at `now` stores.
    pub open spec fn created(self, settings: NewLeague, creator_id: i64, now: i64) -> LeagueView {
        founded(self.next_league_id, settings, creator_id, now)
    }

    pub open spec fn after_create(self, settings: NewLeague, creator_id: i64, now: i64) -> StoreView {
        StoreView {
            leagues: self.leagues.push(self.created(settings, creator_id, now)),
            next_league_id: (self.next_league_id + 1) as i64,
            ..self
        }
    }

    // Joining.
    pub open spec fn join_error(self, league_id: i64, user_id: i64) -> Option<LeagueError> {
        if !self.has_league(league_id) {
            Some(LeagueError::NotFound)
        } else {
            self.league(league_id).join_error(user_id, self.invited(league_id, user_id))
        }
    }

    pub open spec fn joined(self, league_id: i64, user_id: i64, now: i64) -> LeagueView {
        self.league(league_id).with_member(user_id, now)
    }

    pub open spec fn after_join(self, league_id: i64, user_id: i64, now: i64) -> StoreView {
        self.with_league(league_id, self.joined(league_id, user_id, now))
    }

    // Leaving.
    pub open spec fn leave_error(self, league_id: i64, user_id: i64, now: i64) -> Option<LeagueError> {
        if !self.has_league(league_id) {
            Some(LeagueError::NotFound)
        } else {
            self.league(league_id).leave_error(user_id, now)
        }
    }

    pub open spec fn left(self, league_id: i64, user_id: i64, now: i64) -> LeagueView {
        self.league(league_id).without_member(user_id, now)
    }

    pub open spec fn after_leave(self, league_id: i64, user_id: i64, now: i64) -> StoreView {
        StoreView {
            leagues: self.leagues.update(
                self.league_index(league_id),
                self.left(league_id, user_id, now),
            ),
            invitations: invalidated(self.invitations, league_id, user_id, now),
            ..self
        }
    }

    // Updating settings.
    pub open spec fn update_error(
        self,
        league_id: i64,
        requester: i64,
        requested: Seq<i64>,
        now: i64,
    ) -> Option<LeagueError> {
        if !self.has_league(league_id) {
            Some(LeagueError::NotFound)
        } else {
            self.league(league_id).update_error(requester, requested, now)
        }
    }

    pub open spec fn updated(self, league_id: i64, requester: i64, update: UpdateLeague, now: i64) -> LeagueView {
        self.league(league_id).with_settings(requester, update, now)
    }

    pub open spec fn after_update(
        self,
        league_id: i64,
        requester: i64,
        update: UpdateLeague,
        now: i64,
    ) -> StoreView {
        self.with_league(league_id, self.updated(league_id, requester, update, now))
    }

    // Deleting.
    pub open spec fn delete_error(self, league_id: i64, requester: i64, now: i64) -> Option<LeagueError> {
        if !self.has_league(league_id) {
            Some(LeagueError::NotFound)
        } else {
            self.league(league_id).delete_error(requester, now)
        }
    }

    /// Invitations are not removed with their league.
    pub open spec fn after_delete(self, league_id: i64) -> StoreView {
        StoreView { leagues: self.leagues.remove(self.league_index(league_id)), ..self }
    }

    // Inviting.
    pub open spec fn invite_error(self, league_id: i64, invitee_id: i64, inviter_id: i64) -> Option<LeagueError> {
        if !self.has_league(league_id) {
            Some(LeagueError::NotFound)
        } else {
            self.league(league_id).invite_error(invitee_id, inviter_id)
        }
    }

    /// The invitation that the next invite at `now` stores.
    pub open spec fn sent(self, league_id: i64, invitee_id: i64, inviter_id: i64, now: i64) -> LeagueInvitation {
        LeagueInvitation {
            id: self.next_invitation_id,
            league_id,
            invitee_id,
            inviter_id,
            status: InvitationStatus::Pending,
            created_at: now,
            updated_at: now,
        }
    }

    pub open spec fn after_invite(
        self,
        league_id: i64,
        invitee_id: i64,
        inviter_id: i64,
        now: i64,
    ) -> StoreView {
        StoreView {
            invitations: self.invitations.push(self.sent(league_id, invitee_id, inviter_id, now)),
            next_invitation_id: (self.next_invitation_id + 1) as i64,
            ..self
        }
    }

    // Accepting.
    pub open spec fn accept_error(self, invitation_id: i64, user_id: i64) -> Option<LeagueError> {
        if !self.has_invitation(invitation_id) {
            Some(LeagueError::InvitationNotFound)
        } else {
            match self.invitation(invitation_id).accept_error(user_id) {
                Some(e) => Some(e),
                None => if !self.has_league(self.invitation(invitation_id).league_id) {
                    Some(LeagueError::NotFound)
                } else {
                    None
                },
            }
        }
    }

    pub open spec fn accepted(self, invitation_id: i64, user_id: i64, now: i64) -> LeagueView {
        self.league(self.invitation(invitation_id).league_id).with_invitee(user_id, now)
    }

    pub open spec fn after_accept(self, invitation_id: i64, user_id: i64, now: i64) -> StoreView {
        let inv = self.invitation(invitation_id);
        self.with_invitation(invitation_id, inv.moved_to(InvitationStatus::Accepted, now)).with_league(
            inv.league_id,
            self.accepted(invitation_id, user_id, now),
        )
    }

    // Declining.
    pub open spec fn decline_error(self, invitation_id: i64, user_id: i64) -> Option<LeagueError> {
        if !self.has_invitation(invitation_id) {
            Some(LeagueError::InvitationNotFound)
        } else {
            self.invitation(invitation_id).decline_error(user_id)
        }
    }

    pub open spec fn after_decline(self, invitation_id: i64, now: i64) -> StoreView {
        self.with_invitation(
            invitation_id,
            self.invitation(invitation_id).moved_to(InvitationStatus::Declined, now),
        )
    }

    // Listing.
    pub open spec fn public_leagues(self) -> Seq<LeagueView> {
        self.leagues.filter(public_pred())
    }

    pub open spec fn leagues_of(self, user_id: i64) -> Seq<LeagueView> {
        self.leagues.filter(member_pred(user_id))
    }

    pub open spec fn pending_for(self, user_id: i64) -> Seq<LeagueInvitation> {
        self.invitations.filter(pending_pred(user_id))
    }
}

} // verus!
