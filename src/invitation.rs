use vstd::prelude::*;
use crate::error::LeagueError;

verus! {

/// Where an invitation stands. It leaves `Pending` once and never returns.
#[derive(Clone, Copy, Debug, PartialEq, Eq, Structural)]
pub enum InvitationStatus {
    Pending,
    Accepted,
    Declined,
    /// The invitee accepted and later left the league.
    Invalidated,
}

impl InvitationStatus {
    pub open spec fn spec_name(self) -> Seq<char> {
        match self {
            InvitationStatus::Pending => "pending"@,
            InvitationStatus::Accepted => "accepted"@,
            InvitationStatus::Declined => "declined"@,
            InvitationStatus::Invalidated => "invalidated"@,
        }
    }

    /// The name under which the status is stored.
    pub fn as_str(&self) -> (r: &'static str)
        ensures
            r@ == self.spec_name(),
    {
        match self {
            InvitationStatus::Pending => "pending",
            InvitationStatus::Accepted => "accepted",
            InvitationStatus::Declined => "declined",
            InvitationStatus::Invalidated => "invalidated",
        }
    }
}

/// An invitation of `invitee_id` to a private league, sent by its admin.
/// Timestamps count microseconds since the Unix epoch, UTC.
#[derive(Clone, Copy, Debug, PartialEq, Eq, Structural)]
pub struct LeagueInvitation {
    pub id: i64,
    pub league_id: i64,
    pub invitee_id: i64,
    pub inviter_id: i64,
    pub status: InvitationStatus,
    pub created_at: i64,
    pub updated_at: i64,
}

/// What a client sends to invite someone.
#[derive(Clone, Copy, Debug, PartialEq, Eq, Structural)]
pub struct NewLeagueInvitation {
    pub league_id: i64,
    pub invitee_id: i64,
}

impl LeagueInvitation {
    /// The invitation with `status`, stamped at `now`.
    pub open spec fn moved_to(self, status: InvitationStatus, now: i64) -> LeagueInvitation {
        LeagueInvitation { status, updated_at: now, ..self }
    }

    /// Whether this is the accepted invitation of `user_id` to `league_id`.
    pub open spec fn admits(self, league_id: i64, user_id: i64) -> bool {
        &&& self.league_id == league_id
        &&& self.invitee_id == user_id
        &&& self.status == InvitationStatus::Accepted
    }

    /// The invitation once `user_id` has left `league_id`: an accepted
    /// invitation of theirs to it becomes invalidated.
    pub open spec fn after_leaving(self, league_id: i64, user_id: i64, now: i64) -> LeagueInvitation {
        if self.admits(league_id, user_id) {
            self.moved_to(InvitationStatus::Invalidated, now)
        } else {
            self
        }
    }

    /// Why `user_id` may not accept this invitation: it is not addressed to
    /// them, or no longer pending.
    pub open spec fn accept_error(self, user_id: i64) -> Option<LeagueError> {
        if self.invitee_id != user_id {
            Some(LeagueError::InvitationNotFound)
        } else if self.status != InvitationStatus::Pending {
            Some(LeagueError::InvitationNotPending)
        } else {
            None
        }
    }

    /// Why `user_id` may not decline this invitation: it is not addressed to
    /// them, or no longer pending.
    pub open spec fn decline_error(self, user_id: i64) -> Option<LeagueError> {
        if self.invitee_id != user_id {
            Some(LeagueError::NotAuthorized)
        } else if self.status != InvitationStatus::Pending {
            Some(LeagueError::InvitationNotPending)
        } else {
            None
        }
    }

    pub fn check_accept(&self, user_id: i64) -> (r: Result<(), LeagueError>)
        ensures
            match self.accept_error(user_id) {
                Some(e) => r == Err::<(), LeagueError>(e),
                None => r is Ok,
            },
    {
        if self.invitee_id != user_id {
            return Err(LeagueError::InvitationNotFound);
        }
        if self.status != InvitationStatus::Pending {
            return Err(LeagueError::InvitationNotPending);
        }
        Ok(())
    }

    pub fn check_decline(&self, user_id: i64) -> (r: Result<(), LeagueError>)
        ensures
            match self.decline_error(user_id) {
                Some(e) => r == Err::<(), LeagueError>(e),
                None => r is Ok,
            },
    {
        if self.invitee_id != user_id {
            return Err(LeagueError::NotAuthorized);
        }
        if self.status != InvitationStatus::Pending {
            return Err(LeagueError::InvitationNotPending);
        }
        Ok(())
    }

    pub fn is_accepted_for(&self, league_id: i64, user_id: i64) -> (b: bool)
        ensures
            b == self.admits(league_id, user_id),
    {
        self.league_id == league_id && self.invitee_id == user_id && self.status
            == InvitationStatus::Accepted
    }
}

} // verus!
