use vstd::prelude::*;

verus! {

/// Why a league operation was refused.
#[derive(Debug, PartialEq, Eq)]
pub enum LeagueError {
    /// The league (or the league an invitation points at) does not exist.
    NotFound,
    /// The backing store failed; the text describes the failure.
    DatabaseError(String),
    /// The user already takes part in the league.
    AlreadyJoined,
    /// The league already holds `max_teams` participants.
    LeagueFull,
    /// The draft time has been reached; membership and settings are frozen.
    DraftAlreadyStarted,
    /// The user does not take part in the league.
    NotInLeague,
    /// The user is the last member; the league must be deleted instead.
    LastMember,
    /// The caller lacks the role the action needs.
    NotAuthorized,
    /// A settings update named someone who is not a participant.
    CannotAddParticipants,
    /// A settings update would leave the league without participants.
    NoParticipantsLeft,
    /// Invitations are only for private leagues.
    LeagueIsPublic,
    /// The invitation was already answered or invalidated.
    InvitationNotPending,
    /// No such invitation addressed to the caller.
    InvitationNotFound,
}

impl LeagueError {
    /// The HTTP status this failure is reported with.
    pub open spec fn spec_status(&self) -> u16 {
        match self {
            LeagueError::NotFound => 404,
            LeagueError::DatabaseError(_) => 500,
            LeagueError::NotAuthorized => 403,
            _ => 400,
        }
    }

    pub fn status_code(&self) -> (r: u16)
        ensures
            r == self.spec_status(),
    {
        match self {
            LeagueError::NotFound => 404,
            LeagueError::DatabaseError(_) => 500,
            LeagueError::NotAuthorized => 403,
            _ => 400,
        }
    }

    /// The message shown to the client for this failure.
    pub open spec fn spec_message(&self) -> Seq<char> {
        match self {
            LeagueError::NotFound => "League not found"@,
            LeagueError::DatabaseError(_) => "Database error"@,
            LeagueError::AlreadyJoined => "User is already in the league"@,
            LeagueError::LeagueFull => "League is full"@,
            LeagueError::DraftAlreadyStarted => "Cannot leave. Season has already begun."@,
            LeagueError::NotInLeague => "User not in league."@,
            LeagueError::LastMember => "Cannot leave league: you are the last member"@,
            LeagueError::NotAuthorized => "User is not authorized to perform this action"@,
            LeagueError::CannotAddParticipants => "Cannot add new users without valid invitation"@,
            LeagueError::NoParticipantsLeft =>
                "Cannot remove all participants from the league. Please delete the league to remove all participants."@,
            LeagueError::LeagueIsPublic => "League is public"@,
            LeagueError::InvitationNotPending => "Invitation is not pending"@,
            LeagueError::InvitationNotFound => "Invitation not found"@,
        }
    }

    pub fn message(&self) -> (r: &'static str)
        ensures
            r@ == self.spec_message(),
    {
        match self {
            LeagueError::NotFound => "League not found",
            LeagueError::DatabaseError(_) => "Database error",
            LeagueError::AlreadyJoined => "User is already in the league",
            LeagueError::LeagueFull => "League is full",
            LeagueError::DraftAlreadyStarted => "Cannot leave. Season has already begun.",
            LeagueError::NotInLeague => "User not in league.",
            LeagueError::LastMember => "Cannot leave league: you are the last member",
            LeagueError::NotAuthorized => "User is not authorized to perform this action",
            LeagueError::CannotAddParticipants => "Cannot add new users without valid invitation",
            LeagueError::NoParticipantsLeft =>
                "Cannot remove all participants from the league. Please delete the league to remove all participants.",
            LeagueError::LeagueIsPublic => "League is public",
            LeagueError::InvitationNotPending => "Invitation is not pending",
            LeagueError::InvitationNotFound => "Invitation not found",
        }
    }
}

} // verus!
