use efantasy::error::LeagueError;
use efantasy::invitation::InvitationStatus;
use efantasy::routes::{conflict_catcher, index};

#[test]
fn fixed_replies() {
    assert_eq!(index(), "Welcome to eFantasy API");
    assert_eq!(conflict_catcher(), "Username or email already exists!");
}

#[test]
fn error_status_codes() {
    assert_eq!(LeagueError::NotFound.status_code(), 404);
    assert_eq!(LeagueError::DatabaseError("x".to_string()).status_code(), 500);
    assert_eq!(LeagueError::NotAuthorized.status_code(), 403);
    assert_eq!(LeagueError::LeagueFull.status_code(), 400);
    assert_eq!(LeagueError::InvitationNotFound.status_code(), 400);
}

#[test]
fn error_messages() {
    assert_eq!(LeagueError::NotFound.message(), "League not found");
    assert_eq!(LeagueError::LeagueFull.message(), "League is full");
    assert_eq!(
        LeagueError::LastMember.message(),
        "Cannot leave league: you are the last member"
    );
    assert_eq!(LeagueError::DatabaseError("boom".to_string()).message(), "Database error");
}

#[test]
fn invitation_status_names() {
    assert_eq!(InvitationStatus::Pending.as_str(), "pending");
    assert_eq!(InvitationStatus::Accepted.as_str(), "accepted");
    assert_eq!(InvitationStatus::Declined.as_str(), "declined");
    assert_eq!(InvitationStatus::Invalidated.as_str(), "invalidated");
}
