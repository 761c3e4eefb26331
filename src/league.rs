use vstd::prelude::*;
use crate::error::LeagueError;
use crate::ids::{all_within, held_by, contains_id, copy_ids, drop_id, ids_kept, keep_ids, without_id};

verus! {

/// A league: configuration, membership and bookkeeping.
///
/// Every timestamp (`draft_time`, `created_at`, `updated_at`) counts
/// microseconds since the Unix epoch, UTC.
#[derive(Debug, PartialEq, Eq)]
pub struct League {
    pub id: i64,
    pub name: String,
    pub admin_id: i64,
    pub max_teams: i32,
    pub is_public: bool,
    pub draft_time: i64,
    pub scoring_type: String,
    pub participants: Vec<i64>,
    pub draft_order: Option<Vec<i64>>,
    pub created_at: i64,
    pub updated_at: i64,
}

/// The configuration a league is created with.
#[derive(Debug, PartialEq, Eq)]
pub struct NewLeague {
    pub name: String,
    pub max_teams: i32,
    pub is_public: bool,
    pub draft_time: i64,
    pub scoring_type: String,
}

/// A settings update: the new configuration and the participants to keep.
#[derive(Debug, PartialEq, Eq)]
pub struct UpdateLeague {
    pub name: String,
    pub max_teams: i32,
    pub is_public: bool,
    pub draft_time: i64,
    pub scoring_type: String,
    pub participants: Vec<i64>,
}

/// The mathematical value of a [`League`].
pub struct LeagueView {
    pub id: i64,
    pub name: Seq<char>,
    pub admin_id: i64,
    pub max_teams: i32,
    pub is_public: bool,
    pub draft_time: i64,
    pub scoring_type: Seq<char>,
    pub participants: Seq<i64>,
    pub draft_order: Option<Seq<i64>>,
    pub created_at: i64,
    pub updated_at: i64,
}

/// The views of a sequence of leagues.
pub open spec fn league_views(s: Seq<League>) -> Seq<LeagueView> {
    s.map_values(|l: League| l@)
}

pub open spec fn ids_view(o: Option<Vec<i64>>) -> Option<Seq<i64>> {
    match o {
        Some(v) => Some(v@),
        None => None,
    }
}

impl View for League {
    type V = LeagueView;

    open spec fn view(&self) -> LeagueView {
        LeagueView {
            id: self.id,
            name: self.name@,
            admin_id: self.admin_id,
            max_teams: self.max_teams,
            is_public: self.is_public,
            draft_time: self.draft_time,
            scoring_type: self.scoring_type@,
            participants: self.participants@,
            draft_order: ids_view(self.draft_order),
            created_at: self.created_at,
            updated_at: self.updated_at,
        }
    }
}

/// The league that `creator_id` founds with `settings`: the creator is its
/// only participant and its admin.
pub open spec fn founded(id: i64, settings: NewLeague, creator_id: i64, now: i64) -> LeagueView {
    LeagueView {
        id,
        name: settings.name@,
        admin_id: creator_id,
        max_teams: settings.max_teams,
        is_public: settings.is_public,
        draft_time: settings.draft_time,
        scoring_type: settings.scoring_type@,
        participants: seq![creator_id],
        draft_order: None,
        created_at: now,
        updated_at: now,
    }
}

impl LeagueView {
    pub open spec fn is_member(self, user_id: i64) -> bool {
        self.participants.contains(user_id)
    }

    /// The membership invariant: someone takes part, nobody twice, and the
    /// admin is one of the participants.
    pub open spec fn well_formed(self) -> bool {
        &&& self.participants.len() > 0
        &&& self.participants.no_duplicates()
        &&& self.participants.contains(self.admin_id)
    }

    pub open spec fn is_full(self) -> bool {
        self.participants.len() >= self.max_teams as int
    }

    /// Membership and settings freeze once the draft time is reached.
    pub open spec fn draft_started(self, now: i64) -> bool {
        now >= self.draft_time
    }

    /// The participants other than `user_id`, in order.
    pub open spec fn others(self, user_id: i64) -> Seq<i64> {
        drop_id(self.participants, user_id)
    }

    /// Why `user_id` may not join; `invited` tells whether an accepted
    /// invitation of theirs to this league exists.
    pub open spec fn join_error(self, user_id: i64, invited: bool) -> Option<LeagueError> {
        if !self.is_public && !invited {
            Some(LeagueError::NotAuthorized)
        } else if self.is_member(user_id) {
            Some(LeagueError::AlreadyJoined)
        } else if self.is_full() {
            Some(LeagueError::LeagueFull)
        } else {
            None
        }
    }

    /// The league with `user_id` appended to the participants.
    pub open spec fn with_member(self, user_id: i64, now: i64) -> LeagueView {
        LeagueView { participants: self.participants.push(user_id), updated_at: now, ..self }
    }

    /// Why `user_id` may not leave at time `now`.
    pub open spec fn leave_error(self, user_id: i64, now: i64) -> Option<LeagueError> {
        if !self.is_member(user_id) {
            Some(LeagueError::NotInLeague)
        } else if self.others(user_id).len() == 0 {
            Some(LeagueError::LastMember)
        } else if self.draft_started(now) {
            Some(LeagueError::DraftAlreadyStarted)
        } else {
            None
        }
    }

    /// The league after `user_id` left: they are removed, and if they were the
    /// admin, the earliest remaining participant becomes admin.
    pub open spec fn without_member(self, user_id: i64, now: i64) -> LeagueView {
        let rest = self.others(user_id);
        LeagueView {
            participants: rest,
            admin_id: if self.admin_id == user_id {
                rest[0]
            } else {
                self.admin_id
            },
            updated_at: now,
            ..self
        }
    }

    /// Why `requester` may not apply a settings update that keeps `requested`.
    pub open spec fn update_error(self, requester: i64, requested: Seq<i64>, now: i64) -> Option<LeagueError> {
        if requester != self.admin_id {
            Some(LeagueError::NotAuthorized)
        } else if self.draft_started(now) {
            Some(LeagueError::DraftAlreadyStarted)
        } else if exists|k: int| 0 <= k < requested.len() && !self.is_member(#[trigger] requested[k]) {
            Some(LeagueError::CannotAddParticipants)
        } else if requested.len() == 0 {
            Some(LeagueError::NoParticipantsLeft)
        } else {
            None
        }
    }

    /// The participants that a settings update keeping `requested` leaves, in
    /// their joining order.
    pub open spec fn kept(self, requested: Seq<i64>) -> Seq<i64> {
        keep_ids(self.participants, requested)
    }

    /// The league after `requester` applied `update`. A requester who stays
    /// changes every setting and stays admin; one who removed themself changes
    /// only the participants, and the earliest remaining participant becomes
    /// admin.
    pub open spec fn with_settings(self, requester: i64, update: UpdateLeague, now: i64) -> LeagueView {
        let kept = self.kept(update.participants@);
        if kept.contains(requester) {
            LeagueView {
                name: update.name@,
                max_teams: update.max_teams,
                is_public: update.is_public,
                draft_time: update.draft_time,
                scoring_type: update.scoring_type@,
                participants: kept,
                admin_id: requester,
                updated_at: now,
                ..self
            }
        } else {
            LeagueView { participants: kept, admin_id: kept[0], updated_at: now, ..self }
        }
    }

    /// Why `requester` may not delete the league at time `now`.
    pub open spec fn delete_error(self, requester: i64, now: i64) -> Option<LeagueError> {
        if requester != self.admin_id {
            Some(LeagueError::NotAuthorized)
        } else if self.draft_started(now) {
            Some(LeagueError::DraftAlreadyStarted)
        } else {
            None
        }
    }

    /// Why `inviter_id` may not invite `invitee_id`.
    pub open spec fn invite_error(self, invitee_id: i64, inviter_id: i64) -> Option<LeagueError> {
        if self.is_public {
            Some(LeagueError::LeagueIsPublic)
        } else if inviter_id != self.admin_id {
            Some(LeagueError::NotAuthorized)
        } else if self.is_member(invitee_id) {
            Some(LeagueError::AlreadyJoined)
        } else {
            None
        }
    }

    /// The league after `user_id` accepted an invitation: appended unless
    /// already a participant. Capacity is not checked here.
    pub open spec fn with_invitee(self, user_id: i64, now: i64) -> LeagueView {
        LeagueView {
            participants: if self.is_member(user_id) {
                self.participants
            } else {
                self.participants.push(user_id)
            },
            updated_at: now,
            ..self
        }
    }
}

impl Clone for League {
    fn clone(&self) -> (r: League)
        ensures
            r@ == self@,
    {
        League {
            id: self.id,
            name: self.name.clone(),
            admin_id: self.admin_id,
            max_teams: self.max_teams,
            is_public: self.is_public,
            draft_time: self.draft_time,
            scoring_type: self.scoring_type.clone(),
            participants: copy_ids(&self.participants),
            draft_order: match &self.draft_order {
                Some(v) => Some(copy_ids(v)),
                None => None,
            },
            created_at: self.created_at,
            updated_at: self.updated_at,
        }
    }
}

impl League {
    /// The league `creator_id` founds with `settings` at time `now`.
    pub fn found(id: i64, settings: NewLeague, creator_id: i64, now: i64) -> (r: League)
        ensures
            r@ == founded(id, settings, creator_id, now),
    {
        let r = League {
            id,
            name: settings.name,
            admin_id: creator_id,
            max_teams: settings.max_teams,
            is_public: settings.is_public,
            draft_time: settings.draft_time,
            scoring_type: settings.scoring_type,
            participants: vec![creator_id],
            draft_order: None,
            created_at: now,
            updated_at: now,
        };
        assert(r.participants@ =~= seq![creator_id]);
        r
    }

    /// `user_id` joins; `invited` tells whether an accepted invitation of
    /// theirs to this league exists. Checks, in order: private league without
    /// such an invitation, already a participant, league full.
    pub fn join(&self, user_id: i64, invited: bool, now: i64) -> (r: Result<League, LeagueError>)
        ensures
            match self@.join_error(user_id, invited) {
                Some(e) => r == Err::<League, LeagueError>(e),
                None => r matches Ok(l) && l@ == self@.with_member(user_id, now),
            },
    {
        if !self.is_public && !invited {
            return Err(LeagueError::NotAuthorized);
        }
        if contains_id(&self.participants, user_id) {
            return Err(LeagueError::AlreadyJoined);
        }
        if self.max_teams < 0 || self.participants.len() >= self.max_teams as usize {
            return Err(LeagueError::LeagueFull);
        }
        let mut l = self.clone();
        l.participants.push(user_id);
        l.updated_at = now;
        Ok(l)
    }

    /// `user_id` leaves at time `now`. Checks, in order: not a participant,
    /// last member, draft started.
    pub fn leave(&self, user_id: i64, now: i64) -> (r: Result<League, LeagueError>)
        ensures
            match self@.leave_error(user_id, now) {
                Some(e) => r == Err::<League, LeagueError>(e),
                None => r matches Ok(l) && l@ == self@.without_member(user_id, now),
            },
    {
        if !contains_id(&self.participants, user_id) {
            return Err(LeagueError::NotInLeague);
        }
        let rest = without_id(&self.participants, user_id);
        if rest.len() == 0 {
            return Err(LeagueError::LastMember);
        }
        if now >= self.draft_time {
            return Err(LeagueError::DraftAlreadyStarted);
        }
        let admin_id = if self.admin_id == user_id {
            rest[0]
        } else {
            self.admin_id
        };
        let mut l = self.clone();
        l.participants = rest;
        l.admin_id = admin_id;
        l.updated_at = now;
        Ok(l)
    }

    /// `requester` applies `update` at time `now`. Checks, in order: not the
    /// admin, draft started, a requested participant not in the league, no
    /// participant requested.
    pub fn update_settings(
        &self,
        requester: i64,
        update: UpdateLeague,
        now: i64,
    ) -> (r: Result<League, LeagueError>)
        ensures
            match self@.update_error(requester, update.participants@, now) {
                Some(e) => r == Err::<League, LeagueError>(e),
                None => r matches Ok(l) && l@ == self@.with_settings(requester, update, now),
            },
    {
        if requester != self.admin_id {
            return Err(LeagueError::NotAuthorized);
        }
        if now >= self.draft_time {
            return Err(LeagueError::DraftAlreadyStarted);
        }
        if !all_within(&update.participants, &self.participants) {
            return Err(LeagueError::CannotAddParticipants);
        }
        if update.participants.len() == 0 {
            return Err(LeagueError::NoParticipantsLeft);
        }
        let ghost requested = update.participants@;
        let kept = ids_kept(&self.participants, &update.participants);
        proof {
            let p = requested[0];
            assert(self@.is_member(p));
            let k = choose|k: int| 0 <= k < self.participants@.len() && self.participants@[k] == p;
            self.participants@.lemma_filter_contains(held_by(requested), k);
        }
        let mut l = self.clone();
        if contains_id(&kept, requester) {
            l.name = update.name;
            l.max_teams = update.max_teams;
            l.is_public = update.is_public;
            l.draft_time = update.draft_time;
            l.scoring_type = update.scoring_type;
            l.admin_id = requester;
        } else {
            l.admin_id = kept[0];
        }
        l.participants = kept;
        l.updated_at = now;
        Ok(l)
    }

    /// Whether `requester` may delete the league at time `now`. Checks, in
    /// order: not the admin, draft started.
    pub fn check_delete(&self, requester: i64, now: i64) -> (r: Result<(), LeagueError>)
        ensures
            match self@.delete_error(requester, now) {
                Some(e) => r == Err::<(), LeagueError>(e),
                None => r is Ok,
            },
    {
        if requester != self.admin_id {
            return Err(LeagueError::NotAuthorized);
        }
        if now >= self.draft_time {
            return Err(LeagueError::DraftAlreadyStarted);
        }
        Ok(())
    }

    /// Whether `inviter_id` may invite `invitee_id`. Checks, in order: public
    /// league, inviter not the admin, invitee already a participant.
    pub fn check_invite(&self, invitee_id: i64, inviter_id: i64) -> (r: Result<(), LeagueError>)
        ensures
            match self@.invite_error(invitee_id, inviter_id) {
                Some(e) => r == Err::<(), LeagueError>(e),
                None => r is Ok,
            },
    {
        if self.is_public {
            return Err(LeagueError::LeagueIsPublic);
        }
        if inviter_id != self.admin_id {
            return Err(LeagueError::NotAuthorized);
        }
        if contains_id(&self.participants, invitee_id) {
            return Err(LeagueError::AlreadyJoined);
        }
        Ok(())
    }

    /// The league after `user_id` accepted an invitation at time `now`.
    pub fn accept_member(&self, user_id: i64, now: i64) -> (r: League)
        ensures
            r@ == self@.with_invitee(user_id, now),
    {
        let mut l = self.clone();
        if !contains_id(&l.participants, user_id) {
            l.participants.push(user_id);
        }
        l.updated_at = now;
        l
    }
}

} // verus!
