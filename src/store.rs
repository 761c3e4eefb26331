//! An in-memory league store. Every operation checks its preconditions and
//! then changes the store in one step, so a refused operation leaves the
//! store as it was.

use vstd::prelude::*;
use vstd::seq_lib::to_multiset_build;
use crate::clock::now_micros;
use crate::error::LeagueError;
use crate::ids::contains_id;
use crate::invitation::{InvitationStatus, LeagueInvitation};
use crate::league::{league_views, League, LeagueView, NewLeague, UpdateLeague};
use crate::listing::{insert_invitation_newest_first, insert_league_newest_first};
use crate::preservation::{
    lemma_accept_keeps_store, lemma_create_keeps_store, lemma_decline_keeps_store,
    lemma_delete_keeps_store, lemma_invitation_index, lemma_invite_keeps_store,
    lemma_join_keeps_store, lemma_league_index, lemma_leave_keeps_store, lemma_update_keeps_store,
};
use crate::state::{
    invitations_newest_first, leagues_newest_first, member_pred, pending_pred, public_pred,
    StoreView,
};

verus! {

/// Leagues and invitations, each table in insertion order.
pub struct LeagueStore {
    leagues: Vec<League>,
    invitations: Vec<LeagueInvitation>,
    next_league_id: i64,
    next_invitation_id: i64,
}

impl View for LeagueStore {
    type V = StoreView;

    closed spec fn view(&self) -> StoreView {
        StoreView {
            leagues: league_views(self.leagues@),
            invitations: self.invitations@,
            next_league_id: self.next_league_id,
            next_invitation_id: self.next_invitation_id,
        }
    }
}

// The outcome of each operation, relating the store before and after the
// call and the result, at the time `now` the operation ran.

pub open spec fn creates(
    before: StoreView,
    after: StoreView,
    settings: NewLeague,
    creator_id: i64,
    now: i64,
    r: Result<League, LeagueError>,
) -> bool {
    if before.next_league_id == i64::MAX {
        r matches Err(LeagueError::DatabaseError(_)) && after == before
    } else {
        &&& r matches Ok(l) && l@ == before.created(settings, creator_id, now)
        &&& after == before.after_create(settings, creator_id, now)
    }
}

pub open spec fn joins(
    before: StoreView,
    after: StoreView,
    league_id: i64,
    user_id: i64,
    now: i64,
    r: Result<League, LeagueError>,
) -> bool {
    match before.join_error(league_id, user_id) {
        Some(e) => r == Err::<League, LeagueError>(e) && after == before,
        None => {
            &&& r matches Ok(l) && l@ == before.joined(league_id, user_id, now)
            &&& after == before.after_join(league_id, user_id, now)
        },
    }
}

pub open spec fn leaves(
    before: StoreView,
    after: StoreView,
    league_id: i64,
    user_id: i64,
    now: i64,
    r: Result<League, LeagueError>,
) -> bool {
    match before.leave_error(league_id, user_id, now) {
        Some(e) => r == Err::<League, LeagueError>(e) && after == before,
        None => {
            &&& r matches Ok(l) && l@ == before.left(league_id, user_id, now)
            &&& after == before.after_leave(league_id, user_id, now)
        },
    }
}

pub open spec fn updates(
    before: StoreView,
    after: StoreView,
    league_id: i64,
    requester: i64,
    update: UpdateLeague,
    now: i64,
    r: Result<League, LeagueError>,
) -> bool {
    match before.update_error(league_id, requester, update.participants@, now) {
        Some(e) => r == Err::<League, LeagueError>(e) && after == before,
        None => {
            &&& r matches Ok(l) && l@ == before.updated(league_id, requester, update, now)
            &&& after == before.after_update(league_id, requester, update, now)
        },
    }
}

pub open spec fn deletes(
    before: StoreView,
    after: StoreView,
    league_id: i64,
    requester: i64,
    now: i64,
    r: Result<(), LeagueError>,
) -> bool {
    match before.delete_error(league_id, requester, now) {
        Some(e) => r == Err::<(), LeagueError>(e) && after == before,
        None => r is Ok && after == before.after_delete(league_id),
    }
}

pub open spec fn invites(
    before: StoreView,
    after: StoreView,
    league_id: i64,
    invitee_id: i64,
    inviter_id: i64,
    now: i64,
    r: Result<LeagueInvitation, LeagueError>,
) -> bool {
    match before.invite_error(league_id, invitee_id, inviter_id) {
        Some(e) => r == Err::<LeagueInvitation, LeagueError>(e) && after == before,
        None => if before.next_invitation_id == i64::MAX {
            r matches Err(LeagueError::DatabaseError(_)) && after == before
        } else {
            &&& r == Ok::<LeagueInvitation, LeagueError>(
                before.sent(league_id, invitee_id, inviter_id, now),
            )
            &&& after == before.after_invite(league_id, invitee_id, inviter_id, now)
        },
    }
}

pub open spec fn accepts(
    before: StoreView,
    after: StoreView,
    invitation_id: i64,
    user_id: i64,
    now: i64,
    r: Result<League, LeagueError>,
) -> bool {
    match before.accept_error(invitation_id, user_id) {
        Some(e) => r == Err::<League, LeagueError>(e) && after == before,
        None => {
            &&& r matches Ok(l) && l@ == before.accepted(invitation_id, user_id, now)
            &&& after == before.after_accept(invitation_id, user_id, now)
        },
    }
}

pub open spec fn declines(
    before: StoreView,
    after: StoreView,
    invitation_id: i64,
    user_id: i64,
    now: i64,
    r: Result<(), LeagueError>,
) -> bool {
    match before.decline_error(invitation_id, user_id) {
        Some(e) => r == Err::<(), LeagueError>(e) && after == before,
        None => r is Ok && after == before.after_decline(invitation_id, now),
    }
}

impl LeagueStore {
    #[verifier::type_invariant]
    spec fn store_inv(&self) -> bool {
        self@.well_formed()
    }

    /// An empty store; identifiers are handed out from 1.
    pub fn new() -> (r: LeagueStore)
        ensures
            r@.leagues.len() == 0,
            r@.invitations.len() == 0,
            r@.next_league_id == 1,
            r@.next_invitation_id == 1,
            r@.well_formed(),
    {
        let r = LeagueStore {
            leagues: Vec::new(),
            invitations: Vec::new(),
            next_league_id: 1,
            next_invitation_id: 1,
        };
        assert(league_views(r.leagues@) =~= Seq::<crate::league::LeagueView>::empty());
        r
    }

    /// A copy of league `league_id`, if it exists.
    pub fn league(&self, league_id: i64) -> (r: Option<League>)
        ensures
            match r {
                Some(l) => self@.has_league(league_id) && l@ == self@.league(league_id),
                None => !self@.has_league(league_id),
            },
    {
        match self.find_league(league_id) {
            Some(i) => {
                assert(self@.leagues[i as int] == self.leagues@[i as int]@);
                Some(self.leagues[i].clone())
            },
            None => None,
        }
    }

    /// Invitation `invitation_id`, if it exists.
    pub fn invitation(&self, invitation_id: i64) -> (r: Option<LeagueInvitation>)
        ensures
            match r {
                Some(inv) => self@.has_invitation(invitation_id) && inv == self@.invitation(
                    invitation_id,
                ),
                None => !self@.has_invitation(invitation_id),
            },
    {
        match self.find_invitation(invitation_id) {
            Some(i) => Some(self.invitations[i]),
            None => None,
        }
    }

    /// Where league `league_id` stands, if it exists.
    fn find_league(&self, league_id: i64) -> (r: Option<usize>)
        ensures
            match r {
                Some(i) => {
                    &&& self@.has_league(league_id)
                    &&& i < self.leagues@.len()
                    &&& i as int == self@.league_index(league_id)
                },
                None => !self@.has_league(league_id),
            },
    {
        proof {
            use_type_invariant(self);
        }
        let mut i: usize = 0;
        while i < self.leagues.len()
            invariant
                i <= self.leagues@.len(),
                self@.well_formed(),
                forall|j: int| 0 <= j < i ==> (#[trigger] self@.leagues[j]).id != league_id,
            decreases self.leagues.len() - i,
        {
            assert(self@.leagues[i as int] == self.leagues@[i as int]@);
            if self.leagues[i].id == league_id {
                proof {
                    lemma_league_index(self@, i as int);
                }
                return Some(i);
            }
            i = i + 1;
        }
        None
    }

    /// Where invitation `invitation_id` stands, if it exists.
    fn find_invitation(&self, invitation_id: i64) -> (r: Option<usize>)
        ensures
            match r {
                Some(i) => {
                    &&& self@.has_invitation(invitation_id)
                    &&& i < self.invitations@.len()
                    &&& i as int == self@.invitation_index(invitation_id)
                },
                None => !self@.has_invitation(invitation_id),
            },
    {
        proof {
            use_type_invariant(self);
        }
        let mut i: usize = 0;
        while i < self.invitations.len()
            invariant
                i <= self.invitations@.len(),
                self@.well_formed(),
                forall|j: int| 0 <= j < i ==> (#[trigger] self@.invitations[j]).id != invitation_id,
            decreases self.invitations.len() - i,
        {
            if self.invitations[i].id == invitation_id {
                proof {
                    lemma_invitation_index(self@, i as int);
                }
                return Some(i);
            }
            i = i + 1;
        }
        None
    }

    /// Whether `user_id` holds an accepted invitation to `league_id`.
    fn is_invited(&self, league_id: i64, user_id: i64) -> (b: bool)
        ensures
            b == self@.invited(league_id, user_id),
    {
        let mut i: usize = 0;
        while i < self.invitations.len()
            invariant
                i <= self.invitations@.len(),
                forall|j: int| 0 <= j < i ==> !(#[trigger] self@.invitations[j]).admits(league_id, user_id),
            decreases self.invitations.len() - i,
        {
            if self.invitations[i].is_accepted_for(league_id, user_id) {
                return true;
            }
            i = i + 1;
        }
        false
    }

    /// Puts `l` in place of the league at `i`.
    fn replace_league(&mut self, i: usize, l: League)
        requires
            i as int == old(self)@.league_index(l.id),
            old(self)@.has_league(l.id),
            old(self)@.with_league(l.id, l@).well_formed(),
        ensures
            final(self)@ == old(self)@.with_league(l.id, l@),
    {
        let ghost target = self@.with_league(l.id, l@);
        let mut leagues: Vec<League> = Vec::new();
        std::mem::swap(&mut leagues, &mut self.leagues);
        leagues.set(i, l);
        assert(league_views(leagues@) =~= target.leagues);
        self.leagues = leagues;
    }

    /// Puts `inv` in place of the invitation at `i`.
    fn replace_invitation(&mut self, i: usize, inv: LeagueInvitation)
        requires
            i as int == old(self)@.invitation_index(inv.id),
            old(self)@.has_invitation(inv.id),
            old(self)@.with_invitation(inv.id, inv).well_formed(),
        ensures
            final(self)@ == old(self)@.with_invitation(inv.id, inv),
    {
        let ghost target = self@.with_invitation(inv.id, inv);
        let mut invitations: Vec<LeagueInvitation> = Vec::new();
        std::mem::swap(&mut invitations, &mut self.invitations);
        invitations.set(i, inv);
        assert(invitations@ =~= target.invitations);
        self.invitations = invitations;
    }
}

/// Creates a league at time `now`: `admin_id` founds it, as its only
/// participant and its admin. Fails only when identifiers run out.
pub fn create_league_at(
    store: &mut LeagueStore,
    new_league: NewLeague,
    admin_id: i64,
    now: i64,
) -> (r: Result<League, LeagueError>)
    ensures
        creates(old(store)@, final(store)@, new_league, admin_id, now, r),
        final(store)@.well_formed(),
{
    proof {
        use_type_invariant(&*store);
    }
    if store.next_league_id == i64::MAX {
        return Err(LeagueError::DatabaseError("league identifiers exhausted".to_owned()));
    }
    let ghost before = store@;
    let ghost settings = new_league;
    let id = store.next_league_id;
    let league = League::found(id, new_league, admin_id, now);
    let result = league.clone();
    proof {
        lemma_create_keeps_store(before, settings, admin_id, now);
    }
    let mut leagues: Vec<League> = Vec::new();
    std::mem::swap(&mut leagues, &mut store.leagues);
    leagues.push(league);
    assert(league_views(leagues@) =~= before.after_create(settings, admin_id, now).leagues);
    let mut invitations: Vec<LeagueInvitation> = Vec::new();
    std::mem::swap(&mut invitations, &mut store.invitations);
    *store = LeagueStore {
        leagues,
        invitations,
        next_league_id: id + 1,
        next_invitation_id: store.next_invitation_id,
    };
    Ok(result)
}

/// Creates a league now; see [`create_league_at`].
pub fn create_league(
    store: &mut LeagueStore,
    new_league: NewLeague,
    admin_id: i64,
) -> (r: Result<League, LeagueError>)
    ensures
        exists|now: i64| creates(old(store)@, final(store)@, new_league, admin_id, now, r),
        final(store)@.well_formed(),
{
    let now = now_micros();
    create_league_at(store, new_league, admin_id, now)
}

/// `user_id` joins league `league_id` at time `now`. Checks, in order: the
/// league exists; a private league needs an accepted invitation of the user;
/// the user is not yet a participant; the league is not full.
pub fn join_league_at(
    store: &mut LeagueStore,
    league_id: i64,
    user_id: i64,
    now: i64,
) -> (r: Result<League, LeagueError>)
    ensures
        joins(old(store)@, final(store)@, league_id, user_id, now, r),
        final(store)@.well_formed(),
{
    proof {
        use_type_invariant(&*store);
    }
    let i = match store.find_league(league_id) {
        Some(i) => i,
        None => return Err(LeagueError::NotFound),
    };
    let invited = store.is_invited(league_id, user_id);
    let joined = match store.leagues[i].join(user_id, invited, now) {
        Ok(l) => l,
        Err(e) => return Err(e),
    };
    proof {
        lemma_join_keeps_store(store@, league_id, user_id, now);
    }
    let result = joined.clone();
    store.replace_league(i, joined);
    Ok(result)
}

/// `user_id` joins league `league_id` now; see [`join_league_at`].
pub fn join_league(
    store: &mut LeagueStore,
    league_id: i64,
    user_id: i64,
) -> (r: Result<League, LeagueError>)
    ensures
        exists|now: i64| joins(old(store)@, final(store)@, league_id, user_id, now, r),
        final(store)@.well_formed(),
{
    let now = now_micros();
    join_league_at(store, league_id, user_id, now)
}

/// `user_id` leaves league `league_id` at time `now`. Checks, in order: the
/// league exists; the user takes part; someone else remains; the draft time
/// is still ahead. An accepted invitation of the user to the league becomes
/// invalidated; an admin who leaves hands over to the earliest remaining
/// participant.
pub fn leave_league_at(
    store: &mut LeagueStore,
    league_id: i64,
    user_id: i64,
    now: i64,
) -> (r: Result<League, LeagueError>)
    ensures
        leaves(old(store)@, final(store)@, league_id, user_id, now, r),
        final(store)@.well_formed(),
{
    proof {
        use_type_invariant(&*store);
    }
    let i = match store.find_league(league_id) {
        Some(i) => i,
        None => return Err(LeagueError::NotFound),
    };
    let left = match store.leagues[i].leave(user_id, now) {
        Ok(l) => l,
        Err(e) => return Err(e),
    };
    let ghost before = store@;
    let ghost target = before.after_leave(league_id, user_id, now);
    proof {
        lemma_leave_keeps_store(before, league_id, user_id, now);
    }
    let result = left.clone();
    let mut leagues: Vec<League> = Vec::new();
    std::mem::swap(&mut leagues, &mut store.leagues);
    leagues.set(i, left);
    assert(league_views(leagues@) =~= target.leagues);
    let mut invitations: Vec<LeagueInvitation> = Vec::new();
    std::mem::swap(&mut invitations, &mut store.invitations);
    let mut k: usize = 0;
    while k < invitations.len()
        invariant
            k <= invitations@.len(),
            invitations@.len() == before.invitations.len(),
            forall|j: int|
                0 <= j < k ==> invitations@[j] == (#[trigger] before.invitations[j]).after_leaving(
                    league_id,
                    user_id,
                    now,
                ),
            forall|j: int| k <= j < invitations@.len() ==> invitations@[j] == before.invitations[j],
        decreases invitations.len() - k,
    {
        let inv = invitations[k];
        if inv.is_accepted_for(league_id, user_id) {
            invitations.set(
                k,
                LeagueInvitation { status: InvitationStatus::Invalidated, updated_at: now, ..inv },
            );
        }
        k = k + 1;
    }
    assert(invitations@ =~= target.invitations);
    *store = LeagueStore {
        leagues,
        invitations,
        next_league_id: store.next_league_id,
        next_invitation_id: store.next_invitation_id,
    };
    Ok(result)
}

/// `user_id` leaves league `league_id` now; see [`leave_league_at`].
pub fn leave_league(
    store: &mut LeagueStore,
    league_id: i64,
    user_id: i64,
) -> (r: Result<League, LeagueError>)
    ensures
        exists|now: i64| leaves(old(store)@, final(store)@, league_id, user_id, now, r),
        final(store)@.well_formed(),
{
    let now = now_micros();
    leave_league_at(store, league_id, user_id, now)
}

/// `admin_id` applies `update_league` to league `league_id` at time `now`.
/// Checks, in order: the league exists; the requester is its admin; the draft
/// time is still ahead; every requested participant already takes part;
/// someone is requested. A requester who stays changes every setting; one who
/// removed themself changes only the participants, and the earliest remaining
/// participant becomes admin.
pub fn update_league_settings_at(
    store: &mut LeagueStore,
    league_id: i64,
    admin_id: i64,
    update_league: UpdateLeague,
    now: i64,
) -> (r: Result<League, LeagueError>)
    ensures
        updates(old(store)@, final(store)@, league_id, admin_id, update_league, now, r),
        final(store)@.well_formed(),
{
    proof {
        use_type_invariant(&*store);
    }
    let i = match store.find_league(league_id) {
        Some(i) => i,
        None => return Err(LeagueError::NotFound),
    };
    let ghost update = update_league;
    let updated = match store.leagues[i].update_settings(admin_id, update_league, now) {
        Ok(l) => l,
        Err(e) => return Err(e),
    };
    proof {
        lemma_update_keeps_store(store@, league_id, admin_id, update, now);
    }
    let result = updated.clone();
    store.replace_league(i, updated);
    Ok(result)
}

/// `admin_id` applies `update_league` to league `league_id` now; see
/// [`update_league_settings_at`].
pub fn update_league_settings(
    store: &mut LeagueStore,
    league_id: i64,
    admin_id: i64,
    update_league: UpdateLeague,
) -> (r: Result<League, LeagueError>)
    ensures
        exists|now: i64|
            updates(old(store)@, final(store)@, league_id, admin_id, update_league, now, r),
        final(store)@.well_formed(),
{
    let now = now_micros();
    update_league_settings_at(store, league_id, admin_id, update_league, now)
}

/// `admin_id` deletes league `league_id` at time `now`. Checks, in order: the
/// league exists; the requester is its admin; the draft time is still ahead.
/// The league's invitations stay.
pub fn delete_league_at(
    store: &mut LeagueStore,
    league_id: i64,
    admin_id: i64,
    now: i64,
) -> (r: Result<(), LeagueError>)
    ensures
        deletes(old(store)@, final(store)@, league_id, admin_id, now, r),
        final(store)@.well_formed(),
{
    proof {
        use_type_invariant(&*store);
    }
    let i = match store.find_league(league_id) {
        Some(i) => i,
        None => return Err(LeagueError::NotFound),
    };
    match store.leagues[i].check_delete(admin_id, now) {
        Ok(()) => {},
        Err(e) => return Err(e),
    }
    let ghost before = store@;
    proof {
        lemma_delete_keeps_store(before, league_id);
    }
    let mut leagues: Vec<League> = Vec::new();
    std::mem::swap(&mut leagues, &mut store.leagues);
    leagues.remove(i);
    assert(league_views(leagues@) =~= before.after_delete(league_id).leagues);
    store.leagues = leagues;
    Ok(())
}

/// `admin_id` deletes league `league_id` now; see [`delete_league_at`].
pub fn delete_league(
    store: &mut LeagueStore,
    league_id: i64,
    admin_id: i64,
) -> (r: Result<(), LeagueError>)
    ensures
        exists|now: i64| deletes(old(store)@, final(store)@, league_id, admin_id, now, r),
        final(store)@.well_formed(),
{
    let now = now_micros();
    delete_league_at(store, league_id, admin_id, now)
}

/// `inviter_id` invites `invitee_id` to league `league_id` at time `now`.
/// Checks, in order: the league exists; it is private; the inviter is its
/// admin; the invitee does not take part yet. The invitation starts pending.
pub fn create_league_invitation_at(
    store: &mut LeagueStore,
    league_id: i64,
    invitee_id: i64,
    inviter_id: i64,
    now: i64,
) -> (r: Result<LeagueInvitation, LeagueError>)
    ensures
        invites(old(store)@, final(store)@, league_id, invitee_id, inviter_id, now, r),
        final(store)@.well_formed(),
{
    proof {
        use_type_invariant(&*store);
    }
    let i = match store.find_league(league_id) {
        Some(i) => i,
        None => return Err(LeagueError::NotFound),
    };
    match store.leagues[i].check_invite(invitee_id, inviter_id) {
        Ok(()) => {},
        Err(e) => return Err(e),
    }
    if store.next_invitation_id == i64::MAX {
        return Err(LeagueError::DatabaseError("invitation identifiers exhausted".to_owned()));
    }
    let ghost before = store@;
    proof {
        lemma_invite_keeps_store(before, league_id, invitee_id, inviter_id, now);
    }
    let id = store.next_invitation_id;
    let invitation = LeagueInvitation {
        id,
        league_id,
        invitee_id,
        inviter_id,
        status: InvitationStatus::Pending,
        created_at: now,
        updated_at: now,
    };
    let mut invitations: Vec<LeagueInvitation> = Vec::new();
    std::mem::swap(&mut invitations, &mut store.invitations);
    invitations.push(invitation);
    let mut leagues: Vec<League> = Vec::new();
    std::mem::swap(&mut leagues, &mut store.leagues);
    assert(league_views(leagues@) =~= before.leagues);
    *store = LeagueStore {
        leagues,
        invitations,
        next_league_id: store.next_league_id,
        next_invitation_id: id + 1,
    };
    Ok(invitation)
}

/// `inviter_id` invites `invitee_id` to league `league_id` now; see
/// [`create_league_invitation_at`].
pub fn create_league_invitation(
    store: &mut LeagueStore,
    league_id: i64,
    invitee_id: i64,
    inviter_id: i64,
) -> (r: Result<LeagueInvitation, LeagueError>)
    ensures
        exists|now: i64|
            invites(old(store)@, final(store)@, league_id, invitee_id, inviter_id, now, r),
        final(store)@.well_formed(),
{
    let now = now_micros();
    create_league_invitation_at(store, league_id, invitee_id, inviter_id, now)
}

/// `user_id` accepts invitation `invitation_id` at time `now`. Checks, in
/// order: the invitation exists and is addressed to the user; it is pending;
/// its league exists. The invitation becomes accepted and the user is
/// appended to the league's participants unless already there; capacity is
/// not checked.
pub fn accept_league_invitation_at(
    store: &mut LeagueStore,
    invitation_id: i64,
    user_id: i64,
    now: i64,
) -> (r: Result<League, LeagueError>)
    ensures
        accepts(old(store)@, final(store)@, invitation_id, user_id, now, r),
        final(store)@.well_formed(),
{
    proof {
        use_type_invariant(&*store);
    }
    let k = match store.find_invitation(invitation_id) {
        Some(k) => k,
        None => return Err(LeagueError::InvitationNotFound),
    };
    let inv = store.invitations[k];
    match inv.check_accept(user_id) {
        Ok(()) => {},
        Err(e) => return Err(e),
    }
    let i = match store.find_league(inv.league_id) {
        Some(i) => i,
        None => return Err(LeagueError::NotFound),
    };
    let ghost before = store@;
    proof {
        lemma_accept_keeps_store(before, invitation_id, user_id, now);
    }
    let accepted = store.leagues[i].accept_member(user_id, now);
    let result = accepted.clone();
    let moved = LeagueInvitation { status: InvitationStatus::Accepted, updated_at: now, ..inv };
    let mut leagues: Vec<League> = Vec::new();
    std::mem::swap(&mut leagues, &mut store.leagues);
    leagues.set(i, accepted);
    let mut invitations: Vec<LeagueInvitation> = Vec::new();
    std::mem::swap(&mut invitations, &mut store.invitations);
    invitations.set(k, moved);
    let ghost target = before.after_accept(invitation_id, user_id, now);
    proof {
        let s1 = before.with_invitation(invitation_id, moved);
        assert(s1.leagues == before.leagues);
        assert(s1.has_league(inv.league_id));
        assert(s1.league_index(inv.league_id) == before.league_index(inv.league_id));
    }
    assert(league_views(leagues@) =~= target.leagues);
    assert(invitations@ =~= target.invitations);
    *store = LeagueStore {
        leagues,
        invitations,
        next_league_id: store.next_league_id,
        next_invitation_id: store.next_invitation_id,
    };
    Ok(result)
}

/// `user_id` accepts invitation `invitation_id` now; see
/// [`accept_league_invitation_at`].
pub fn accept_league_invitation(
    store: &mut LeagueStore,
    invitation_id: i64,
    user_id: i64,
) -> (r: Result<League, LeagueError>)
    ensures
        exists|now: i64| accepts(old(store)@, final(store)@, invitation_id, user_id, now, r),
        final(store)@.well_formed(),
{
    let now = now_micros();
    accept_league_invitation_at(store, invitation_id, user_id, now)
}

/// `user_id` declines invitation `invitation_id` at time `now`. Checks, in
/// order: the invitation exists; it is addressed to the user; it is pending.
pub fn decline_league_invitation_at(
    store: &mut LeagueStore,
    invitation_id: i64,
    user_id: i64,
    now: i64,
) -> (r: Result<(), LeagueError>)
    ensures
        declines(old(store)@, final(store)@, invitation_id, user_id, now, r),
        final(store)@.well_formed(),
{
    proof {
        use_type_invariant(&*store);
    }
    let k = match store.find_invitation(invitation_id) {
        Some(k) => k,
        None => return Err(LeagueError::InvitationNotFound),
    };
    let inv = store.invitations[k];
    match inv.check_decline(user_id) {
        Ok(()) => {},
        Err(e) => return Err(e),
    }
    proof {
        lemma_decline_keeps_store(store@, invitation_id, now);
    }
    store.replace_invitation(
        k,
        LeagueInvitation { status: InvitationStatus::Declined, updated_at: now, ..inv },
    );
    Ok(())
}

/// `user_id` declines invitation `invitation_id` now; see
/// [`decline_league_invitation_at`].
pub fn decline_league_invitation(
    store: &mut LeagueStore,
    invitation_id: i64,
    user_id: i64,
) -> (r: Result<(), LeagueError>)
    ensures
        exists|now: i64| declines(old(store)@, final(store)@, invitation_id, user_id, now, r),
        final(store)@.well_formed(),
{
    let now = now_micros();
    decline_league_invitation_at(store, invitation_id, user_id, now)
}

/// The public leagues, newest first.
pub fn get_public_leagues(store: &LeagueStore) -> (r: Vec<League>)
    ensures
        league_views(r@).to_multiset() == store@.public_leagues().to_multiset(),
        leagues_newest_first(league_views(r@)),
{
    let mut out: Vec<League> = Vec::new();
    let mut i: usize = 0;
    assert(league_views(out@) =~= Seq::<LeagueView>::empty());
    proof {
        reveal(Seq::filter);
        assert(league_views(out@) =~= store@.leagues.take(0).filter(public_pred()));
    }
    while i < store.leagues.len()
        invariant
            i <= store.leagues@.len(),
            league_views(out@).to_multiset() == store@.leagues.take(i as int).filter(
                public_pred(),
            ).to_multiset(),
            leagues_newest_first(league_views(out@)),
        decreases store.leagues.len() - i,
    {
        proof {
            let s = store@.leagues;
            assert(s.take(i + 1) =~= s.take(i as int).push(s[i as int]));
            s.take(i as int).lemma_filter_push(s[i as int], public_pred());
            to_multiset_build(s.take(i as int).filter(public_pred()), s[i as int]);
        }
        if store.leagues[i].is_public {
            insert_league_newest_first(&mut out, store.leagues[i].clone());
        }
        i = i + 1;
    }
    assert(store@.leagues.take(store.leagues@.len() as int) =~= store@.leagues);
    out
}

/// The leagues `user_id` takes part in, newest first.
pub fn get_user_leagues(store: &LeagueStore, user_id: i64) -> (r: Vec<League>)
    ensures
        league_views(r@).to_multiset() == store@.leagues_of(user_id).to_multiset(),
        leagues_newest_first(league_views(r@)),
{
    let mut out: Vec<League> = Vec::new();
    let mut i: usize = 0;
    assert(league_views(out@) =~= Seq::<LeagueView>::empty());
    proof {
        reveal(Seq::filter);
        assert(league_views(out@) =~= store@.leagues.take(0).filter(member_pred(user_id)));
    }
    while i < store.leagues.len()
        invariant
            i <= store.leagues@.len(),
            league_views(out@).to_multiset() == store@.leagues.take(i as int).filter(
                member_pred(user_id),
            ).to_multiset(),
            leagues_newest_first(league_views(out@)),
        decreases store.leagues.len() - i,
    {
        proof {
            let s = store@.leagues;
            assert(s.take(i + 1) =~= s.take(i as int).push(s[i as int]));
            s.take(i as int).lemma_filter_push(s[i as int], member_pred(user_id));
            to_multiset_build(s.take(i as int).filter(member_pred(user_id)), s[i as int]);
        }
        if contains_id(&store.leagues[i].participants, user_id) {
            insert_league_newest_first(&mut out, store.leagues[i].clone());
        }
        i = i + 1;
    }
    assert(store@.leagues.take(store.leagues@.len() as int) =~= store@.leagues);
    out
}

/// The pending invitations addressed to `user_id`, newest first.
pub fn get_pending_league_invitations(
    store: &LeagueStore,
    user_id: i64,
) -> (r: Vec<LeagueInvitation>)
    ensures
        r@.to_multiset() == store@.pending_for(user_id).to_multiset(),
        invitations_newest_first(r@),
{
    let mut out: Vec<LeagueInvitation> = Vec::new();
    let mut i: usize = 0;
    proof {
        reveal(Seq::filter);
        assert(out@ =~= store@.invitations.take(0).filter(pending_pred(user_id)));
    }
    while i < store.invitations.len()
        invariant
            i <= store.invitations@.len(),
            out@.to_multiset() == store@.invitations.take(i as int).filter(
                pending_pred(user_id),
            ).to_multiset(),
            invitations_newest_first(out@),
        decreases store.invitations.len() - i,
    {
        proof {
            let s = store@.invitations;
            assert(s.take(i + 1) =~= s.take(i as int).push(s[i as int]));
            s.take(i as int).lemma_filter_push(s[i as int], pending_pred(user_id));
            to_multiset_build(s.take(i as int).filter(pending_pred(user_id)), s[i as int]);
        }
        let inv = store.invitations[i];
        if inv.invitee_id == user_id && inv.status == InvitationStatus::Pending {
            insert_invitation_newest_first(&mut out, inv);
        }
        i = i + 1;
    }
    assert(store@.invitations.take(store.invitations@.len() as int) =~= store@.invitations);
    out
}

} // verus!
