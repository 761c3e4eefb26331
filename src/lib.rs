//! League membership for a fantasy-sports backend: leagues, invitations,
//! joining and leaving, admin hand-over and settings updates, with every
//! rule stated as a contract and proved.

mod clock;
pub mod error;
pub mod guards;
pub mod ids;
pub mod invitation;
pub mod laws;
pub mod league;
pub mod listing;
pub mod preservation;
pub mod routes;
pub mod state;
pub mod store;
pub mod user;
