//! Teams: creating them, inviting and joining, listing and leaving.
pub mod create;
pub mod invite;
pub mod join;
pub mod my;
pub mod team;
