//! GeoWorker: user accounts, authentication tokens and teams, kept in a
//! document store whose contents and update operators are modelled here.
pub mod api;
pub mod laws;
pub mod payload;
pub mod status;
pub mod store;
pub mod teams;
pub mod text;
pub mod user;
