//! Verified core of a small todo CRUD service: an id-sorted record store
//! with unique titles, JSON envelope rendering, and the four request
//! handlers (list, create, get, delete) with exact response contracts.
pub mod reply;
pub mod store;
pub mod text;
pub mod todo;
