//! Global search: the query grammar, the hit model, and the ranking
//! and locating rules the backend applies.
pub mod backend;
pub mod file_find;
pub mod grammar;
pub mod locating;
pub mod mock;
pub mod model;
pub mod rank;
pub mod tarball;
pub mod view;
