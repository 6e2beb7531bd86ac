//! Data layer of a school social platform: users, posts, threaded comments
//! and like/dislike marks, with composed select queries and validated user
//! changes.

pub mod changes;
pub mod controller;
pub mod filters;
pub mod marks;
pub mod query;
pub mod search;
pub mod store;
pub mod text;
pub mod tree;
pub mod types;
pub mod users;
pub mod validation;
