//! Authorization core of a learning-management backend: a bitmask permission
//! model over users, roles and groups, with the relational state it reads
//! (grants, role membership, group membership) and the rules that resolve
//! "may user U perform operation O on resource R".

pub mod auth;
pub mod branding;
pub mod content;
pub mod course;
pub mod file;
pub mod grants;
pub mod laws;
pub mod listing;
pub mod membership;
pub mod ops;
pub mod resources;
pub mod store;
pub mod template;
pub mod user;
