//! Missile templates: their identity across files, the list of templates of
//! a directory, the cache of the templates each fleet uses, and the update of
//! the fleets that use a template.

pub mod cache;
pub mod hash_text;
pub mod identity;
pub mod load_missiles;
pub mod update_fleets;
