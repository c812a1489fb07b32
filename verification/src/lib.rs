use vstd::prelude::*;

pub mod text;
pub mod order;
pub mod hostset;
pub mod blocklist;
pub mod encoding;
pub mod urls;
pub mod persist;
pub mod tabs;
pub mod vault;
pub mod logins;
pub mod menu;
pub mod system;
pub mod shortcuts;
pub mod images;
pub mod laws;

verus! {

} // verus!
