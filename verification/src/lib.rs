//! The data model and the rules of an `update-alternatives` style link
//! manager: alternatives with their followers, the groups that collect them
//! (built-in groups of the database and drop-in groups), and the operations
//! that filter, merge and extend them.

pub mod alternative;
pub mod group;
pub mod database;
pub mod laws;

pub use alternative::{
    Alternative, Follower, WithFollowers, WithoutFollowers, highest_prio, unwrap_followers,
};
pub use group::{AlternativeGroup, BuiltIn, DropIn};
pub use database::{
    ConfigFile, dropins_of, filter_buildins, install_alternative, merge_dropins, write_db,
};
