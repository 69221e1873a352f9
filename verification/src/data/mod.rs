//! The bot's state: groups, tracked invites, the spam tracker of the group
//! creation page and the ids of the server's fixed channels and roles.
pub mod group;
pub mod invite_tracker;
pub mod spam_tracker;

pub use group::{Group, GroupId};
pub use invite_tracker::{InviteCode, InviteTracker, InviteUseCount, ServerInvite};
pub use spam_tracker::{GroupCreationSpamTracker, IpKey};
pub mod id_cache;
pub mod plan;
pub mod table;

pub use id_cache::IdCache;
