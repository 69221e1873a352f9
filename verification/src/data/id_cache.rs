//! The ids of the server's fixed channels and roles, and how they are found
//! among what the server lists.
use crate::text::str_eq;
use vstd::prelude::*;

verus! {

/// The server and its fixed roles and channels, each by its numeric id.
#[derive(Debug, Clone, Copy)]
pub struct IdCache {
    pub guild: u64,
    pub admin_role: u64,
    pub lost_role: u64,
    pub graveyard_category: u64,
    pub bot_log_channel: u64,
    pub bot_command_channel: u64,
}

/// A channel of the server as Discord lists it.
#[derive(Debug)]
pub struct ChannelEntry {
    pub id: u64,
    pub name: String,
    /// The category the channel stands in, if any.
    pub parent_id: Option<u64>,
}

/// A role of the server as Discord lists it.
#[derive(Debug)]
pub struct RoleEntry {
    pub id: u64,
    pub name: String,
    /// The role's colour as a 24-bit RGB number.
    pub colour: u32,
    /// The role's permission bits.
    pub permissions: u64,
}

/// The RGB number of a colour, red in the high byte.
pub open spec fn rgb(red: u8, green: u8, blue: u8) -> u32 {
    (red as int * 65536 + green as int * 256 + blue as int) as u32
}

/// The colour of the red, green and blue components, as Discord stores it.
pub fn colour_from_rgb(red: u8, green: u8, blue: u8) -> (r: u32)
    ensures
        r == rgb(red, green, blue),
        r as int == red as int * 65536 + green as int * 256 + blue as int,
{
    (red as u32) * 65536 + (green as u32) * 256 + (blue as u32)
}

/// The first channel named `name` in the category `category` (or outside
/// every category where `category` is `None`).
pub fn find_channel(channels: &Vec<ChannelEntry>, name: &str, category: Option<u64>) -> (r: Option<
    u64,
>)
    ensures
        match r {
            Some(id) => exists|k: int|
                0 <= k < channels@.len() && #[trigger] channels@[k].id == id
                    && channels@[k].name@ == name@ && channels@[k].parent_id == category && (forall|
                    j: int,
                |
                    0 <= j < k ==> !(#[trigger] channels@[j].name@ == name@ && channels@[j].parent_id
                        == category)),
            None => forall|j: int|
                0 <= j < channels@.len() ==> !(#[trigger] channels@[j].name@ == name@
                    && channels@[j].parent_id == category),
        },
{
    let mut i: usize = 0;
    while i < channels.len()
        invariant
            i <= channels@.len(),
            forall|j: int|
                0 <= j < i ==> !(#[trigger] channels@[j].name@ == name@ && channels@[j].parent_id
                    == category),
        decreases channels@.len() - i,
    {
        let channel = &channels[i];
        if str_eq(channel.name.as_str(), name) && channel.parent_id == category {
            assert(channels@[i as int].id == channel.id);
            return Some(channel.id);
        }
        i = i + 1;
    }
    None
}

/// The position of the first role named `name`.
pub fn find_role(roles: &Vec<RoleEntry>, name: &str) -> (r: Option<usize>)
    ensures
        match r {
            Some(k) => k < roles@.len() && roles@[k as int].name@ == name@ && forall|j: int|
                0 <= j < k ==> #[trigger] roles@[j].name@ != name@,
            None => forall|j: int| 0 <= j < roles@.len() ==> #[trigger] roles@[j].name@ != name@,
        },
{
    let mut i: usize = 0;
    while i < roles.len()
        invariant
            i <= roles@.len(),
            forall|j: int| 0 <= j < i ==> #[trigger] roles@[j].name@ != name@,
        decreases roles@.len() - i,
    {
        if str_eq(roles[i].name.as_str(), name) {
            return Some(i);
        }
        i = i + 1;
    }
    None
}

/// What an existing role needs to be brought to the wanted colour and
/// permissions.
#[derive(Debug, Clone, Copy, PartialEq, Eq, Structural)]
pub struct RoleFixes {
    pub recolour: bool,
    pub set_permissions: bool,
}

impl RoleEntry {
    /// Which edits this role needs to have `colour` and exactly `permissions`.
    pub fn fixes(&self, colour: u32, permissions: u64) -> (r: RoleFixes)
        ensures
            r.recolour == (self.colour != colour),
            r.set_permissions == (self.permissions != permissions),
    {
        RoleFixes { recolour: self.colour != colour, set_permissions: self.permissions != permissions }
    }
}

/// Whether a fixed channel is a category or a text channel.
#[derive(Debug, Clone, Copy, PartialEq, Eq, Structural)]
pub enum ChannelKind {
    Category,
    Text,
}

/// The channels that the bot keeps on the server whatever the groups.
#[derive(Debug, Clone, Copy, PartialEq, Eq, Structural)]
pub enum FixedChannel {
    /// The category of the bot's own channels.
    Management,
    /// The category that lost members can read.
    Community,
    /// Where members that joined through no group's invite are told what to do.
    LostUsers,
    /// The category of channels on their way out.
    Graveyard,
    /// Where the bot reports what it did.
    BotLogs,
    /// Where the bot takes commands.
    Commands,
}

/// The category that a fixed channel stands in.
pub open spec fn fixed_parent(channel: FixedChannel) -> Option<FixedChannel> {
    match channel {
        FixedChannel::LostUsers => Some(FixedChannel::Community),
        FixedChannel::BotLogs => Some(FixedChannel::Management),
        FixedChannel::Commands => Some(FixedChannel::Management),
        _ => None,
    }
}

/// Whether a fixed channel is a category.
pub open spec fn fixed_kind(channel: FixedChannel) -> ChannelKind {
    match channel {
        FixedChannel::LostUsers | FixedChannel::BotLogs | FixedChannel::Commands => ChannelKind::Text,
        _ => ChannelKind::Category,
    }
}

impl FixedChannel {
    /// The channel's name on the server.
    pub fn name(&self) -> (r: &'static str)
        ensures
            r@ == match *self {
                FixedChannel::Management => "leaguecord management"@,
                FixedChannel::Community => "Community"@,
                FixedChannel::LostUsers => "lost-users"@,
                FixedChannel::Graveyard => "graveyard"@,
                FixedChannel::BotLogs => "bot_logs"@,
                FixedChannel::Commands => "commands"@,
            },
    {
        match self {
            FixedChannel::Management => "leaguecord management",
            FixedChannel::Community => "Community",
            FixedChannel::LostUsers => "lost-users",
            FixedChannel::Graveyard => "graveyard",
            FixedChannel::BotLogs => "bot_logs",
            FixedChannel::Commands => "commands",
        }
    }

    /// The category the channel stands in, if any: always a category that
    /// stands in none.
    pub fn parent(&self) -> (r: Option<FixedChannel>)
        ensures
            r == fixed_parent(*self),
            r matches Some(p) ==> fixed_kind(p) == ChannelKind::Category && fixed_parent(p) is None,
    {
        match self {
            FixedChannel::LostUsers => Some(FixedChannel::Community),
            FixedChannel::BotLogs => Some(FixedChannel::Management),
            FixedChannel::Commands => Some(FixedChannel::Management),
            _ => None,
        }
    }

    /// Whether the channel is a category or a text channel.
    pub fn kind(&self) -> (r: ChannelKind)
        ensures
            r == fixed_kind(*self),
    {
        match self {
            FixedChannel::LostUsers | FixedChannel::BotLogs | FixedChannel::Commands => ChannelKind::Text,
            _ => ChannelKind::Category,
        }
    }
}

/// The roles that the bot keeps on the server.
#[derive(Debug, Clone, Copy, PartialEq, Eq, Structural)]
pub enum FixedRole {
    /// The role of members that joined through no group's invite.
    Lost,
    /// The server's administrators.
    Admin,
}

impl FixedRole {
    /// The role's name on the server.
    pub fn name(&self) -> (r: &'static str)
        ensures
            r@ == match *self {
                FixedRole::Lost => "lost"@,
                FixedRole::Admin => "-"@,
            },
    {
        match self {
            FixedRole::Lost => "lost",
            FixedRole::Admin => "-",
        }
    }

    /// The role's colour: black for the lost, green for administrators.
    pub fn colour(&self) -> (r: u32)
        ensures
            r == match *self {
                FixedRole::Lost => rgb(0, 0, 0),
                FixedRole::Admin => rgb(36, 219, 144),
            },
    {
        match self {
            FixedRole::Lost => colour_from_rgb(0, 0, 0),
            FixedRole::Admin => colour_from_rgb(36, 219, 144),
        }
    }

    /// Whether the role holds every permission; the others hold none.
    pub fn is_administrator(&self) -> (r: bool)
        ensures
            r == (*self == FixedRole::Admin),
    {
        match self {
            FixedRole::Lost => false,
            FixedRole::Admin => true,
        }
    }
}

} // verus!
