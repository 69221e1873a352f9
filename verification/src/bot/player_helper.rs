//! `!help`: the help message of the server.
use crate::data::group::{group_id_of_name, Group};
use vstd::prelude::*;

verus! {

/// Decides the help message.
pub struct PlayerHelper;

/// One field of the help message.
#[derive(Debug, Clone, Copy)]
pub struct HelpField {
    pub name: &'static str,
    pub value: &'static str,
    pub inline: bool,
}

/// The name and text of the `i`-th field that every help message has.
pub open spec fn base_field(i: int) -> (Seq<char>, Seq<char>) {
    if i == 0 {
        ("Groups"@, "Groups are temporary, when your activity is done, please leave the server and create a new group with your new teammates !"@)
    } else if i == 1 {
        ("Creating a group"@, "To create a group please use the website at <https://leaguecord.com/>."@)
    } else if i == 2 {
        ("Joining a group"@, "To join a group, simply join any Leaguecord link with an id at the end (like `https://leaguecord.com/group/12345678901234567890`)."@)
    } else if i == 3 {
        ("Leaving a group"@, "To leave a group, simply leave the server."@)
    } else if i == 4 {
        ("Group Permissions"@, "Each member of a group only has the ability to see and interact with it's own group. This way, you can enjoy a focused and private environment for your team without distractions from other groups."@)
    } else if i == 5 {
        ("Secure groups (TODO #9)"@, "Secure groups offer the possiblity to filter who can and cannot join your group."@)
    } else if i == 6 {
        ("Deleting a group"@, "To delete a group, simply leave the server, the group will be automatically cleaned up."@)
    } else {
        ("Help and support"@, "I havn't done anything specific for this (yet), so just send me a dm !"@)
    }
}

/// The field added in a group's own channel.
pub open spec fn channel_field() -> (Seq<char>, Seq<char>) {
    ("Channel specific"@, "This channel is a group channel, it will stay up until every member of it's group has left."@)
}

/// A channel named `name` belongs to a group.
pub open spec fn is_group_channel(name: Option<Seq<char>>) -> bool {
    match name {
        Some(n) => group_id_of_name(n) is Some,
        None => false,
    }
}

impl PlayerHelper {
    /// The fields of the help message; in a group's channel one more field
    /// says so.
    pub fn help_fields(in_group_channel: bool) -> (r: Vec<HelpField>)
        ensures
            r@.len() == if in_group_channel { 9int } else { 8int },
            forall|i: int|
                0 <= i < 8 ==> (#[trigger] r@[i]).name@ == base_field(i).0 && r@[i].value@
                    == base_field(i).1 && !r@[i].inline,
            in_group_channel ==> r@[8].name@ == channel_field().0 && r@[8].value@
                == channel_field().1 && !r@[8].inline,
    {
        let mut fields = vec![
            HelpField { name: "Groups", value: "Groups are temporary, when your activity is done, please leave the server and create a new group with your new teammates !", inline: false },
            HelpField { name: "Creating a group", value: "To create a group please use the website at <https://leaguecord.com/>.", inline: false },
            HelpField { name: "Joining a group", value: "To join a group, simply join any Leaguecord link with an id at the end (like `https://leaguecord.com/group/12345678901234567890`).", inline: false },
            HelpField { name: "Leaving a group", value: "To leave a group, simply leave the server.", inline: false },
            HelpField { name: "Group Permissions", value: "Each member of a group only has the ability to see and interact with it's own group. This way, you can enjoy a focused and private environment for your team without distractions from other groups.", inline: false },
            HelpField { name: "Secure groups (TODO #9)", value: "Secure groups offer the possiblity to filter who can and cannot join your group.", inline: false },
            HelpField { name: "Deleting a group", value: "To delete a group, simply leave the server, the group will be automatically cleaned up.", inline: false },
            HelpField { name: "Help and support", value: "I havn't done anything specific for this (yet), so just send me a dm !", inline: false },
        ];
        if in_group_channel {
            fields.push(HelpField { name: "Channel specific", value: "This channel is a group channel, it will stay up until every member of it's group has left.", inline: false });
        }
        fields
    }

    /// The fields of the help message asked in the channel named
    /// `channel_name` (`None` where it is no server channel).
    pub fn help_fields_for(channel_name: Option<&str>) -> (r: Vec<HelpField>)
        ensures
            r@.len() == if is_group_channel(
                match channel_name {
                    Some(n) => Some(n@),
                    None => None,
                },
            ) {
                9int
            } else {
                8int
            },
            forall|i: int|
                0 <= i < 8 ==> (#[trigger] r@[i]).name@ == base_field(i).0 && r@[i].value@
                    == base_field(i).1 && !r@[i].inline,
            r@.len() == 9 ==> r@[8].name@ == channel_field().0 && r@[8].value@
                == channel_field().1 && !r@[8].inline,
    {
        let in_group_channel = match channel_name {
            Some(name) => Group::id_for_name(name).is_some(),
            None => false,
        };
        PlayerHelper::help_fields(in_group_channel)
    }
}

} // verus!
