//! Administration commands: the activity report, and the reset that takes
//! every group and every leftover group channel, role and member away.
use crate::data::group::{has_invite_code_in, Group};
use crate::data::id_cache::IdCache;
use crate::data::invite_tracker::InviteTracker;
use crate::text::{decimal, parse_unsigned, parse_unsigned_from, push_decimal, starts_with, str_eq, str_starts_with};
use vstd::prelude::*;
use vstd::string::*;

verus! {

/// Decides the administration commands.
pub struct Debug;

/// The slash commands this handler answers.
#[derive(Debug, Clone, Copy, PartialEq, Eq, Structural)]
pub enum DebugCommand {
    Ping,
    DevReport,
}

/// Whether an activity report may be given.
#[derive(Debug, Clone, Copy, PartialEq, Eq, Structural)]
pub enum DevReportGate {
    /// The user is an admin in the command channel.
    Allowed,
    /// The user is no admin.
    NotPermitted,
    /// The user's roles could not be read.
    InternalError,
    /// The command was used outside the command channel.
    WrongChannel,
}

impl DevReportGate {
    /// The reply to a refused report.
    pub fn refusal(&self) -> (r: Option<&'static str>)
        ensures
            r is None <==> *self == DevReportGate::Allowed,
            r matches Some(text) ==> text@ == match self {
                DevReportGate::NotPermitted => "You do not have the permissions required to use tha command"@,
                DevReportGate::InternalError => "Internal server error"@,
                _ => "You cannot use that command in this channel"@,
            },
    {
        match self {
            DevReportGate::Allowed => None,
            DevReportGate::NotPermitted => Some("You do not have the permissions required to use tha command"),
            DevReportGate::InternalError => Some("Internal server error"),
            DevReportGate::WrongChannel => Some("You cannot use that command in this channel"),
        }
    }
}

/// The name of a channel left over by a group: it starts with `g` or is a
/// number; the graveyard category is never one.
pub open spec fn is_leftover_channel(name: Seq<char>, id: u64, graveyard: u64) -> bool {
    (starts_with(name, seq!['g']) || parse_unsigned(name, u64::MAX as nat) is Some) && id
        != graveyard
}

/// The name of a role left over by a group: it starts with `g`.
pub open spec fn is_leftover_role(name: Seq<char>) -> bool {
    starts_with(name, seq!['g'])
}

/// One of `role_names` starts with `group`.
pub open spec fn has_group_role(role_names: Seq<String>) -> bool {
    exists|i: int|
        0 <= i < role_names.len() && starts_with(#[trigger] role_names[i]@, "group"@)
}

/// The text of an activity report.
pub open spec fn report_text(group_count: nat, member_count: nat) -> Seq<char> {
    "There are currently "@ + decimal(group_count) + " group"@ + (if group_count > 1 {
        "s"@
    } else {
        ""@
    }) + ", for a total of "@ + decimal(member_count) + " members"@
}

impl Debug {
    /// The command a slash command name asks for.
    pub fn command_for(name: &str) -> (r: Option<DebugCommand>)
        ensures
            r == if name@ == "ping"@ {
                Some(DebugCommand::Ping)
            } else if name@ == "devreport"@ {
                Some(DebugCommand::DevReport)
            } else {
                None
            },
    {
        if str_eq(name, "ping") {
            Some(DebugCommand::Ping)
        } else if str_eq(name, "devreport") {
            Some(DebugCommand::DevReport)
        } else {
            None
        }
    }

    /// Whether an activity report may be given to a user whose admin role
    /// query gave `is_admin` (`None` where it failed), asked in `channel`.
    pub fn devreport_gate(is_admin: Option<bool>, channel: u64, ids: &IdCache) -> (r: DevReportGate)
        ensures
            r == match is_admin {
                None => DevReportGate::InternalError,
                Some(false) => DevReportGate::NotPermitted,
                Some(true) => if channel != ids.bot_command_channel {
                    DevReportGate::WrongChannel
                } else {
                    DevReportGate::Allowed
                },
            },
    {
        match is_admin {
            None => DevReportGate::InternalError,
            Some(false) => DevReportGate::NotPermitted,
            Some(true) => {
                if channel != ids.bot_command_channel {
                    DevReportGate::WrongChannel
                } else {
                    DevReportGate::Allowed
                }
            },
        }
    }

    /// The activity report: how many groups there are and how many members
    /// they have in all.
    pub fn devreport_text(group_count: usize, member_count: u32) -> (r: String)
        ensures
            r@ == report_text(group_count as nat, member_count as nat),
    {
        let mut text = String::new();
        proof {
            reveal_strlit("There are currently ");
            reveal_strlit(" group");
            reveal_strlit("s");
            reveal_strlit("");
            reveal_strlit(", for a total of ");
            reveal_strlit(" members");
        }
        text.append("There are currently ");
        push_decimal(&mut text, group_count as u64);
        text.append(" group");
        if group_count > 1 {
            text.append("s");
        } else {
            text.append("");
        }
        text.append(", for a total of ");
        push_decimal(&mut text, member_count as u64);
        text.append(" members");
        text
    }

    /// Whether the channel `name` (id `id`) is left over by a group and is
    /// to be deleted by a reset.
    pub fn is_leftover_channel(name: &str, id: u64, ids: &IdCache) -> (r: bool)
        ensures
            r == is_leftover_channel(name@, id, ids.graveyard_category),
    {
        proof {
            reveal_strlit("g");
            assert("g"@ =~= seq!['g']);
        }
        let named = str_starts_with(name, "g") || parse_unsigned_from(name, 0, u64::MAX).is_some();
        assert(name@.subrange(0, name@.len() as int) =~= name@);
        named && id != ids.graveyard_category
    }

    /// Whether the role `name` is left over by a group and is to be deleted by
    /// a reset.
    pub fn is_leftover_role(name: &str) -> (r: bool)
        ensures
            r == is_leftover_role(name@),
    {
        proof {
            reveal_strlit("g");
            assert("g"@ =~= seq!['g']);
        }
        str_starts_with(name, "g")
    }

    /// Whether a member with roles named `role_names` belongs to a group and
    /// is to be kicked by a reset.
    pub fn has_group_role(role_names: &Vec<String>) -> (r: bool)
        ensures
            r == has_group_role(role_names@),
    {
        let mut i: usize = 0;
        while i < role_names.len()
            invariant
                i <= role_names@.len(),
                forall|j: int| 0 <= j < i ==> !starts_with(#[trigger] role_names@[j]@, "group"@),
            decreases role_names@.len() - i,
        {
            if str_starts_with(role_names[i].as_str(), "group") {
                return true;
            }
            i = i + 1;
        }
        false
    }

    /// A reset takes every group away and forgets their invites; the groups
    /// are given back, in order, for their channels and role to be deleted.
    pub fn reset_groups(groups: &mut Vec<Group>, tracker: &mut InviteTracker) -> (r: Vec<Group>)
        ensures
            r@ == old(groups)@,
            final(groups)@.len() == 0,
            forall|code: Seq<char>|
                #[trigger] final(tracker)@.contains_key(code) == (old(tracker)@.contains_key(code)
                    && !has_invite_code_in(old(groups)@, code)),
            forall|code: Seq<char>|
                #[trigger] final(tracker)@.contains_key(code) ==> final(tracker)@[code] == old(
                    tracker,
                )@[code],
    {
        let mut taken: Vec<Group> = Vec::new();
        std::mem::swap(groups, &mut taken);
        crate::data::group::forget_invites(tracker, &taken);
        taken
    }
}

} // verus!
