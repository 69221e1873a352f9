//! What is created on the Discord server for a new group: its id, the
//! permissions of its channels and the limits of its invite.
use vstd::prelude::*;
use crate::data::group::{Group, GroupId};

verus! {

/// How long a group's invite stays valid, in seconds: a quarter of an hour,
/// within the half hour that an invite may live at most.
pub const INVITE_MAX_AGE_SECS: u32 = 900u32;

/// The longest an invite may live, in seconds.
pub const INVITE_AGE_LIMIT_SECS: u32 = 1800u32;

/// How many times a group's invite can be used.
pub const INVITE_MAX_USES: u8 = 5u8;

/// A permission granted on a group's channels.
#[derive(Clone, Copy, Debug, PartialEq, Eq, Structural)]
pub enum Permission {
    ViewChannel,
    Connect,
    SendMessages,
    ManageMessages,
    ReadMessageHistory,
    AddReactions,
    Speak,
    UseVoiceActivity,
    ManageChannels,
    PrioritySpeaker,
}

/// The settings of a group's invite.
#[derive(Clone, Copy, Debug, PartialEq, Eq, Structural)]
pub struct InvitePlan {
    pub max_age_secs: u32,
    pub max_uses: u8,
    pub unique: bool,
}

/// What a member of a group may do in its channels.
pub open spec fn member_permission_list() -> Seq<Permission> {
    seq![
        Permission::ViewChannel,
        Permission::Connect,
        Permission::SendMessages,
        Permission::ManageMessages,
        Permission::ReadMessageHistory,
        Permission::AddReactions,
        Permission::Speak,
        Permission::UseVoiceActivity,
    ]
}

/// What an administrator may do in a group's channels: what a member may,
/// and manage the channels and speak first.
pub open spec fn admin_permission_list() -> Seq<Permission> {
    member_permission_list() + seq![Permission::ManageChannels, Permission::PrioritySpeaker]
}

/// The first of `draws` that no group of `groups` has as its id.
pub open spec fn first_unused_id(groups: Seq<Group>, draws: Seq<u64>) -> Option<u64>
    decreases draws.len(),
{
    if draws.len() == 0 {
        None
    } else if exists|k: int| 0 <= k < groups.len() && groups[k].id == draws[0] {
        first_unused_id(groups, draws.drop_first())
    } else {
        Some(draws[0])
    }
}

/// The invite of a new group: valid a quarter of an hour, for five uses,
/// and never shared with another group.
pub fn group_invite_plan() -> (r: InvitePlan)
    ensures
        r.max_age_secs == INVITE_MAX_AGE_SECS,
        0 < r.max_age_secs <= INVITE_AGE_LIMIT_SECS,
        r.max_uses == INVITE_MAX_USES,
        r.unique,
{
    InvitePlan { max_age_secs: INVITE_MAX_AGE_SECS, max_uses: INVITE_MAX_USES, unique: true }
}

/// The permissions of a group's members on its channels.
pub fn member_permissions() -> (r: Vec<Permission>)
    ensures
        r@ == member_permission_list(),
{
    let r = vec![
        Permission::ViewChannel,
        Permission::Connect,
        Permission::SendMessages,
        Permission::ManageMessages,
        Permission::ReadMessageHistory,
        Permission::AddReactions,
        Permission::Speak,
        Permission::UseVoiceActivity,
    ];
    assert(r@ =~= member_permission_list());
    r
}

/// The permissions of the server's administrators on a group's channels.
pub fn admin_permissions() -> (r: Vec<Permission>)
    ensures
        r@ == admin_permission_list(),
{
    let mut r = member_permissions();
    r.push(Permission::ManageChannels);
    r.push(Permission::PrioritySpeaker);
    assert(r@ =~= admin_permission_list());
    r
}

/// The id of a new group: the first of the random `draws` that no group in
/// `groups` already has, so that no two groups share an id; `None` when
/// every draw is taken.
pub fn pick_group_id(groups: &Vec<Group>, draws: &Vec<u64>) -> (r: Option<GroupId>)
    ensures
        r == first_unused_id(groups@, draws@),
        r matches Some(id) ==> forall|k: int| 0 <= k < groups@.len() ==> groups@[k].id != id,
{
    proof {
        lemma_first_unused_is_unused(groups@, draws@);
    }
    let mut i: usize = 0;
    assert(draws@.skip(0) =~= draws@);
    while i < draws.len()
        invariant
            i <= draws.len(),
            first_unused_id(groups@, draws@) == first_unused_id(groups@, draws@.skip(i as int)),
        decreases draws.len() - i,
    {
        let id = draws[i];
        let taken = crate::data::group::group_exists(groups, id);
        proof {
            let rest = draws@.skip(i as int);
            assert(rest[0] == id);
            assert(rest.drop_first() =~= draws@.skip(i + 1));
        }
        if !taken {
            return Some(id);
        }
        i = i + 1;
    }
    assert(draws@.skip(i as int) =~= Seq::<u64>::empty());
    None
}

/// A group id is never taken twice: the id picked is none of the ids in use.
pub proof fn lemma_first_unused_is_unused(groups: Seq<Group>, draws: Seq<u64>)
    ensures
        first_unused_id(groups, draws) matches Some(id) ==> forall|k: int|
            0 <= k < groups.len() ==> groups[k].id != id,
    decreases draws.len(),
{
    if draws.len() > 0 {
        lemma_first_unused_is_unused(groups, draws.drop_first());
    }
}

} // verus!
