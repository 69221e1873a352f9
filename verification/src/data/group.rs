//! A group: one team's Discord role, category, text and voice channels and
//! invite, and the members who joined through that invite.
use crate::clock::EpochTime;
use crate::data::invite_tracker::InviteTracker;
use crate::shared::GroupData;
use crate::text::{decimal, parse_unsigned, parse_unsigned_from, push_decimal, str_eq};
use vstd::prelude::*;
use vstd::string::*;

verus! {

pub type GroupId = u64;

/// A group and the Discord objects that belong to it, each by its numeric id.
#[derive(Debug)]
pub struct Group {
    pub id: GroupId,
    /// When the group was created, in whole seconds since the Unix epoch.
    pub creation_time_s_since_epoch: u64,
    pub invite_code: String,
    pub text_channel: u64,
    pub voice_channel: u64,
    pub category: u64,
    pub role: u64,
    pub users: Vec<u64>,
}

/// The Discord name of the channels, category and role of group `id`: `g`
/// followed by the id in decimal.
pub open spec fn group_name(id: u64) -> Seq<char> {
    seq!['g'] + decimal(id as nat)
}

/// The group id that a channel or role name stands for: a name that starts
/// with `g` and goes on with what `str::parse::<u64>` accepts.
pub open spec fn group_id_of_name(name: Seq<char>) -> Option<u64> {
    if name.len() > 0 && name[0] == 'g' {
        match parse_unsigned(name.drop_first(), u64::MAX as nat) {
            Some(v) => Some(v as u64),
            None => None,
        }
    } else {
        None
    }
}

/// `users` without `user`, in the same order.
pub open spec fn users_without(users: Seq<u64>, user: u64) -> Seq<u64> {
    users.filter(|u: u64| u != user)
}

/// The groups of `groups` that have members, in order.
pub open spec fn groups_with_members(groups: Seq<Group>) -> Seq<Group> {
    groups.filter(|g: Group| g.users@.len() > 0)
}

/// The groups of `groups` without members, in order.
pub open spec fn groups_without_members(groups: Seq<Group>) -> Seq<Group> {
    groups.filter(|g: Group| g.users@.len() == 0)
}

/// How old a group with at most one member may grow, in seconds: five
/// minutes.
pub const SWEEP_AGE_SECS: u64 = 300u64;

/// A group with at most one member that was created five minutes or more
/// before `now_secs`: it is to be deleted.
pub open spec fn is_stale(g: Group, now_secs: u64) -> bool {
    g.users@.len() <= 1 && now_secs >= g.creation_time_s_since_epoch + SWEEP_AGE_SECS
}

/// The groups of `groups` that are stale at `now_secs`, in order.
pub open spec fn stale_groups(groups: Seq<Group>, now_secs: u64) -> Seq<Group> {
    groups.filter(|g: Group| is_stale(g, now_secs))
}

/// The groups of `groups` that are not stale at `now_secs`, in order.
pub open spec fn lasting_groups(groups: Seq<Group>, now_secs: u64) -> Seq<Group> {
    groups.filter(|g: Group| !is_stale(g, now_secs))
}

/// Two groups that differ at most in their member lists.
pub open spec fn same_but_users(a: Group, b: Group) -> bool {
    &&& a.id == b.id
    &&& a.creation_time_s_since_epoch == b.creation_time_s_since_epoch
    &&& a.invite_code@ == b.invite_code@
    &&& a.text_channel == b.text_channel
    &&& a.voice_channel == b.voice_channel
    &&& a.category == b.category
    &&& a.role == b.role
}

/// `after` is `before` with `user` taken out of the first group that held
/// them, which `at` tells.
pub open spec fn left_group(before: Seq<Group>, after: Seq<Group>, user: u64, at: Option<usize>) -> bool {
    &&& after.len() == before.len()
    &&& match at {
        Some(k) => {
            &&& k < before.len()
            &&& before[k as int].users@.contains(user)
            &&& forall|j: int| 0 <= j < k ==> !(#[trigger] before[j]).users@.contains(user)
            &&& same_but_users(after[k as int], before[k as int])
            &&& after[k as int].users@ == users_without(before[k as int].users@, user)
            &&& forall|j: int| 0 <= j < before.len() && j != k ==> #[trigger] after[j] == before[j]
        },
        None => {
            &&& forall|j: int| 0 <= j < before.len() ==> !(#[trigger] before[j]).users@.contains(user)
            &&& after == before
        },
    }
}

/// Some group of `groups` has the invite code `code`.
pub open spec fn has_invite_code_in(groups: Seq<Group>, code: Seq<char>) -> bool {
    exists|j: int| 0 <= j < groups.len() && #[trigger] groups[j].invite_code@ == code
}

/// The number of members over all groups.
pub open spec fn member_total(groups: Seq<Group>) -> int
    decreases groups.len(),
{
    if groups.len() == 0 {
        0
    } else {
        member_total(groups.drop_last()) + groups.last().users@.len()
    }
}

/// The name of every group reads back as its id.
pub proof fn lemma_group_name_round_trip(id: u64)
    ensures
        group_id_of_name(group_name(id)) == Some(id),
{
    crate::text::lemma_parse_decimal(id as nat, u64::MAX as nat);
    assert(group_name(id).drop_first() =~= decimal(id as nat));
}

/// What the creation of two Discord objects at once leads to.
pub enum CreationPair {
    /// Both were created, with these ids.
    Created(u64, u64),
    /// Only the second failed: the first (this id) is to be deleted again.
    UndoFirst { first: u64, error: String },
    /// Only the first failed: the second (this id) is to be deleted again.
    UndoSecond { second: u64, error: String },
    /// Both failed.
    Failed(String),
}

/// Decides what follows two creations made together, given each result as
/// the new object's id or the error's text. Where both failed the two texts
/// are joined by ` AND `.
pub fn combine_creations(first: Result<u64, String>, second: Result<u64, String>) -> (r:
    CreationPair)
    ensures
        match (first, second) {
            (Ok(a), Ok(b)) => r == CreationPair::Created(a, b),
            (Ok(a), Err(e)) => r matches CreationPair::UndoFirst { first, error } && first == a
                && error@ == e@,
            (Err(e), Ok(b)) => r matches CreationPair::UndoSecond { second, error } && second == b
                && error@ == e@,
            (Err(e1), Err(e2)) => r matches CreationPair::Failed(error) && error@ == e1@
                + " AND "@ + e2@,
        },
{
    match (first, second) {
        (Ok(a), Ok(b)) => CreationPair::Created(a, b),
        (Ok(a), Err(e)) => CreationPair::UndoFirst { first: a, error: e },
        (Err(e), Ok(b)) => CreationPair::UndoSecond { second: b, error: e },
        (Err(e1), Err(e2)) => {
            let mut error = e1;
            error.append(" AND ");
            error.append(e2.as_str());
            CreationPair::Failed(error)
        },
    }
}

impl Group {
    /// The name of the channels, category and role of group `id`.
    pub fn name_for_id(id: GroupId) -> (r: String)
        ensures
            r@ == group_name(id),
    {
        let mut name = String::new();
        proof {
            reveal_strlit("g");
        }
        name.append("g");
        push_decimal(&mut name, id);
        name
    }

    /// The group id that a channel or role name stands for, if any.
    pub fn id_for_name(name: &str) -> (r: Option<GroupId>)
        ensures
            r == group_id_of_name(name@),
    {
        let n = name.unicode_len();
        if n == 0 || name.get_char(0) != 'g' {
            return None;
        }
        let r = parse_unsigned_from(name, 1, u64::MAX);
        assert(name@.subrange(1, n as int) =~= name@.drop_first());
        r
    }

    /// The group made of the Discord objects just created for it at
    /// `creation_time`, with no member yet. A time before the Unix epoch
    /// counts as second 0.
    pub fn create_new(
        id: GroupId,
        creation_time: EpochTime,
        invite_code: String,
        text_channel: u64,
        voice_channel: u64,
        category: u64,
        role: u64,
    ) -> (r: Group)
        ensures
            r.id == id,
            r.creation_time_s_since_epoch == creation_time.seconds(),
            r.invite_code@ == invite_code@,
            r.text_channel == text_channel,
            r.voice_channel == voice_channel,
            r.category == category,
            r.role == role,
            r.users@ == Seq::<u64>::empty(),
    {
        Group {
            id,
            creation_time_s_since_epoch: creation_time.secs_or_zero(),
            invite_code,
            text_channel,
            voice_channel,
            category,
            role,
            users: Vec::new(),
        }
    }

    /// The public summary of this group.
    pub fn to_data(&self) -> (r: GroupData)
        ensures
            r@.id == self.id,
            r@.user_count == self.users@.len() as u32,
            r@.invite_code == self.invite_code@,
            r@.creation_time_s_since_epoch == self.creation_time_s_since_epoch,
    {
        GroupData::new(
            self.id,
            EpochTime::Since { secs: self.creation_time_s_since_epoch },
            self.users.len() as u32,
            self.invite_code.clone(),
        )
    }
}

/// The position of the first group with id `id`.
pub fn find_group_by_id(groups: &Vec<Group>, id: GroupId) -> (r: Option<usize>)
    ensures
        match r {
            Some(k) => k < groups@.len() && groups@[k as int].id == id && forall|j: int|
                0 <= j < k ==> #[trigger] groups@[j].id != id,
            None => forall|j: int| 0 <= j < groups@.len() ==> #[trigger] groups@[j].id != id,
        },
{
    let mut i: usize = 0;
    while i < groups.len()
        invariant
            i <= groups@.len(),
            forall|j: int| 0 <= j < i ==> #[trigger] groups@[j].id != id,
        decreases groups@.len() - i,
    {
        if groups[i].id == id {
            return Some(i);
        }
        i = i + 1;
    }
    None
}

/// Whether some group has id `id`.
pub fn group_exists(groups: &Vec<Group>, id: GroupId) -> (r: bool)
    ensures
        r == exists|j: int| 0 <= j < groups@.len() && #[trigger] groups@[j].id == id,
{
    match find_group_by_id(groups, id) {
        Some(k) => {
            assert(groups@[k as int].id == id);
            true
        },
        None => false,
    }
}

/// The position of the first group whose invite has the code `code`.
pub fn find_group_by_invite(groups: &Vec<Group>, code: &str) -> (r: Option<usize>)
    ensures
        match r {
            Some(k) => k < groups@.len() && groups@[k as int].invite_code@ == code@ && forall|j: int|
                0 <= j < k ==> #[trigger] groups@[j].invite_code@ != code@,
            None => forall|j: int|
                0 <= j < groups@.len() ==> #[trigger] groups@[j].invite_code@ != code@,
        },
{
    let mut i: usize = 0;
    while i < groups.len()
        invariant
            i <= groups@.len(),
            forall|j: int| 0 <= j < i ==> #[trigger] groups@[j].invite_code@ != code@,
        decreases groups@.len() - i,
    {
        if str_eq(groups[i].invite_code.as_str(), code) {
            return Some(i);
        }
        i = i + 1;
    }
    None
}

/// The summary of the first group with id `id`, if there is one.
pub fn group_data_for(groups: &Vec<Group>, id: GroupId) -> (r: Option<GroupData>)
    ensures
        match r {
            Some(d) => exists|k: int|
                0 <= k < groups@.len() && #[trigger] groups@[k].id == id && (forall|j: int|
                    0 <= j < k ==> #[trigger] groups@[j].id != id) && d@.id == id && d@.user_count
                    == groups@[k].users@.len() as u32 && d@.invite_code == groups@[k].invite_code@,
            None => forall|j: int| 0 <= j < groups@.len() ==> #[trigger] groups@[j].id != id,
        },
{
    match find_group_by_id(groups, id) {
        Some(k) => Some(groups[k].to_data()),
        None => None,
    }
}

/// Whether `users` holds `user`.
fn holds_user(users: &Vec<u64>, user: u64) -> (r: bool)
    ensures
        r == users@.contains(user),
{
    let mut i: usize = 0;
    while i < users.len()
        invariant
            i <= users@.len(),
            forall|j: int| 0 <= j < i ==> users@[j] != user,
        decreases users@.len() - i,
    {
        if users[i] == user {
            assert(users@[i as int] == user);
            return true;
        }
        i = i + 1;
    }
    false
}

/// `users` without `user`, in the same order.
fn without_user(users: &Vec<u64>, user: u64) -> (r: Vec<u64>)
    ensures
        r@ == users_without(users@, user),
{
    let mut kept: Vec<u64> = Vec::new();
    let mut i: usize = 0;
    while i < users.len()
        invariant
            i <= users@.len(),
            kept@ == users_without(users@.take(i as int), user),
        decreases users@.len() - i,
    {
        proof {
            reveal_with_fuel(Seq::<_>::filter, 1);
            assert(users@.take(i + 1).drop_last() =~= users@.take(i as int));
        }
        if users[i] != user {
            kept.push(users[i]);
        }
        i = i + 1;
    }
    assert(users@.take(users@.len() as int) =~= users@);
    kept
}

/// Takes `user` out of the first group that holds them, and tells which
/// group that was.
pub fn remove_member(groups: &mut Vec<Group>, user: u64) -> (r: Option<usize>)
    ensures
        left_group(old(groups)@, final(groups)@, user, r),
{
    let mut i: usize = 0;
    while i < groups.len()
        invariant
            i <= groups@.len(),
            groups@ == old(groups)@,
            forall|j: int| 0 <= j < i ==> !(#[trigger] groups@[j]).users@.contains(user),
        decreases groups@.len() - i,
    {
        if holds_user(&groups[i].users, user) {
            let ghost before = groups@;
            let mut group = groups.remove(i);
            group.users = without_user(&group.users, user);
            groups.insert(i, group);
            assert(groups@.len() == before.len());
            assert forall|j: int| 0 <= j < before.len() && j != i implies #[trigger] groups@[j]
                == before[j] by {
                assert(groups@[j] == before[j]);
            }
            return Some(i);
        }
        i = i + 1;
    }
    None
}

/// Takes every group without members out of `groups`, keeping the others in
/// order, and gives the ones taken out, in order.
pub fn take_empty_groups(groups: &mut Vec<Group>) -> (r: Vec<Group>)
    ensures
        final(groups)@ == groups_with_members(old(groups)@),
        r@ == groups_without_members(old(groups)@),
{
    let ghost orig = groups@;
    let mut rest: Vec<Group> = Vec::new();
    std::mem::swap(groups, &mut rest);
    let mut removed: Vec<Group> = Vec::new();
    let ghost mut i: int = 0;
    while rest.len() > 0
        invariant
            0 <= i <= orig.len(),
            rest@ == orig.skip(i),
            groups@ == groups_with_members(orig.take(i)),
            removed@ == groups_without_members(orig.take(i)),
        decreases rest@.len(),
    {
        proof {
            reveal_with_fuel(Seq::<_>::filter, 1);
            assert(orig.take(i + 1).drop_last() =~= orig.take(i));
            assert(orig.take(i + 1).last() == orig[i]);
            assert(rest@[0] == orig[i]);
        }
        let group = rest.remove(0);
        if group.users.len() == 0 {
            removed.push(group);
        } else {
            groups.push(group);
        }
        proof {
            assert(rest@ =~= orig.skip(i + 1));
            i = i + 1;
        }
    }
    assert(orig.take(i) =~= orig);
    removed
}

/// Takes every group that is stale at `now_secs` out of `groups`, keeping
/// the others in order, and gives the ones taken out, in order.
pub fn take_stale_groups(groups: &mut Vec<Group>, now_secs: u64) -> (r: Vec<Group>)
    ensures
        final(groups)@ == lasting_groups(old(groups)@, now_secs),
        r@ == stale_groups(old(groups)@, now_secs),
{
    let ghost orig = groups@;
    let mut rest: Vec<Group> = Vec::new();
    std::mem::swap(groups, &mut rest);
    let mut removed: Vec<Group> = Vec::new();
    let ghost mut i: int = 0;
    while rest.len() > 0
        invariant
            0 <= i <= orig.len(),
            rest@ == orig.skip(i),
            groups@ == lasting_groups(orig.take(i), now_secs),
            removed@ == stale_groups(orig.take(i), now_secs),
        decreases rest@.len(),
    {
        proof {
            reveal_with_fuel(Seq::<_>::filter, 1);
            assert(orig.take(i + 1).drop_last() =~= orig.take(i));
            assert(orig.take(i + 1).last() == orig[i]);
            assert(rest@[0] == orig[i]);
        }
        let group = rest.remove(0);
        let stale = group.users.len() <= 1 && now_secs >= group.creation_time_s_since_epoch
            && now_secs - group.creation_time_s_since_epoch >= SWEEP_AGE_SECS;
        if stale {
            removed.push(group);
        } else {
            groups.push(group);
        }
        proof {
            assert(rest@ =~= orig.skip(i + 1));
            i = i + 1;
        }
    }
    assert(orig.take(i) =~= orig);
    removed
}

/// Deletes every group with at most one member created five minutes or more
/// before `now_secs` (seconds since the Unix epoch) and forgets their invites;
/// the other groups stay in order. The groups deleted are given back, in
/// order, for their channels and role to be deleted.
pub fn sweep_groups(groups: &mut Vec<Group>, tracker: &mut InviteTracker, now_secs: u64) -> (r: Vec<
    Group,
>)
    ensures
        final(groups)@ == lasting_groups(old(groups)@, now_secs),
        r@ == stale_groups(old(groups)@, now_secs),
        forall|code: Seq<char>|
            #[trigger] final(tracker)@.contains_key(code) == (old(tracker)@.contains_key(code)
                && !has_invite_code_in(r@, code)),
        forall|code: Seq<char>|
            #[trigger] final(tracker)@.contains_key(code) ==> final(tracker)@[code] == old(
                tracker,
            )@[code],
{
    let removed = take_stale_groups(groups, now_secs);
    forget_invites(tracker, &removed);
    removed
}

/// [`sweep_groups`] at the present time read from the system clock (second 0
/// where the clock lies before the Unix epoch).
pub fn sweep_groups_now(groups: &mut Vec<Group>, tracker: &mut InviteTracker) -> (r: Vec<Group>)
    ensures
        exists|now_secs: u64|
            final(groups)@ == lasting_groups(old(groups)@, now_secs) && r@ == stale_groups(
                old(groups)@,
                now_secs,
            ),
        forall|code: Seq<char>|
            #[trigger] final(tracker)@.contains_key(code) == (old(tracker)@.contains_key(code)
                && !has_invite_code_in(r@, code)),
        forall|code: Seq<char>|
            #[trigger] final(tracker)@.contains_key(code) ==> final(tracker)@[code] == old(
                tracker,
            )@[code],
{
    let now_secs = crate::clock::now_secs_since_unix_epoch();
    sweep_groups(groups, tracker, now_secs)
}

/// The number of members over all groups, as a `u32`.
pub fn total_members(groups: &Vec<Group>) -> (r: u32)
    requires
        member_total(groups@) <= u32::MAX,
    ensures
        r == member_total(groups@),
{
    let mut total: u32 = 0;
    let mut i: usize = 0;
    while i < groups.len()
        invariant
            i <= groups@.len(),
            total == member_total(groups@.take(i as int)),
            member_total(groups@) <= u32::MAX,
        decreases groups@.len() - i,
    {
        proof {
            assert(groups@.take(i + 1).drop_last() =~= groups@.take(i as int));
            lemma_member_total_prefix(groups@, i + 1);
        }
        total = total + groups[i].users.len() as u32;
        i = i + 1;
    }
    assert(groups@.take(groups@.len() as int) =~= groups@);
    total
}

proof fn lemma_member_total_prefix(groups: Seq<Group>, k: int)
    requires
        0 <= k <= groups.len(),
    ensures
        member_total(groups.take(k)) <= member_total(groups),
    decreases groups.len(),
{
    if k < groups.len() {
        assert(groups.drop_last().take(k) =~= groups.take(k));
        lemma_member_total_prefix(groups.drop_last(), k);
    } else {
        assert(groups.take(k) =~= groups);
    }
}

/// Forgets the invite of every group of `removed`.
pub fn forget_invites(tracker: &mut InviteTracker, removed: &Vec<Group>)
    ensures
        forall|code: Seq<char>|
            #[trigger] final(tracker)@.contains_key(code) == (old(tracker)@.contains_key(code)
                && !has_invite_code_in(removed@, code)),
        forall|code: Seq<char>|
            #[trigger] final(tracker)@.contains_key(code) ==> final(tracker)@[code] == old(
                tracker,
            )@[code],
{
    let ghost start = tracker@;
    let mut i: usize = 0;
    while i < removed.len()
        invariant
            i <= removed@.len(),
            forall|code: Seq<char>|
                #[trigger] tracker@.contains_key(code) == (start.contains_key(code)
                    && !has_invite_code_in(removed@.take(i as int), code)),
            forall|code: Seq<char>|
                #[trigger] tracker@.contains_key(code) ==> tracker@[code] == start[code],
        decreases removed@.len() - i,
    {
        let ghost before = tracker@;
        tracker.rm(&removed[i].invite_code);
        proof {
            let pre = removed@.take(i as int);
            let post = removed@.take(i + 1);
            assert forall|code: Seq<char>| has_invite_code_in(post, code) == (has_invite_code_in(pre, code)
                || code == removed@[i as int].invite_code@) by {
                if has_invite_code_in(post, code) {
                    let j = choose|j: int| 0 <= j < post.len() && #[trigger] post[j].invite_code@ == code;
                    if j < i {
                        assert(pre[j] == post[j]);
                    }
                }
                if has_invite_code_in(pre, code) {
                    let j = choose|j: int| 0 <= j < pre.len() && #[trigger] pre[j].invite_code@ == code;
                    assert(post[j] == pre[j]);
                }
                if code == removed@[i as int].invite_code@ {
                    assert(post[i as int].invite_code@ == code);
                }
            }
        }
        i = i + 1;
    }
    assert(removed@.take(removed@.len() as int) =~= removed@);
}

} // verus!
