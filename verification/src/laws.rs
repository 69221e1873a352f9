//! Properties that span several operations of the library.
use crate::bot::door::{departure, joined_group};
use crate::data::group::{
    group_name, groups_with_members, groups_without_members, is_stale, lasting_groups, left_group,
    member_total, same_but_users, stale_groups, users_without, Group, SWEEP_AGE_SECS,
};
use crate::server::create_group::short_circuit;
use crate::data::spam_tracker::{retain_recent, IpKey, TRACKER_DURATION_NANOS};
use crate::data::group::GroupId;
use vstd::prelude::*;

verus! {

broadcast use {vstd::seq_lib::group_filter_ensures, vstd::seq::Seq::lemma_filter_contains_rev};

/// At most one of `groups` holds `user`.
pub open spec fn in_at_most_one_group(groups: Seq<Group>, user: u64) -> bool {
    forall|i: int, j: int|
        0 <= i < groups.len() && 0 <= j < groups.len() && (#[trigger] groups[i]).users@.contains(user)
            && (#[trigger] groups[j]).users@.contains(user) ==> i == j
}

/// None of `groups` holds `user`.
pub open spec fn in_no_group(groups: Seq<Group>, user: u64) -> bool {
    forall|i: int| 0 <= i < groups.len() ==> !(#[trigger] groups[i]).users@.contains(user)
}

/// A member who joins a group while in none is afterwards in that group and
/// in no other.
pub proof fn law_join_puts_member_in_one_group(before: Seq<Group>, after: Seq<Group>, k: int, user: u64)
    requires
        0 <= k < before.len(),
        joined_group(before, after, k, user),
        in_no_group(before, user),
    ensures
        after[k].users@.contains(user),
        in_at_most_one_group(after, user),
{
    assert(after[k].users@.last() == user);
    assert forall|i: int, j: int|
        0 <= i < after.len() && 0 <= j < after.len() && (#[trigger] after[i]).users@.contains(user)
            && (#[trigger] after[j]).users@.contains(user) implies i == j by {
        if i != k {
            assert(after[i] == before[i]);
        }
        if j != k {
            assert(after[j] == before[j]);
        }
    }
}

/// After a departure at `now_secs`, every group that remains has members and
/// is not stale (at most one member and five minutes old), and a member who
/// was in at most one group is in none.
pub proof fn law_departure_leaves_no_trace(
    before: Seq<Group>,
    after: Seq<Group>,
    removed: Seq<Group>,
    user: u64,
    now_secs: u64,
)
    requires
        departure(before, after, removed, user, now_secs),
        in_at_most_one_group(before, user),
    ensures
        forall|i: int|
            0 <= i < after.len() ==> (#[trigger] after[i]).users@.len() > 0 && !is_stale(
                after[i],
                now_secs,
            ),
        in_no_group(after, user),
{
    let (mid, at) = choose|mid: Seq<Group>, at: Option<usize>|
        {
            &&& left_group(before, mid, user, at)
            &&& after == lasting_groups(groups_with_members(mid), now_secs)
            &&& removed == groups_without_members(mid) + stale_groups(
                groups_with_members(mid),
                now_secs,
            )
        };
    let kept = groups_with_members(mid);
    assert forall|i: int| 0 <= i < after.len() implies (#[trigger] after[i]).users@.len() > 0
        && !is_stale(after[i], now_secs) && !after[i].users@.contains(user) by {
        assert(after.contains(after[i]));
        assert(kept.contains(after[i]));
        let k = choose|k: int| 0 <= k < kept.len() && kept[k] == after[i];
        assert(kept[k].users@.len() > 0);
        assert(mid.contains(kept[k]));
        let j = choose|j: int| 0 <= j < mid.len() && mid[j] == kept[k];
        match at {
            Some(k) => {
                if j == k {
                    let rest = users_without(before[k as int].users@, user);
                    if rest.contains(user) {
                        let m = choose|m: int| 0 <= m < rest.len() && rest[m] == user;
                        assert(before[k as int].users@.filter(|u: u64| u != user)[m] != user);
                    }
                } else {
                    assert(mid[j] == before[j]);
                    if before[j].users@.contains(user) {
                        assert(before[k as int].users@.contains(user));
                    }
                }
            },
            None => {
                assert(mid[j] == before[j]);
            },
        }
    }
}

/// After a sweep at `now_secs`, no remaining group is stale, and every group
/// taken out was.
pub proof fn law_sweep_leaves_no_stale_group(groups: Seq<Group>, now_secs: u64)
    ensures
        forall|i: int|
            0 <= i < lasting_groups(groups, now_secs).len() ==> !is_stale(
                #[trigger] lasting_groups(groups, now_secs)[i],
                now_secs,
            ),
        forall|i: int|
            0 <= i < stale_groups(groups, now_secs).len() ==> is_stale(
                #[trigger] stale_groups(groups, now_secs)[i],
                now_secs,
            ),
{
}

/// A creation is remembered, with its group, for five minutes after it was
/// registered.
pub proof fn law_creation_remembered_five_minutes(
    m: Map<IpKey, (u64, GroupId)>,
    ip: IpKey,
    group: GroupId,
    at: u64,
    now: u64,
)
    requires
        at <= now,
        now - at < TRACKER_DURATION_NANOS,
    ensures
        retain_recent(m.insert(ip, (at, group)), now).contains_key(ip),
        retain_recent(m.insert(ip, (at, group)), now)[ip] == (at, group),
{
}

/// A creation is forgotten once five minutes have gone by since it was
/// registered.
pub proof fn law_creation_forgotten_after_five_minutes(
    m: Map<IpKey, (u64, GroupId)>,
    ip: IpKey,
    group: GroupId,
    at: u64,
    now: u64,
)
    requires
        now >= at + TRACKER_DURATION_NANOS,
    ensures
        !retain_recent(m.insert(ip, (at, group)), now).contains_key(ip),
{
}

/// Forgetting the old creations at one time and then at a later one is
/// forgetting them at the later one.
pub proof fn law_pruning_later_subsumes(m: Map<IpKey, (u64, GroupId)>, first: u64, second: u64)
    requires
        first <= second,
    ensures
        retain_recent(retain_recent(m, first), second) == retain_recent(m, second),
{
    assert(retain_recent(retain_recent(m, first), second) =~= retain_recent(m, second));
}

/// A use count that was set reads back, and every other code keeps what it
/// had.
pub proof fn law_invite_set_reads_back(
    before: Map<Seq<char>, u64>,
    code: Seq<char>,
    uc: u64,
    other: Seq<char>,
)
    requires
        other != code,
    ensures
        before.insert(code, uc).contains_key(code),
        before.insert(code, uc)[code] == uc,
        before.insert(code, uc).contains_key(other) == before.contains_key(other),
        before.contains_key(other) ==> before.insert(code, uc)[other] == before[other],
{
}

/// A removed code is no longer tracked, and every other code keeps what it
/// had.
pub proof fn law_invite_rm_forgets(before: Map<Seq<char>, u64>, code: Seq<char>, other: Seq<char>)
    requires
        other != code,
    ensures
        !before.remove(code).contains_key(code),
        before.remove(code).contains_key(other) == before.contains_key(other),
        before.contains_key(other) ==> before.remove(code)[other] == before[other],
{
}

/// Distinct groups have distinct names.
pub proof fn law_group_names_distinct(a: u64, b: u64)
    requires
        a != b,
    ensures
        group_name(a) != group_name(b),
{
    crate::data::group::lemma_group_name_round_trip(a);
    crate::data::group::lemma_group_name_round_trip(b);
}


/// An item that passes a filter is found in what the filter keeps.
proof fn lemma_filter_keeps<A>(s: Seq<A>, p: spec_fn(A) -> bool, j: int)
    requires
        0 <= j < s.len(),
        p(s[j]),
    ensures
        exists|i: int| 0 <= i < s.filter(p).len() && s.filter(p)[i] == s[j],
{
    assert(s.filter(p).contains(s[j]));
}

/// Two items that pass a filter are kept in the order they came in.
proof fn lemma_filter_keeps_order<A>(s: Seq<A>, p: spec_fn(A) -> bool, j1: int, j2: int)
    requires
        0 <= j1 < j2 < s.len(),
        p(s[j1]),
        p(s[j2]),
    ensures
        exists|i1: int, i2: int|
            0 <= i1 < i2 < s.filter(p).len() && s.filter(p)[i1] == s[j1] && s.filter(p)[i2] == s[j2],
    decreases s.len(),
{
    reveal_with_fuel(Seq::<_>::filter, 1);
    let t = s.drop_last();
    assert(t[j1] == s[j1]);
    if j2 == s.len() - 1 {
        lemma_filter_keeps(t, p, j1);
        let i1 = choose|i: int| 0 <= i < t.filter(p).len() && t.filter(p)[i] == t[j1];
        assert(s.filter(p) == t.filter(p).push(s.last()));
        let i2 = t.filter(p).len() as int;
        assert(s.filter(p)[i1] == s[j1] && s.filter(p)[i2] == s[j2]);
    } else {
        assert(t[j2] == s[j2]);
        lemma_filter_keeps_order(t, p, j1, j2);
        let (i1, i2) = choose|i1: int, i2: int|
            0 <= i1 < i2 < t.filter(p).len() && t.filter(p)[i1] == t[j1] && t.filter(p)[i2] == t[j2];
        if p(s.last()) {
            assert(s.filter(p) == t.filter(p).push(s.last()));
        } else {
            assert(s.filter(p) == t.filter(p));
        }
        assert(s.filter(p)[i1] == s[j1] && s.filter(p)[i2] == s[j2]);
    }
}

/// The members that group `j` of `before` keeps when `user` leaves: all but
/// `user` in the first group that holds them, all of them in every other.
pub open spec fn members_after_leaving(before: Seq<Group>, user: u64, j: int) -> Seq<u64> {
    if before[j].users@.contains(user) && forall|i: int|
        0 <= i < j ==> !(#[trigger] before[i]).users@.contains(user) {
        users_without(before[j].users@, user)
    } else {
        before[j].users@
    }
}

/// Group `j` of `before` outlasts the departure of `user` at `now_secs`: it
/// keeps a member, and where it keeps only one it is less than five minutes
/// old.
pub open spec fn outlasts_departure(before: Seq<Group>, user: u64, j: int, now_secs: u64) -> bool {
    let left = members_after_leaving(before, user, j);
    left.len() > 0 && !(left.len() <= 1 && now_secs >= before[j].creation_time_s_since_epoch
        + SWEEP_AGE_SECS)
}

/// The groups once `user` left, before any is deleted: each is the group it
/// was, with the members it keeps.
proof fn lemma_left_groups(before: Seq<Group>, mid: Seq<Group>, user: u64, at: Option<usize>)
    requires
        left_group(before, mid, user, at),
    ensures
        mid.len() == before.len(),
        forall|j: int|
            0 <= j < before.len() ==> same_but_users(#[trigger] mid[j], before[j])
                && mid[j].users@ == members_after_leaving(before, user, j),
{
    assert forall|j: int| 0 <= j < before.len() implies same_but_users(#[trigger] mid[j], before[j])
        && mid[j].users@ == members_after_leaving(before, user, j) by {
        match at {
            Some(k) => {
                if j == k as int {
                } else if j < k {
                    assert(mid[j] == before[j]);
                } else {
                    assert(mid[j] == before[j]);
                    assert(0 <= k < j && before[k as int].users@.contains(user));
                }
            },
            None => {
                assert(mid[j] == before[j]);
            },
        }
    }
}

/// A departure deletes no group that keeps members and is not stale: every
/// group of `before` that outlasts the departure is in `after`, the group it
/// was with exactly the members it keeps.
pub proof fn law_departure_keeps_lasting_groups(
    before: Seq<Group>,
    after: Seq<Group>,
    removed: Seq<Group>,
    user: u64,
    now_secs: u64,
    j: int,
)
    requires
        departure(before, after, removed, user, now_secs),
        0 <= j < before.len(),
        outlasts_departure(before, user, j, now_secs),
    ensures
        exists|i: int|
            0 <= i < after.len() && same_but_users(#[trigger] after[i], before[j])
                && after[i].users@ == members_after_leaving(before, user, j),
{
    let (mid, at) = choose|mid: Seq<Group>, at: Option<usize>|
        {
            &&& left_group(before, mid, user, at)
            &&& after == lasting_groups(groups_with_members(mid), now_secs)
            &&& removed == groups_without_members(mid) + stale_groups(
                groups_with_members(mid),
                now_secs,
            )
        };
    lemma_left_groups(before, mid, user, at);
    let kept = groups_with_members(mid);
    let has_members = |g: Group| g.users@.len() > 0;
    let lasting = |g: Group| !is_stale(g, now_secs);
    assert(has_members(mid[j]));
    lemma_filter_keeps(mid, has_members, j);
    let i0 = choose|i: int| 0 <= i < mid.filter(has_members).len() && mid.filter(has_members)[i] == mid[j];
    assert(kept == mid.filter(has_members));
    assert(lasting(kept[i0]));
    lemma_filter_keeps(kept, lasting, i0);
    assert(after == kept.filter(lasting));
    let i = choose|i: int| 0 <= i < kept.filter(lasting).len() && kept.filter(lasting)[i] == kept[i0];
    assert(same_but_users(after[i], before[j]));
}

/// A departure keeps the groups that outlast it in the order they had.
pub proof fn law_departure_keeps_the_order(
    before: Seq<Group>,
    after: Seq<Group>,
    removed: Seq<Group>,
    user: u64,
    now_secs: u64,
    j1: int,
    j2: int,
)
    requires
        departure(before, after, removed, user, now_secs),
        0 <= j1 < j2 < before.len(),
        outlasts_departure(before, user, j1, now_secs),
        outlasts_departure(before, user, j2, now_secs),
    ensures
        exists|i1: int, i2: int|
            0 <= i1 < i2 < after.len() && same_but_users(after[i1], before[j1]) && after[i1].users@
                == members_after_leaving(before, user, j1) && same_but_users(after[i2], before[j2])
                && after[i2].users@ == members_after_leaving(before, user, j2),
{
    let (mid, at) = choose|mid: Seq<Group>, at: Option<usize>|
        {
            &&& left_group(before, mid, user, at)
            &&& after == lasting_groups(groups_with_members(mid), now_secs)
            &&& removed == groups_without_members(mid) + stale_groups(
                groups_with_members(mid),
                now_secs,
            )
        };
    lemma_left_groups(before, mid, user, at);
    let kept = groups_with_members(mid);
    let has_members = |g: Group| g.users@.len() > 0;
    let lasting = |g: Group| !is_stale(g, now_secs);
    assert(has_members(mid[j1]) && has_members(mid[j2]));
    lemma_filter_keeps_order(mid, has_members, j1, j2);
    assert(kept == mid.filter(has_members));
    let (k1, k2) = choose|k1: int, k2: int|
        0 <= k1 < k2 < mid.filter(has_members).len() && mid.filter(has_members)[k1] == mid[j1]
            && mid.filter(has_members)[k2] == mid[j2];
    assert(lasting(kept[k1]) && lasting(kept[k2]));
    lemma_filter_keeps_order(kept, lasting, k1, k2);
    assert(after == kept.filter(lasting));
    let (i1, i2) = choose|i1: int, i2: int|
        0 <= i1 < i2 < kept.filter(lasting).len() && kept.filter(lasting)[i1] == kept[k1]
            && kept.filter(lasting)[i2] == kept[k2];
    assert(same_but_users(after[i1], before[j1]) && same_but_users(after[i2], before[j2]));
}

/// A departure adds or alters no group: every group in `after` is a group of
/// `before` that outlasts the departure, with exactly the members it keeps.
pub proof fn law_departure_keeps_nothing_else(
    before: Seq<Group>,
    after: Seq<Group>,
    removed: Seq<Group>,
    user: u64,
    now_secs: u64,
    i: int,
)
    requires
        departure(before, after, removed, user, now_secs),
        0 <= i < after.len(),
    ensures
        exists|j: int|
            0 <= j < before.len() && outlasts_departure(before, user, j, now_secs) && same_but_users(
                after[i],
                #[trigger] before[j],
            ) && after[i].users@ == members_after_leaving(before, user, j),
{
    let (mid, at) = choose|mid: Seq<Group>, at: Option<usize>|
        {
            &&& left_group(before, mid, user, at)
            &&& after == lasting_groups(groups_with_members(mid), now_secs)
            &&& removed == groups_without_members(mid) + stale_groups(
                groups_with_members(mid),
                now_secs,
            )
        };
    lemma_left_groups(before, mid, user, at);
    let kept = groups_with_members(mid);
    assert(after.contains(after[i]));
    assert(kept.contains(after[i]));
    assert(!is_stale(after[i], now_secs));
    let k = choose|k: int| 0 <= k < kept.len() && kept[k] == after[i];
    assert(kept[k].users@.len() > 0);
    assert(mid.contains(kept[k]));
    let j = choose|j: int| 0 <= j < mid.len() && mid[j] == kept[k];
    assert(same_but_users(mid[j], before[j]));
    assert(outlasts_departure(before, user, j, now_secs));
}

/// A departure gives back every group it deletes: each group of `before`
/// that does not outlast the departure is among `removed`, the group it was
/// with the members it kept.
pub proof fn law_departure_gives_back_deleted_groups(
    before: Seq<Group>,
    after: Seq<Group>,
    removed: Seq<Group>,
    user: u64,
    now_secs: u64,
    j: int,
)
    requires
        departure(before, after, removed, user, now_secs),
        0 <= j < before.len(),
        !outlasts_departure(before, user, j, now_secs),
    ensures
        exists|i: int|
            0 <= i < removed.len() && same_but_users(#[trigger] removed[i], before[j])
                && removed[i].users@ == members_after_leaving(before, user, j),
{
    let (mid, at) = choose|mid: Seq<Group>, at: Option<usize>|
        {
            &&& left_group(before, mid, user, at)
            &&& after == lasting_groups(groups_with_members(mid), now_secs)
            &&& removed == groups_without_members(mid) + stale_groups(
                groups_with_members(mid),
                now_secs,
            )
        };
    lemma_left_groups(before, mid, user, at);
    let empty = groups_without_members(mid);
    let kept = groups_with_members(mid);
    let stale = stale_groups(kept, now_secs);
    if mid[j].users@.len() == 0 {
        let no_members = |g: Group| g.users@.len() == 0;
        lemma_filter_keeps(mid, no_members, j);
        assert(empty == mid.filter(no_members));
        let i = choose|i: int| 0 <= i < mid.filter(no_members).len() && mid.filter(no_members)[i] == mid[j];
        assert(removed[i] == empty[i]);
        assert(same_but_users(removed[i], before[j]));
    } else {
        let has_members = |g: Group| g.users@.len() > 0;
        let is_old = |g: Group| is_stale(g, now_secs);
        lemma_filter_keeps(mid, has_members, j);
        assert(kept == mid.filter(has_members));
        let k = choose|k: int| 0 <= k < mid.filter(has_members).len() && mid.filter(has_members)[k] == mid[j];
        assert(is_old(kept[k]));
        lemma_filter_keeps(kept, is_old, k);
        assert(stale == kept.filter(is_old));
        let i = choose|i: int| 0 <= i < kept.filter(is_old).len() && kept.filter(is_old)[i] == kept[k];
        assert(removed[empty.len() + i] == stale[i]);
        assert(same_but_users(removed[empty.len() + i], before[j]));
    }
}

/// A departure gives back only groups it deleted: every group of `removed`
/// is a group of `before` that does not outlast the departure, with the
/// members it kept.
pub proof fn law_departure_gives_back_nothing_else(
    before: Seq<Group>,
    after: Seq<Group>,
    removed: Seq<Group>,
    user: u64,
    now_secs: u64,
    i: int,
)
    requires
        departure(before, after, removed, user, now_secs),
        0 <= i < removed.len(),
    ensures
        exists|j: int|
            0 <= j < before.len() && !outlasts_departure(before, user, j, now_secs) && same_but_users(
                removed[i],
                #[trigger] before[j],
            ) && removed[i].users@ == members_after_leaving(before, user, j),
{
    let (mid, at) = choose|mid: Seq<Group>, at: Option<usize>|
        {
            &&& left_group(before, mid, user, at)
            &&& after == lasting_groups(groups_with_members(mid), now_secs)
            &&& removed == groups_without_members(mid) + stale_groups(
                groups_with_members(mid),
                now_secs,
            )
        };
    lemma_left_groups(before, mid, user, at);
    let empty = groups_without_members(mid);
    let kept = groups_with_members(mid);
    let stale = stale_groups(kept, now_secs);
    if i < empty.len() {
        assert(removed[i] == empty[i]);
        assert(empty.contains(empty[i]));
        assert(empty[i].users@.len() == 0);
        assert(mid.contains(empty[i]));
        let j = choose|j: int| 0 <= j < mid.len() && mid[j] == empty[i];
        assert(!outlasts_departure(before, user, j, now_secs));
        assert(same_but_users(removed[i], before[j]));
    } else {
        let s = i - empty.len();
        assert(removed[i] == stale[s]);
        assert(stale.contains(stale[s]));
        assert(is_stale(stale[s], now_secs));
        assert(kept.contains(stale[s]));
        assert(mid.contains(stale[s]));
        let j = choose|j: int| 0 <= j < mid.len() && mid[j] == stale[s];
        assert(!outlasts_departure(before, user, j, now_secs));
        assert(same_but_users(removed[i], before[j]));
    }
}

/// The member total of groups put one after the other is the sum of their
/// member totals.
pub proof fn law_member_total_adds_up(a: Seq<Group>, b: Seq<Group>)
    ensures
        member_total(a + b) == member_total(a) + member_total(b),
    decreases b.len(),
{
    if b.len() == 0 {
        assert(a + b =~= a);
    } else {
        assert((a + b).drop_last() =~= a + b.drop_last());
        assert((a + b).last() == b.last());
        law_member_total_adds_up(a, b.drop_last());
    }
}

/// A group counts every one of its members.
pub proof fn law_member_total_of_one_group(g: Group)
    ensures
        member_total(seq![g]) == g.users@.len(),
{
    let one = seq![g];
    assert(one.drop_last() =~= Seq::<Group>::empty());
    assert(member_total(Seq::<Group>::empty()) == 0);
    assert(one.last() == g);
    assert(member_total(one) == member_total(one.drop_last()) + one.last().users@.len());
}

/// Adding a group adds all its members to the total.
pub proof fn law_member_total_grows_by_each_group(groups: Seq<Group>, g: Group)
    ensures
        member_total(groups.push(g)) == member_total(groups) + g.users@.len(),
{
    law_member_total_adds_up(groups, seq![g]);
    law_member_total_of_one_group(g);
    assert(groups + seq![g] =~= groups.push(g));
}

/// The member total is at least the member count of every group.
pub proof fn law_member_total_counts_each_group(groups: Seq<Group>, i: int)
    requires
        0 <= i < groups.len(),
    ensures
        member_total(groups) >= groups[i].users@.len(),
{
    let front = groups.take(i);
    let back = groups.skip(i + 1);
    assert(groups =~= front + seq![groups[i]] + back);
    law_member_total_adds_up(front + seq![groups[i]], back);
    law_member_total_adds_up(front, seq![groups[i]]);
    law_member_total_of_one_group(groups[i]);
    lemma_member_total_nonneg(front);
    lemma_member_total_nonneg(back);
}

proof fn lemma_member_total_nonneg(groups: Seq<Group>)
    ensures
        member_total(groups) >= 0,
    decreases groups.len(),
{
    if groups.len() > 0 {
        lemma_member_total_nonneg(groups.drop_last());
    }
}

/// The creation page decides at the present on the tracker's clock, which
/// comes after every creation it remembers: so a client's creation that is
/// five minutes or more older than another remembered creation is
/// forgotten, and the client is not sent back to that group.
pub proof fn law_existing_group_forgets_old_creations(
    before: Map<IpKey, (u64, GroupId)>,
    after: Map<IpKey, (u64, GroupId)>,
    groups: Seq<Group>,
    ip: IpKey,
    other: IpKey,
    now: u64,
    r: Option<GroupId>,
)
    requires
        forall|k: IpKey| #[trigger] before.contains_key(k) ==> before[k].0 <= now,
        short_circuit(before, after, groups, ip, now, r),
        before.contains_key(ip),
        before.contains_key(other),
        before[ip].0 + TRACKER_DURATION_NANOS <= before[other].0,
    ensures
        r is None,
        !after.contains_key(ip),
{
    assert(before[other].0 <= now);
    assert(!retain_recent(before, now).contains_key(ip));
}

/// The times the tracker records come in the order of its calls: a creation
/// registered is never older than one it already remembered.
pub proof fn law_registrations_follow_the_clock(
    before: Map<IpKey, (u64, GroupId)>,
    after: Map<IpKey, (u64, GroupId)>,
    ip: IpKey,
    group: GroupId,
    other: IpKey,
    now: u64,
)
    requires
        forall|k: IpKey| #[trigger] before.contains_key(k) ==> before[k].0 <= now,
        after == before.insert(ip, (now, group)),
        before.contains_key(other),
    ensures
        after.contains_key(ip),
        before[other].0 <= after[ip].0,
{
}
} // verus!
