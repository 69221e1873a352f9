//! The door of the server: who joins goes to the group of the invite they
//! used, who leaves leaves their group, and a group left empty, or left with
//! one member five minutes after its creation, goes away.
use crate::data::group::{
    forget_invites, groups_with_members, groups_without_members, has_invite_code_in, lasting_groups,
    left_group, remove_member, same_but_users, stale_groups, take_empty_groups, take_stale_groups,
    Group,
};
use crate::data::invite_tracker::{InviteTracker, ServerInvite};
use vstd::prelude::*;

verus! {

/// `after` is `before` once `user` left at `now_secs`, and `removed` the
/// groups taken out: `user` left the first group that held them, then the
/// groups without members and the groups stale at `now_secs` were taken out.
pub open spec fn departure(
    before: Seq<Group>,
    after: Seq<Group>,
    removed: Seq<Group>,
    user: u64,
    now_secs: u64,
) -> bool {
    exists|mid: Seq<Group>, at: Option<usize>|
        {
            &&& left_group(before, mid, user, at)
            &&& after == lasting_groups(groups_with_members(mid), now_secs)
            &&& removed == groups_without_members(mid) + stale_groups(
                groups_with_members(mid),
                now_secs,
            )
        }
}

/// Decides the joins and departures of members.
pub struct Door;

/// The saved use count of `invite`'s code differs from the one Discord now
/// lists. A code that was never saved has not moved.
pub open spec fn invite_moved(saved: Map<Seq<char>, u64>, invite: ServerInvite) -> bool {
    saved.contains_key(invite.code@) && saved[invite.code@] != invite.uses
}

/// The listed invites whose use count moved since it was saved, in order.
pub open spec fn moved_invites(saved: Map<Seq<char>, u64>, invites: Seq<ServerInvite>) -> Seq<
    ServerInvite,
> {
    invites.filter(|invite: ServerInvite| invite_moved(saved, invite))
}

/// What follows the arrival of a member.
#[derive(Debug)]
pub enum JoinOutcome {
    /// The member joined the group at position `group`: they get its role
    /// and are welcomed in its text channel.
    Joined { group: usize, role: u64, text_channel: u64 },
    /// The one invite that moved belongs to no group: the member is kicked.
    UnknownInvite,
    /// No invite or several moved: which one was used is unknown, the member
    /// is kicked and the invites are listed again.
    Unresolved,
}

/// `after` is `before` where only the group at `k` changed, by `user`
/// joining it.
pub open spec fn joined_group(before: Seq<Group>, after: Seq<Group>, k: int, user: u64) -> bool {
    &&& after.len() == before.len()
    &&& same_but_users(after[k], before[k])
    &&& after[k].users@ == before[k].users@.push(user)
    &&& forall|j: int| 0 <= j < before.len() && j != k ==> #[trigger] after[j] == before[j]
}

impl Door {
    /// A member `user` arrived while Discord lists `server_invites`. If
    /// exactly one invite moved and a group has it, the member joins the first
    /// such group and the invite's new use count is saved.
    pub fn member_joined(
        groups: &mut Vec<Group>,
        tracker: &mut InviteTracker,
        server_invites: &Vec<ServerInvite>,
        user: u64,
    ) -> (r: JoinOutcome)
        ensures
            ({
                let moved = moved_invites(old(tracker)@, server_invites@);
                match r {
                    JoinOutcome::Joined { group, role, text_channel } => {
                        &&& moved.len() == 1
                        &&& group < old(groups)@.len()
                        &&& old(groups)@[group as int].invite_code@ == moved[0].code@
                        &&& forall|j: int|
                            0 <= j < group ==> #[trigger] old(groups)@[j].invite_code@ != moved[0].code@
                        &&& role == old(groups)@[group as int].role
                        &&& text_channel == old(groups)@[group as int].text_channel
                        &&& joined_group(old(groups)@, final(groups)@, group as int, user)
                        &&& final(tracker)@ == old(tracker)@.insert(moved[0].code@, moved[0].uses)
                    },
                    JoinOutcome::UnknownInvite => {
                        &&& moved.len() == 1
                        &&& !has_invite_code_in(old(groups)@, moved[0].code@)
                        &&& final(groups)@ == old(groups)@
                        &&& final(tracker)@ == old(tracker)@
                    },
                    JoinOutcome::Unresolved => {
                        &&& moved.len() != 1
                        &&& final(groups)@ == old(groups)@
                        &&& final(tracker)@ == old(tracker)@
                    },
                }
            }),
    {
        let ghost saved = tracker@;
        let mut count: usize = 0;
        let mut first: usize = 0;
        let mut i: usize = 0;
        while i < server_invites.len()
            invariant
                tracker@ == saved,
                i <= server_invites@.len(),
                count == moved_invites(saved, server_invites@.take(i as int)).len(),
                count > 0 ==> first < i && moved_invites(saved, server_invites@.take(i as int))[0]
                    == server_invites@[first as int],
            decreases server_invites@.len() - i,
        {
            proof {
                reveal_with_fuel(Seq::<_>::filter, 1);
                assert(server_invites@.take(i + 1).drop_last() =~= server_invites@.take(i as int));
                assert(server_invites@.take(i + 1).last() == server_invites@[i as int]);
            }
            let invite = &server_invites[i];
            let moved = match tracker.get(&invite.code) {
                Some(saved_uses) => invite.uses != *saved_uses,
                None => false,
            };
            assert(moved == invite_moved(saved, server_invites@[i as int]));
            if moved {
                if count == 0 {
                    first = i;
                }
                count = count + 1;
            }
            i = i + 1;
        }
        assert(server_invites@.take(server_invites@.len() as int) =~= server_invites@);
        if count != 1 {
            return JoinOutcome::Unresolved;
        }
        let invite = &server_invites[first];
        match crate::data::group::find_group_by_invite(groups, invite.code.as_str()) {
            None => JoinOutcome::UnknownInvite,
            Some(k) => {
                let mut group = groups.remove(k);
                let role = group.role;
                let text_channel = group.text_channel;
                group.users.push(user);
                groups.insert(k, group);
                tracker.set(invite.code.clone(), invite.uses);
                JoinOutcome::Joined { group: k, role, text_channel }
            },
        }
    }

    /// A member `user` left at `now_secs` (seconds since the Unix epoch):
    /// they leave the first group that held them; then every group left
    /// without members, and every group with at most one member created five
    /// minutes or more before `now_secs`, is taken out and its invite
    /// forgotten. The groups taken out are given back (the empty ones first,
    /// then the stale ones, each in order) for their channels and role to be
    /// deleted.
    pub fn member_left_at(
        groups: &mut Vec<Group>,
        tracker: &mut InviteTracker,
        user: u64,
        now_secs: u64,
    ) -> (r: Vec<Group>)
        ensures
            departure(old(groups)@, final(groups)@, r@, user, now_secs),
            forall|code: Seq<char>|
                #[trigger] final(tracker)@.contains_key(code) == (old(tracker)@.contains_key(code)
                    && !has_invite_code_in(r@, code)),
            forall|code: Seq<char>|
                #[trigger] final(tracker)@.contains_key(code) ==> final(tracker)@[code] == old(
                    tracker,
                )@[code],
    {
        let at = remove_member(groups, user);
        let ghost mid = groups@;
        let mut removed = take_empty_groups(groups);
        let mut stale = take_stale_groups(groups, now_secs);
        removed.append(&mut stale);
        assert(departure(old(groups)@, groups@, removed@, user, now_secs)) by {
            assert(left_group(old(groups)@, mid, user, at));
        }
        forget_invites(tracker, &removed);
        removed
    }

    /// A member `user` left: [`Door::member_left_at`] at the present time read
    /// from the system clock (second 0 where the clock lies before the Unix
    /// epoch).
    pub fn member_left(groups: &mut Vec<Group>, tracker: &mut InviteTracker, user: u64) -> (r: Vec<
        Group,
    >)
        ensures
            exists|now_secs: u64| departure(old(groups)@, final(groups)@, r@, user, now_secs),
            forall|code: Seq<char>|
                #[trigger] final(tracker)@.contains_key(code) == (old(tracker)@.contains_key(code)
                    && !has_invite_code_in(r@, code)),
            forall|code: Seq<char>|
                #[trigger] final(tracker)@.contains_key(code) ==> final(tracker)@[code] == old(
                    tracker,
                )@[code],
    {
        let now_secs = crate::clock::now_secs_since_unix_epoch();
        Door::member_left_at(groups, tracker, user, now_secs)
    }
}

} // verus!
