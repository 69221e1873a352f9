//! `/create_group`: a client gets at most one new group every five minutes.
use crate::data::group::{group_exists, Group, GroupId};
use crate::data::spam_tracker::{retain_recent, GroupCreationSpamTracker, IpKey};
use vstd::prelude::*;

verus! {

/// What the group creation page decides at `now` for the client at `ip`:
/// `before` is the spam tracker before, `after` after, `r` the group given
/// back. Creations made five minutes or more before `now` are forgotten; the
/// client's remembered group is given back where it still exists, and
/// forgotten where it does not.
pub open spec fn short_circuit(
    before: Map<IpKey, (u64, GroupId)>,
    after: Map<IpKey, (u64, GroupId)>,
    groups: Seq<Group>,
    ip: IpKey,
    now: u64,
    r: Option<GroupId>,
) -> bool {
    let recent = retain_recent(before, now);
    if recent.contains_key(ip) {
        let id = recent[ip].1;
        if exists|j: int| 0 <= j < groups.len() && #[trigger] groups[j].id == id {
            r == Some(id) && after == recent
        } else {
            r is None && after == recent.remove(ip)
        }
    } else {
        r is None && after == recent
    }
}

/// The group that the client at `ip` created in the five minutes before
/// `now`, where it still exists. Creations older than that are forgotten
/// first; a remembered group that no longer exists is forgotten too.
pub fn existing_group_at(
    tracker: &mut GroupCreationSpamTracker,
    groups: &Vec<Group>,
    ip: IpKey,
    now: u64,
) -> (r: Option<GroupId>)
    ensures
        short_circuit(old(tracker)@, final(tracker)@, groups@, ip, now, r),
{
    tracker.update_at(now);
    match tracker.has(ip) {
        Some(id) => {
            if group_exists(groups, id) {
                Some(id)
            } else {
                tracker.remove(ip);
                None
            }
        },
        None => None,
    }
}

/// The group that the client at `ip` created in the last five minutes, where
/// it still exists, as [`existing_group_at`] decides it at the present on the
/// tracker's clock, which no remembered creation comes after.
pub fn existing_group(tracker: &mut GroupCreationSpamTracker, groups: &Vec<Group>, ip: IpKey) -> (r:
    Option<GroupId>)
    ensures
        r matches Some(id) ==> exists|j: int| 0 <= j < groups@.len() && #[trigger] groups@[j].id == id,
        r matches Some(id) ==> old(tracker)@.contains_key(ip) && old(tracker)@[ip].1 == id,
        exists|now: u64|
            (forall|k: IpKey| #[trigger] old(tracker)@.contains_key(k) ==> old(tracker)@[k].0 <= now)
                && short_circuit(old(tracker)@, final(tracker)@, groups@, ip, now, r),
{
    let now = tracker.present();
    let r = existing_group_at(tracker, groups, ip, now);
    assert(short_circuit(old(tracker)@, tracker@, groups@, ip, now, r));
    r
}

} // verus!
