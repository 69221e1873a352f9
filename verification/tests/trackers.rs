use leaguecord::data::group::Group;
use leaguecord::data::spam_tracker::TRACKER_DURATION_NANOS;
use leaguecord::data::{GroupCreationSpamTracker, InviteTracker, IpKey, ServerInvite};
use leaguecord::server::create_group::{existing_group, existing_group_at};
use leaguecord::clock::EpochTime;

fn listed_invite(code: &str, uses: u64) -> ServerInvite {
    ServerInvite { code: code.to_string(), uses }
}

#[test]
fn tracker_of_listed_invites() {
    let t = InviteTracker::new(vec![listed_invite("a", 1), listed_invite("b", 2), listed_invite("a", 5)]);
    assert_eq!(t.get(&"a".to_string()), Some(&5));
    assert_eq!(t.get(&"b".to_string()), Some(&2));
    assert_eq!(t.get(&"c".to_string()), None);
}

#[test]
fn tracker_set_and_rm() {
    let mut t = InviteTracker::new(vec![listed_invite("a", 1)]);
    t.set("b".to_string(), 3);
    t.set("a".to_string(), 4);
    assert_eq!(t.get(&"a".to_string()), Some(&4));
    assert_eq!(t.get(&"b".to_string()), Some(&3));
    t.rm(&"a".to_string());
    assert_eq!(t.get(&"a".to_string()), None);
    assert_eq!(t.get(&"b".to_string()), Some(&3));
    t.rm(&"zzz".to_string());
    assert_eq!(t.get(&"b".to_string()), Some(&3));
}

#[test]
fn tracker_update_forgets_the_past() {
    let mut t = InviteTracker::new(vec![listed_invite("a", 1), listed_invite("b", 1)]);
    t.update(vec![listed_invite("c", 9)]);
    assert_eq!(t.get(&"a".to_string()), None);
    assert_eq!(t.get(&"b".to_string()), None);
    assert_eq!(t.get(&"c".to_string()), Some(&9));
}

#[test]
fn spam_tracker_remembers_five_minutes() {
    let ip = IpKey::V4(0x7f00_0001);
    let other = IpKey::V6(1);
    let mut s = GroupCreationSpamTracker::new();
    assert_eq!(s.register_at(ip, 10, 1_000), None);
    assert_eq!(s.has(ip), Some(10));
    assert_eq!(s.has(other), None);
    s.update_at(1_000 + TRACKER_DURATION_NANOS - 1);
    assert_eq!(s.has(ip), Some(10));
    s.update_at(1_000 + TRACKER_DURATION_NANOS);
    assert_eq!(s.has(ip), None);
}

#[test]
fn spam_tracker_register_replaces() {
    let ip = IpKey::V6(42);
    let mut s = GroupCreationSpamTracker::new();
    s.register_at(ip, 1, 5);
    assert_eq!(s.register_at(ip, 2, 6), Some((5, 1)));
    assert_eq!(s.has(ip), Some(2));
    s.remove(ip);
    assert_eq!(s.has(ip), None);
}

#[test]
fn spam_tracker_time_before_registration_counts_as_none() {
    let ip = IpKey::V4(1);
    let mut s = GroupCreationSpamTracker::new();
    s.register_at(ip, 3, 10_000);
    s.update_at(0);
    assert_eq!(s.has(ip), Some(3));
}

#[test]
fn spam_tracker_with_its_own_clock() {
    let ip = IpKey::V4(2);
    let mut s = GroupCreationSpamTracker::new();
    s.register(ip, 77);
    s.update();
    assert_eq!(s.has(ip), Some(77));
}

fn tracked_group(id: u64) -> Group {
    Group::create_new(id, EpochTime::Since { secs: 0 }, format!("code{id}"), 1, 2, 3, 4)
}

#[test]
fn existing_group_short_circuits() {
    let ip = IpKey::V4(3);
    let groups = vec![tracked_group(10)];
    let mut s = GroupCreationSpamTracker::new();
    assert_eq!(existing_group_at(&mut s, &groups, ip, 0), None);
    s.register_at(ip, 10, 0);
    assert_eq!(existing_group_at(&mut s, &groups, ip, 60_000_000_000), Some(10));
    assert_eq!(existing_group_at(&mut s, &groups, ip, TRACKER_DURATION_NANOS), None);
    assert_eq!(s.has(ip), None);
}

#[test]
fn existing_group_forgets_deleted_groups() {
    let ip = IpKey::V4(4);
    let groups = vec![tracked_group(10)];
    let mut s = GroupCreationSpamTracker::new();
    s.register_at(ip, 11, 0);
    assert_eq!(existing_group_at(&mut s, &groups, ip, 1), None);
    assert_eq!(s.has(ip), None);
    s.register(ip, 10);
    assert_eq!(existing_group(&mut s, &groups, ip), Some(10));
}
