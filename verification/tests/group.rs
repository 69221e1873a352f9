use leaguecord::data::group::{
    combine_creations, find_group_by_id, find_group_by_invite, group_data_for, group_exists,
    remove_member, sweep_groups, take_empty_groups, take_stale_groups, total_members, CreationPair,
    Group, SWEEP_AGE_SECS,
};
use leaguecord::data::plan::{
    admin_permissions, group_invite_plan, member_permissions, pick_group_id, Permission,
    INVITE_AGE_LIMIT_SECS, INVITE_MAX_AGE_SECS, INVITE_MAX_USES,
};
use leaguecord::data::{InviteTracker, ServerInvite};
use leaguecord::clock::EpochTime;

fn group(id: u64, code: &str, users: Vec<u64>) -> Group {
    let mut g = Group::create_new(
        id,
        EpochTime::Since { secs: 1_700_000_000 },
        code.to_string(),
        id + 1,
        id + 2,
        id + 3,
        id + 4,
    );
    g.users = users;
    g
}

#[test]
fn group_names() {
    assert_eq!(Group::name_for_id(42), "g42");
    assert_eq!(Group::name_for_id(0), "g0");
    assert_eq!(Group::name_for_id(u64::MAX), "g18446744073709551615");
}

#[test]
fn ids_from_names() {
    assert_eq!(Group::id_for_name("g42"), Some(42));
    assert_eq!(Group::id_for_name("g+7"), Some(7));
    assert_eq!(Group::id_for_name("g007"), Some(7));
    assert_eq!(Group::id_for_name("g"), None);
    assert_eq!(Group::id_for_name(""), None);
    assert_eq!(Group::id_for_name("x42"), None);
    assert_eq!(Group::id_for_name("G42"), None);
    assert_eq!(Group::id_for_name("g42x"), None);
    assert_eq!(Group::id_for_name("g18446744073709551616"), None);
    assert_eq!(Group::id_for_name("general"), None);
}

#[test]
fn group_name_round_trip() {
    for id in [0u64, 1, 42, 987654321, u64::MAX] {
        assert_eq!(Group::id_for_name(&Group::name_for_id(id)), Some(id));
    }
}

#[test]
fn new_group_has_no_member() {
    let g = Group::create_new(9, EpochTime::BeforeEpoch, "abc".to_string(), 1, 2, 3, 4);
    assert_eq!(g.id, 9);
    assert_eq!(g.invite_code, "abc");
    assert_eq!((g.text_channel, g.voice_channel, g.category, g.role), (1, 2, 3, 4));
    assert!(g.users.is_empty());
}

#[test]
fn group_summary() {
    let g = group(5, "code5", vec![10, 11, 12]);
    let d = g.to_data();
    assert_eq!(d.id(), 5);
    assert_eq!(d.user_count(), 3);
    assert_eq!(d.invite_code(), "code5");
    assert_eq!(d.creation_time_s_since_epoch(), 1_700_000_000);
}

#[test]
fn creation_pairs() {
    match combine_creations(Ok(1), Ok(2)) {
        CreationPair::Created(a, b) => assert_eq!((a, b), (1, 2)),
        _ => panic!("expected both created"),
    }
    match combine_creations(Ok(1), Err("no role".to_string())) {
        CreationPair::UndoFirst { first, error } => {
            assert_eq!(first, 1);
            assert_eq!(error, "no role");
        }
        _ => panic!("expected the first to be undone"),
    }
    match combine_creations(Err("no category".to_string()), Ok(2)) {
        CreationPair::UndoSecond { second, error } => {
            assert_eq!(second, 2);
            assert_eq!(error, "no category");
        }
        _ => panic!("expected the second to be undone"),
    }
    match combine_creations(Err("e1".to_string()), Err("e2".to_string())) {
        CreationPair::Failed(error) => assert_eq!(error, "e1 AND e2"),
        _ => panic!("expected a failure"),
    }
}

#[test]
fn finding_groups() {
    let groups = vec![group(1, "a", vec![]), group(2, "b", vec![7]), group(2, "c", vec![])];
    assert_eq!(find_group_by_id(&groups, 2), Some(1));
    assert_eq!(find_group_by_id(&groups, 3), None);
    assert!(group_exists(&groups, 1));
    assert!(!group_exists(&groups, 4));
    assert_eq!(find_group_by_invite(&groups, "c"), Some(2));
    assert_eq!(find_group_by_invite(&groups, "z"), None);
    assert_eq!(group_data_for(&groups, 2).unwrap().user_count(), 1);
    assert!(group_data_for(&groups, 9).is_none());
}

#[test]
fn removing_a_member() {
    let mut groups = vec![group(1, "a", vec![3]), group(2, "b", vec![7, 8, 7]), group(3, "c", vec![7])];
    assert_eq!(remove_member(&mut groups, 7), Some(1));
    assert_eq!(groups[1].users, vec![8]);
    assert_eq!(groups[2].users, vec![7]);
    assert_eq!(groups[1].id, 2);
    assert_eq!(remove_member(&mut groups, 99), None);
    assert_eq!(groups.len(), 3);
}

#[test]
fn taking_empty_groups() {
    let mut groups = vec![
        group(1, "a", vec![]),
        group(2, "b", vec![7]),
        group(3, "c", vec![]),
        group(4, "d", vec![8]),
    ];
    let removed = take_empty_groups(&mut groups);
    assert_eq!(removed.iter().map(|g| g.id).collect::<Vec<_>>(), vec![1, 3]);
    assert_eq!(groups.iter().map(|g| g.id).collect::<Vec<_>>(), vec![2, 4]);
}

#[test]
fn counting_members() {
    let groups = vec![group(1, "a", vec![1, 2]), group(2, "b", vec![]), group(3, "c", vec![3])];
    assert_eq!(total_members(&groups), 3);
    assert_eq!(total_members(&vec![]), 0);
}

fn group_made_at(id: u64, secs: u64, users: Vec<u64>) -> Group {
    let mut g = Group::create_new(id, EpochTime::Since { secs }, format!("c{id}"), 1, 2, 3, 4);
    g.users = users;
    g
}

#[test]
fn group_made_at_a_given_second() {
    let g = Group::create_new(3, EpochTime::Since { secs: 1_234 }, "abc".to_string(), 5, 6, 7, 8);
    assert_eq!(g.creation_time_s_since_epoch, 1_234);
    assert_eq!(g.to_data().creation_time_s_since_epoch(), 1_234);
    assert!(g.users.is_empty());
    let h = Group::create_new(3, EpochTime::BeforeEpoch, "abc".to_string(), 5, 6, 7, 8);
    assert_eq!(h.creation_time_s_since_epoch, 0);
}

#[test]
fn stale_groups_are_taken_out() {
    assert_eq!(SWEEP_AGE_SECS, 300);
    let mut groups = vec![
        group_made_at(1, 1_000, vec![]),
        group_made_at(2, 1_000, vec![5]),
        group_made_at(3, 1_000, vec![5, 6]),
        group_made_at(4, 1_001, vec![7]),
        group_made_at(5, 2_000, vec![]),
    ];
    let taken = take_stale_groups(&mut groups, 1_300);
    assert_eq!(taken.iter().map(|g| g.id).collect::<Vec<_>>(), vec![1, 2]);
    assert_eq!(groups.iter().map(|g| g.id).collect::<Vec<_>>(), vec![3, 4, 5]);
}

#[test]
fn sweep_deletes_old_lonely_groups_and_their_invites() {
    let mut groups = vec![
        group_made_at(1, 0, vec![9]),
        group_made_at(2, 0, vec![9, 10]),
        group_made_at(3, 500, vec![]),
    ];
    let mut tracker = InviteTracker::new(vec![
        ServerInvite { code: "c1".to_string(), uses: 1 },
        ServerInvite { code: "c2".to_string(), uses: 2 },
        ServerInvite { code: "c3".to_string(), uses: 0 },
    ]);
    let removed = sweep_groups(&mut groups, &mut tracker, 700);
    assert_eq!(removed.iter().map(|g| g.id).collect::<Vec<_>>(), vec![1]);
    assert_eq!(groups.iter().map(|g| g.id).collect::<Vec<_>>(), vec![2, 3]);
    assert_eq!(tracker.get(&"c1".to_string()), None);
    assert_eq!(tracker.get(&"c2".to_string()), Some(&2));
    assert_eq!(tracker.get(&"c3".to_string()), Some(&0));
    let later = sweep_groups(&mut groups, &mut tracker, 800);
    assert_eq!(later.iter().map(|g| g.id).collect::<Vec<_>>(), vec![3]);
    assert_eq!(groups.iter().map(|g| g.id).collect::<Vec<_>>(), vec![2]);
    assert_eq!(tracker.get(&"c3".to_string()), None);
}

#[test]
fn sweep_before_the_creation_time_keeps_everything() {
    let mut groups = vec![group_made_at(1, 5_000, vec![])];
    let mut tracker = InviteTracker::new(vec![]);
    assert!(sweep_groups(&mut groups, &mut tracker, 10).is_empty());
    assert_eq!(groups.len(), 1);
}

#[test]
fn group_ids_are_picked_unused() {
    let groups = vec![group(4, "a", vec![]), group(9, "b", vec![])];
    assert_eq!(pick_group_id(&groups, &vec![4, 9, 12, 13]), Some(12));
    assert_eq!(pick_group_id(&groups, &vec![7]), Some(7));
    assert_eq!(pick_group_id(&groups, &vec![9, 4]), None);
    assert_eq!(pick_group_id(&groups, &vec![]), None);
    assert_eq!(pick_group_id(&vec![], &vec![4]), Some(4));
}

#[test]
fn group_invites_are_limited() {
    let plan = group_invite_plan();
    assert_eq!(plan.max_age_secs, 900);
    assert_eq!(plan.max_uses, 5);
    assert!(plan.unique);
    assert_eq!((INVITE_MAX_AGE_SECS, INVITE_MAX_USES, INVITE_AGE_LIMIT_SECS), (900, 5, 1800));
}

#[test]
fn group_channel_permissions() {
    let member = member_permissions();
    assert_eq!(
        member,
        vec![
            Permission::ViewChannel,
            Permission::Connect,
            Permission::SendMessages,
            Permission::ManageMessages,
            Permission::ReadMessageHistory,
            Permission::AddReactions,
            Permission::Speak,
            Permission::UseVoiceActivity,
        ]
    );
    let admin = admin_permissions();
    assert_eq!(admin.len(), 10);
    assert_eq!(&admin[..8], &member[..]);
    assert_eq!(&admin[8..], &[Permission::ManageChannels, Permission::PrioritySpeaker]);
}
