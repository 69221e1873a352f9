use leaguecord::bot::debug::{DebugCommand, DevReportGate};
use leaguecord::bot::door::{Door, JoinOutcome};
use leaguecord::bot::player_helper::PlayerHelper;
use leaguecord::bot::purge::{Purge, PurgeError};
use leaguecord::bot::{module_loaded_message, LeagueCord};
use leaguecord::data::group::Group;
use leaguecord::data::id_cache::{colour_from_rgb, ChannelKind, FixedChannel, FixedRole};
use leaguecord::data::{IdCache, InviteTracker, ServerInvite};
use leaguecord::clock::EpochTime;

fn bot_invite(code: &str, uses: u64) -> ServerInvite {
    ServerInvite { code: code.to_string(), uses }
}

fn bot_group(id: u64, code: &str, users: Vec<u64>) -> Group {
    let mut g = Group::create_new(id, EpochTime::Since { secs: 0 }, code.to_string(), 100 + id, 200 + id, 300 + id, 400 + id);
    g.users = users;
    g
}

fn ids() -> IdCache {
    IdCache {
        guild: 1,
        admin_role: 2,
        lost_role: 3,
        graveyard_category: 4,
        bot_log_channel: 5,
        bot_command_channel: 6,
    }
}

#[test]
fn member_joins_the_group_of_the_moved_invite() {
    let mut groups = vec![bot_group(1, "a", vec![]), bot_group(2, "b", vec![9])];
    let mut tracker = InviteTracker::new(vec![bot_invite("a", 0), bot_invite("b", 1)]);
    let listed = vec![bot_invite("a", 0), bot_invite("b", 2), bot_invite("new", 5)];
    match Door::member_joined(&mut groups, &mut tracker, &listed, 77) {
        JoinOutcome::Joined { group, role, text_channel } => {
            assert_eq!(group, 1);
            assert_eq!(role, 402);
            assert_eq!(text_channel, 102);
        }
        other => panic!("unexpected {other:?}"),
    }
    assert_eq!(groups[1].users, vec![9, 77]);
    assert!(groups[0].users.is_empty());
    assert_eq!(tracker.get(&"b".to_string()), Some(&2));
}

#[test]
fn member_with_an_invite_of_no_group_is_refused() {
    let mut groups = vec![bot_group(1, "a", vec![])];
    let mut tracker = InviteTracker::new(vec![bot_invite("a", 0), bot_invite("x", 0)]);
    let listed = vec![bot_invite("a", 0), bot_invite("x", 1)];
    assert!(matches!(
        Door::member_joined(&mut groups, &mut tracker, &listed, 5),
        JoinOutcome::UnknownInvite
    ));
    assert!(groups[0].users.is_empty());
    assert_eq!(tracker.get(&"x".to_string()), Some(&0));
}

#[test]
fn member_with_no_or_several_moved_invites_is_unresolved() {
    let mut groups = vec![bot_group(1, "a", vec![]), bot_group(2, "b", vec![])];
    let mut tracker = InviteTracker::new(vec![bot_invite("a", 0), bot_invite("b", 0)]);
    let none_moved = vec![bot_invite("a", 0), bot_invite("b", 0)];
    assert!(matches!(
        Door::member_joined(&mut groups, &mut tracker, &none_moved, 5),
        JoinOutcome::Unresolved
    ));
    let both_moved = vec![bot_invite("a", 1), bot_invite("b", 1)];
    assert!(matches!(
        Door::member_joined(&mut groups, &mut tracker, &both_moved, 5),
        JoinOutcome::Unresolved
    ));
    assert!(groups.iter().all(|g| g.users.is_empty()));
    assert_eq!(tracker.get(&"a".to_string()), Some(&0));
}

#[test]
fn member_leaving_empties_and_removes_the_group() {
    let mut groups = vec![bot_group(1, "a", vec![5]), bot_group(2, "b", vec![6, 7]), bot_group(3, "c", vec![])];
    let mut tracker = InviteTracker::new(vec![bot_invite("a", 1), bot_invite("b", 2), bot_invite("c", 0), bot_invite("d", 0)]);
    let removed = Door::member_left(&mut groups, &mut tracker, 5);
    assert_eq!(removed.iter().map(|g| g.id).collect::<Vec<_>>(), vec![1, 3]);
    assert_eq!(groups.len(), 1);
    assert_eq!(groups[0].id, 2);
    assert_eq!(tracker.get(&"a".to_string()), None);
    assert_eq!(tracker.get(&"c".to_string()), None);
    assert_eq!(tracker.get(&"b".to_string()), Some(&2));
    assert_eq!(tracker.get(&"d".to_string()), Some(&0));
}

#[test]
fn join_then_leave_leaves_no_group() {
    let mut groups = vec![bot_group(1, "a", vec![])];
    let mut tracker = InviteTracker::new(vec![bot_invite("a", 0)]);
    let joined = Door::member_joined(&mut groups, &mut tracker, &vec![bot_invite("a", 1)], 42);
    assert!(matches!(joined, JoinOutcome::Joined { group: 0, .. }));
    assert_eq!(groups[0].users, vec![42]);
    let removed = Door::member_left(&mut groups, &mut tracker, 42);
    assert_eq!(removed.len(), 1);
    assert!(groups.is_empty());
    assert_eq!(tracker.get(&"a".to_string()), None);
}

fn bot_group_at(id: u64, code: &str, secs: u64, users: Vec<u64>) -> Group {
    let mut g = Group::create_new(id, EpochTime::Since { secs }, code.to_string(), 100 + id, 200 + id, 300 + id, 400 + id);
    g.users = users;
    g
}

#[test]
fn departure_deletes_lonely_groups_older_than_five_minutes() {
    let mut groups = vec![
        bot_group_at(1, "a", 1_000, vec![5, 6]),
        bot_group_at(2, "b", 1_000, vec![7]),
        bot_group_at(3, "c", 1_200, vec![8]),
        bot_group_at(4, "d", 1_000, vec![9, 10]),
    ];
    let mut tracker = InviteTracker::new(vec![bot_invite("a", 2), bot_invite("b", 1), bot_invite("c", 1), bot_invite("d", 2)]);
    let removed = Door::member_left_at(&mut groups, &mut tracker, 5, 1_300);
    assert_eq!(removed.iter().map(|g| g.id).collect::<Vec<_>>(), vec![1, 2]);
    assert_eq!(groups.iter().map(|g| g.id).collect::<Vec<_>>(), vec![3, 4]);
    assert_eq!(tracker.get(&"a".to_string()), None);
    assert_eq!(tracker.get(&"b".to_string()), None);
    assert_eq!(tracker.get(&"c".to_string()), Some(&1));
    assert_eq!(tracker.get(&"d".to_string()), Some(&2));
}

#[test]
fn departure_removes_empty_groups_before_stale_ones() {
    let mut groups = vec![bot_group_at(1, "a", 0, vec![7]), bot_group_at(2, "b", 900, vec![5])];
    let mut tracker = InviteTracker::new(vec![bot_invite("a", 1), bot_invite("b", 1)]);
    let removed = Door::member_left_at(&mut groups, &mut tracker, 5, 1_000);
    assert_eq!(removed.iter().map(|g| g.id).collect::<Vec<_>>(), vec![2, 1]);
    assert!(groups.is_empty());
}

#[test]
fn departure_of_a_stranger_still_sweeps() {
    let mut groups = vec![bot_group_at(1, "a", 0, vec![7]), bot_group_at(2, "b", 0, vec![8, 9])];
    let mut tracker = InviteTracker::new(vec![bot_invite("a", 1), bot_invite("b", 2)]);
    let removed = Door::member_left_at(&mut groups, &mut tracker, 42, 299);
    assert!(removed.is_empty());
    assert_eq!(groups.len(), 2);
    let removed = Door::member_left_at(&mut groups, &mut tracker, 42, 300);
    assert_eq!(removed.iter().map(|g| g.id).collect::<Vec<_>>(), vec![1]);
    assert_eq!(groups[0].users, vec![8, 9]);
}

#[test]
fn debug_commands() {
    assert_eq!(leaguecord::bot::debug::Debug::command_for("ping"), Some(DebugCommand::Ping));
    assert_eq!(leaguecord::bot::debug::Debug::command_for("devreport"), Some(DebugCommand::DevReport));
    assert_eq!(leaguecord::bot::debug::Debug::command_for("status"), None);
}

#[test]
fn devreport_gate() {
    let ids = ids();
    assert_eq!(leaguecord::bot::debug::Debug::devreport_gate(None, 6, &ids), DevReportGate::InternalError);
    assert_eq!(leaguecord::bot::debug::Debug::devreport_gate(Some(false), 6, &ids), DevReportGate::NotPermitted);
    assert_eq!(leaguecord::bot::debug::Debug::devreport_gate(Some(true), 7, &ids), DevReportGate::WrongChannel);
    assert_eq!(leaguecord::bot::debug::Debug::devreport_gate(Some(true), 6, &ids), DevReportGate::Allowed);
    assert_eq!(DevReportGate::Allowed.refusal(), None);
    assert_eq!(DevReportGate::InternalError.refusal(), Some("Internal server error"));
    assert_eq!(
        DevReportGate::WrongChannel.refusal(),
        Some("You cannot use that command in this channel")
    );
    assert_eq!(
        DevReportGate::NotPermitted.refusal(),
        Some("You do not have the permissions required to use tha command")
    );
}

#[test]
fn devreport_text() {
    assert_eq!(
        leaguecord::bot::debug::Debug::devreport_text(1, 3),
        "There are currently 1 group, for a total of 3 members"
    );
    assert_eq!(
        leaguecord::bot::debug::Debug::devreport_text(2, 0),
        "There are currently 2 groups, for a total of 0 members"
    );
    assert_eq!(
        leaguecord::bot::debug::Debug::devreport_text(0, 0),
        "There are currently 0 group, for a total of 0 members"
    );
}

#[test]
fn reset_leftovers() {
    let ids = ids();
    assert!(leaguecord::bot::debug::Debug::is_leftover_channel("g123", 10, &ids));
    assert!(leaguecord::bot::debug::Debug::is_leftover_channel("general", 10, &ids));
    assert!(leaguecord::bot::debug::Debug::is_leftover_channel("123", 10, &ids));
    assert!(!leaguecord::bot::debug::Debug::is_leftover_channel("graveyard-but-is-it", 4, &ids));
    assert!(!leaguecord::bot::debug::Debug::is_leftover_channel("bot_logs", 10, &ids));
    assert!(leaguecord::bot::debug::Debug::is_leftover_role("g42"));
    assert!(!leaguecord::bot::debug::Debug::is_leftover_role("-"));
    assert!(leaguecord::bot::debug::Debug::has_group_role(&vec!["-".to_string(), "group7".to_string()]));
    assert!(!leaguecord::bot::debug::Debug::has_group_role(&vec!["g7".to_string()]));
    assert!(!leaguecord::bot::debug::Debug::has_group_role(&vec![]));
}

#[test]
fn reset_takes_every_group() {
    let mut groups = vec![bot_group(1, "a", vec![1]), bot_group(2, "b", vec![])];
    let mut tracker = InviteTracker::new(vec![bot_invite("a", 1), bot_invite("b", 2), bot_invite("z", 3)]);
    let taken = leaguecord::bot::debug::Debug::reset_groups(&mut groups, &mut tracker);
    assert_eq!(taken.len(), 2);
    assert!(groups.is_empty());
    assert_eq!(tracker.get(&"a".to_string()), None);
    assert_eq!(tracker.get(&"b".to_string()), None);
    assert_eq!(tracker.get(&"z".to_string()), Some(&3));
}

#[test]
fn purge_arguments() {
    assert_eq!(Purge::count_from_args(&vec![]), Err(PurgeError::ArgumentCount));
    assert_eq!(
        Purge::count_from_args(&vec!["1".to_string(), "2".to_string()]),
        Err(PurgeError::ArgumentCount)
    );
    assert_eq!(Purge::count_from_args(&vec!["12".to_string()]), Ok(12));
    assert_eq!(Purge::count_from_args(&vec!["255".to_string()]), Ok(255));
    assert_eq!(Purge::count_from_args(&vec!["256".to_string()]), Err(PurgeError::InvalidCount));
    assert_eq!(Purge::count_from_args(&vec!["-1".to_string()]), Err(PurgeError::InvalidCount));
    assert_eq!(Purge::confirmation(12), "Deleted 12 messages");
    assert_eq!(
        PurgeError::ArgumentCount.reply(),
        "Expected 1 argument, please specify a number of message to purge"
    );
    assert!(PurgeError::InvalidCount.reply().starts_with("Could not parse count argument"));
}

#[test]
fn help_fields() {
    let plain = PlayerHelper::help_fields_for(Some("general"));
    assert_eq!(plain.len(), 8);
    assert_eq!(plain[0].name, "Groups");
    assert_eq!(plain[7].name, "Help and support");
    let in_group = PlayerHelper::help_fields_for(Some("g1234"));
    assert_eq!(in_group.len(), 9);
    assert_eq!(in_group[8].name, "Channel specific");
    assert_eq!(PlayerHelper::help_fields_for(None).len(), 8);
    assert!(PlayerHelper::help_fields(false).iter().all(|f| !f.inline));
}

#[test]
fn small_replies() {
    assert_eq!(module_loaded_message("Door"), "Door module is loaded !");
    assert!(LeagueCord::serves_guild_count(1));
    assert!(!LeagueCord::serves_guild_count(0));
    assert!(!LeagueCord::serves_guild_count(2));
}

#[test]
fn fixed_server_objects() {
    assert_eq!(FixedChannel::Management.name(), "leaguecord management");
    assert_eq!(FixedChannel::Community.name(), "Community");
    assert_eq!(FixedChannel::LostUsers.name(), "lost-users");
    assert_eq!(FixedChannel::Graveyard.name(), "graveyard");
    assert_eq!(FixedChannel::BotLogs.name(), "bot_logs");
    assert_eq!(FixedChannel::Commands.name(), "commands");
    assert_eq!(FixedChannel::LostUsers.parent(), Some(FixedChannel::Community));
    assert_eq!(FixedChannel::BotLogs.parent(), Some(FixedChannel::Management));
    assert_eq!(FixedChannel::Commands.parent(), Some(FixedChannel::Management));
    assert_eq!(FixedChannel::Graveyard.parent(), None);
    assert_eq!(FixedChannel::Management.kind(), ChannelKind::Category);
    assert_eq!(FixedChannel::Commands.kind(), ChannelKind::Text);
    assert_eq!(FixedRole::Lost.name(), "lost");
    assert_eq!(FixedRole::Admin.name(), "-");
    assert_eq!(FixedRole::Admin.colour(), 0x24DB90);
    assert_eq!(FixedRole::Admin.colour(), colour_from_rgb(36, 219, 144));
    assert_eq!(FixedRole::Lost.colour(), 0);
    assert!(FixedRole::Admin.is_administrator());
    assert!(!FixedRole::Lost.is_administrator());
}
