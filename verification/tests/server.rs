use leaguecord::server::static_files::{content_type_for_file, file_extension, is_allowed_css, is_allowed_resource};
use leaguecord::shared::GroupData;
use rocket::http::ContentType;
use leaguecord::clock::EpochTime;
use leaguecord::server::config::config_report;

#[test]
fn allowed_static_files() {
    assert!(is_allowed_resource("github.webp"));
    assert!(!is_allowed_resource("secret.txt"));
    for f in ["contact.css", "home.css", "notification.css", "style.css", "theme.css"] {
        assert!(is_allowed_css(f));
    }
    assert!(!is_allowed_css("../style.css"));
}

#[test]
fn file_extensions() {
    assert_eq!(file_extension("style.css"), Some("css"));
    assert_eq!(file_extension("archive.tar.gz"), Some("gz"));
    assert_eq!(file_extension("noext"), None);
    assert_eq!(file_extension("trailing."), Some(""));
    assert_eq!(file_extension(".hidden"), Some("hidden"));
}

#[test]
fn content_types() {
    assert_eq!(content_type_for_file("style.css"), Some(ContentType::CSS));
    assert_eq!(content_type_for_file("github.webp"), Some(ContentType::WEBP));
    assert_eq!(content_type_for_file("DATA.XML"), Some(ContentType::XML));
    assert_eq!(content_type_for_file("noext"), None);
    assert_eq!(content_type_for_file("file.unknownext"), None);
}

#[test]
fn group_data_from_epoch_time() {
    let d = GroupData::new(1, EpochTime::Since { secs: 100 }, 2, "c".to_string());
    assert_eq!(d.creation_time_s_since_epoch(), 100);
    let before = GroupData::new(1, EpochTime::BeforeEpoch, 2, "c".to_string());
    assert_eq!(before.creation_time_s_since_epoch(), 0);
    assert_eq!(before.id(), 1);
    assert_eq!(before.user_count(), 2);
    assert_eq!(before.invite_code(), "c");
    let d = GroupData::new(4, EpochTime::BeforeEpoch, 0, String::new());
    assert_eq!(d.creation_time_s_since_epoch(), 0);
}

#[test]
fn config_report_lists_every_setting() {
    let limits = vec![("bytes".to_string(), "8KiB".to_string()), ("json".to_string(), "1MiB".to_string())];
    let routes = vec![
        ("GET".to_string(), "/api/group/<id>".to_string(), Some("group_data".to_string())),
        ("POST".to_string(), "/a_path_longer_than_twenty".to_string(), None),
    ];
    let catchers = vec![(Some(404u16), "/".to_string(), Some("not_found".to_string())), (None, "/é".to_string(), None)];
    let r = config_report(
        "release",
        "127.0.0.1",
        8000,
        4,
        Some("Rocket"),
        None,
        &limits,
        5,
        "ctrlc = true",
        &routes,
        &catchers,
    );
    let expected = "\nConfig:\nUsing profile: release\nAddress: 127.0.0.1:8000\nWorkers: 4\nIndent: Rocket\nHeaders: [ERROR] Undefined\nLimits: [\n    bytes: 8KiB\n    json: 1MiB\n]\nConnection lifetime: 5s\nShutdown mode: ctrlc = true\nRoutes: [\n    GET   /api/group/<id>      group_data\n    POST  /a_path_longer_than_twenty [ERROR] Undefined\n]\nCatchers: [\n    404   /                    not_found\n    [ERROR] Undefined /é                   [ERROR] Undefined\n]";
    assert_eq!(r, expected);
    assert_eq!(r, format!(
        "\nConfig:\nUsing profile: release\nAddress: 127.0.0.1:8000\nWorkers: 4\nIndent: Rocket\nHeaders: [ERROR] Undefined\nLimits: [\n    bytes: 8KiB\n    json: 1MiB\n]\nConnection lifetime: 5s\nShutdown mode: ctrlc = true\nRoutes: [\n    {:<5} {:<20} {}\n    {:<5} {:<20} {}\n]\nCatchers: [\n    {:<5} {:<20} {}\n    {:<5} {:<20} {}\n]",
        "GET", "/api/group/<id>", "group_data", "POST", "/a_path_longer_than_twenty", "[ERROR] Undefined",
        "404", "/", "not_found", "[ERROR] Undefined", "/é", "[ERROR] Undefined"
    ));
}

#[test]
fn config_report_of_empty_lists() {
    let r = config_report("debug", "::1", 0, 0, None, Some("X-Real-IP"), &vec![], 0, "", &vec![], &vec![]);
    assert_eq!(
        r,
        "\nConfig:\nUsing profile: debug\nAddress: ::1:0\nWorkers: 0\nIndent: [ERROR] Undefined\nHeaders: X-Real-IP\nLimits: [\n]\nConnection lifetime: 0s\nShutdown mode: \nRoutes: [\n]\nCatchers: [\n]"
    );
}

#[test]
fn the_clock_reads_after_the_epoch() {
    let now = EpochTime::now();
    assert!(matches!(now, EpochTime::Since { secs } if secs > 1_600_000_000));
    assert!(now.secs_or_zero() > 1_600_000_000);
    assert_eq!(EpochTime::BeforeEpoch.secs_or_zero(), 0);
    assert_eq!(EpochTime::Since { secs: 42 }.secs_or_zero(), 42);
}
