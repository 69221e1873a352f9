use leaguecord::bot::command::{parse, split_words, Case, Prefix, DEFAULT_PREFIX};

#[test]
fn words_of_a_message() {
    assert_eq!(split_words("  !purge   10 \n x"), vec!["!purge", "10", "x"]);
    assert!(split_words("").is_empty());
    assert!(split_words(" \t\r\n ").is_empty());
    assert_eq!(split_words("one"), vec!["one"]);
}

#[test]
fn commands_with_prefix() {
    assert_eq!(DEFAULT_PREFIX, "!");
    assert_eq!(parse("!purge 10", "purge", Case::Insensitive, Prefix::Yes), Some(vec!["10".to_string()]));
    assert_eq!(parse("!PURGE 10 20", "purge", Case::Insensitive, Prefix::Yes), Some(vec!["10".to_string(), "20".to_string()]));
    assert_eq!(parse("!PURGE 10", "purge", Case::Sensitive, Prefix::Yes), None);
    assert_eq!(parse("!help", "help", Case::Insensitive, Prefix::Yes), Some(vec![]));
    assert_eq!(parse("help", "help", Case::Insensitive, Prefix::Yes), None);
    assert_eq!(parse("!helpme", "help", Case::Insensitive, Prefix::Yes), None);
    assert_eq!(parse("say !help", "help", Case::Insensitive, Prefix::Yes), None);
    assert_eq!(parse("", "help", Case::Insensitive, Prefix::Yes), None);
}

#[test]
fn commands_without_prefix() {
    assert_eq!(parse("cg now", "cg", Case::Sensitive, Prefix::No), Some(vec!["now".to_string()]));
    assert_eq!(parse("!cg", "cg", Case::Sensitive, Prefix::No), None);
}
