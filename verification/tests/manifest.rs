use workshop_publisher::manifest::{Descriptor, ManifestError};
use workshop_publisher::numbers::parse_u64;

#[test]
fn parse_name_only_manifest() {
    let d = Descriptor::parse("name=\"My Mod\"").unwrap();
    assert_eq!(d.name, "My Mod");
    assert!(d.tags.is_none());
    assert!(d.remote_file_id.is_none());
}

#[test]
fn parse_keeps_name_exactly_as_written() {
    let d = Descriptor::parse("name=\"  Spaced  Name \t\"").unwrap();
    assert_eq!(d.name, "  Spaced  Name \t");
}

#[test]
fn parse_full_manifest() {
    let text = "name=\"Example\"\ntags={\n\t\"Gameplay\" \"Balance\"\n}\nremote_file_id=\"7\"\n";
    let d = Descriptor::parse(text).unwrap();
    assert_eq!(d.name, "Example");
    assert_eq!(d.tags, Some(vec!["Gameplay".to_string(), "Balance".to_string()]));
    assert_eq!(d.remote_file_id, Some("7".to_string()));
}

#[test]
fn parse_empty_tags_list() {
    let d = Descriptor::parse("name=\"x\" tags={ }").unwrap();
    assert_eq!(d.tags, Some(vec![]));
}

#[test]
fn parse_ignores_unknown_keys() {
    let text = "version=\"1.2\"\nname=\"x\"\nsupported_version={ \"1.2\" }\npicture=\"thumb.png\"";
    let d = Descriptor::parse(text).unwrap();
    assert_eq!(d.name, "x");
    assert!(d.tags.is_none());
    assert!(d.remote_file_id.is_none());
}

#[test]
fn parse_later_entry_wins() {
    let d = Descriptor::parse("name=\"first\" name=\"second\"").unwrap();
    assert_eq!(d.name, "second");
}

#[test]
fn parse_missing_name_fails_with_format_error() {
    assert_eq!(Descriptor::parse("tags={ \"a\" }"), Err(ManifestError::Format));
    assert_eq!(Descriptor::parse(""), Err(ManifestError::Format));
    assert_eq!(Descriptor::parse("   \n\t "), Err(ManifestError::Format));
    assert_eq!(
        Descriptor::parse("remote_file_id=\"7\""),
        Err(ManifestError::Format)
    );
}

#[test]
fn parse_rejects_malformed_text() {
    // no `=` after the key
    assert_eq!(Descriptor::parse("name \"x\""), Err(ManifestError::Format));
    // unterminated quote
    assert_eq!(Descriptor::parse("name=\"x"), Err(ManifestError::Format));
    // unterminated list
    assert_eq!(
        Descriptor::parse("name=\"x\" tags={ \"a\""),
        Err(ManifestError::Format)
    );
    // bare value
    assert_eq!(Descriptor::parse("name=x"), Err(ManifestError::Format));
    // a list where a string is required
    assert_eq!(Descriptor::parse("name={ \"x\" }"), Err(ManifestError::Format));
    // a string where a list is required
    assert_eq!(
        Descriptor::parse("name=\"x\" tags=\"a\""),
        Err(ManifestError::Format)
    );
    // an unquoted list item
    assert_eq!(
        Descriptor::parse("name=\"x\" tags={ a }"),
        Err(ManifestError::Format)
    );
}

#[test]
fn parse_tags_keep_their_order() {
    let d = Descriptor::parse("name=\"x\" tags={ \"b\" \"a\" \"c\" }").unwrap();
    assert_eq!(
        d.tags,
        Some(vec!["b".to_string(), "a".to_string(), "c".to_string()])
    );
}

#[test]
fn parse_u64_reads_decimal_digits() {
    assert_eq!(parse_u64("0"), Some(0));
    assert_eq!(parse_u64("7"), Some(7));
    assert_eq!(parse_u64("2923869830"), Some(2923869830));
    assert_eq!(parse_u64("18446744073709551615"), Some(u64::MAX));
}

#[test]
fn parse_u64_rejects_bad_input() {
    assert_eq!(parse_u64(""), None);
    assert_eq!(parse_u64("12a"), None);
    assert_eq!(parse_u64("-1"), None);
    assert_eq!(parse_u64(" 7"), None);
    // one past u64::MAX
    assert_eq!(parse_u64("18446744073709551616"), None);
}
