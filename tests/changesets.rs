use osmio::{Changeset, ChangesetBuilder, ChangesetError, TimestampFormat};

fn sample() -> Changeset {
    Changeset {
        id: 7,
        created: TimestampFormat::ISOString("2020-01-01T00:00:00Z".to_string()),
        closed: None,
        open: true,
        uid: Some(3),
        user: Some("carol".to_string()),
        tags: vec![
            ("created_by".to_string(), "JOSM".to_string()),
            ("comment".to_string(), "fix".to_string()),
            ("comment".to_string(), "fix roads".to_string()),
        ],
        num_changes: 12,
        comments_count: 0,
    }
}

#[test]
fn tag_lookup_prefers_the_later_pair() {
    let c = sample();
    assert_eq!(c.tag("created_by"), Some("JOSM"));
    assert_eq!(c.tag("comment"), Some("fix roads"));
    assert_eq!(c.tag("source"), None);
    assert!(c.has_tag("comment"));
    assert!(!c.has_tag("source"));
}

#[test]
fn tag_counts() {
    let mut c = sample();
    assert_eq!(c.num_tags(), 2);
    assert!(c.tagged());
    assert!(!c.untagged());
    c.tags_mut().clear();
    assert_eq!(c.num_tags(), 0);
    assert!(c.untagged());
    assert!(!c.tagged());
}

#[test]
fn tags_mut_and_into_tags() {
    let mut c = sample();
    c.tags_mut().push(("source".to_string(), "survey".to_string()));
    assert_eq!(c.tag("source"), Some("survey"));
    assert_eq!(c.id, 7);
    let tags = c.into_tags();
    assert_eq!(tags.len(), 4);
    assert_eq!(tags[3].1, "survey");
}

#[test]
fn decimal_parsing_follows_str_parse() {
    assert_eq!(osmio::parse_u64("0"), Some(0));
    assert_eq!(osmio::parse_u64("+42"), Some(42));
    assert_eq!(osmio::parse_u64("18446744073709551615"), Some(u64::MAX));
    assert_eq!(osmio::parse_u64("18446744073709551616"), None);
    assert_eq!(osmio::parse_u64(""), None);
    assert_eq!(osmio::parse_u64("+"), None);
    assert_eq!(osmio::parse_u64("-1"), None);
    assert_eq!(osmio::parse_u64("12a"), None);
    assert_eq!(osmio::parse_i64("-9223372036854775808"), Some(i64::MIN));
    assert_eq!(osmio::parse_i64("9223372036854775807"), Some(i64::MAX));
    assert_eq!(osmio::parse_i64("9223372036854775808"), None);
    assert_eq!(osmio::parse_i64("-17"), Some(-17));
    assert_eq!(osmio::parse_i64("+17"), Some(17));
    assert_eq!(osmio::parse_i64("-"), None);
    assert_eq!(osmio::parse_i64("-+1"), None);
}

#[test]
fn builder_reads_attributes() {
    let mut b = ChangesetBuilder::new();
    for (k, v) in [
        ("id", "42"),
        ("created_at", "2021-05-01T10:00:00Z"),
        ("closed_at", "2021-05-01T11:00:00Z"),
        ("open", "false"),
        ("user", "dave"),
        ("uid", "-5"),
        ("num_changes", "17"),
        ("comments_count", "2"),
        ("min_lat", "51.5"),
    ] {
        assert_eq!(b.set_attribute(k, v), Ok(()));
    }
    let c = b.build(vec![("a".to_string(), "b".to_string())]).unwrap();
    assert_eq!(c.id, 42);
    assert_eq!(c.created, TimestampFormat::ISOString("2021-05-01T10:00:00Z".to_string()));
    assert_eq!(c.closed, Some(TimestampFormat::ISOString("2021-05-01T11:00:00Z".to_string())));
    assert!(!c.open);
    assert_eq!(c.user.as_deref(), Some("dave"));
    assert_eq!(c.uid, Some(-5));
    assert_eq!(c.num_changes, 17);
    assert_eq!(c.comments_count, 2);
    assert_eq!(c.tag("a"), Some("b"));
}

#[test]
fn builder_rejects_bad_values() {
    let mut b = ChangesetBuilder::new();
    assert_eq!(b.set_attribute("open", "yes"), Err(ChangesetError::UnknownOpenValue));
    assert_eq!(b.open, None);
    assert_eq!(b.set_attribute("id", "4294967296"), Err(ChangesetError::BadNumber));
    assert_eq!(b.set_attribute("num_changes", "x"), Err(ChangesetError::BadNumber));
    assert_eq!(b.set_attribute("id", "1"), Ok(()));
    assert_eq!(b.set_attribute("open", "true"), Ok(()));
    assert!(matches!(b.clone().build(vec![]), Err(ChangesetError::MissingField)));
    b.set_attribute("created_at", "t").unwrap();
    b.set_attribute("num_changes", "0").unwrap();
    b.set_attribute("comments_count", "0").unwrap();
    let c = b.build(vec![]).unwrap();
    assert!(c.open);
    assert!(c.untagged());
}

#[test]
fn builder_keeps_the_last_value_of_a_repeated_key() {
    let mut b = ChangesetBuilder::new();
    for (k, v) in [("id", "1"), ("created_at", "t"), ("open", "true"), ("num_changes", "0"), ("comments_count", "0")] {
        b.set_attribute(k, v).unwrap();
    }
    let c = b
        .build(vec![
            ("a".to_string(), "1".to_string()),
            ("b".to_string(), "2".to_string()),
            ("a".to_string(), "3".to_string()),
        ])
        .unwrap();
    assert_eq!(c.num_tags(), 2);
    assert_eq!(c.tags.len(), 2);
    assert_eq!(c.tag("a"), Some("3"));
    assert_eq!(c.tag("b"), Some("2"));
}
