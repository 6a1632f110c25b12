use outbox::area::Area;
use outbox::names::{failed_path, fresh_mail_name, pending_path, should_ignore_mail};
use outbox::spool::{Spool, SpoolError};

fn is_lower_hex(c: char) -> bool {
    c.is_ascii_digit() || ('a'..='f').contains(&c)
}

#[test]
fn fresh_names_have_the_identifier_shape() {
    let name = fresh_mail_name();
    let chars: Vec<char> = name.chars().collect();
    assert_eq!(chars.len(), 40);
    assert!(name.ends_with(".eml"));
    for (i, c) in chars[..36].iter().enumerate() {
        if i == 8 || i == 13 || i == 18 || i == 23 {
            assert_eq!(*c, '-');
        } else {
            assert!(is_lower_hex(*c));
        }
    }
    assert_eq!(chars[14], '4');
    assert!(matches!(chars[19], '8' | '9' | 'a' | 'b'));
    assert!(!should_ignore_mail(&name));
}

#[test]
fn fresh_names_differ() {
    let a = fresh_mail_name();
    let b = fresh_mail_name();
    let c = fresh_mail_name();
    assert_ne!(a, b);
    assert_ne!(b, c);
    assert_ne!(a, c);
}

#[test]
fn paths_join_the_area_and_the_name() {
    assert_eq!(pending_path("a.eml"), "pending/a.eml");
    assert_eq!(failed_path("a.eml"), "failed/a.eml");
    assert_eq!(pending_path(""), "pending/");
    assert_eq!(failed_path("_x"), "failed/_x");
}

#[test]
fn mail_is_ignored_when_its_path_starts_with_an_underscore() {
    assert!(should_ignore_mail("_draft.eml"));
    assert!(should_ignore_mail("_"));
    assert!(!should_ignore_mail(""));
    assert!(!should_ignore_mail("draft_.eml"));
    assert!(!should_ignore_mail("pending/_draft.eml"));
    assert!(!should_ignore_mail("é_"));
}

#[test]
fn write_returns_the_name_of_the_new_file() {
    let mut spool = Spool::new();
    let name = spool.write(vec![1, 2, 3]).unwrap();
    assert_eq!(name.len(), 40);
    assert_eq!(spool.list_pending(), vec![name.clone()]);
    assert_eq!(spool.read_pending(&name), Some(vec![1, 2, 3]));
    assert_eq!(spool.read_failed(&name), None);
}

#[test]
fn creation_is_exclusive() {
    let mut spool = Spool::new();
    assert_eq!(spool.write_named("a.eml".to_string(), vec![1]), Ok(()));
    assert_eq!(spool.write_named("a.eml".to_string(), vec![2]), Err(SpoolError::Collision));
    assert_eq!(spool.read_pending("a.eml"), Some(vec![1]));
    assert_eq!(spool.list_pending().len(), 1);
    assert_eq!(spool.write_named("b.eml".to_string(), vec![2]), Ok(()));
    assert_eq!(spool.list_pending(), vec!["a.eml".to_string(), "b.eml".to_string()]);
}

#[test]
fn a_name_in_the_failed_area_does_not_block_a_new_file() {
    let mut spool = Spool::new();
    spool.write_named("a.eml".to_string(), vec![1]).unwrap();
    spool.mark_failed("a.eml").unwrap();
    assert_eq!(spool.write_named("a.eml".to_string(), vec![2]), Ok(()));
    assert_eq!(spool.read_pending("a.eml"), Some(vec![2]));
    assert_eq!(spool.read_failed("a.eml"), Some(vec![1]));
}

#[test]
fn mark_delivered_deletes_the_pending_file() {
    let mut spool = Spool::new();
    spool.write_named("a.eml".to_string(), vec![1]).unwrap();
    spool.write_named("b.eml".to_string(), vec![2]).unwrap();
    assert_eq!(spool.mark_delivered("a.eml"), Ok(()));
    assert_eq!(spool.list_pending(), vec!["b.eml".to_string()]);
    assert_eq!(spool.read_pending("b.eml"), Some(vec![2]));
    assert!(spool.list_failed().is_empty());
}

#[test]
fn mark_delivered_twice_reports_the_missing_file() {
    let mut spool = Spool::new();
    spool.write_named("a.eml".to_string(), vec![1]).unwrap();
    assert_eq!(spool.mark_delivered("a.eml"), Ok(()));
    assert_eq!(spool.mark_delivered("a.eml"), Err(SpoolError::Missing));
    assert!(spool.list_pending().is_empty());
    assert!(spool.list_failed().is_empty());
}

#[test]
fn mark_failed_moves_the_bytes_unchanged() {
    let mut spool = Spool::new();
    let bytes: Vec<u8> = (0..=255).collect();
    spool.write_named("a.eml".to_string(), bytes.clone()).unwrap();
    spool.write_named("b.eml".to_string(), vec![2]).unwrap();
    assert!(spool.list_failed().is_empty());
    assert_eq!(spool.mark_failed("a.eml"), Ok(()));
    assert_eq!(spool.read_failed("a.eml"), Some(bytes));
    assert_eq!(spool.read_pending("a.eml"), None);
    assert_eq!(spool.list_pending(), vec!["b.eml".to_string()]);
    assert_eq!(spool.list_failed(), vec!["a.eml".to_string()]);
}

#[test]
fn mark_failed_on_a_missing_file_changes_nothing() {
    let mut spool = Spool::new();
    spool.write_named("a.eml".to_string(), vec![1]).unwrap();
    assert_eq!(spool.mark_failed("b.eml"), Err(SpoolError::Missing));
    assert_eq!(spool.list_pending(), vec!["a.eml".to_string()]);
    assert!(spool.list_failed().is_empty());
}

#[test]
fn mark_failed_replaces_a_failed_file_of_the_same_name() {
    let mut spool = Spool::new();
    spool.write_named("a.eml".to_string(), vec![1]).unwrap();
    spool.mark_failed("a.eml").unwrap();
    spool.write_named("a.eml".to_string(), vec![2]).unwrap();
    assert_eq!(spool.mark_failed("a.eml"), Ok(()));
    assert_eq!(spool.read_failed("a.eml"), Some(vec![2]));
    assert_eq!(spool.list_failed().len(), 1);
    assert!(spool.list_pending().is_empty());
}

#[test]
fn an_area_finds_files_by_name() {
    let mut area = Area::new();
    assert_eq!(area.len(), 0);
    assert!(area.create("x".to_string(), vec![1]));
    assert!(area.create("y".to_string(), vec![2, 3]));
    assert!(!area.create("x".to_string(), vec![9]));
    assert_eq!(area.len(), 2);
    assert!(area.contains("x"));
    assert!(!area.contains("z"));
    assert_eq!(area.read("y"), Some(vec![2, 3]));
    assert_eq!(area.read("z"), None);
    assert_eq!(area.take("x"), Some(vec![1]));
    assert_eq!(area.take("x"), None);
    assert_eq!(area.names(), vec!["y".to_string()]);
}
