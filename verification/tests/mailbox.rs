use smbox::mbox::{FieldType, FieldsParser, Mbox, Message, Status};

fn lines(ls: &[&str]) -> Vec<String> {
    ls.iter().map(|l| l.to_string()).collect()
}

fn sample_mbox() -> Vec<String> {
    lines(&[
        "From alice Mon Sep  7 10:00:00 2020",
        "Date: Fri, 4 Sep 2020 11:44:49 +1000 (AEST)",
        "From: alice@example.org",
        "Subject: first message",
        "Status: RO",
        "",
        "body line one",
        "body line two",
        "From bob Mon Sep  7 11:00:00 2020",
        "Subject: second message",
        "",
        "hello",
    ])
}

#[test]
fn status_field_chars() {
    assert_eq!(Status::Read.field_char(), 'R');
    assert_eq!(Status::NonRecent.field_char(), 'O');
    assert_eq!(Status::Deleted.field_char(), 'D');
}

#[test]
fn from_iter_splits_at_from_lines() {
    let mbox = Mbox::from_iter(sample_mbox());
    assert_eq!(mbox.count(), 2);
    let first = mbox.msg_at(0).unwrap();
    assert_eq!(first.all_lines().len(), 8);
    assert_eq!(first.all_lines()[0], "From alice Mon Sep  7 10:00:00 2020");
    let second = mbox.msg_at(1).unwrap();
    assert_eq!(second.all_lines().len(), 4);
    assert_eq!(second.all_lines()[0], "From bob Mon Sep  7 11:00:00 2020");
    assert!(mbox.msg_at(2).is_none());
}

#[test]
fn from_iter_keeps_leading_lines_as_unmarked_message() {
    let mbox = Mbox::from_iter(lines(&["stray line", "From carol x", "Subject: s"]));
    assert_eq!(mbox.count(), 2);
    assert_eq!(mbox.msg_at(0).unwrap().all_lines(), &lines(&["stray line"])[..]);
}

#[test]
fn from_iter_of_nothing_is_empty() {
    let mbox = Mbox::from_iter(Vec::new());
    assert_eq!(mbox.count(), 0);
}

#[test]
fn field_extraction() {
    let mbox = Mbox::from_iter(sample_mbox());
    let first = mbox.msg_at(0).unwrap();
    assert_eq!(
        first.field(FieldType::Date),
        Some("Date: Fri, 4 Sep 2020 11:44:49 +1000 (AEST)")
    );
    assert_eq!(first.field(FieldType::From), Some("From: alice@example.org"));
    assert_eq!(first.field(FieldType::Subject), Some("Subject: first message"));
    assert_eq!(first.field(FieldType::Status), Some("Status: RO"));
    let second = mbox.msg_at(1).unwrap();
    assert_eq!(second.field(FieldType::Date), None);
    assert_eq!(second.field(FieldType::Status), None);
}

#[test]
fn body_lines_start_after_the_blank_separator() {
    let mbox = Mbox::from_iter(sample_mbox());
    let first = mbox.msg_at(0).unwrap();
    assert_eq!(
        first.body_lines().unwrap(),
        &lines(&["body line one", "body line two"])[..]
    );
    let second = mbox.msg_at(1).unwrap();
    assert_eq!(second.body_lines().unwrap(), &lines(&["hello"])[..]);
    // A message with no blank line has no body.
    let headers_only = Mbox::from_iter(lines(&["From dave x", "Subject: s"]));
    assert!(headers_only.msg_at(0).unwrap().body_lines().is_none());
}

#[test]
fn gather_fields_takes_the_first_blank_line_only() {
    let parser = FieldsParser::default();
    let ls = lines(&["Subject: s", "", "body", "", "tail"]);
    let fields = parser.gather_fields(&ls);
    assert_eq!(fields.subject, Some(0));
    assert_eq!(fields.body, Some(2));
    assert_eq!(fields.date, None);
}

#[test]
fn has_status_reads_the_status_line() {
    let mbox = Mbox::from_iter(sample_mbox());
    let first = mbox.msg_at(0).unwrap();
    assert!(first.has_status(Status::Read));
    assert!(first.has_status(Status::NonRecent));
    assert!(!first.has_status(Status::Deleted));
    let second = mbox.msg_at(1).unwrap();
    assert!(!second.has_status(Status::Read));
}

#[test]
fn set_status_appends_to_an_existing_status_line() {
    let mut mbox = Mbox::from_iter(sample_mbox());
    mbox.messages[0].set_status(Status::Deleted);
    let first = mbox.msg_at(0).unwrap();
    assert_eq!(first.field(FieldType::Status), Some("Status: ROD"));
    assert!(first.has_status(Status::Deleted));
    // Setting a flag that is already there changes nothing.
    mbox.messages[0].set_status(Status::Read);
    assert_eq!(mbox.msg_at(0).unwrap().field(FieldType::Status), Some("Status: ROD"));
}

#[test]
fn set_status_inserts_a_status_line_before_the_body() {
    let mut mbox = Mbox::from_iter(sample_mbox());
    mbox.messages[1].set_status(Status::Read);
    let second = mbox.msg_at(1).unwrap();
    assert_eq!(second.field(FieldType::Status), Some("Status: R"));
    assert_eq!(
        second.all_lines(),
        &lines(&[
            "From bob Mon Sep  7 11:00:00 2020",
            "Subject: second message",
            "Status: R",
            "",
            "hello",
        ])[..]
    );
    // The body mark moved with the insertion.
    assert_eq!(second.body_lines().unwrap(), &lines(&["hello"])[..]);
}

#[test]
fn set_status_without_body_mark_changes_nothing() {
    let mut mbox = Mbox::from_iter(lines(&["From dave x", "Subject: s"]));
    mbox.messages[0].set_status(Status::Read);
    let msg = mbox.msg_at(0).unwrap();
    assert_eq!(msg.field(FieldType::Status), None);
    assert_eq!(msg.all_lines(), &lines(&["From dave x", "Subject: s"])[..]);
}

#[test]
fn unset_status_filters_the_status_line() {
    let mut mbox = Mbox::from_iter(sample_mbox());
    mbox.messages[0].unset_status(Status::Read);
    let first = mbox.msg_at(0).unwrap();
    assert_eq!(first.field(FieldType::Status), Some("Status: O"));
    assert!(!first.has_status(Status::Read));
    assert!(first.has_status(Status::NonRecent));
}

#[test]
fn set_status_at_and_out_of_range() {
    let mut mbox = Mbox::from_iter(sample_mbox());
    mbox.set_status_at(0, Status::Deleted);
    assert!(mbox.msg_at(0).unwrap().has_status(Status::Deleted));
    // Out of range: nothing happens.
    mbox.set_status_at(7, Status::Deleted);
    assert_eq!(mbox.count(), 2);
    assert!(!mbox.msg_at(1).unwrap().has_status(Status::Deleted));
}

#[test]
fn set_status_all_marks_every_message() {
    let mut mbox = Mbox::from_iter(sample_mbox());
    mbox.set_status_all(Status::NonRecent);
    assert!(mbox.msg_at(0).unwrap().has_status(Status::NonRecent));
    assert!(mbox.msg_at(1).unwrap().has_status(Status::NonRecent));
}

#[test]
fn kept_lines_drop_deleted_messages() {
    let mut mbox = Mbox::from_iter(sample_mbox());
    assert_eq!(mbox.deleted_count(), 0);
    assert_eq!(mbox.kept_lines(), sample_mbox());
    mbox.set_status_at(0, Status::Deleted);
    assert_eq!(mbox.deleted_count(), 1);
    assert_eq!(
        mbox.kept_lines(),
        lines(&[
            "From bob Mon Sep  7 11:00:00 2020",
            "Subject: second message",
            "",
            "hello",
        ])
    );
    mbox.set_status_at(1, Status::Deleted);
    assert_eq!(mbox.deleted_count(), 2);
    assert_eq!(mbox.kept_lines(), Vec::<String>::new());
}

#[test]
fn message_new_keeps_what_it_is_given() {
    let parser = FieldsParser::default();
    let ls = lines(&["From x y", "Status: R", "", "body"]);
    let fields = parser.gather_fields(&ls);
    assert_eq!(fields.status, Some(1));
    assert_eq!(fields.body, Some(3));
    let msg = Message::new(ls.clone(), fields);
    assert_eq!(msg.all_lines(), &ls[..]);
    assert!(msg.has_status(Status::Read));
}
