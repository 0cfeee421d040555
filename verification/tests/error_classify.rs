use rocksdb::{Error, ErrorKind};

fn kind_of(message: &str) -> ErrorKind {
    Error::new(message.to_string()).kind()
}

#[test]
fn classify_not_found() {
    assert_eq!(kind_of("NotFound: key missing"), ErrorKind::NotFound);
}

#[test]
fn classify_io_error() {
    assert_eq!(kind_of("IO error: disk full"), ErrorKind::IOError);
}

#[test]
fn classify_unrecognized_text() {
    assert_eq!(kind_of("totally unrecognized text"), ErrorKind::Unknown);
}

#[test]
fn classify_empty_message() {
    assert_eq!(kind_of(""), ErrorKind::Unknown);
}

#[test]
fn classify_every_known_prefix() {
    assert_eq!(kind_of("NotFound: x"), ErrorKind::NotFound);
    assert_eq!(kind_of("Corruption: bad block"), ErrorKind::Corruption);
    assert_eq!(kind_of("Not implemented: feature"), ErrorKind::NotSupported);
    assert_eq!(kind_of("Invalid argument: oops"), ErrorKind::InvalidArgument);
    assert_eq!(kind_of("IO error: no space"), ErrorKind::IOError);
    assert_eq!(kind_of("Merge in progress: wait"), ErrorKind::MergeInProgress);
    assert_eq!(kind_of("Result incomplete: partial"), ErrorKind::Incomplete);
    assert_eq!(
        kind_of("Shutdown in progress: closing"),
        ErrorKind::ShutdownInProgress
    );
    assert_eq!(kind_of("Operation timed out: slow"), ErrorKind::TimedOut);
    assert_eq!(kind_of("Operation aborted: stop"), ErrorKind::Aborted);
    assert_eq!(kind_of("Resource busy: locked"), ErrorKind::Busy);
    assert_eq!(kind_of("Operation expired: ttl"), ErrorKind::Expired);
    assert_eq!(
        kind_of("Operation failed. Try again.: transient"),
        ErrorKind::TryAgain
    );
    assert_eq!(
        kind_of("Compaction too large: split"),
        ErrorKind::CompactionTooLarge
    );
    assert_eq!(
        kind_of("Column family dropped: gone"),
        ErrorKind::ColumnFamilyDropped
    );
}

#[test]
fn classify_prefix_without_colon() {
    // With no colon the whole message is the prefix.
    assert_eq!(kind_of("NotFound"), ErrorKind::NotFound);
    assert_eq!(kind_of("Corruption"), ErrorKind::Corruption);
}

#[test]
fn classify_is_case_sensitive() {
    assert_eq!(kind_of("notfound: key missing"), ErrorKind::Unknown);
    assert_eq!(kind_of("NOTFOUND: key missing"), ErrorKind::Unknown);
}

#[test]
fn classify_leading_colon_gives_unknown() {
    // The prefix before a leading colon is empty, which matches no entry.
    assert_eq!(kind_of(": details"), ErrorKind::Unknown);
}

#[test]
fn classify_only_first_colon_counts() {
    assert_eq!(kind_of("IO error: a: b: c"), ErrorKind::IOError);
    // A known prefix that only appears after the first colon does not match.
    assert_eq!(kind_of("x: NotFound: y"), ErrorKind::Unknown);
}

#[test]
fn classify_prefix_with_trailing_text_is_not_a_match() {
    // Exact literal prefix match only: no partial or fuzzy matching.
    assert_eq!(kind_of("NotFoundX: y"), ErrorKind::Unknown);
    assert_eq!(kind_of("IO error  : y"), ErrorKind::Unknown);
}

#[test]
fn classify_is_idempotent() {
    let messages = [
        "NotFound: key missing",
        "IO error: disk full",
        "totally unrecognized text",
        "",
        "Operation failed. Try again.: transient",
    ];
    for m in messages {
        let e = Error::new(m.to_string());
        assert_eq!(e.kind(), e.kind());
    }
}

#[test]
fn message_is_kept_verbatim() {
    let e = Error::new("Corruption: torn page".to_string());
    assert_eq!(e.message(), "Corruption: torn page");
    assert_eq!(e.clone().into_string(), "Corruption: torn page");
    let s: String = e.into();
    assert_eq!(s, "Corruption: torn page");
}
