use rconsole::transcript::{Transcript, TranscriptEntry, TranscriptKind};

#[test]
fn stores_entries_in_order() {
    let mut transcript = Transcript::default();
    transcript.push(TranscriptEntry::new(
        "[system]",
        TranscriptKind::System,
        "ready",
    ));
    transcript.push(TranscriptEntry::new(
        "[chat]",
        TranscriptKind::Chat,
        "hello",
    ));

    assert_eq!(transcript.entries().len(), 2);
    assert_eq!(transcript.entries()[0].content, "ready");
    assert_eq!(transcript.entries()[1].content, "hello");
}

#[test]
fn new_transcript_is_empty() {
    assert!(Transcript::default().entries().is_empty());
}

#[test]
fn entry_line_omits_empty_content() {
    let entry = TranscriptEntry::new("[user:/help]", TranscriptKind::User, "");
    assert_eq!(entry.line(), "[user:/help]");
    let entry = TranscriptEntry::new("[R]", TranscriptKind::R, "[1] 2");
    assert_eq!(entry.line(), "[R] [1] 2");
    assert_eq!(entry.kind, TranscriptKind::R);
    assert_eq!(entry.label, "[R]");
}
