use get_livecaptions::{is_blank, persisted_record, split_lines, Engine, FastStep, PersistStep, SyncBuffer};

fn written(step: PersistStep) -> String {
    match step {
        PersistStep::Write { text } => text,
        PersistStep::Skip => panic!("expected a write, got a skip"),
        PersistStep::Advanced => panic!("expected a write, got an advance"),
    }
}

fn translated(step: FastStep) -> String {
    match step {
        FastStep::Translate { text } => text,
        FastStep::Idle => panic!("expected a translation, got idle"),
        FastStep::Shutdown => panic!("expected a translation, got shutdown"),
    }
}

#[test]
fn split_lines_drops_terminators() {
    assert_eq!(split_lines("a\nb\n"), vec!["a".to_string(), "b".to_string()]);
    assert_eq!(split_lines("a\n\nb"), vec!["a".to_string(), "".to_string(), "b".to_string()]);
    assert_eq!(split_lines("\n\n"), vec!["".to_string(), "".to_string()]);
    assert!(split_lines("").is_empty());
}

#[test]
fn blank_text() {
    assert!(is_blank(""));
    assert!(is_blank(" \n\t\u{3000}"));
    assert!(!is_blank(" x "));
}

#[test]
fn record_has_stamp_line_and_terminator() {
    assert_eq!(
        persisted_record("[2024-01-02][03:04:05]", "a\nb\n"),
        "[2024-01-02][03:04:05]\na\nb\n\n"
    );
}

#[test]
fn sync_buffer_reports_and_advances() {
    let mut b = SyncBuffer::new();
    assert_eq!(b.last_seen(), "");
    assert_eq!(b.sync("a\nb"), "a\nb");
    assert_eq!(b.last_seen(), "a\nb");
    assert_eq!(b.delta("a\nb\nc"), "c\n");
    assert_eq!(b.last_seen(), "a\nb");
    assert_eq!(b.sync("a\nb\nc"), "c\n");
    assert_eq!(b.sync("a\nb\nc"), "");
}

#[test]
fn fast_tick_without_source_asks_for_shutdown() {
    let mut e = Engine::new(true);
    assert!(matches!(e.on_fast_tick(false, Some("x".to_string())), FastStep::Shutdown));
    assert_eq!(e.translation().last_seen(), "");
}

#[test]
fn fast_tick_with_translation_off_is_idle() {
    let mut e = Engine::new(false);
    assert!(matches!(e.on_fast_tick(true, Some("x".to_string())), FastStep::Idle));
    assert_eq!(e.translation().last_seen(), "");
}

#[test]
fn blank_delta_is_not_translated_but_advances() {
    let mut e = Engine::new(true);
    assert!(matches!(e.on_fast_tick(true, Some("  ".to_string())), FastStep::Idle));
    assert_eq!(e.translation().last_seen(), "  ");
}

#[test]
fn slow_tick_waits_for_commit() {
    let mut e = Engine::new(false);
    assert!(matches!(e.on_slow_tick(None), PersistStep::Skip));
    assert_eq!(written(e.on_slow_tick(Some("a\nb".to_string()))), "a\nb");
    assert_eq!(e.persistence().last_seen(), "");
    // A failed write leaves the buffer where it was: the same content comes again.
    assert_eq!(written(e.on_slow_tick(Some("a\nb".to_string()))), "a\nb");
    e.commit_persisted("a\nb");
    assert_eq!(e.persistence().last_seen(), "a\nb");
    assert!(matches!(e.on_slow_tick(Some("a\nb".to_string())), PersistStep::Advanced));
    assert_eq!(written(e.on_slow_tick(Some("a\nb\nc".to_string()))), "c\n");
}

#[test]
fn two_buffers_deduplicate_independently() {
    let snapshots = ["one", "one\ntwo", "one\ntwo\nthree", "one\ntwo\nthree\nfour"];
    let mut e = Engine::new(true);
    // Translation samples every snapshot; persistence samples the second and fourth.
    assert_eq!(translated(e.on_fast_tick(true, Some(snapshots[0].to_string()))), "one");
    assert_eq!(translated(e.on_fast_tick(true, Some(snapshots[1].to_string()))), "two\n");
    let text = written(e.on_slow_tick(Some(snapshots[1].to_string())));
    assert_eq!(text, "one\ntwo");
    e.commit_persisted(snapshots[1]);
    assert_eq!(translated(e.on_fast_tick(true, Some(snapshots[2].to_string()))), "three\n");
    assert_eq!(translated(e.on_fast_tick(true, Some(snapshots[3].to_string()))), "four\n");
    let text = written(e.on_slow_tick(Some(snapshots[3].to_string())));
    assert_eq!(text, "three\nfour\n");
    e.commit_persisted(snapshots[3]);
    assert_eq!(e.persistence().last_seen(), snapshots[3]);
    assert_eq!(e.translation().last_seen(), snapshots[3]);
}
