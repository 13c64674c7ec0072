use jack_recorder::archive::{archive_entries, is_archive_file, ARCHIVE_NAME};
use jack_recorder::control::{Controller, RecordingStatus};
use jack_recorder::naming::{
    is_unsafe_char, sanitize_port_name, session_file_name, session_file_names, session_timestamp,
    SessionTime,
};
use jack_recorder::ports::{
    bind_ports, contains_name, destination_port_name, port_listing, select_ports,
    string_to_static_str, RecorderError,
};
use jack_recorder::writer::{
    file_index_for, session_wav_format, CycleControl, Producer, ProducerPhase, Writer,
    WriterAction,
};

fn names(v: &[&str]) -> Vec<String> {
    v.iter().map(|s| s.to_string()).collect()
}

fn time() -> SessionTime {
    SessionTime { year: 2024, month: 3, day: 5, hour: 7, minute: 8, second: 9 }
}

#[test]
fn unsafe_chars() {
    assert!(!is_unsafe_char('a'));
    assert!(!is_unsafe_char('Z'));
    assert!(!is_unsafe_char('0'));
    assert!(!is_unsafe_char('9'));
    assert!(is_unsafe_char(':'));
    assert!(is_unsafe_char('_'));
    assert!(is_unsafe_char(' '));
    assert!(is_unsafe_char('é'));
}

#[test]
fn sanitized_names_hold_only_safe_chars() {
    let s = sanitize_port_name("system:capture_1 é");
    assert_eq!(s, "system_capture_1__");
    assert!(s.chars().all(|c| c.is_ascii_alphanumeric() || c == '_'));
    assert_eq!(sanitize_port_name(""), "");
}

#[test]
fn timestamp_is_zero_padded() {
    assert_eq!(session_timestamp(&time()), "2024-03-05-07-08-09");
    let t = SessionTime { year: 7, month: 12, day: 31, hour: 23, minute: 59, second: 0 };
    assert_eq!(session_timestamp(&t), "0007-12-31-23-59-00");
}

#[test]
fn file_name_layout() {
    let f = session_file_name("2024-03-05-07-08-09", 12, "system:capture_1");
    assert_eq!(f, "2024-03-05-07-08-09-12-system_capture_1.wav");
    assert_eq!(session_file_name("t", 0, "A"), "t-0-A.wav");
}

#[test]
fn colliding_sanitized_names_still_get_distinct_files() {
    let a = session_file_name("t", 0, "a:b");
    let b = session_file_name("t", 1, "a_b");
    assert_eq!(sanitize_port_name("a:b"), sanitize_port_name("a_b"));
    assert_ne!(a, b);
}

#[test]
fn empty_selection_keeps_every_port() {
    let avail = names(&["A", "B"]);
    assert_eq!(select_ports(&avail, &vec![]), names(&["A", "B"]));
}

#[test]
fn selection_keeps_only_named_ports() {
    let avail = names(&["A", "B"]);
    assert_eq!(select_ports(&avail, &names(&["A"])), names(&["A"]));
    // a selected name the host does not expose is never bound
    assert_eq!(select_ports(&avail, &names(&["C", "B"])), names(&["B"]));
    assert!(select_ports(&avail, &names(&["C"])).is_empty());
}

#[test]
fn contains_name_matches_whole_names() {
    let list = names(&["system:capture_1", "B"]);
    assert!(contains_name(&list, &"B".to_string()));
    assert!(!contains_name(&list, &"system".to_string()));
}

#[test]
fn empty_port_list_starts_no_session() {
    let avail = names(&["A", "B"]);
    let selected = select_ports(&avail, &names(&["C"]));
    assert!(bind_ports(&selected, &vec![]).is_none());
    assert!(bind_ports(&vec![], &vec![]).is_none());
}

#[test]
fn destination_names_carry_the_client_name() {
    assert_eq!(destination_port_name("A"), "Art Infinity Radio:A");
}

#[test]
fn failed_registration_is_left_out() {
    let selected = names(&["A", "B"]);
    let bindings = bind_ports(&selected, &vec![true, false]).unwrap();
    assert_eq!(bindings.len(), 1);
    assert_eq!(bindings[0].source, "A");
    assert_eq!(bindings[0].destination, "Art Infinity Radio:A");
    assert!(bind_ports(&selected, &vec![false, false]).is_none());
}

#[test]
fn two_ports_two_files_two_entries() {
    let avail = names(&["A", "B"]);
    let selected = select_ports(&avail, &vec![]);
    let bindings = bind_ports(&selected, &vec![true, true]).unwrap();
    let ts = session_timestamp(&time());
    let sources: Vec<String> = bindings.iter().map(|b| b.source.clone()).collect();
    let files = session_file_names(&ts, &sources);
    assert_eq!(files, names(&["2024-03-05-07-08-09-0-A.wav", "2024-03-05-07-08-09-1-B.wav"]));
    let mut listing = files.clone();
    listing.push(ARCHIVE_NAME.to_string());
    assert_eq!(archive_entries(&listing), files);
}

#[test]
fn one_selected_port_one_entry() {
    let avail = names(&["A", "B"]);
    let selected = select_ports(&avail, &names(&["A"]));
    let bindings = bind_ports(&selected, &vec![true]).unwrap();
    let f = session_file_name("ts", 0, &bindings[0].source);
    let listing = vec![ARCHIVE_NAME.to_string(), f.clone()];
    assert_eq!(archive_entries(&listing), vec![f]);
}

#[test]
fn archive_names() {
    assert!(is_archive_file("bundle.zip"));
    assert!(is_archive_file(".zip"));
    assert!(!is_archive_file("zip"));
    assert!(!is_archive_file("a.wav"));
    assert!(!is_archive_file("a.zipx"));
}

#[test]
fn host_unavailable_listing() {
    assert_eq!(port_listing(None), Err(RecorderError::HostUnavailable));
    assert_eq!(port_listing(Some(names(&["A"]))), Ok(names(&["A"])));
}

#[test]
fn second_start_is_rejected() {
    let mut c = Controller::new();
    assert_eq!(c.status(), RecordingStatus { is_recording: false, start_time: None });
    assert_eq!(c.start(time()), Ok(()));
    let later = SessionTime { second: 30, ..time() };
    assert_eq!(c.start(later), Err(RecorderError::AlreadyRecording));
    assert_eq!(c.status(), RecordingStatus { is_recording: true, start_time: Some(time()) });
    assert_eq!(c.stop(), Ok(()));
    assert_eq!(c.stop(), Err(RecorderError::NotRecording));
    assert_eq!(c.status(), RecordingStatus { is_recording: false, start_time: None });
}

#[test]
fn immediate_stop_finalizes_and_archives() {
    let mut w = Writer::new(2);
    assert_eq!(w.next_action(), WriterAction::Receive);
    let o = w.after_poll(false, true, 0);
    assert!(o.drained);
    assert_eq!(w.next_action(), WriterAction::Finalize(0));
    w.file_finalized();
    assert_eq!(w.next_action(), WriterAction::Finalize(1));
    w.file_finalized();
    assert_eq!(w.next_action(), WriterAction::Archive);
    w.archive_done();
    assert_eq!(w.next_action(), WriterAction::Done);
}

#[test]
fn writer_drains_before_finalizing() {
    let mut w = Writer::new(1);
    let o = w.after_poll(true, true, 3);
    assert!(o.report);
    assert!(!o.drained);
    assert_eq!(w.next_action(), WriterAction::Receive);
    let o = w.after_poll(true, false, 0);
    assert!(!o.report);
    assert!(!o.drained);
    let o = w.after_poll(true, true, 0);
    assert!(o.drained);
    assert_eq!(w.next_action(), WriterAction::Finalize(0));
}

#[test]
fn writer_reports_every_thousand_polls() {
    let mut w = Writer::new(1);
    let mut reports = 0;
    for _ in 0..2001 {
        if w.after_poll(true, false, 5).report {
            reports += 1;
        }
    }
    assert_eq!(reports, 3);
}

#[test]
fn routing_by_source_name() {
    let sources = names(&["A", "B", "A"]);
    assert_eq!(file_index_for(&sources, "B"), Some(1));
    assert_eq!(file_index_for(&sources, "A"), Some(0));
    assert_eq!(file_index_for(&sources, "C"), None);
    assert_eq!(file_index_for(&sources, "AB"), None);
}

#[test]
fn wav_format_is_mono_float() {
    let f = session_wav_format(48000);
    assert_eq!(f.channels, 1);
    assert_eq!(f.sample_rate, 48000);
    assert_eq!(f.bits_per_sample, 32);
    assert!(f.float_samples);
}

#[test]
fn producer_quits_once_stopped() {
    let mut p = Producer::new();
    assert_eq!(p.on_cycle(false), CycleControl::Quit);
    p.activate();
    assert_eq!(p.phase, ProducerPhase::Activated);
    assert_eq!(p.on_cycle(false), CycleControl::Continue);
    assert_eq!(p.on_cycle(true), CycleControl::Quit);
    assert_eq!(p.phase, ProducerPhase::Stopping);
    assert_eq!(p.on_cycle(false), CycleControl::Quit);
    p.deactivate();
    assert_eq!(p.phase, ProducerPhase::Deactivated);
}

#[test]
fn leaked_names_keep_their_text() {
    let s = string_to_static_str("system:capture_1".to_string());
    assert_eq!(s, "system:capture_1");
}
