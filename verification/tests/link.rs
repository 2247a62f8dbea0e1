use pigauge::elm::{
    command_line, init_steps, Drain, ElmCommand, InitStep, PromptReader, PromptStep, SerialRead,
};
use pigauge::link::{poll_event, LinkAction, LinkEvent, ObdLink, BACKOFF_MAX_MS, BACKOFF_START_MS};
use pigauge::obd::Reading;
use pigauge::snapshot::ObdSnapshot;

#[test]
fn command_ends_with_carriage_return() {
    assert_eq!(command_line("ATZ"), b"ATZ\r".to_vec());
    assert_eq!(command_line("010C"), b"010C\r".to_vec());
    assert_eq!(command_line(""), b"\r".to_vec());
}

#[test]
fn prompt_reader_gathers_until_prompt() {
    let mut r = PromptReader::new(100, 900);
    assert!(matches!(r.on_read(SerialRead::Data(b"41 0C")), PromptStep::Pending));
    assert!(matches!(r.on_read(SerialRead::TimedOut), PromptStep::Pending));
    assert!(matches!(r.on_read(SerialRead::Data(b"")), PromptStep::Pending));
    match r.on_read(SerialRead::Data(b" 1A F8\r\r>")) {
        PromptStep::Complete(t) => assert_eq!(t, "41 0C 1A F8"),
        other => panic!("unexpected {other:?}"),
    }
}

#[test]
fn prompt_reader_cleans_noise_and_fails_on_error() {
    let mut r = PromptReader::new(0, 900);
    match r.on_read(SerialRead::Data(b"SEARCHING...\r41 0D 32\r>")) {
        PromptStep::Complete(t) => assert_eq!(t, "41 0D 32"),
        other => panic!("unexpected {other:?}"),
    }
    let mut r = PromptReader::new(0, 900);
    assert!(matches!(r.on_read(SerialRead::Failed), PromptStep::Failed));
}

#[test]
fn prompt_reader_deadline() {
    let r = PromptReader::new(1000, 900);
    assert!(!r.expired(1000));
    assert!(!r.expired(1900));
    assert!(r.expired(1901));
    assert!(!r.expired(10));
}

#[test]
fn drain_counts_and_stops() {
    let mut d = Drain::new(0, 300);
    assert!(d.running(299));
    assert!(!d.running(300));
    assert!(d.on_read(SerialRead::Data(b"ELM327 v1.5\r\r>")));
    assert!(d.on_read(SerialRead::TimedOut));
    assert_eq!(d.drained, 14);
    assert!(!d.on_read(SerialRead::Failed));
    assert_eq!(d.drained, 14);
}

#[test]
fn init_script_order() {
    let steps = init_steps();
    assert_eq!(steps.len(), 9);
    assert_eq!(steps[0], InitStep::Send(ElmCommand::Reset));
    assert_eq!(steps[1], InitStep::Pause(800));
    assert_eq!(steps[2], InitStep::Drain(300));
    let texts: Vec<String> = steps[3..]
        .iter()
        .map(|s| match s {
            InitStep::Send(c) => c.text(),
            other => panic!("unexpected {other:?}"),
        })
        .collect();
    assert_eq!(texts, vec!["ATE0", "ATL0", "ATS0", "ATH0", "ATSP0", "ATAT1"]);
    assert_eq!(ElmCommand::ReplyTimeout.text(), "ATST0A");
    assert_eq!(ElmCommand::Reset.text(), "ATZ");
}

#[test]
fn backoff_doubles_then_caps_and_resets() {
    let mut link = ObdLink::new();
    let mut shared = ObdSnapshot::empty();
    let mut waits = Vec::new();
    for _ in 0..8 {
        match link.handle(LinkEvent::OpenFailed, &mut shared, 200) {
            LinkAction::ReopenAfter(ms) => waits.push(ms),
            other => panic!("unexpected {other:?}"),
        }
    }
    assert_eq!(waits, vec![250, 500, 1000, 2000, 4000, 8000, 10000, 10000]);
    assert_eq!(link.backoff_ms, BACKOFF_MAX_MS);
    assert_eq!(link.handle(LinkEvent::Initialized, &mut shared, 200), LinkAction::StartPolling);
    assert_eq!(link.backoff_ms, BACKOFF_START_MS);
    assert_eq!(
        link.handle(LinkEvent::InitFailed, &mut shared, 200),
        LinkAction::ReopenAfter(250)
    );
    assert_eq!(link.backoff_ms, 500);
}

#[test]
fn read_results_update_shared_snapshot() {
    let mut link = ObdLink::new();
    let mut shared = ObdSnapshot::empty();
    let mut fresh = ObdSnapshot::empty();
    fresh.record(Reading::Rpm(800), 5000);
    assert_eq!(link.handle(LinkEvent::ReadOk(fresh), &mut shared, 200), LinkAction::PollAfter(200));
    assert_eq!(shared, fresh);
    assert_eq!(link.backoff_ms, 250);

    // A read that got nothing keeps the earlier reading time.
    let empty = ObdSnapshot::empty();
    link.handle(LinkEvent::ReadOk(empty), &mut shared, 200);
    assert_eq!(shared.rpm, None);
    assert_eq!(shared.last_ok, Some(5000));
    assert!(!shared.connected);

    shared.store(fresh);
    assert_eq!(link.handle(LinkEvent::ReadFailed, &mut shared, 200), LinkAction::ReopenAfter(250));
    assert_eq!(shared.rpm, None);
    assert!(!shared.connected);
    assert_eq!(shared.last_ok, Some(5000));
    assert_eq!(link.backoff_ms, 500);
}

#[test]
fn prompt_reader_replaces_invalid_utf8() {
    let mut r = PromptReader::new(0, 900);
    match r.on_read(SerialRead::Data(b"\xFF41 0C\r>")) {
        PromptStep::Complete(t) => assert_eq!(t, "\u{FFFD}41 0C"),
        other => panic!("unexpected {other:?}"),
    }
}

#[test]
fn unanswered_poll_is_a_failure() {
    assert_eq!(poll_event(ObdSnapshot::empty()), LinkEvent::ReadFailed);
    let mut fresh = ObdSnapshot::empty();
    fresh.record(Reading::SpeedKph(40), 700);
    assert_eq!(poll_event(fresh), LinkEvent::ReadOk(fresh));

    let mut link = ObdLink::new();
    let mut shared = fresh;
    let ev = poll_event(ObdSnapshot::empty());
    assert_eq!(link.handle(ev, &mut shared, 200), LinkAction::ReopenAfter(250));
    assert!(!shared.connected);
    assert_eq!(shared.speed_kph, None);
    assert_eq!(shared.last_ok, Some(700));
    assert_eq!(link.backoff_ms, 500);
}

#[test]
fn stored_time_never_goes_back() {
    let mut shared = ObdSnapshot::empty();
    let mut a = ObdSnapshot::empty();
    a.record(Reading::Rpm(800), 1000);
    shared.store(a);
    shared.store(ObdSnapshot::empty());
    assert_eq!(shared.last_ok, Some(1000));
    let mut b = ObdSnapshot::empty();
    b.record(Reading::Rpm(900), 1200);
    shared.store(b);
    assert_eq!(shared.last_ok, Some(1200));
}
