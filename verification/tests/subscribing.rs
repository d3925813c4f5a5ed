use moq_clock::publisher;
use moq_clock::subscriber::{
    read_payload, session_start, session_step, track_start, track_step, watch_start, watch_step,
    Failure, Report, SessionEvent, SessionRequest, SessionStep, TrackEvent, TrackRequest,
    TrackStep, WatchRequest,
};
use moq_clock::text::padded_text;
use moq_clock::timestamp::LocalTime;

type Work = TrackRequest<String>;

fn go(pending: Work, event: TrackEvent<Vec<u8>>) -> (Report<String>, Work) {
    match track_step(pending, event) {
        Some(TrackStep::Continue { report, request }) => (report, request),
        other => panic!("{other:?}"),
    }
}

/// Runs the events from the start and collects the lines; the last event may end the reading.
fn lines(events: Vec<TrackEvent<Vec<u8>>>) -> Vec<String> {
    let mut pending = Some(track_start());
    let mut printed = Vec::new();
    for event in events {
        match track_step(pending.take().unwrap(), event) {
            Some(TrackStep::Continue { report, request }) => {
                if let Report::Line(line) = report {
                    printed.push(line);
                }
                pending = Some(request);
            }
            Some(_) => {}
            None => panic!("an event did not answer"),
        }
    }
    printed
}

#[test]
fn reading_starts_by_subscribing_to_the_track_of_the_publisher() {
    assert_eq!(track_start(), TrackRequest::Subscribe { name: "time".to_string() });
    let created = publisher::step(
        publisher::Request::Announce { path: "clock".to_string() },
        publisher::Event::Done,
    );
    match created {
        Some(publisher::Step::Continue {
            request: publisher::Request::CreateTrack { name },
            ..
        }) => assert_eq!(track_start(), TrackRequest::Subscribe { name }),
        other => panic!("{other:?}"),
    }
}

#[test]
fn subscribing_happens_once() {
    let events = vec![
        TrackEvent::Done,
        TrackEvent::Failed,
        TrackEvent::Group(1),
        TrackEvent::Failed,
        TrackEvent::Group(2),
        TrackEvent::Frame,
        TrackEvent::Failed,
        TrackEvent::Group(3),
        TrackEvent::End,
    ];
    let mut pending = track_start();
    for event in events {
        pending = go(pending, event).1;
        assert!(!matches!(pending, TrackRequest::Subscribe { .. }));
    }
}

#[test]
fn lines_printed_before_the_end_stay() {
    let printed = lines(vec![
        TrackEvent::Done,
        TrackEvent::Group(9),
        TrackEvent::Frame,
        TrackEvent::Payload(b"a".to_vec()),
        TrackEvent::End,
        TrackEvent::End,
    ]);
    assert_eq!(printed, ["[sub] group=0009  \u{2192}  a"]);
    assert!(lines(vec![TrackEvent::Failed]).is_empty());
    assert!(lines(vec![]).is_empty());
}

#[test]
fn numbers_are_padded_with_zeros() {
    assert_eq!(padded_text(0, 4), "0000");
    assert_eq!(padded_text(7, 4), "0007");
    assert_eq!(padded_text(1234, 4), "1234");
    assert_eq!(padded_text(56789, 4), "56789");
    assert_eq!(padded_text(0, 0), "0");
    assert_eq!(padded_text(u64::MAX, 4), "18446744073709551615");
}

#[test]
fn line_shows_the_group_and_the_timestamp() {
    match read_payload(42, &b"2024-05-06 07:08:09.123".to_vec()) {
        Report::Line(line) => {
            assert_eq!(line, "[sub] group=0042  \u{2192}  2024-05-06 07:08:09.123");
        }
        other => panic!("{other:?}"),
    }
}

#[test]
fn payload_that_is_no_utf8_is_reported() {
    let payloads = [vec![0xff], vec![0xc0, 0x80], vec![0xed, 0xa0, 0x80], vec![b'a', 0xe2, 0x86]];
    for payload in payloads {
        assert!(matches!(read_payload(3, &payload), Report::NotUtf8 { group: 3 }));
    }
}

#[test]
fn frames_of_a_group_are_read_until_it_ends() {
    let (report, pending) = go(track_start(), TrackEvent::Done);
    assert!(matches!(report, Report::Subscribed));
    assert_eq!(pending, TrackRequest::NextGroup);
    let (report, pending) = go(pending, TrackEvent::Group(5));
    assert!(matches!(report, Report::Nothing));
    assert_eq!(pending, TrackRequest::NextFrame { group: 5 });
    let (report, pending) = go(pending, TrackEvent::Frame);
    assert!(matches!(report, Report::Nothing));
    assert_eq!(pending, TrackRequest::ReadPayload { group: 5 });
    let (report, pending) = go(pending, TrackEvent::Payload(b"x".to_vec()));
    assert!(matches!(report, Report::Line(_)));
    assert_eq!(pending, TrackRequest::NextFrame { group: 5 });
    let (report, pending) = go(pending, TrackEvent::End);
    assert!(matches!(report, Report::Nothing));
    assert_eq!(pending, TrackRequest::NextGroup);
    assert!(matches!(track_step(pending, TrackEvent::End), Some(TrackStep::Finish)));
}

#[test]
fn transient_failures_lead_to_the_next_group() {
    let (report, pending) = go(TrackRequest::NextGroup, TrackEvent::Failed);
    assert!(matches!(report, Report::GroupsCutShort));
    assert_eq!(pending, TrackRequest::NextGroup);
    let (report, pending) = go(TrackRequest::NextFrame { group: 5 }, TrackEvent::Failed);
    assert!(matches!(report, Report::FramesCutShort { group: 5 }));
    assert_eq!(pending, TrackRequest::NextGroup);
    let (report, pending) = go(TrackRequest::ReadPayload { group: 5 }, TrackEvent::Failed);
    assert!(matches!(report, Report::PayloadCutShort { group: 5 }));
    assert_eq!(pending, TrackRequest::NextGroup);
}

#[test]
fn unreadable_payload_does_not_end_the_group() {
    let (report, pending) =
        go(TrackRequest::ReadPayload { group: 5 }, TrackEvent::Payload(vec![0x80]));
    assert!(matches!(report, Report::NotUtf8 { group: 5 }));
    assert_eq!(pending, TrackRequest::NextFrame { group: 5 });
}

#[test]
fn failed_subscription_is_given_up() {
    match track_step(track_start(), TrackEvent::Failed) {
        Some(TrackStep::Stop(failure)) => {
            assert_eq!(failure, Failure::Subscription);
            assert_eq!(failure.message(), "failed to subscribe to track 'time'");
        }
        other => panic!("{other:?}"),
    }
}

#[test]
fn track_events_that_do_not_answer_are_turned_away() {
    assert!(track_step(track_start(), TrackEvent::End).is_none());
    assert!(track_step(TrackRequest::NextGroup, TrackEvent::Frame).is_none());
    assert!(track_step(TrackRequest::NextFrame { group: 1 }, TrackEvent::Group(2)).is_none());
    assert!(track_step(TrackRequest::ReadPayload { group: 1 }, TrackEvent::End).is_none());
}

#[test]
fn readable_payloads_are_printed_in_order_with_their_groups() {
    let printed = lines(vec![
        TrackEvent::Done,
        TrackEvent::Failed,
        TrackEvent::Group(9),
        TrackEvent::Frame,
        TrackEvent::Payload(b"a".to_vec()),
        TrackEvent::Frame,
        TrackEvent::Payload(vec![0xff]),
        TrackEvent::Frame,
        TrackEvent::Payload(b"b".to_vec()),
        TrackEvent::End,
        TrackEvent::Group(8),
        TrackEvent::Frame,
        TrackEvent::Failed,
        TrackEvent::Group(10),
        TrackEvent::Frame,
        TrackEvent::Payload("\u{e9}".as_bytes().to_vec()),
    ]);
    assert_eq!(
        printed,
        [
            "[sub] group=0009  \u{2192}  a",
            "[sub] group=0009  \u{2192}  b",
            "[sub] group=0010  \u{2192}  \u{e9}",
        ]
    );
}

#[test]
fn published_time_is_printed() {
    let mut events = vec![TrackEvent::Done];
    for second in 0..2 {
        let time = LocalTime {
            year: 2024,
            month: 5,
            day: 6,
            hour: 7,
            minute: 8,
            second,
            nanosecond: 0,
        };
        let clock = publisher::Event::Clock(time);
        let opening = match publisher::step(publisher::Request::ReadClock, clock) {
            Some(publisher::Step::Continue { request, .. }) => request,
            other => panic!("{other:?}"),
        };
        let payload = match publisher::step(opening, publisher::Event::Done) {
            Some(publisher::Step::Continue {
                request: publisher::Request::WriteFrame { payload, .. },
                ..
            }) => payload,
            other => panic!("{other:?}"),
        };
        events.push(TrackEvent::Group(u64::from(second)));
        events.push(TrackEvent::Frame);
        events.push(TrackEvent::Payload(payload));
        events.push(TrackEvent::End);
    }
    assert_eq!(
        lines(events),
        [
            "[sub] group=0000  \u{2192}  2024-05-06 07:08:00.000",
            "[sub] group=0001  \u{2192}  2024-05-06 07:08:01.000",
        ]
    );
}

#[test]
fn watching_retries_for_ever() {
    let mut pending = watch_start();
    for _ in 0..3 {
        assert_eq!(pending, WatchRequest::ReadTrack);
        pending = watch_step(pending);
        assert_eq!(pending, WatchRequest::Sleep { milliseconds: 200 });
        pending = watch_step(pending);
    }
}

#[test]
fn session_watches_what_becomes_available() {
    let relay = || "https://relay.moq.dev/anon".to_string();
    let step = |pending, event| session_step(pending, event).unwrap();
    let waiting = || SessionRequest::<String>::NextAnnouncement;
    assert_eq!(session_start(&relay()), SessionRequest::InitClient { url: relay() });
    assert_eq!(
        step(session_start(&relay()), SessionEvent::Done),
        SessionStep::Continue { watch: false, request: SessionRequest::Connect { url: relay() } }
    );
    assert_eq!(
        step(SessionRequest::Connect { url: relay() }, SessionEvent::Done),
        SessionStep::Continue { watch: false, request: waiting() }
    );
    assert_eq!(
        step(waiting(), SessionEvent::Available),
        SessionStep::Continue { watch: true, request: waiting() }
    );
    assert_eq!(
        step(waiting(), SessionEvent::Withdrawn),
        SessionStep::Continue { watch: false, request: waiting() }
    );
    assert_eq!(step(waiting(), SessionEvent::Closed), SessionStep::Finish);
}

#[test]
fn session_failures_are_told_apart() {
    let relay = || "https://relay.moq.dev/anon".to_string();
    let failed = |pending| session_step(pending, SessionEvent::Failed);
    assert_eq!(
        failed(SessionRequest::InitClient { url: relay() }),
        Some(SessionStep::Stop(Failure::Client))
    );
    assert_eq!(
        failed(SessionRequest::Connect { url: relay() }),
        Some(SessionStep::Stop(Failure::Connection))
    );
    assert_eq!(failed(SessionRequest::NextAnnouncement), None);
    assert_eq!(Failure::Client.message(), "failed to initialise moq-native client");
    assert_eq!(Failure::Connection.message(), "failed to connect to relay");
}

#[test]
fn session_events_that_do_not_answer_are_turned_away() {
    assert_eq!(session_step(session_start("moqt://h"), SessionEvent::Available), None);
    let connecting = SessionRequest::Connect { url: "moqt://h".to_string() };
    assert_eq!(session_step(connecting, SessionEvent::Closed), None);
    assert_eq!(session_step(SessionRequest::NextAnnouncement, SessionEvent::Done), None);
}
