use moq_clock::publisher::{
    frame_payload, start, step, Event, Failure, Request, Step, BROADCAST_PATH, PERIOD_SECONDS,
    TRACK_NAME,
};
use moq_clock::timestamp::{timestamp, LocalTime};

type Work = Request<String, Vec<u8>>;

fn at(day: (i32, u32, u32), time: (u32, u32, u32), nanosecond: u32) -> LocalTime {
    LocalTime {
        year: day.0,
        month: day.1,
        day: day.2,
        hour: time.0,
        minute: time.1,
        second: time.2,
        nanosecond,
    }
}

fn relay() -> String {
    "http://localhost:4443/anon".to_string()
}

fn go(pending: Work, event: Event) -> (Option<String>, Work) {
    match step(pending, event) {
        Some(Step::Continue { line, request }) => (line, request),
        other => panic!("{other:?}"),
    }
}

fn stamp(time: LocalTime) -> Option<String> {
    let stamped = match step(Request::ReadClock, Event::Clock(time)) {
        Some(Step::Continue { request: Request::AppendGroup { stamp }, .. }) => Some(stamp),
        None => None,
        other => panic!("{other:?}"),
    };
    assert_eq!(timestamp(&time), stamped);
    stamped
}

fn stop(pending: Work) -> Failure {
    match step(pending, Event::Failed) {
        Some(Step::Stop(failure)) => failure,
        other => panic!("{other:?}"),
    }
}

#[test]
fn names_of_the_clock() {
    assert_eq!(BROADCAST_PATH, "clock");
    assert_eq!(TRACK_NAME, "time");
    assert_eq!(PERIOD_SECONDS, 1);
}

#[test]
fn setting_up_goes_step_by_step() {
    let relay = "http://localhost:4443/anon";
    let request = match start(relay) {
        Step::Continue { line, request } => {
            assert_eq!(line.as_deref(), Some("[pub] publishing to: http://localhost:4443/anon"));
            request
        }
        other => panic!("{other:?}"),
    };
    assert!(matches!(&request, Request::InitClient { url } if url == relay));
    let (line, request) = go(request, Event::Done);
    assert_eq!(line, None);
    assert!(matches!(&request, Request::Connect { url } if url == relay));
    let (line, request) = go(request, Event::Done);
    assert_eq!(line.as_deref(), Some("[pub] connected to relay"));
    assert!(matches!(&request, Request::Announce { path } if path == "clock"));
    let (line, request) = go(request, Event::Done);
    assert_eq!(line.as_deref(), Some("[pub] broadcast announced: /clock"));
    assert!(matches!(&request, Request::CreateTrack { name } if name == "time"));
    let (line, request) = go(request, Event::Done);
    assert_eq!(line, None);
    assert!(matches!(request, Request::ReadClock));
}

#[test]
fn each_cycle_sends_one_frame_in_one_group() {
    let mut request = Request::ReadClock;
    for second in 0..3 {
        let text = format!("2024-05-06 07:08:0{second}.123");
        let (line, next) = go(request, Event::Clock(at((2024, 5, 6), (7, 8, second), 123_456_789)));
        assert_eq!(line, None);
        assert!(matches!(&next, Request::AppendGroup { stamp } if *stamp == text));
        let (line, next) = go(next, Event::Done);
        assert_eq!(line, None);
        match &next {
            Request::WriteFrame { stamp, payload } => {
                assert_eq!(*stamp, text);
                assert_eq!(payload.as_slice(), text.as_bytes());
            }
            other => panic!("{other:?}"),
        }
        let (line, next) = go(next, Event::Done);
        assert_eq!(line, None);
        assert!(matches!(&next, Request::FinishGroup { stamp } if *stamp == text));
        let (line, next) = go(next, Event::Done);
        assert_eq!(line, Some(format!("[pub] sent: {text}")));
        assert!(matches!(next, Request::Sleep { seconds: 1 }));
        let (line, next) = go(next, Event::Done);
        assert_eq!(line, None);
        assert!(matches!(next, Request::ReadClock));
        request = next;
    }
}

#[test]
fn failures_stop_the_publisher_and_are_told_apart() {
    let text = "2024-05-06 07:08:09.123".to_string();
    let cases: Vec<(Work, Failure, &str)> = vec![
        (
            Request::InitClient { url: relay() },
            Failure::Client,
            "failed to initialise moq-native client",
        ),
        (Request::Connect { url: relay() }, Failure::Connection, "failed to connect to relay"),
        (
            Request::CreateTrack { name: "time".to_string() },
            Failure::Track,
            "failed to create track",
        ),
        (Request::AppendGroup { stamp: text.clone() }, Failure::Group, "failed to append group"),
        (
            Request::WriteFrame { stamp: text.clone(), payload: vec![] },
            Failure::Frame,
            "failed to write frame",
        ),
        (Request::FinishGroup { stamp: text }, Failure::Finish, "failed to finish group"),
    ];
    for (request, failure, message) in cases {
        assert_eq!(stop(request), failure);
        assert_eq!(failure.message(), message);
    }
}

#[test]
fn events_that_do_not_answer_are_turned_away() {
    let time = at((2024, 5, 6), (7, 8, 9), 0);
    assert!(step(Request::ReadClock, Event::Done).is_none());
    assert!(step(Request::ReadClock, Event::Failed).is_none());
    assert!(step(Request::Announce { path: "clock".to_string() }, Event::Failed).is_none());
    assert!(step(Request::Sleep { seconds: 1 }, Event::Failed).is_none());
    assert!(step(Request::Connect { url: relay() }, Event::Clock(time)).is_none());
}

#[test]
fn timestamps_are_padded_and_cut_to_milliseconds() {
    let text = |time| stamp(time).unwrap();
    assert_eq!(text(at((2024, 1, 2), (3, 4, 5), 6_999_999)), "2024-01-02 03:04:05.006");
    assert_eq!(text(at((1999, 12, 31), (23, 59, 59), 999_999_999)), "1999-12-31 23:59:59.999");
    assert_eq!(text(at((7, 1, 1), (0, 0, 0), 0)), "0007-01-01 00:00:00.000");
    assert_eq!(text(at((9999, 1, 1), (0, 0, 0), 0)), "9999-01-01 00:00:00.000");
    assert_eq!(text(at((9999, 1, 1), (0, 0, 0), 0)).len(), 23);
}

#[test]
fn far_years_carry_a_sign() {
    let text = |year| stamp(at((year, 3, 4), (5, 6, 7), 8_000_000)).unwrap();
    assert_eq!(text(0), "0000-03-04 05:06:07.008");
    assert_eq!(text(-1), "-0001-03-04 05:06:07.008");
    assert_eq!(text(10000), "+10000-03-04 05:06:07.008");
    assert_eq!(text(262142), "+262142-03-04 05:06:07.008");
    assert_eq!(text(-262143), "-262143-03-04 05:06:07.008");
}

#[test]
fn leap_second_is_second_sixty() {
    let time = at((2016, 12, 31), (23, 59, 59), 1_250_000_000);
    assert_eq!(stamp(time).unwrap(), "2016-12-31 23:59:60.250");
}

#[test]
fn dates_and_times_that_do_not_exist_have_no_timestamp() {
    assert!(stamp(at((2024, 2, 29), (0, 0, 0), 0)).is_some());
    assert!(stamp(at((2000, 2, 29), (0, 0, 0), 0)).is_some());
    let wrong_days = [
        (2023, 2, 29),
        (1900, 2, 29),
        (2024, 2, 30),
        (2024, 4, 31),
        (2024, 0, 1),
        (2024, 13, 1),
        (2024, 1, 0),
        (2024, 1, 32),
        (262143, 1, 1),
        (-262144, 1, 1),
    ];
    for day in wrong_days {
        assert_eq!(stamp(at(day, (0, 0, 0), 0)), None);
    }
    for time in [(24, 0, 0), (0, 60, 0), (0, 0, 60)] {
        assert_eq!(stamp(at((2024, 1, 1), time, 0)), None);
    }
    assert_eq!(stamp(at((2024, 1, 1), (0, 0, 58), 1_000_000_000)), None);
    assert_eq!(stamp(at((2024, 1, 1), (0, 0, 59), 2_000_000_000)), None);
}

#[test]
fn payload_is_the_timestamp_in_utf8() {
    assert_eq!(frame_payload("12:00"), b"12:00".to_vec());
    assert_eq!(frame_payload("\u{2192}"), vec![0xe2, 0x86, 0x92]);
}
