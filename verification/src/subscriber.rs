//! The subscribing end: finds broadcasts on the relay and prints the time that they carry.
//!
//! Like the publisher, each part asks for one piece of work at a time and is told by an event how
//! it went: a `Session` waits for broadcasts, a `Watch` keeps reading one of them, and a `Track`
//! is one attempt at reading it.

use crate::args::{find_relay_url, texts, url_argument};
use crate::publisher::TRACK_NAME;
use crate::text::{
    joined, law_padded, law_padded_digits, law_padded_is_one_to_one, padded, padded_text,
};
use vstd::arithmetic::power::pow;
use vstd::prelude::*;
use vstd::utf8::*;

verus! {

/// The relay of a command line that names none.
pub const DEFAULT_RELAY: &'static str = "https://relay.moq.dev/anon";

/// The milliseconds from the end of one attempt at reading a broadcast to the next.
pub const RETRY_MILLISECONDS: u64 = 200;

/// The URL to use where `found` is the URL on the command line.
pub open spec fn chosen_url(found: Option<Seq<char>>) -> Seq<char> {
    match found {
        Some(url) => url,
        None => DEFAULT_RELAY@,
    }
}

/// The URL to use, given the URL found on the command line.
pub fn url_or_default(found: Option<String>) -> (url: String)
    ensures
        found matches Some(text) ==> url@ == chosen_url(Some(text@)),
        found is None ==> url@ == chosen_url(None),
        found matches Some(text) ==> url@ == text@,
        found is None ==> url@ == "https://relay.moq.dev/anon"@,
{
    match found {
        Some(url) => url,
        None => DEFAULT_RELAY.to_owned(),
    }
}

/// The relay URL in a command line, whose first entry is the name of the program, or the default.
pub fn read_relay_url_arg(args: &Vec<String>) -> (url: String)
    ensures
        url@ == chosen_url(url_argument(texts(args@))),
        url_argument(texts(args@)) matches Some(given) ==> url@ == given,
        url_argument(texts(args@)) is None ==> url@ == "https://relay.moq.dev/anon"@,
{
    url_or_default(find_relay_url(args))
}

/// What the subscriber cannot go on without.
#[derive(Clone, Copy, Debug, PartialEq, Eq, Structural)]
pub enum Failure {
    /// The client could not be set up.
    Client,
    /// The relay could not be reached.
    Connection,
    /// The track could not be subscribed to.
    Subscription,
}

impl Failure {
    /// What the user is told.
    pub fn message(&self) -> (text: &'static str)
        ensures
            text@ == match *self {
                Failure::Client => "failed to initialise moq-native client"@,
                Failure::Connection => "failed to connect to relay"@,
                Failure::Subscription => "failed to subscribe to track 'time'"@,
            },
    {
        match self {
            Failure::Client => "failed to initialise moq-native client",
            Failure::Connection => "failed to connect to relay",
            Failure::Subscription => "failed to subscribe to track 'time'",
        }
    }
}

/// A piece of work that a session asks for.
#[derive(Debug, PartialEq, Eq)]
pub enum SessionRequest<S> {
    /// Set up the client that will connect to the relay at this URL.
    InitClient { url: S },
    /// Connect to the relay at this URL.
    Connect { url: S },
    /// Wait for the next announcement.
    NextAnnouncement,
}

impl View for SessionRequest<String> {
    type V = SessionRequest<Seq<char>>;

    open spec fn view(&self) -> SessionRequest<Seq<char>> {
        match *self {
            SessionRequest::InitClient { url } => SessionRequest::InitClient { url: url@ },
            SessionRequest::Connect { url } => SessionRequest::Connect { url: url@ },
            SessionRequest::NextAnnouncement => SessionRequest::NextAnnouncement,
        }
    }
}

/// How the work that a session asked for went.
#[derive(Clone, Copy, Debug, PartialEq, Eq, Structural)]
pub enum SessionEvent {
    /// It is done.
    Done,
    /// It failed.
    Failed,
    /// A broadcast is available.
    Available,
    /// A broadcast has ended.
    Withdrawn,
    /// There will be no more announcements.
    Closed,
}

/// What a session does next.
#[derive(Debug, PartialEq, Eq)]
pub enum SessionStep<S> {
    /// Begin to watch the broadcast that was announced, if so told, then ask for the next piece
    /// of work.
    Continue { watch: bool, request: SessionRequest<S> },
    /// End well.
    Finish,
    /// Give up.
    Stop(Failure),
}

impl View for SessionStep<String> {
    type V = SessionStep<Seq<char>>;

    open spec fn view(&self) -> SessionStep<Seq<char>> {
        match *self {
            SessionStep::Continue { watch, request } => SessionStep::Continue {
                watch,
                request: request@,
            },
            SessionStep::Finish => SessionStep::Finish,
            SessionStep::Stop(failure) => SessionStep::Stop(failure),
        }
    }
}

/// The step after `event`, where it answers the work that was asked for.
pub open spec fn session_next(
    pending: SessionRequest<Seq<char>>,
    event: SessionEvent,
) -> Option<SessionStep<Seq<char>>> {
    match (pending, event) {
        (SessionRequest::InitClient { url }, SessionEvent::Done) => Some(
            SessionStep::Continue { watch: false, request: SessionRequest::Connect { url } },
        ),
        (SessionRequest::InitClient { .. }, SessionEvent::Failed) => Some(
            SessionStep::Stop(Failure::Client),
        ),
        (SessionRequest::Connect { .. }, SessionEvent::Done) => Some(
            SessionStep::Continue { watch: false, request: SessionRequest::NextAnnouncement },
        ),
        (SessionRequest::Connect { .. }, SessionEvent::Failed) => Some(
            SessionStep::Stop(Failure::Connection),
        ),
        (SessionRequest::NextAnnouncement, SessionEvent::Available) => Some(
            SessionStep::Continue { watch: true, request: SessionRequest::NextAnnouncement },
        ),
        (SessionRequest::NextAnnouncement, SessionEvent::Withdrawn) => Some(
            SessionStep::Continue { watch: false, request: SessionRequest::NextAnnouncement },
        ),
        (SessionRequest::NextAnnouncement, SessionEvent::Closed) => Some(SessionStep::Finish),
        _ => None,
    }
}

/// What a session with the relay at `url` asks for first.
pub fn session_start(url: &str) -> (request: SessionRequest<String>)
    ensures
        request@ == (SessionRequest::InitClient { url: url@ }),
        session_pending_after(url@, Seq::empty()) == Some(request@),
{
    SessionRequest::InitClient { url: url.to_owned() }
}

/// The step after `event`, or `None` where it does not answer the work that was asked for.
pub fn session_step(pending: SessionRequest<String>, event: SessionEvent) -> (step: Option<
    SessionStep<String>,
>)
    ensures
        step is Some <==> session_next(pending@, event) is Some,
        step matches Some(step) ==> session_next(pending@, event) == Some(step@),
{
    match (pending, event) {
        (SessionRequest::InitClient { url }, SessionEvent::Done) => Some(
            SessionStep::Continue { watch: false, request: SessionRequest::Connect { url } },
        ),
        (SessionRequest::InitClient { .. }, SessionEvent::Failed) => Some(
            SessionStep::Stop(Failure::Client),
        ),
        (SessionRequest::Connect { .. }, SessionEvent::Done) => Some(
            SessionStep::Continue { watch: false, request: SessionRequest::NextAnnouncement },
        ),
        (SessionRequest::Connect { .. }, SessionEvent::Failed) => Some(
            SessionStep::Stop(Failure::Connection),
        ),
        (SessionRequest::NextAnnouncement, SessionEvent::Available) => Some(
            SessionStep::Continue { watch: true, request: SessionRequest::NextAnnouncement },
        ),
        (SessionRequest::NextAnnouncement, SessionEvent::Withdrawn) => Some(
            SessionStep::Continue { watch: false, request: SessionRequest::NextAnnouncement },
        ),
        (SessionRequest::NextAnnouncement, SessionEvent::Closed) => Some(SessionStep::Finish),
        _ => None,
    }
}

/// A piece of work that a watch asks for.
#[derive(Clone, Copy, Debug, PartialEq, Eq, Structural)]
pub enum WatchRequest {
    /// Read the track until it ends or cannot be subscribed to.
    ReadTrack,
    /// Wait.
    Sleep { milliseconds: u64 },
}

/// What a watch asks for when the work before is over, however it went.
pub open spec fn watch_next(pending: WatchRequest) -> WatchRequest {
    match pending {
        WatchRequest::ReadTrack => WatchRequest::Sleep { milliseconds: 200 },
        WatchRequest::Sleep { .. } => WatchRequest::ReadTrack,
    }
}

/// What a watch asks for first.
pub fn watch_start() -> (request: WatchRequest)
    ensures
        request == WatchRequest::ReadTrack,
        request == watch_pending_after(0),
{
    WatchRequest::ReadTrack
}

/// What a watch asks for when the work before is over, however it went: it never gives up.
pub fn watch_step(pending: WatchRequest) -> (request: WatchRequest)
    ensures
        request == watch_next(pending),
{
    match pending {
        WatchRequest::ReadTrack => WatchRequest::Sleep { milliseconds: RETRY_MILLISECONDS },
        WatchRequest::Sleep { .. } => WatchRequest::ReadTrack,
    }
}

/// A piece of work that reading a track asks for.
#[derive(Debug, PartialEq, Eq)]
pub enum TrackRequest<S> {
    /// Subscribe to the track of this name.
    Subscribe { name: S },
    /// Wait for the next group of the track.
    NextGroup,
    /// Wait for the next frame of this group.
    NextFrame { group: u64 },
    /// Read the payload of the frame that came in this group.
    ReadPayload { group: u64 },
}

impl View for TrackRequest<String> {
    type V = TrackRequest<Seq<char>>;

    open spec fn view(&self) -> TrackRequest<Seq<char>> {
        match *self {
            TrackRequest::Subscribe { name } => TrackRequest::Subscribe { name: name@ },
            TrackRequest::NextGroup => TrackRequest::NextGroup,
            TrackRequest::NextFrame { group } => TrackRequest::NextFrame { group },
            TrackRequest::ReadPayload { group } => TrackRequest::ReadPayload { group },
        }
    }
}

/// How the work that reading a track asked for went.
#[derive(Debug)]
pub enum TrackEvent<B> {
    /// It is done.
    Done,
    /// It failed.
    Failed,
    /// The group with this sequence number has come.
    Group(u64),
    /// A frame has come.
    Frame,
    /// There are no more groups in the track, or no more frames in the group.
    End,
    /// The payload of the frame.
    Payload(B),
}

impl View for TrackEvent<Vec<u8>> {
    type V = TrackEvent<Seq<u8>>;

    open spec fn view(&self) -> TrackEvent<Seq<u8>> {
        match *self {
            TrackEvent::Done => TrackEvent::Done,
            TrackEvent::Failed => TrackEvent::Failed,
            TrackEvent::Group(sequence) => TrackEvent::Group(sequence),
            TrackEvent::Frame => TrackEvent::Frame,
            TrackEvent::End => TrackEvent::End,
            TrackEvent::Payload(payload) => TrackEvent::Payload(payload@),
        }
    }
}

/// What there is to say about a step.
#[derive(Debug)]
pub enum Report<S> {
    /// Nothing.
    Nothing,
    /// The track has been subscribed to.
    Subscribed,
    /// A line to print.
    Line(S),
    /// The payload of a frame in this group is no UTF-8.
    NotUtf8 { group: u64 },
    /// Waiting for a group was cut short.
    GroupsCutShort,
    /// Waiting for a frame of this group was cut short.
    FramesCutShort { group: u64 },
    /// Reading a payload in this group was cut short.
    PayloadCutShort { group: u64 },
}

impl View for Report<String> {
    type V = Report<Seq<char>>;

    open spec fn view(&self) -> Report<Seq<char>> {
        match *self {
            Report::Nothing => Report::Nothing,
            Report::Subscribed => Report::Subscribed,
            Report::Line(line) => Report::Line(line@),
            Report::NotUtf8 { group } => Report::NotUtf8 { group },
            Report::GroupsCutShort => Report::GroupsCutShort,
            Report::FramesCutShort { group } => Report::FramesCutShort { group },
            Report::PayloadCutShort { group } => Report::PayloadCutShort { group },
        }
    }
}

/// What reading a track does next.
#[derive(Debug)]
pub enum TrackStep<S> {
    /// Report, then ask for the next piece of work.
    Continue { report: Report<S>, request: TrackRequest<S> },
    /// The track has ended.
    Finish,
    /// Give up.
    Stop(Failure),
}

impl View for TrackStep<String> {
    type V = TrackStep<Seq<char>>;

    open spec fn view(&self) -> TrackStep<Seq<char>> {
        match *self {
            TrackStep::Continue { report, request } => TrackStep::Continue {
                report: report@,
                request: request@,
            },
            TrackStep::Finish => TrackStep::Finish,
            TrackStep::Stop(failure) => TrackStep::Stop(failure),
        }
    }
}

/// The line for a timestamp that came in a group.
pub open spec fn line(group: u64, stamp: Seq<char>) -> Seq<char> {
    "[sub] group="@ + padded(group as nat, 4) + "  →  "@ + stamp
}

/// What there is to say about the payload of a frame.
pub open spec fn payload_report(group: u64, payload: Seq<u8>) -> Report<Seq<char>> {
    if valid_utf8(payload) {
        Report::Line(line(group, decode_utf8(payload)))
    } else {
        Report::NotUtf8 { group }
    }
}

/// The step after `event`, where it answers the work that was asked for.
pub open spec fn track_next(
    pending: TrackRequest<Seq<char>>,
    event: TrackEvent<Seq<u8>>,
) -> Option<TrackStep<Seq<char>>> {
    match (pending, event) {
        (TrackRequest::Subscribe { .. }, TrackEvent::Done) => Some(
            TrackStep::Continue { report: Report::Subscribed, request: TrackRequest::NextGroup },
        ),
        (TrackRequest::Subscribe { .. }, TrackEvent::Failed) => Some(
            TrackStep::Stop(Failure::Subscription),
        ),
        (TrackRequest::NextGroup, TrackEvent::Group(group)) => Some(
            TrackStep::Continue {
                report: Report::Nothing,
                request: TrackRequest::NextFrame { group },
            },
        ),
        (TrackRequest::NextGroup, TrackEvent::End) => Some(TrackStep::Finish),
        (TrackRequest::NextGroup, TrackEvent::Failed) => Some(
            TrackStep::Continue {
                report: Report::GroupsCutShort,
                request: TrackRequest::NextGroup,
            },
        ),
        (TrackRequest::NextFrame { group }, TrackEvent::Frame) => Some(
            TrackStep::Continue {
                report: Report::Nothing,
                request: TrackRequest::ReadPayload { group },
            },
        ),
        (TrackRequest::NextFrame { .. }, TrackEvent::End) => Some(
            TrackStep::Continue { report: Report::Nothing, request: TrackRequest::NextGroup },
        ),
        (TrackRequest::NextFrame { group }, TrackEvent::Failed) => Some(
            TrackStep::Continue {
                report: Report::FramesCutShort { group },
                request: TrackRequest::NextGroup,
            },
        ),
        (TrackRequest::ReadPayload { group }, TrackEvent::Payload(payload)) => Some(
            TrackStep::Continue {
                report: payload_report(group, payload),
                request: TrackRequest::NextFrame { group },
            },
        ),
        (TrackRequest::ReadPayload { group }, TrackEvent::Failed) => Some(
            TrackStep::Continue {
                report: Report::PayloadCutShort { group },
                request: TrackRequest::NextGroup,
            },
        ),
        _ => None,
    }
}

/// The text that bytes hold in UTF-8, by `std::str::from_utf8`.
///
/// Claims that there is one exactly if the bytes are valid UTF-8, and that it is the one that
/// they encode.
#[verifier::external_body]
fn utf8_text(bytes: &Vec<u8>) -> (text: Option<String>)
    ensures
        text is Some <==> valid_utf8(bytes@),
        text matches Some(text) ==> text@ == decode_utf8(bytes@),
{
    match std::str::from_utf8(bytes) {
        Ok(text) => Some(text.to_owned()),
        Err(_) => None,
    }
}

/// What there is to say about the payload of a frame that came in a group: the line with its
/// text, or that it is no UTF-8.
pub fn read_payload(group: u64, payload: &Vec<u8>) -> (report: Report<String>)
    ensures
        report@ == payload_report(group, payload@),
{
    match utf8_text(payload) {
        Some(text) => {
            let number = padded_text(group, 4);
            let label = joined("[sub] group=", number.as_str());
            let head = joined(label.as_str(), "  →  ");
            Report::Line(joined(head.as_str(), text.as_str()))
        },
        None => Report::NotUtf8 { group },
    }
}

/// What reading a track asks for first.
pub fn track_start() -> (request: TrackRequest<String>)
    ensures
        request@ == (TrackRequest::Subscribe { name: "time"@ }),
        track_pending_after(Seq::empty()) == Some(request@),
{
    TrackRequest::Subscribe { name: TRACK_NAME.to_owned() }
}

/// The step after `event`, or `None` where it does not answer the work that was asked for.
pub fn track_step(pending: TrackRequest<String>, event: TrackEvent<Vec<u8>>) -> (step: Option<
    TrackStep<String>,
>)
    ensures
        step is Some <==> track_next(pending@, event@) is Some,
        step matches Some(step) ==> track_next(pending@, event@) == Some(step@),
{
    let (report, request) = match (pending, event) {
        (TrackRequest::Subscribe { .. }, TrackEvent::Done) => (
            Report::Subscribed,
            TrackRequest::NextGroup,
        ),
        (TrackRequest::Subscribe { .. }, TrackEvent::Failed) => {
            return Some(TrackStep::Stop(Failure::Subscription));
        },
        (TrackRequest::NextGroup, TrackEvent::Group(group)) => (
            Report::Nothing,
            TrackRequest::NextFrame { group },
        ),
        (TrackRequest::NextGroup, TrackEvent::End) => {
            return Some(TrackStep::Finish);
        },
        (TrackRequest::NextGroup, TrackEvent::Failed) => (
            Report::GroupsCutShort,
            TrackRequest::NextGroup,
        ),
        (TrackRequest::NextFrame { group }, TrackEvent::Frame) => (
            Report::Nothing,
            TrackRequest::ReadPayload { group },
        ),
        (TrackRequest::NextFrame { .. }, TrackEvent::End) => (
            Report::Nothing,
            TrackRequest::NextGroup,
        ),
        (TrackRequest::NextFrame { group }, TrackEvent::Failed) => (
            Report::FramesCutShort { group },
            TrackRequest::NextGroup,
        ),
        (TrackRequest::ReadPayload { group }, TrackEvent::Payload(payload)) => (
            read_payload(group, &payload),
            TrackRequest::NextFrame { group },
        ),
        (TrackRequest::ReadPayload { group }, TrackEvent::Failed) => (
            Report::PayloadCutShort { group },
            TrackRequest::NextGroup,
        ),
        _ => {
            return None;
        },
    };
    Some(TrackStep::Continue { report, request })
}

/// A broadcast is watched exactly when it becomes available, and the session goes on waiting for
/// the next one, whether one became available or ended.
pub proof fn law_every_broadcast_is_watched(event: SessionEvent)
    ensures
        event is Available || event is Withdrawn ==> session_next(
            SessionRequest::NextAnnouncement,
            event,
        ) == Some(
            (SessionStep::<Seq<char>>::Continue {
                watch: event is Available,
                request: SessionRequest::NextAnnouncement,
            }),
        ),
        forall|pending: SessionRequest<Seq<char>>|
            (#[trigger] session_next(pending, event) matches Some(
                SessionStep::Continue { watch, .. },
            ) && watch) ==> pending is NextAnnouncement && event is Available,
{
}

/// A session ends well exactly when the announcements end, and gives up exactly when it cannot
/// set up the client or cannot connect.
pub proof fn law_session_ends(pending: SessionRequest<Seq<char>>, event: SessionEvent)
    ensures
        session_next(pending, event) == Some(SessionStep::<Seq<char>>::Finish) <==> pending
            is NextAnnouncement && event is Closed,
        session_next(pending, event) matches Some(SessionStep::Stop(_)) <==> event is Failed && !(
        pending is NextAnnouncement),
{
}

/// What a session with the relay at `url` asks for after `events`, one for each piece of work so
/// far; `None` where it is over or an event did not answer.
pub open spec fn session_pending_after(url: Seq<char>, events: Seq<SessionEvent>) -> Option<
    SessionRequest<Seq<char>>,
>
    decreases events.len(),
{
    if events.len() == 0 {
        Some(SessionRequest::InitClient { url })
    } else {
        match session_pending_after(url, events.drop_last()) {
            Some(pending) => match session_next(pending, events.last()) {
                Some(SessionStep::Continue { request, .. }) => Some(request),
                _ => None,
            },
            None => None,
        }
    }
}

/// A session sets up the client, connects once, to the relay at `url`, and from then on waits for
/// announcements.
pub proof fn law_session_connects_once(url: Seq<char>, events: Seq<SessionEvent>)
    requires
        session_pending_after(url, events) is Some,
    ensures
        session_pending_after(url, events)->Some_0 == if events.len() == 0 {
            (SessionRequest::InitClient { url })
        } else if events.len() == 1 {
            (SessionRequest::Connect { url })
        } else {
            SessionRequest::NextAnnouncement
        },
    decreases events.len(),
{
    if events.len() > 0 {
        law_session_connects_once(url, events.drop_last());
    }
}

/// What a watch asks for when `count` pieces of work are over.
pub open spec fn watch_pending_after(count: nat) -> WatchRequest
    decreases count,
{
    if count == 0 {
        WatchRequest::ReadTrack
    } else {
        watch_next(watch_pending_after((count - 1) as nat))
    }
}

/// A watch reads the track at once, and then for ever waits 200 milliseconds and reads it again.
pub proof fn law_watch_reads_again_for_ever(count: nat)
    ensures
        watch_pending_after(count) == if count % 2 == 0 {
            WatchRequest::ReadTrack
        } else {
            (WatchRequest::Sleep { milliseconds: 200 })
        },
    decreases count,
{
    if count > 0 {
        law_watch_reads_again_for_ever((count - 1) as nat);
    }
}

/// What reading a track asks for after `events`, one for each piece of work so far; `None` where
/// it is over or an event did not answer.
pub open spec fn track_pending_after(events: Seq<TrackEvent<Seq<u8>>>) -> Option<
    TrackRequest<Seq<char>>,
>
    decreases events.len(),
{
    if events.len() == 0 {
        Some(TrackRequest::Subscribe { name: "time"@ })
    } else {
        match track_pending_after(events.drop_last()) {
            Some(pending) => match track_next(pending, events.last()) {
                Some(TrackStep::Continue { request, .. }) => Some(request),
                _ => None,
            },
            None => None,
        }
    }
}

/// The lines that are printed during `events`.
pub open spec fn printed(events: Seq<TrackEvent<Seq<u8>>>) -> Seq<Seq<char>>
    decreases events.len(),
{
    if events.len() == 0 {
        Seq::empty()
    } else {
        let before = printed(events.drop_last());
        match track_pending_after(events.drop_last()) {
            Some(pending) => match track_next(pending, events.last()) {
                Some(TrackStep::Continue { report: Report::Line(text), .. }) => before.push(text),
                _ => before,
            },
            None => before,
        }
    }
}

/// The sequence number of the last group that came.
pub open spec fn latest_group(events: Seq<TrackEvent<Seq<u8>>>) -> Option<u64>
    decreases events.len(),
{
    if events.len() == 0 {
        None
    } else if let TrackEvent::Group(group) = events.last() {
        Some(group)
    } else {
        latest_group(events.drop_last())
    }
}

/// A line for every payload that is UTF-8, in the order in which they came, with the number of
/// the group that each came in.
pub open spec fn readable_lines(events: Seq<TrackEvent<Seq<u8>>>) -> Seq<Seq<char>>
    decreases events.len(),
{
    if events.len() == 0 {
        Seq::empty()
    } else {
        let before = readable_lines(events.drop_last());
        match events.last() {
            TrackEvent::Payload(payload) => if valid_utf8(payload) {
                before.push(
                    line(latest_group(events.drop_last())->Some_0, decode_utf8(payload)),
                )
            } else {
                before
            },
            _ => before,
        }
    }
}

/// Whether each of `events` answers the work that was asked for before it. The last may have ended
/// the reading.
pub open spec fn every_event_answers(events: Seq<TrackEvent<Seq<u8>>>) -> bool {
    events.len() > 0 ==> (track_pending_after(events.drop_last()) matches Some(pending)
        && track_next(pending, events.last()) is Some)
}

/// The track `time` is subscribed to first and only once: whatever happens, everything that is
/// asked for later is a group of it, a frame of a group or a payload of a frame.
pub proof fn law_subscribes_once_to_the_time_track(events: Seq<TrackEvent<Seq<u8>>>)
    ensures
        events.len() == 0 ==> track_pending_after(events) == Some(
            (TrackRequest::Subscribe { name: "time"@ }),
        ),
        events.len() > 0 ==> !(track_pending_after(events) matches Some(
            TrackRequest::Subscribe { .. },
        )),
{
}

/// A group that is being read is the last that came.
pub proof fn law_group_in_hand_is_the_latest(events: Seq<TrackEvent<Seq<u8>>>)
    ensures
        track_pending_after(events) matches Some(TrackRequest::NextFrame { group })
            ==> latest_group(events) == Some(group),
        track_pending_after(events) matches Some(TrackRequest::ReadPayload { group })
            ==> latest_group(events) == Some(group),
    decreases events.len(),
{
    if events.len() > 0 {
        law_group_in_hand_is_the_latest(events.drop_last());
    }
}

/// However often waiting or reading is cut short, and whether or not it is over, each payload that
/// is UTF-8 gives one line and nothing else does: the lines printed are those of the readable
/// payloads, in order, each with the number of its group.
pub proof fn law_each_readable_payload_is_printed(events: Seq<TrackEvent<Seq<u8>>>)
    requires
        every_event_answers(events),
    ensures
        printed(events) == readable_lines(events),
    decreases events.len(),
{
    if events.len() > 0 {
        law_each_readable_payload_is_printed(events.drop_last());
        law_group_in_hand_is_the_latest(events.drop_last());
    }
}

/// Once subscribed, nothing that fails ends the reading of a track: it goes on with the next
/// group.
pub proof fn law_failures_are_survived(pending: TrackRequest<Seq<char>>)
    requires
        !(pending is Subscribe),
    ensures
        track_next(pending, TrackEvent::Failed) matches Some(
            TrackStep::Continue { request: TrackRequest::NextGroup, .. },
        ),
{
}

/// A payload, UTF-8 or not, is followed by the next frame of its group.
pub proof fn law_payloads_do_not_end_the_group(group: u64, payload: Seq<u8>)
    ensures
        track_next(TrackRequest::ReadPayload { group }, TrackEvent::Payload(payload)) == Some(
            (TrackStep::Continue {
                report: payload_report(group, payload),
                request: TrackRequest::NextFrame { group },
            }),
        ),
{
}

/// Reading a track ends exactly when there are no more groups, and is given up exactly when the
/// track cannot be subscribed to.
pub proof fn law_track_ends(pending: TrackRequest<Seq<char>>, event: TrackEvent<Seq<u8>>)
    ensures
        track_next(pending, event) == Some(TrackStep::<Seq<char>>::Finish) <==> pending is NextGroup
            && event is End,
        track_next(pending, event) matches Some(TrackStep::Stop(_)) <==> pending is Subscribe
            && event is Failed,
{
}

/// The line for a timestamp is `[sub] group=`, then at least four decimal digits, more only where
/// the number of the group needs them, which are that number, then an arrow between spaces, and
/// then the timestamp, just as it came.
pub proof fn law_line_shows_the_number_of_the_group(group: u64, stamp: Seq<char>)
    ensures
        ({
            let text = line(group, stamp);
            let end = text.len() - stamp.len() - 5;
            &&& end >= 16
            &&& text.take(12) == "[sub] group="@
            &&& text.subrange(end, end + 5) == "  →  "@
            &&& text.skip(end + 5) == stamp
            &&& group < pow(10, (end - 12) as nat)
            &&& end > 16 ==> group >= pow(10, (end - 13) as nat)
            &&& forall|i: int|
                12 <= i < end ==> (#[trigger] text[i]) as int == '0' as int + group as int / pow(
                    10,
                    (end - 1 - i) as nat,
                ) % 10
        }),
{
    reveal_strlit("[sub] group=");
    reveal_strlit("  →  ");
    let digits = padded(group as nat, 4);
    let text = line(group, stamp);
    let end = text.len() - stamp.len() - 5;
    law_padded_digits(group as nat, 4);
    assert(text.take(12) =~= "[sub] group="@);
    assert(text.subrange(end, end + 5) =~= "  →  "@);
    assert(text.skip(end + 5) =~= stamp);
    assert forall|i: int| 12 <= i < end implies (#[trigger] text[i]) as int == '0' as int
        + group as int / pow(10, (end - 1 - i) as nat) % 10 by {
        assert(text[i] == digits[i - 12]);
    }
}

/// Lines tell groups and timestamps apart: equal lines are of the same group and the same text.
pub proof fn law_equal_lines_are_of_the_same_group(
    a: u64,
    b: u64,
    left: Seq<char>,
    right: Seq<char>,
)
    requires
        line(a, left) == line(b, right),
    ensures
        a == b,
        left == right,
{
    reveal_strlit("[sub] group=");
    reveal_strlit("  →  ");
    let one = padded(a as nat, 4);
    let other = padded(b as nat, 4);
    let m = one.len() as int;
    let n = other.len() as int;
    let text = line(a, left);
    let same = line(b, right);
    law_padded(a as nat, 4);
    law_padded(b as nat, 4);
    assert(text[12 + m] == ' ');
    assert(same[12 + n] == ' ');
    if m < n {
        assert(same[12 + m] == other[m]);
    }
    if n < m {
        assert(text[12 + n] == one[n]);
    }
    assert(text.subrange(12, 12 + m) =~= one);
    assert(same.subrange(12, 12 + n) =~= other);
    law_padded_is_one_to_one(a as nat, b as nat, 4);
    assert(text.skip(17 + m) =~= left);
    assert(same.skip(17 + n) =~= right);
}

/// What is said about a payload: if it is UTF-8, a line that ends in the text that it encodes and
/// is otherwise fixed by the number of the group; if it is not, that it is none, with that number.
pub proof fn law_payload_is_printed_as_it_came(group: u64, payload: Seq<u8>)
    ensures
        valid_utf8(payload) ==> payload_report(group, payload) == Report::Line(
            line(group, decode_utf8(payload)),
        ),
        !valid_utf8(payload) ==> payload_report(group, payload) == (Report::<
            Seq<char>,
        >::NotUtf8 { group }),
{
}

/// A session with any relay in which nothing fails leads on: with the client set up it connects to
/// the URL that it was given, and once connected it waits for announcements.
pub proof fn law_session_leads_on(url: Seq<char>)
    ensures
        session_pending_after(url, Seq::empty()) == Some(
            (SessionRequest::<Seq<char>>::InitClient { url }),
        ),
        session_pending_after(url, seq![SessionEvent::Done]) == Some(
            (SessionRequest::<Seq<char>>::Connect { url }),
        ),
        session_pending_after(url, seq![SessionEvent::Done, SessionEvent::Done]) == Some(
            SessionRequest::<Seq<char>>::NextAnnouncement,
        ),
        session_next(SessionRequest::InitClient { url }, SessionEvent::Done) == Some(
            (SessionStep::<Seq<char>>::Continue {
                watch: false,
                request: SessionRequest::Connect { url },
            }),
        ),
        session_next(SessionRequest::Connect { url }, SessionEvent::Done) == Some(
            (SessionStep::<Seq<char>>::Continue {
                watch: false,
                request: SessionRequest::NextAnnouncement,
            }),
        ),
{
    let one = seq![SessionEvent::Done];
    let two = seq![SessionEvent::Done, SessionEvent::Done];
    assert(one.drop_last() =~= Seq::<SessionEvent>::empty());
    assert(two.drop_last() =~= one);
    assert(session_pending_after(url, Seq::empty()) == Some(
        (SessionRequest::<Seq<char>>::InitClient { url }),
    ));
    assert(session_pending_after(url, one) == Some((SessionRequest::<Seq<char>>::Connect { url })));
}

/// However many broadcasts come and go, the session waits for the next announcement.
pub proof fn law_announcements_never_end_the_session(url: Seq<char>, events: Seq<SessionEvent>)
    requires
        events.len() >= 2,
        events[0] is Done,
        events[1] is Done,
        forall|i: int|
            2 <= i < events.len() ==> (#[trigger] events[i]) is Available || events[i] is Withdrawn,
    ensures
        session_pending_after(url, events) == Some(SessionRequest::<Seq<char>>::NextAnnouncement),
    decreases events.len(),
{
    if events.len() == 2 {
        law_session_leads_on(url);
        assert(events =~= seq![SessionEvent::Done, SessionEvent::Done]);
    } else {
        let before = events.drop_last();
        assert(events.last() is Available || events.last() is Withdrawn);
        assert forall|i: int| 2 <= i < before.len() implies (#[trigger] before[i]) is Available
            || before[i] is Withdrawn by {
            assert(before[i] == events[i]);
        }
        law_announcements_never_end_the_session(url, before);
    }
}

/// Whatever the relay, a session that fails to set up its client, or to connect, gives up and tells
/// which; a wait for announcements cannot fail. It never goes on after a failure.
pub proof fn law_session_failures_are_told_apart(
    url: Seq<char>,
    pending: SessionRequest<Seq<char>>,
)
    ensures
        session_next(SessionRequest::InitClient { url }, SessionEvent::Failed) == Some(
            SessionStep::<Seq<char>>::Stop(Failure::Client),
        ),
        session_next(SessionRequest::Connect { url }, SessionEvent::Failed) == Some(
            SessionStep::<Seq<char>>::Stop(Failure::Connection),
        ),
        session_next(SessionRequest::NextAnnouncement, SessionEvent::Failed) is None,
        !(session_next(pending, SessionEvent::Failed) matches Some(SessionStep::Continue { .. })),
{
}

/// Setting up and connecting are answered by being done or failing, and waiting by an announcement
/// or the end of them; nothing else answers.
pub proof fn law_what_answers_a_session(pending: SessionRequest<Seq<char>>, event: SessionEvent)
    ensures
        session_next(pending, event) is Some <==> if pending is NextAnnouncement {
            event is Available || event is Withdrawn || event is Closed
        } else {
            event is Done || event is Failed
        },
{
}

/// After reading, a watch waits 200 milliseconds, and after waiting, however long, it reads.
pub proof fn law_watch_never_ends(milliseconds: u64)
    ensures
        watch_next(WatchRequest::ReadTrack) == (WatchRequest::Sleep { milliseconds: 200 }),
        watch_next(WatchRequest::Sleep { milliseconds }) == WatchRequest::ReadTrack,
{
}

/// A subscription, to whatever track: once it is made it is reported and the groups follow, and if
/// it fails the reading is given up.
pub proof fn law_subscription_leads_to_groups(name: Seq<char>)
    ensures
        track_next(TrackRequest::Subscribe { name }, TrackEvent::Done) == Some(
            (TrackStep::<Seq<char>>::Continue {
                report: Report::Subscribed,
                request: TrackRequest::NextGroup,
            }),
        ),
        track_next(TrackRequest::Subscribe { name }, TrackEvent::Failed) == Some(
            TrackStep::<Seq<char>>::Stop(Failure::Subscription),
        ),
{
}

/// Every group that comes is read, whatever its number, frame by frame until it ends; then, and
/// also when a frame or a payload is cut short, the next group follows. What is cut short is
/// reported, with the number of the group.
pub proof fn law_every_group_is_read(group: u64)
    ensures
        track_next(TrackRequest::NextGroup, TrackEvent::Group(group)) == Some(
            (TrackStep::<Seq<char>>::Continue {
                report: Report::Nothing,
                request: TrackRequest::NextFrame { group },
            }),
        ),
        track_next(TrackRequest::NextGroup, TrackEvent::End) == Some(
            TrackStep::<Seq<char>>::Finish,
        ),
        track_next(TrackRequest::NextGroup, TrackEvent::Failed) == Some(
            (TrackStep::<Seq<char>>::Continue {
                report: Report::GroupsCutShort,
                request: TrackRequest::NextGroup,
            }),
        ),
        track_next(TrackRequest::NextFrame { group }, TrackEvent::Frame) == Some(
            (TrackStep::<Seq<char>>::Continue {
                report: Report::Nothing,
                request: TrackRequest::ReadPayload { group },
            }),
        ),
        track_next(TrackRequest::NextFrame { group }, TrackEvent::End) == Some(
            (TrackStep::<Seq<char>>::Continue {
                report: Report::Nothing,
                request: TrackRequest::NextGroup,
            }),
        ),
        track_next(TrackRequest::NextFrame { group }, TrackEvent::Failed) == Some(
            (TrackStep::<Seq<char>>::Continue {
                report: Report::FramesCutShort { group },
                request: TrackRequest::NextGroup,
            }),
        ),
        track_next(TrackRequest::ReadPayload { group }, TrackEvent::Failed) == Some(
            (TrackStep::<Seq<char>>::Continue {
                report: Report::PayloadCutShort { group },
                request: TrackRequest::NextGroup,
            }),
        ),
{
}

/// What each piece of work in reading a track is answered by; nothing else answers.
pub proof fn law_what_answers_a_track(
    pending: TrackRequest<Seq<char>>,
    event: TrackEvent<Seq<u8>>,
)
    ensures
        track_next(pending, event) is Some <==> {
            ||| event is Failed
            ||| pending is Subscribe && event is Done
            ||| pending is NextGroup && (event is Group || event is End)
            ||| pending is NextFrame && (event is Frame || event is End)
            ||| pending is ReadPayload && event is Payload
        },
{
}

/// The URL on the command line is the one used, whatever it is; without one it is that of the
/// public relay.
pub proof fn law_given_url_is_used(url: Seq<char>)
    ensures
        chosen_url(Some(url)) == url,
        chosen_url(None) == "https://relay.moq.dev/anon"@,
{
}

/// Sessions are seen as they are: each request with its own URL, each step with its own request.
pub proof fn law_sessions_are_seen_as_they_are(
    request: SessionRequest<String>,
    step: SessionStep<String>,
)
    ensures
        request matches SessionRequest::InitClient { url } ==> request@
            == (SessionRequest::InitClient { url: url@ }),
        request matches SessionRequest::Connect { url } ==> request@ == (SessionRequest::Connect {
            url: url@,
        }),
        request is NextAnnouncement ==> request@ is NextAnnouncement,
        step matches SessionStep::Continue { watch, request } ==> step@
            == (SessionStep::Continue { watch, request: request@ }),
        step is Finish ==> step@ is Finish,
        step matches SessionStep::Stop(failure) ==> step@ == SessionStep::<Seq<char>>::Stop(
            failure,
        ),
{
}

/// Work on a track and what is said of it are seen as they are: each request with its own name or
/// group, each event with its own group or bytes, each report with its own line or group.
pub proof fn law_tracks_are_seen_as_they_are(
    request: TrackRequest<String>,
    event: TrackEvent<Vec<u8>>,
    report: Report<String>,
    step: TrackStep<String>,
)
    ensures
        request matches TrackRequest::Subscribe { name } ==> request@ == (TrackRequest::Subscribe {
            name: name@,
        }),
        request is NextGroup ==> request@ is NextGroup,
        request matches TrackRequest::NextFrame { group } ==> request@ == (TrackRequest::<
            Seq<char>,
        >::NextFrame { group }),
        request matches TrackRequest::ReadPayload { group } ==> request@ == (TrackRequest::<
            Seq<char>,
        >::ReadPayload { group }),
        event is Done ==> event@ is Done,
        event is Failed ==> event@ is Failed,
        event matches TrackEvent::Group(group) ==> event@ == TrackEvent::<Seq<u8>>::Group(group),
        event is Frame ==> event@ is Frame,
        event is End ==> event@ is End,
        event matches TrackEvent::Payload(payload) ==> event@ == TrackEvent::Payload(payload@),
        report is Nothing ==> report@ is Nothing,
        report is Subscribed ==> report@ is Subscribed,
        report matches Report::Line(text) ==> report@ == Report::Line(text@),
        report matches Report::NotUtf8 { group } ==> report@ == (Report::<
            Seq<char>,
        >::NotUtf8 { group }),
        report is GroupsCutShort ==> report@ is GroupsCutShort,
        report matches Report::FramesCutShort { group } ==> report@ == (Report::<
            Seq<char>,
        >::FramesCutShort { group }),
        report matches Report::PayloadCutShort { group } ==> report@ == (Report::<
            Seq<char>,
        >::PayloadCutShort { group }),
        step matches TrackStep::Continue { report, request } ==> step@ == (TrackStep::Continue {
            report: report@,
            request: request@,
        }),
        step is Finish ==> step@ is Finish,
        step matches TrackStep::Stop(failure) ==> step@ == TrackStep::<Seq<char>>::Stop(failure),
{
}

} // verus!
