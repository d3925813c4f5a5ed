//! The publishing end: announces the clock and sends the time once per second.
//!
//! The publisher asks for one piece of work at a time, a `Request`, and is told by an `Event` how
//! it went.

use crate::args::{find_relay_url, texts, url_argument};
use crate::relay::{parsed_url, relay_root, resolution, resolve_relay, resolved, RelayError};
use crate::text::joined;
use crate::timestamp::{timestamp, LocalTime};
use vstd::prelude::*;
use vstd::utf8::*;

verus! {

/// The path, below the relay's, under which the clock is announced.
pub const BROADCAST_PATH: &'static str = "clock";

/// The name of the track that carries the time.
pub const TRACK_NAME: &'static str = "time";

/// The seconds from the end of one group to the next reading of the clock.
pub const PERIOD_SECONDS: u64 = 1;

/// The relay URL in a command line, whose first entry is the name of the program.
pub fn read_relay_url_arg(args: &Vec<String>) -> (url: Option<String>)
    ensures
        url is Some <==> url_argument(texts(args@)) is Some,
        url matches Some(text) ==> url_argument(texts(args@)) == Some(text@),
{
    find_relay_url(args)
}

/// The relay that the publisher connects to, given the URL on its command line.
pub open spec fn target(url: Option<Seq<char>>) -> Result<Seq<char>, RelayError<Seq<char>>> {
    match url {
        Some(raw) => resolved(raw),
        None => Err(RelayError::MissingUrl),
    }
}

/// The text of the URL of the relay to connect to, given the URL on the command line.
pub fn relay_target(url: Option<String>) -> (relay: Result<String, RelayError<String>>)
    ensures
        url matches Some(raw) ==> resolution(relay) == target(Some(raw@)),
        url is None ==> resolution(relay) == target(None),
        url is None <==> relay matches Err(RelayError::MissingUrl),
        relay is Ok <==> (url matches Some(raw) && parsed_url(raw@) is Ok),
        relay matches Ok(root) ==> root@ == relay_root(parsed_url(url->Some_0@)->Ok_0),
        relay matches Err(RelayError::InvalidUrl(cause)) ==> cause@ == parsed_url(
            url->Some_0@,
        )->Err_0,
{
    match url {
        Some(raw) => resolve_relay(raw.as_str()),
        None => Err(RelayError::MissingUrl),
    }
}

/// A piece of work that the publisher asks for.
#[derive(Debug)]
pub enum Request<S, B> {
    /// Set up the client that will connect to the relay at this URL.
    InitClient { url: S },
    /// Connect to the relay at this URL.
    Connect { url: S },
    /// Announce the broadcast at this path below the relay's.
    Announce { path: S },
    /// Create the track of this name in the broadcast.
    CreateTrack { name: S },
    /// Read the local date and time.
    ReadClock,
    /// Open the next group of the track, for this timestamp.
    AppendGroup { stamp: S },
    /// Write a frame with this payload into the open group.
    WriteFrame { stamp: S, payload: B },
    /// Finish the open group.
    FinishGroup { stamp: S },
    /// Wait.
    Sleep { seconds: u64 },
}

/// How the work that was asked for went.
#[derive(Clone, Copy, Debug, PartialEq, Eq, Structural)]
pub enum Event {
    /// It is done.
    Done,
    /// The clock showed this.
    Clock(LocalTime),
    /// It failed.
    Failed,
}

/// What the publisher cannot go on without.
#[derive(Clone, Copy, Debug, PartialEq, Eq, Structural)]
pub enum Failure {
    /// The client could not be set up.
    Client,
    /// The relay could not be reached.
    Connection,
    /// The track could not be created.
    Track,
    /// A group could not be opened.
    Group,
    /// A frame could not be written.
    Frame,
    /// A group could not be finished.
    Finish,
}

/// What the publisher does next.
#[derive(Debug)]
pub enum Step<S, B> {
    /// Print the line, if there is one, then ask for the next piece of work.
    Continue { line: Option<S>, request: Request<S, B> },
    /// Give up.
    Stop(Failure),
}

impl View for Request<String, Vec<u8>> {
    type V = Request<Seq<char>, Seq<u8>>;

    open spec fn view(&self) -> Request<Seq<char>, Seq<u8>> {
        match *self {
            Request::InitClient { url } => Request::InitClient { url: url@ },
            Request::Connect { url } => Request::Connect { url: url@ },
            Request::Announce { path } => Request::Announce { path: path@ },
            Request::CreateTrack { name } => Request::CreateTrack { name: name@ },
            Request::ReadClock => Request::ReadClock,
            Request::AppendGroup { stamp } => Request::AppendGroup { stamp: stamp@ },
            Request::WriteFrame { stamp, payload } => Request::WriteFrame {
                stamp: stamp@,
                payload: payload@,
            },
            Request::FinishGroup { stamp } => Request::FinishGroup { stamp: stamp@ },
            Request::Sleep { seconds } => Request::Sleep { seconds },
        }
    }
}

impl View for Step<String, Vec<u8>> {
    type V = Step<Seq<char>, Seq<u8>>;

    open spec fn view(&self) -> Step<Seq<char>, Seq<u8>> {
        match *self {
            Step::Continue { line, request } => Step::Continue {
                line: match line {
                    Some(text) => Some(text@),
                    None => None,
                },
                request: request@,
            },
            Step::Stop(failure) => Step::Stop(failure),
        }
    }
}

/// The failure of a piece of work, for those that can fail.
pub open spec fn failure_of(pending: Request<Seq<char>, Seq<u8>>) -> Option<Failure> {
    match pending {
        Request::InitClient { .. } => Some(Failure::Client),
        Request::Connect { .. } => Some(Failure::Connection),
        Request::CreateTrack { .. } => Some(Failure::Track),
        Request::AppendGroup { .. } => Some(Failure::Group),
        Request::WriteFrame { .. } => Some(Failure::Frame),
        Request::FinishGroup { .. } => Some(Failure::Finish),
        _ => None,
    }
}

/// The step after a piece of work that is done.
pub open spec fn next_when_done(pending: Request<Seq<char>, Seq<u8>>) -> Option<
    Step<Seq<char>, Seq<u8>>,
> {
    match pending {
        Request::InitClient { url } => Some(
            Step::Continue { line: None, request: Request::Connect { url } },
        ),
        Request::Connect { .. } => Some(
            Step::Continue {
                line: Some("[pub] connected to relay"@),
                request: Request::Announce { path: "clock"@ },
            },
        ),
        Request::Announce { .. } => Some(
            Step::Continue {
                line: Some("[pub] broadcast announced: /clock"@),
                request: Request::CreateTrack { name: "time"@ },
            },
        ),
        Request::CreateTrack { .. } => Some(
            Step::Continue { line: None, request: Request::ReadClock },
        ),
        Request::ReadClock => None,
        Request::AppendGroup { stamp } => Some(
            Step::Continue {
                line: None,
                request: Request::WriteFrame { stamp, payload: encode_utf8(stamp) },
            },
        ),
        Request::WriteFrame { stamp, .. } => Some(
            Step::Continue { line: None, request: Request::FinishGroup { stamp } },
        ),
        Request::FinishGroup { stamp } => Some(
            Step::Continue {
                line: Some("[pub] sent: "@ + stamp),
                request: Request::Sleep { seconds: PERIOD_SECONDS },
            },
        ),
        Request::Sleep { .. } => Some(Step::Continue { line: None, request: Request::ReadClock }),
    }
}

/// The step after `event`, where it answers the work that was asked for.
pub open spec fn next(pending: Request<Seq<char>, Seq<u8>>, event: Event) -> Option<
    Step<Seq<char>, Seq<u8>>,
> {
    match event {
        Event::Done => next_when_done(pending),
        Event::Clock(at) => if pending is ReadClock && at.is_valid() {
            Some(
                Step::Continue { line: None, request: Request::AppendGroup { stamp: at.text() } },
            )
        } else {
            None
        },
        Event::Failed => match failure_of(pending) {
            Some(failure) => Some(Step::Stop(failure)),
            None => None,
        },
    }
}

impl Failure {
    /// What the user is told.
    pub fn message(&self) -> (text: &'static str)
        ensures
            text@ == match *self {
                Failure::Client => "failed to initialise moq-native client"@,
                Failure::Connection => "failed to connect to relay"@,
                Failure::Track => "failed to create track"@,
                Failure::Group => "failed to append group"@,
                Failure::Frame => "failed to write frame"@,
                Failure::Finish => "failed to finish group"@,
            },
    {
        match self {
            Failure::Client => "failed to initialise moq-native client",
            Failure::Connection => "failed to connect to relay",
            Failure::Track => "failed to create track",
            Failure::Group => "failed to append group",
            Failure::Frame => "failed to write frame",
            Failure::Finish => "failed to finish group",
        }
    }
}

/// The first step of a publisher that connects to the relay at `url`.
pub open spec fn first(url: Seq<char>) -> Step<Seq<char>, Seq<u8>> {
    Step::Continue {
        line: Some("[pub] publishing to: "@ + url),
        request: Request::InitClient { url },
    }
}

/// The first step of a publisher that connects to the relay at `url`.
pub fn start(url: &str) -> (step: Step<String, Vec<u8>>)
    ensures
        step@ == first(url@),
        step@ matches Step::Continue { request, .. } && pending_after(url@, Seq::empty()) == Some(
            request,
        ),
        step@ == (Step::<Seq<char>, Seq<u8>>::Continue {
            line: Some("[pub] publishing to: "@ + url@),
            request: Request::InitClient { url: url@ },
        }),
{
    Step::Continue {
        line: Some(joined("[pub] publishing to: ", url)),
        request: Request::InitClient { url: url.to_owned() },
    }
}

/// The payload of the frame that carries a timestamp: its characters in UTF-8.
pub fn frame_payload(stamp: &str) -> (payload: Vec<u8>)
    ensures
        payload@ == encode_utf8(stamp@),
{
    stamp.as_bytes_vec()
}

fn step_when_done(pending: Request<String, Vec<u8>>) -> (step: Option<Step<String, Vec<u8>>>)
    ensures
        step is Some <==> next_when_done(pending@) is Some,
        step matches Some(step) ==> next_when_done(pending@) == Some(step@),
{
    let (line, request) = match pending {
        Request::InitClient { url } => (None, Request::Connect { url }),
        Request::Connect { .. } => (
            Some("[pub] connected to relay".to_owned()),
            Request::Announce { path: BROADCAST_PATH.to_owned() },
        ),
        Request::Announce { .. } => (
            Some("[pub] broadcast announced: /clock".to_owned()),
            Request::CreateTrack { name: TRACK_NAME.to_owned() },
        ),
        Request::CreateTrack { .. } => (None, Request::ReadClock),
        Request::ReadClock => {
            return None;
        },
        Request::AppendGroup { stamp } => {
            let payload = frame_payload(stamp.as_str());
            (None, Request::WriteFrame { stamp, payload })
        },
        Request::WriteFrame { stamp, .. } => (None, Request::FinishGroup { stamp }),
        Request::FinishGroup { stamp } => (
            Some(joined("[pub] sent: ", stamp.as_str())),
            Request::Sleep { seconds: PERIOD_SECONDS },
        ),
        Request::Sleep { .. } => (None, Request::ReadClock),
    };
    Some(Step::Continue { line, request })
}

/// The step after `event`, or `None` where it does not answer the work that was asked for.
pub fn step(pending: Request<String, Vec<u8>>, event: Event) -> (step: Option<
    Step<String, Vec<u8>>,
>)
    ensures
        step is Some <==> next(pending@, event) is Some,
        step matches Some(step) ==> next(pending@, event) == Some(step@),
{
    match event {
        Event::Done => step_when_done(pending),
        Event::Clock(at) => match (pending, timestamp(&at)) {
            (Request::ReadClock, Some(stamp)) => Some(
                Step::Continue { line: None, request: Request::AppendGroup { stamp } },
            ),
            _ => None,
        },
        Event::Failed => match pending {
            Request::InitClient { .. } => Some(Step::Stop(Failure::Client)),
            Request::Connect { .. } => Some(Step::Stop(Failure::Connection)),
            Request::CreateTrack { .. } => Some(Step::Stop(Failure::Track)),
            Request::AppendGroup { .. } => Some(Step::Stop(Failure::Group)),
            Request::WriteFrame { .. } => Some(Step::Stop(Failure::Frame)),
            Request::FinishGroup { .. } => Some(Step::Stop(Failure::Finish)),
            _ => None,
        },
    }
}

/// What a publisher for the relay at `url` asks for after `events`, one for each piece of work so
/// far; `None` where it has given up or an event did not answer.
pub open spec fn pending_after(url: Seq<char>, events: Seq<Event>) -> Option<
    Request<Seq<char>, Seq<u8>>,
>
    decreases events.len(),
{
    if events.len() == 0 {
        Some(Request::InitClient { url })
    } else {
        match pending_after(url, events.drop_last()) {
            Some(pending) => match next(pending, events.last()) {
                Some(Step::Continue { request, .. }) => Some(request),
                _ => None,
            },
            None => None,
        }
    }
}

/// Whether `request` is what a publisher for the relay at `url` asks for in this turn of setting
/// up.
pub open spec fn is_in_set_up(
    request: Request<Seq<char>, Seq<u8>>,
    url: Seq<char>,
    turn: int,
) -> bool {
    if turn == 0 {
        request == (Request::<Seq<char>, Seq<u8>>::InitClient { url })
    } else if turn == 1 {
        request == (Request::<Seq<char>, Seq<u8>>::Connect { url })
    } else if turn == 2 {
        request == (Request::<Seq<char>, Seq<u8>>::Announce { path: "clock"@ })
    } else {
        request == (Request::<Seq<char>, Seq<u8>>::CreateTrack { name: "time"@ })
    }
}

/// Whether `request` is what a publisher asks for in this turn of its cycle, where `events` are
/// all so far: it sends the timestamp of its own reading of the clock.
pub open spec fn is_in_cycle(
    request: Request<Seq<char>, Seq<u8>>,
    turn: int,
    events: Seq<Event>,
) -> bool {
    let n = events.len() as int;
    if turn == 0 {
        request is ReadClock
    } else if turn == 1 {
        events[n - 1] matches Event::Clock(at) && at.is_valid() && request == (Request::<
            Seq<char>,
            Seq<u8>,
        >::AppendGroup { stamp: at.text() })
    } else if turn == 2 {
        events[n - 2] matches Event::Clock(at) && at.is_valid() && request
            == (Request::WriteFrame { stamp: at.text(), payload: encode_utf8(at.text()) })
    } else if turn == 3 {
        events[n - 3] matches Event::Clock(at) && at.is_valid() && request == (Request::<
            Seq<char>,
            Seq<u8>,
        >::FinishGroup { stamp: at.text() })
    } else {
        request == (Request::<Seq<char>, Seq<u8>>::Sleep { seconds: 1 })
    }
}

/// Whether `request` is what a publisher for the relay at `url` asks for after `events` if all went
/// well: setting up in four pieces of work, then cycles of five.
pub open spec fn is_in_turn(
    request: Request<Seq<char>, Seq<u8>>,
    url: Seq<char>,
    events: Seq<Event>,
) -> bool {
    let n = events.len() as int;
    if n < 4 {
        is_in_set_up(request, url, n)
    } else {
        is_in_cycle(request, (n - 4) % 5, events)
    }
}

proof fn lemma_next_in_set_up(
    url: Seq<char>,
    last: Event,
    turn: int,
    pending: Request<Seq<char>, Seq<u8>>,
    request: Request<Seq<char>, Seq<u8>>,
)
    requires
        0 <= turn < 4,
        is_in_set_up(pending, url, turn),
        next(pending, last) matches Some(Step::Continue { request: r, .. }) && r == request,
    ensures
        turn < 3 ==> is_in_set_up(request, url, turn + 1),
        turn == 3 ==> request is ReadClock,
{
}

proof fn lemma_next_in_cycle(
    before: Seq<Event>,
    last: Event,
    turn: int,
    pending: Request<Seq<char>, Seq<u8>>,
    request: Request<Seq<char>, Seq<u8>>,
)
    requires
        before.len() >= 4,
        0 <= turn < 5,
        is_in_cycle(pending, turn, before),
        next(pending, last) matches Some(Step::Continue { request: r, .. }) && r == request,
    ensures
        is_in_cycle(request, if turn == 4 { 0 } else { turn + 1 }, before.push(last)),
{
}

proof fn lemma_next_turn(n: int)
    requires
        n >= 4,
    ensures
        0 <= (n - 4) % 5 < 5,
        (n + 1 - 4) % 5 == if (n - 4) % 5 == 4 { 0 } else { (n - 4) % 5 + 1 },
{
}

proof fn lemma_turns_follow(
    url: Seq<char>,
    before: Seq<Event>,
    last: Event,
    pending: Request<Seq<char>, Seq<u8>>,
    request: Request<Seq<char>, Seq<u8>>,
)
    requires
        is_in_turn(pending, url, before),
        next(pending, last) matches Some(Step::Continue { request: r, .. }) && r == request,
    ensures
        is_in_turn(request, url, before.push(last)),
{
    let n = before.len() as int;
    if n < 4 {
        lemma_next_in_set_up(url, last, n, pending, request);
    } else {
        lemma_next_turn(n);
        lemma_next_in_cycle(before, last, (n - 4) % 5, pending, request);
    }
}

/// Whatever happens, the publisher sets up first, connecting to the relay at `url`, announcing
/// `clock` there and creating the track `time`, and then sends one group per cycle: reads the
/// clock, opens a group, writes one frame with the timestamp just read, finishes the group and
/// waits one second.
pub proof fn law_one_frame_per_group_and_second(url: Seq<char>, events: Seq<Event>)
    requires
        pending_after(url, events) is Some,
    ensures
        is_in_turn(pending_after(url, events)->Some_0, url, events),
    decreases events.len(),
{
    if events.len() > 0 {
        let before = events.drop_last();
        law_one_frame_per_group_and_second(url, before);
        lemma_turns_follow(
            url,
            before,
            events.last(),
            pending_after(url, before)->Some_0,
            pending_after(url, events)->Some_0,
        );
        assert(before.push(events.last()) =~= events);
    }
}

/// The publisher gives up exactly when a piece of work fails that can, and says which.
pub proof fn law_only_failure_stops(
    pending: Request<Seq<char>, Seq<u8>>,
    event: Event,
    failure: Failure,
)
    ensures
        next(pending, event) == Some(Step::<Seq<char>, Seq<u8>>::Stop(failure)) <==> event is Failed
            && failure_of(pending) == Some(failure),
{
}

/// Work that is done, or a clock that shows a date and time, always leads on: as long as nothing
/// fails the publisher never ends.
pub proof fn law_success_leads_on(pending: Request<Seq<char>, Seq<u8>>, at: LocalTime)
    requires
        at.is_valid(),
    ensures
        !(pending is ReadClock) ==> next(pending, Event::Done) matches Some(Step::Continue { .. }),
        pending is ReadClock ==> next(pending, Event::Clock(at)) matches Some(
            Step::Continue { .. },
        ),
{
}

/// A line that says a timestamp was sent is printed exactly when the group that carries it has
/// been finished.
pub proof fn law_sent_is_said_after_finishing(
    pending: Request<Seq<char>, Seq<u8>>,
    event: Event,
    stamp: Seq<char>,
)
    ensures
        (next(pending, event) matches Some(Step::Continue { line: Some(line), .. }) && line
            == "[pub] sent: "@ + stamp) <==> event is Done && pending == (Request::<
            Seq<char>,
            Seq<u8>,
        >::FinishGroup { stamp }),
{
    reveal_strlit("[pub] sent: ");
    reveal_strlit("[pub] connected to relay");
    reveal_strlit("[pub] broadcast announced: /clock");
    let said = "[pub] sent: "@ + stamp;
    assert(said[6] == 's');
    assert("[pub] connected to relay"@[6] == 'c');
    assert("[pub] broadcast announced: /clock"@[6] == 'b');
    if let Request::FinishGroup { stamp: other } = pending {
        let line = "[pub] sent: "@ + other;
        if line == said {
            assert(line.skip(12) =~= other);
            assert(said.skip(12) =~= stamp);
        }
    }
}

/// Work that fails stops the publisher, whatever it was to be done with, and the failure tells
/// which kind of work it was: no step that goes on ever follows a failure. What cannot fail is not
/// answered by a failure.
pub proof fn law_failed_work_is_never_passed_over(
    pending: Request<Seq<char>, Seq<u8>>,
    text: Seq<char>,
    payload: Seq<u8>,
)
    ensures
        !(next(pending, Event::Failed) matches Some(Step::Continue { .. })),
        next(Request::InitClient { url: text }, Event::Failed) == Some(
            Step::<Seq<char>, Seq<u8>>::Stop(Failure::Client),
        ),
        next(Request::Connect { url: text }, Event::Failed) == Some(
            Step::<Seq<char>, Seq<u8>>::Stop(Failure::Connection),
        ),
        next(Request::CreateTrack { name: text }, Event::Failed) == Some(
            Step::<Seq<char>, Seq<u8>>::Stop(Failure::Track),
        ),
        next(Request::AppendGroup { stamp: text }, Event::Failed) == Some(
            Step::<Seq<char>, Seq<u8>>::Stop(Failure::Group),
        ),
        next(Request::WriteFrame { stamp: text, payload }, Event::Failed) == Some(
            Step::<Seq<char>, Seq<u8>>::Stop(Failure::Frame),
        ),
        next(Request::FinishGroup { stamp: text }, Event::Failed) == Some(
            Step::<Seq<char>, Seq<u8>>::Stop(Failure::Finish),
        ),
        pending is Announce || pending is ReadClock || pending is Sleep ==> next(
            pending,
            Event::Failed,
        ) is None,
{
}

/// Nothing but a failure stops the publisher: after any other event it goes on, or was not
/// answered. Only reading the clock is answered by a date and time, and only by one that there is;
/// all other work is answered by its being done.
pub proof fn law_what_answers(pending: Request<Seq<char>, Seq<u8>>, event: Event)
    ensures
        next(pending, event) matches Some(Step::Stop(_)) ==> event is Failed,
        event is Done ==> (next(pending, event) is Some <==> !(pending is ReadClock)),
        event matches Event::Clock(at) ==> (next(pending, event) is Some <==> pending is ReadClock
            && at.is_valid()),
{
}

/// Setting up, whatever the relay: the URL given first is printed and then connected to, and once
/// connected the publisher says so, announces `clock`, says so, and creates the track `time`. The
/// clock is read next.
pub proof fn law_set_up_leads_to_the_clock(url: Seq<char>, path: Seq<char>, name: Seq<char>)
    ensures
        first(url) == (Step::<Seq<char>, Seq<u8>>::Continue {
            line: Some("[pub] publishing to: "@ + url),
            request: Request::InitClient { url },
        }),
        next(Request::InitClient { url }, Event::Done) == Some(
            (Step::<Seq<char>, Seq<u8>>::Continue {
                line: None,
                request: Request::Connect { url },
            }),
        ),
        next(Request::Connect { url }, Event::Done) == Some(
            (Step::<Seq<char>, Seq<u8>>::Continue {
                line: Some("[pub] connected to relay"@),
                request: Request::Announce { path: "clock"@ },
            }),
        ),
        next(Request::Announce { path }, Event::Done) == Some(
            (Step::<Seq<char>, Seq<u8>>::Continue {
                line: Some("[pub] broadcast announced: /clock"@),
                request: Request::CreateTrack { name: "time"@ },
            }),
        ),
        next(Request::CreateTrack { name }, Event::Done) == Some(
            (Step::<Seq<char>, Seq<u8>>::Continue { line: None, request: Request::ReadClock }),
        ),
{
}

/// A cycle, whatever the time: the timestamp of the reading is what the group is opened for, what
/// its frame holds, what it is finished for, and what is printed when it is finished. Then the
/// publisher waits one second and reads the clock again.
pub proof fn law_timestamp_is_carried_through_the_cycle(
    at: LocalTime,
    stamp: Seq<char>,
    payload: Seq<u8>,
    seconds: u64,
)
    ensures
        at.is_valid() ==> next(Request::ReadClock, Event::Clock(at)) == Some(
            (Step::<Seq<char>, Seq<u8>>::Continue {
                line: None,
                request: Request::AppendGroup { stamp: at.text() },
            }),
        ),
        next(Request::AppendGroup { stamp }, Event::Done) == Some(
            (Step::<Seq<char>, Seq<u8>>::Continue {
                line: None,
                request: Request::WriteFrame { stamp, payload: encode_utf8(stamp) },
            }),
        ),
        next(Request::WriteFrame { stamp, payload }, Event::Done) == Some(
            (Step::<Seq<char>, Seq<u8>>::Continue {
                line: None,
                request: Request::FinishGroup { stamp },
            }),
        ),
        next(Request::FinishGroup { stamp }, Event::Done) == Some(
            (Step::<Seq<char>, Seq<u8>>::Continue {
                line: Some("[pub] sent: "@ + stamp),
                request: Request::Sleep { seconds: 1 },
            }),
        ),
        next(Request::Sleep { seconds }, Event::Done) == Some(
            (Step::<Seq<char>, Seq<u8>>::Continue { line: None, request: Request::ReadClock }),
        ),
{
}

/// The lines that a publisher for the relay at `url` has printed during `events`, its first
/// included.
pub open spec fn said(url: Seq<char>, events: Seq<Event>) -> Seq<Seq<char>>
    decreases events.len(),
{
    if events.len() == 0 {
        match first(url) {
            Step::Continue { line: Some(line), .. } => Seq::empty().push(line),
            _ => Seq::empty(),
        }
    } else {
        let before = said(url, events.drop_last());
        match pending_after(url, events.drop_last()) {
            Some(pending) => match next(pending, events.last()) {
                Some(Step::Continue { line: Some(line), .. }) => before.push(line),
                _ => before,
            },
            None => before,
        }
    }
}

/// Requests and steps are seen as they are: each kind of work with its own texts and bytes, each
/// line with its own characters.
pub proof fn law_steps_are_seen_as_they_are(
    request: Request<String, Vec<u8>>,
    step: Step<String, Vec<u8>>,
)
    ensures
        request matches Request::InitClient { url } ==> request@ == (Request::<
            Seq<char>,
            Seq<u8>,
        >::InitClient { url: url@ }),
        request matches Request::Connect { url } ==> request@ == (Request::<
            Seq<char>,
            Seq<u8>,
        >::Connect { url: url@ }),
        request matches Request::Announce { path } ==> request@ == (Request::<
            Seq<char>,
            Seq<u8>,
        >::Announce { path: path@ }),
        request matches Request::CreateTrack { name } ==> request@ == (Request::<
            Seq<char>,
            Seq<u8>,
        >::CreateTrack { name: name@ }),
        request is ReadClock ==> request@ is ReadClock,
        request matches Request::AppendGroup { stamp } ==> request@ == (Request::<
            Seq<char>,
            Seq<u8>,
        >::AppendGroup { stamp: stamp@ }),
        request matches Request::WriteFrame { stamp, payload } ==> request@
            == (Request::WriteFrame { stamp: stamp@, payload: payload@ }),
        request matches Request::FinishGroup { stamp } ==> request@ == (Request::<
            Seq<char>,
            Seq<u8>,
        >::FinishGroup { stamp: stamp@ }),
        request matches Request::Sleep { seconds } ==> request@ == (Request::<
            Seq<char>,
            Seq<u8>,
        >::Sleep { seconds }),
        step matches Step::Stop(failure) ==> step@ == Step::<Seq<char>, Seq<u8>>::Stop(failure),
        step matches Step::Continue { line: Some(line), request } ==> step@ == (Step::Continue {
            line: Some(line@),
            request: request@,
        }),
        step matches Step::Continue { line: None, request } ==> step@ == (Step::Continue {
            line: None,
            request: request@,
        }),
{
}

/// Without a URL there is no relay to connect to, and with one it is the relay that the URL is
/// parsed to, or the error in parsing it.
pub proof fn law_publisher_goes_where_its_url_leads(raw: Seq<char>)
    ensures
        target(None) == Err::<Seq<char>, RelayError<Seq<char>>>(RelayError::MissingUrl),
        parsed_url(raw) is Ok ==> target(Some(raw)) == Ok::<Seq<char>, RelayError<Seq<char>>>(
            relay_root(parsed_url(raw)->Ok_0),
        ),
        parsed_url(raw) is Err ==> target(Some(raw)) == Err::<Seq<char>, RelayError<Seq<char>>>(
            RelayError::InvalidUrl(parsed_url(raw)->Err_0),
        ),
{
}

} // verus!
