//! What the two ends of the clock do together.

use crate::args::url_argument;
use crate::publisher;
use crate::relay::{
    law_last_segment_decides, names_clock, resolved, root_path, slashes, without_trailing_slashes,
    RelayError,
};
use crate::subscriber;
use crate::subscriber::TrackEvent;
use crate::timestamp::LocalTime;
use vstd::prelude::*;
use vstd::utf8::*;

verus! {

/// What happens to a publisher that sets up and then sends these times, with nothing failing.
pub open spec fn publishing(times: Seq<LocalTime>) -> Seq<publisher::Event>
    decreases times.len(),
{
    if times.len() == 0 {
        Seq::empty().push(publisher::Event::Done).push(publisher::Event::Done).push(
            publisher::Event::Done,
        ).push(publisher::Event::Done)
    } else {
        publishing(times.drop_last()).push(publisher::Event::Clock(times.last())).push(
            publisher::Event::Done,
        ).push(publisher::Event::Done).push(publisher::Event::Done).push(publisher::Event::Done)
    }
}

/// The payloads of the frames that a publisher has written during `events`.
pub open spec fn written(url: Seq<char>, events: Seq<publisher::Event>) -> Seq<Seq<u8>>
    decreases events.len(),
{
    if events.len() == 0 {
        Seq::empty()
    } else {
        let before = written(url, events.drop_last());
        match publisher::pending_after(url, events.drop_last()) {
            Some(publisher::Request::WriteFrame { payload, .. }) => if events.last() is Done {
                before.push(payload)
            } else {
                before
            },
            _ => before,
        }
    }
}

/// What happens to a subscriber to whom these payloads come, each in a group of its own, with
/// nothing failing.
pub open spec fn receiving(groups: Seq<u64>, payloads: Seq<Seq<u8>>) -> Seq<TrackEvent<Seq<u8>>>
    decreases payloads.len(),
{
    if payloads.len() == 0 {
        Seq::empty().push(TrackEvent::Done)
    } else {
        receiving(groups.drop_last(), payloads.drop_last()).push(
            TrackEvent::Group(groups.last()),
        ).push(TrackEvent::Frame).push(TrackEvent::Payload(payloads.last())).push(TrackEvent::End)
    }
}

proof fn lemma_published(url: Seq<char>, events: Seq<publisher::Event>, event: publisher::Event)
    ensures
        publisher::pending_after(url, events.push(event)) == match publisher::pending_after(
            url,
            events,
        ) {
            Some(pending) => match publisher::next(pending, event) {
                Some(publisher::Step::Continue { request, .. }) => Some(request),
                _ => None,
            },
            None => None,
        },
        written(url, events.push(event)) == match publisher::pending_after(url, events) {
            Some(publisher::Request::WriteFrame { payload, .. }) => if event is Done {
                written(url, events).push(payload)
            } else {
                written(url, events)
            },
            _ => written(url, events),
        },
        publisher::said(url, events.push(event)) == match publisher::pending_after(url, events) {
            Some(pending) => match publisher::next(pending, event) {
                Some(publisher::Step::Continue { line: Some(line), .. }) => publisher::said(
                    url,
                    events,
                ).push(line),
                _ => publisher::said(url, events),
            },
            None => publisher::said(url, events),
        },
{
    assert(events.push(event).drop_last() =~= events);
}

proof fn lemma_set_up(url: Seq<char>)
    ensures
        publisher::pending_after(url, publishing(Seq::empty())) is Some,
        publisher::pending_after(url, publishing(Seq::empty()))->Some_0 is ReadClock,
        written(url, publishing(Seq::empty())) == Seq::<Seq<u8>>::empty(),
        publisher::said(url, publishing(Seq::empty())) == seq![
            "[pub] publishing to: "@ + url,
            "[pub] connected to relay"@,
            "[pub] broadcast announced: /clock"@,
        ],
{
    let e0 = Seq::<publisher::Event>::empty();
    let e1 = e0.push(publisher::Event::Done);
    let e2 = e1.push(publisher::Event::Done);
    let e3 = e2.push(publisher::Event::Done);
    lemma_published(url, e0, publisher::Event::Done);
    assert(publisher::pending_after(url, e1)->Some_0 is Connect);
    lemma_published(url, e1, publisher::Event::Done);
    assert(publisher::pending_after(url, e2)->Some_0 is Announce);
    lemma_published(url, e2, publisher::Event::Done);
    assert(publisher::pending_after(url, e3)->Some_0 is CreateTrack);
    lemma_published(url, e3, publisher::Event::Done);
    assert(publisher::said(url, e0) == Seq::empty().push("[pub] publishing to: "@ + url));
}

proof fn lemma_one_cycle(url: Seq<char>, events: Seq<publisher::Event>, at: LocalTime)
    requires
        at.is_valid(),
        publisher::pending_after(url, events) is Some,
        publisher::pending_after(url, events)->Some_0 is ReadClock,
    ensures
        ({
            let after = events.push(publisher::Event::Clock(at)).push(publisher::Event::Done).push(
                publisher::Event::Done,
            ).push(publisher::Event::Done).push(publisher::Event::Done);
            &&& publisher::pending_after(url, after) is Some
            &&& publisher::pending_after(url, after)->Some_0 is ReadClock
            &&& written(url, after) == written(url, events).push(encode_utf8(at.text()))
            &&& publisher::said(url, after) == publisher::said(url, events).push(
                "[pub] sent: "@ + at.text(),
            )
        }),
{
    let stamp = at.text();
    let e1 = events.push(publisher::Event::Clock(at));
    let e2 = e1.push(publisher::Event::Done);
    let e3 = e2.push(publisher::Event::Done);
    let e4 = e3.push(publisher::Event::Done);
    lemma_published(url, events, publisher::Event::Clock(at));
    assert(publisher::pending_after(url, e1)->Some_0 == (publisher::Request::<
        Seq<char>,
        Seq<u8>,
    >::AppendGroup { stamp }));
    lemma_published(url, e1, publisher::Event::Done);
    assert(publisher::pending_after(url, e2)->Some_0 == (publisher::Request::WriteFrame {
        stamp,
        payload: encode_utf8(stamp),
    }));
    lemma_published(url, e2, publisher::Event::Done);
    assert(publisher::pending_after(url, e3)->Some_0 is FinishGroup);
    lemma_published(url, e3, publisher::Event::Done);
    assert(publisher::pending_after(url, e4)->Some_0 is Sleep);
    lemma_published(url, e4, publisher::Event::Done);
}

/// Every time that the clock shows is written, in a frame of its own, as its timestamp in UTF-8.
pub proof fn law_every_time_is_written(url: Seq<char>, times: Seq<LocalTime>)
    requires
        forall|i: int| 0 <= i < times.len() ==> (#[trigger] times[i]).is_valid(),
    ensures
        publisher::pending_after(url, publishing(times)) is Some,
        publisher::pending_after(url, publishing(times))->Some_0 is ReadClock,
        written(url, publishing(times)) == times.map_values(|at: LocalTime| encode_utf8(at.text())),
    decreases times.len(),
{
    let payloads = times.map_values(|at: LocalTime| encode_utf8(at.text()));
    if times.len() == 0 {
        lemma_set_up(url);
        assert(times =~= Seq::empty());
        assert(payloads =~= Seq::<Seq<u8>>::empty());
    } else {
        let rest = times.drop_last();
        let at = times.last();
        assert(at.is_valid());
        law_every_time_is_written(url, rest);
        lemma_one_cycle(url, publishing(rest), at);
        assert(payloads =~= rest.map_values(|at: LocalTime| encode_utf8(at.text())).push(
            encode_utf8(at.text()),
        ));
    }
}

/// What a publisher prints while nothing fails: where it publishes to, that it is connected, that
/// the broadcast is announced, and then each timestamp that it has sent, in order and once.
pub proof fn law_every_time_sent_is_said(url: Seq<char>, times: Seq<LocalTime>)
    requires
        forall|i: int| 0 <= i < times.len() ==> (#[trigger] times[i]).is_valid(),
    ensures
        publisher::said(url, publishing(times)) == seq![
            "[pub] publishing to: "@ + url,
            "[pub] connected to relay"@,
            "[pub] broadcast announced: /clock"@,
        ] + times.map_values(|at: LocalTime| "[pub] sent: "@ + at.text()),
    decreases times.len(),
{
    let lines = times.map_values(|at: LocalTime| "[pub] sent: "@ + at.text());
    if times.len() == 0 {
        lemma_set_up(url);
        assert(times =~= Seq::empty());
        assert(lines =~= Seq::<Seq<char>>::empty());
    } else {
        let rest = times.drop_last();
        let at = times.last();
        assert(at.is_valid());
        law_every_time_sent_is_said(url, rest);
        law_every_time_is_written(url, rest);
        lemma_one_cycle(url, publishing(rest), at);
        assert(lines =~= rest.map_values(|at: LocalTime| "[pub] sent: "@ + at.text()).push(
            "[pub] sent: "@ + at.text(),
        ));
    }
}

proof fn lemma_received(events: Seq<TrackEvent<Seq<u8>>>, event: TrackEvent<Seq<u8>>)
    ensures
        subscriber::track_pending_after(events.push(event))
            == match subscriber::track_pending_after(events) {
            Some(pending) => match subscriber::track_next(pending, event) {
                Some(subscriber::TrackStep::Continue { request, .. }) => Some(request),
                _ => None,
            },
            None => None,
        },
        subscriber::printed(events.push(event)) == match subscriber::track_pending_after(events) {
            Some(pending) => match subscriber::track_next(pending, event) {
                Some(
                    subscriber::TrackStep::Continue { report: subscriber::Report::Line(text), .. },
                ) => subscriber::printed(events).push(text),
                _ => subscriber::printed(events),
            },
            None => subscriber::printed(events),
        },
{
    assert(events.push(event).drop_last() =~= events);
}

/// Texts that come as UTF-8, each in a group of its own, are printed in the order in which they
/// come, whatever the numbers of their groups.
pub proof fn law_every_text_is_printed(groups: Seq<u64>, stamps: Seq<Seq<char>>)
    requires
        groups.len() == stamps.len(),
    ensures
        ({
            let events = receiving(groups, stamps.map_values(|text: Seq<char>| encode_utf8(text)));
            &&& subscriber::track_pending_after(events) == Some(
                subscriber::TrackRequest::<Seq<char>>::NextGroup,
            )
            &&& subscriber::printed(events) == Seq::new(
                stamps.len(),
                |i: int| subscriber::line(groups[i], stamps[i]),
            )
        }),
    decreases stamps.len(),
{
    let payloads = stamps.map_values(|text: Seq<char>| encode_utf8(text));
    let lines = Seq::new(stamps.len(), |i: int| subscriber::line(groups[i], stamps[i]));
    if stamps.len() == 0 {
        lemma_received(Seq::empty(), TrackEvent::Done);
        assert(lines =~= Seq::<Seq<char>>::empty());
    } else {
        let group = groups.last();
        let stamp = stamps.last();
        law_every_text_is_printed(groups.drop_last(), stamps.drop_last());
        assert(payloads.drop_last() =~= stamps.drop_last().map_values(
            |text: Seq<char>| encode_utf8(text),
        ));
        encode_utf8_valid_utf8(stamp);
        encode_utf8_decode_utf8(stamp);
        let e0 = receiving(groups.drop_last(), payloads.drop_last());
        let e1 = e0.push(TrackEvent::Group(group));
        let e2 = e1.push(TrackEvent::Frame);
        let e3 = e2.push(TrackEvent::Payload(payloads.last()));
        lemma_received(e0, TrackEvent::Group(group));
        lemma_received(e1, TrackEvent::Frame);
        lemma_received(e2, TrackEvent::Payload(payloads.last()));
        lemma_received(e3, TrackEvent::End);
        assert(lines =~= subscriber::printed(e0).push(subscriber::line(group, stamp)));
    }
}

/// The publisher sends the time, and the subscriber prints it: what is printed of the frames that
/// were written for `times` is their timestamps, each behind the number of the group that it came
/// in.
pub proof fn law_published_time_is_printed(
    url: Seq<char>,
    times: Seq<LocalTime>,
    groups: Seq<u64>,
)
    requires
        forall|i: int| 0 <= i < times.len() ==> (#[trigger] times[i]).is_valid(),
        groups.len() == times.len(),
    ensures
        subscriber::printed(receiving(groups, written(url, publishing(times)))) == Seq::new(
            times.len(),
            |i: int| subscriber::line(groups[i], times[i].text()),
        ),
{
    let stamps = times.map_values(|at: LocalTime| at.text());
    law_every_time_is_written(url, times);
    law_every_text_is_printed(groups, stamps);
    assert(written(url, publishing(times)) =~= stamps.map_values(
        |text: Seq<char>| encode_utf8(text),
    ));
    assert(Seq::new(stamps.len(), |i: int| subscriber::line(groups[i], stamps[i])) =~= Seq::new(
        times.len(),
        |i: int| subscriber::line(groups[i], times[i].text()),
    ));
}

/// The path that the publisher announces is the segment that a relay URL is cut back by: a URL
/// that names the relay and, below it, the announced broadcast leads to the relay.
pub proof fn law_announced_path_is_cut(
    url: Seq<char>,
    events: Seq<publisher::Event>,
    parent: Seq<char>,
    count: nat,
)
    ensures
        publisher::pending_after(url, events) matches Some(publisher::Request::Announce { path })
            ==> path == publisher::BROADCAST_PATH@ && root_path(
            parent + "/"@ + path + slashes(count),
        ) == Some(
            if parent.len() == 0 {
                "/"@
            } else {
                parent
            },
        ),
{
    if let Some(publisher::Request::Announce { path }) = publisher::pending_after(url, events) {
        publisher::law_one_frame_per_group_and_second(url, events);
        reveal_strlit("clock");
        assert(!path.contains('/'));
        law_last_segment_decides(parent, path, count);
    }
}

/// Nothing but the segment that the publisher announces is ever cut from a path, with the slash
/// before it and any slashes after it.
pub proof fn law_only_the_broadcast_is_cut(path: Seq<char>)
    requires
        names_clock(path),
    ensures
        ({
            let trimmed = without_trailing_slashes(path);
            let parent = trimmed.take(trimmed.len() - 6);
            &&& trimmed == parent + "/"@ + publisher::BROADCAST_PATH@
            &&& root_path(path) == Some(
                if parent.len() == 0 {
                    "/"@
                } else {
                    parent
                },
            )
        }),
{
    reveal_strlit("/");
    reveal_strlit("clock");
    reveal_strlit("/clock");
    let trimmed = without_trailing_slashes(path);
    assert("/clock"@ =~= "/"@ + "clock"@);
    assert(trimmed =~= trimmed.take(trimmed.len() - 6) + trimmed.skip(trimmed.len() - 6));
    assert(trimmed =~= trimmed.take(trimmed.len() - 6) + "/"@ + "clock"@);
}

/// The track that the publisher creates is the one that the subscriber subscribes to.
pub proof fn law_both_ends_use_one_track(url: Seq<char>, events: Seq<publisher::Event>)
    ensures
        publisher::pending_after(url, events) matches Some(publisher::Request::CreateTrack { name })
            ==> name == publisher::TRACK_NAME@ && subscriber::track_pending_after(Seq::empty())
            == Some((subscriber::TrackRequest::Subscribe { name })),
{
    if publisher::pending_after(url, events) is Some {
        publisher::law_one_frame_per_group_and_second(url, events);
    }
}

/// Given the same command line, both ends connect to the same relay, or both reject its URL for
/// the same reason. Without a URL the publisher does not start, and the subscriber connects to
/// the default relay.
pub proof fn law_both_ends_meet(args: Seq<Seq<char>>)
    ensures
        url_argument(args) is Some ==> publisher::target(url_argument(args)) == resolved(
            subscriber::chosen_url(url_argument(args)),
        ),
        url_argument(args) is None ==> publisher::target(url_argument(args)) == Err::<
            Seq<char>,
            RelayError<Seq<char>>,
        >(RelayError::MissingUrl) && subscriber::chosen_url(url_argument(args))
            == "https://relay.moq.dev/anon"@,
{
}

} // verus!
