//! The relay to connect to.
//!
//! A relay URL may name the relay itself or, below it, the clock broadcast. Both ends of the
//! clock connect to the relay and name the broadcast in the session, so a URL whose last path
//! segment is `clock` is cut back to the segment's parent.

use crate::text::{characters, joined, same_text};
use vstd::prelude::*;

verus! {

/// What `url::Url::parse` makes of a text: the URL, as the crate writes it, in three parts, or the
/// description of the error. The parts are the text before the path, the path, and the text after
/// it, that is the query and the fragment.
pub uninterp spec fn parsed_url(raw: Seq<char>) -> Result<
    (Seq<char>, Seq<char>, Seq<char>),
    Seq<char>,
>;

/// Whether `path` is made of the leading segments of `full`, or is the root of an absolute one.
pub open spec fn leads(path: Seq<char>, full: Seq<char>) -> bool {
    ||| path.len() > 0 && path.len() < full.len() && path == full.take(path.len() as int)
        && full[path.len() as int] == '/'
    ||| path == "/"@ && full.len() > 0 && full[0] == '/'
}

/// Whether a URL is a `file` URL, going by its text before the path.
pub open spec fn is_file_url(before: Seq<char>) -> bool {
    "file:"@.is_prefix_of(before)
}

/// Whether the first segment of an absolute path is a drive letter: an ASCII letter and `:` or `|`.
pub open spec fn has_drive(path: Seq<char>) -> bool {
    &&& path.len() >= 3 && path[0] == '/'
    &&& 'a' <= path[1] <= 'z' || 'A' <= path[1] <= 'Z'
    &&& path[2] == ':' || path[2] == '|'
    &&& path.len() > 3 ==> path[3] == '/'
}

/// Whether `s` is a dot, plain or encoded.
pub open spec fn is_dot(s: Seq<char>) -> bool {
    s == "."@ || s == "%2e"@ || s == "%2E"@
}

/// Whether a segment stands for its directory or for the parent of that: whether it is one dot or
/// two.
pub open spec fn is_dot_segment(s: Seq<char>) -> bool {
    is_dot(s) || exists|i: int| 0 < i < s.len() && is_dot(#[trigger] s.take(i)) && is_dot(s.skip(i))
}

/// The number of characters before the first slash.
pub open spec fn segment_length(path: Seq<char>) -> nat
    decreases path.len(),
{
    if path.len() == 0 || path[0] == '/' {
        0
    } else {
        1 + segment_length(path.skip(1))
    }
}

/// How the `url` crate writes leading segments of a path when they are set as the path of a `file`
/// URL: a drive letter is given a colon, and a dot segment right behind one is left out, since
/// nothing is above a drive.
pub open spec fn file_path(path: Seq<char>) -> Seq<char> {
    if !has_drive(path) || path.len() == 3 && path[2] == ':' {
        path
    } else if path[2] == '|' {
        path.update(2, ':')
    } else {
        let below = path.skip(4);
        let length = segment_length(below) as int;
        if !is_dot_segment(below.take(length)) {
            path
        } else if length == below.len() {
            path.take(4)
        } else {
            path.take(4) + below.skip(length + 1)
        }
    }
}

/// How the `url` crate writes leading segments of a path when they are set as the path of a URL
/// with the text `before` in front of its path.
pub open spec fn written_path(before: Seq<char>, path: Seq<char>) -> Seq<char> {
    if is_file_url(before) {
        file_path(path)
    } else {
        path
    }
}

/// The outcome of parsing, as sequences of characters.
pub open spec fn outcome(parsed: Result<(String, String, String), String>) -> Result<
    (Seq<char>, Seq<char>, Seq<char>),
    Seq<char>,
> {
    match parsed {
        Ok(parts) => Ok((parts.0@, parts.1@, parts.2@)),
        Err(cause) => Err(cause@),
    }
}

/// Parses a URL by `url::Url::parse` and reads its parts: the slice up to `Position::BeforePath`,
/// `Url::path`, and the slice from `Position::AfterPath` on.
///
/// Claims that the outcome depends on `raw` alone: it is `parsed_url(raw@)`, an error being given
/// by its `Display` text.
#[verifier::external_body]
fn parse_url(raw: &str) -> (parsed: Result<(String, String, String), String>)
    ensures
        outcome(parsed) == parsed_url(raw@),
{
    match url::Url::parse(raw) {
        Ok(url) => {
            let before = url[..url::Position::BeforePath].to_string();
            let after = url[url::Position::AfterPath..].to_string();
            Ok((before, url.path().to_string(), after))
        },
        Err(cause) => Err(cause.to_string()),
    }
}

/// Parses `raw` by `url::Url::parse`, replaces the path by `url::Url::set_path` and reads the
/// text by `String::from`.
///
/// Claims that a path made of leading segments of the URL's own path takes the place of that path,
/// between the same text before it and the same text after it. It is put there as it stands: such
/// a path is already encoded and holds no dot segments. Of a `file` URL alone a drive letter and a
/// dot segment behind it are rewritten, as `file_path` says. Parsing can leave both behind: a
/// drive letter after several slashes, and a dot segment after a drive letter and a tab.
#[verifier::external_body]
fn set_url_path(raw: &str, path: &str) -> (text: String)
    requires
        parsed_url(raw@) is Ok,
        leads(path@, parsed_url(raw@)->Ok_0.1),
    ensures
        text@ == parsed_url(raw@)->Ok_0.0 + written_path(parsed_url(raw@)->Ok_0.0, path@)
            + parsed_url(raw@)->Ok_0.2,
{
    let mut url = url::Url::parse(raw).unwrap();
    url.set_path(path);
    String::from(url)
}

/// `path` without the slashes at its end.
pub open spec fn without_trailing_slashes(path: Seq<char>) -> Seq<char>
    decreases path.len(),
{
    if path.len() > 0 && path.last() == '/' {
        without_trailing_slashes(path.drop_last())
    } else {
        path
    }
}

/// Whether the last segment of `path`, slashes at its end aside, is `clock`.
pub open spec fn names_clock(path: Seq<char>) -> bool {
    let trimmed = without_trailing_slashes(path);
    trimmed.len() >= 6 && trimmed.skip(trimmed.len() - 6) == "/clock"@
}

/// The path of the relay, where `path` names the clock broadcast below it.
pub open spec fn root_path(path: Seq<char>) -> Option<Seq<char>> {
    if names_clock(path) {
        let trimmed = without_trailing_slashes(path);
        let parent = trimmed.take(trimmed.len() - 6);
        Some(if parent.len() == 0 { "/"@ } else { parent })
    } else {
        None
    }
}

/// The text of the relay's URL, for a URL given by its parts: what stands before and after the
/// path stays, and a path that names the clock broadcast is cut back to that of the relay.
pub open spec fn relay_root(parts: (Seq<char>, Seq<char>, Seq<char>)) -> Seq<char> {
    let (before, path, after) = parts;
    match root_path(path) {
        Some(root) => before + written_path(before, root) + after,
        None => before + path + after,
    }
}

/// The path to connect to in place of `path`: its parent, where its last segment is `clock`.
/// `None` where `path` is to stay as it is.
pub fn relay_root_path(path: &str) -> (root: Option<String>)
    ensures
        root is Some <==> root_path(path@) is Some,
        root matches Some(text) ==> root_path(path@) == Some(text@),
{
    let chars = characters(path);
    let mut end = chars.len();
    proof {
        assert(path@.take(end as int) =~= path@);
    }
    while end > 0 && chars[end - 1] == '/'
        invariant
            end <= chars@.len(),
            chars@ == path@,
            without_trailing_slashes(path@) == without_trailing_slashes(path@.take(end as int)),
        decreases end,
    {
        assert(path@.take(end as int).drop_last() =~= path@.take(end - 1));
        end -= 1;
    }
    let ghost trimmed = path@.take(end as int);
    proof {
        reveal_strlit("/clock");
        reveal_strlit("/");
        assert(without_trailing_slashes(path@) == trimmed);
    }
    if end < 6 {
        return None;
    }
    let leaf = path.substring_char(end - 6, end);
    assert(leaf@ =~= trimmed.skip(trimmed.len() - 6));
    if !same_text(leaf, "/clock") {
        return None;
    }
    if end == 6 {
        return Some("/".to_owned());
    }
    let parent = path.substring_char(0, end - 6);
    assert(parent@ =~= trimmed.take(trimmed.len() - 6));
    Some(parent.to_owned())
}

/// A parsed relay URL: the text that it was given as, and its parts in the form in which the `url`
/// crate writes them.
#[derive(Debug)]
pub struct RelayUrl {
    raw: String,
    before: String,
    path: String,
    after: String,
}

impl RelayUrl {
    #[verifier::type_invariant]
    spec fn well_formed(&self) -> bool {
        &&& parsed_url(self.raw@) is Ok
        &&& parsed_url(self.raw@)->Ok_0 == self.parts()
    }

    /// The text that the URL was given as.
    pub closed spec fn raw(&self) -> Seq<char> {
        self.raw@
    }

    /// The text before the path, the path, and the text after it.
    pub closed spec fn parts(&self) -> (Seq<char>, Seq<char>, Seq<char>) {
        (self.before@, self.path@, self.after@)
    }

    /// Parses a relay URL, or says why it is none.
    pub fn parse(raw: &str) -> (url: Result<RelayUrl, String>)
        ensures
            url is Ok <==> parsed_url(raw@) is Ok,
            url matches Ok(url) ==> url.raw() == raw@ && url.parts() == parsed_url(raw@)->Ok_0,
            url matches Err(cause) ==> parsed_url(raw@)->Err_0 == cause@,
    {
        match parse_url(raw) {
            Ok((before, path, after)) => Ok(RelayUrl { raw: raw.to_owned(), before, path, after }),
            Err(cause) => Err(cause),
        }
    }
}

/// The text of the URL to connect to, given the URL of a relay or of the clock broadcast on it.
///
/// A URL whose path ends in the segment `clock` is cut back to the path's parent; any other is
/// kept as it is.
pub fn normalize_relay_root(url: RelayUrl) -> (root: String)
    ensures
        parsed_url(url.raw()) is Ok,
        parsed_url(url.raw())->Ok_0 == url.parts(),
        root@ == relay_root(url.parts()),
{
    proof {
        use_type_invariant(&url);
    }
    match relay_root_path(url.path.as_str()) {
        Some(root) => {
            proof {
                lemma_root_path_leads(url.path@);
            }
            set_url_path(url.raw.as_str(), root.as_str())
        },
        None => {
            let head = joined(url.before.as_str(), url.path.as_str());
            joined(head.as_str(), url.after.as_str())
        },
    }
}

/// Why there is no relay to connect to.
#[derive(Debug)]
pub enum RelayError<S> {
    /// No URL was given.
    MissingUrl,
    /// The URL could not be parsed; the cause in the words of the `url` crate.
    InvalidUrl(S),
}

impl View for RelayError<String> {
    type V = RelayError<Seq<char>>;

    open spec fn view(&self) -> RelayError<Seq<char>> {
        match *self {
            RelayError::MissingUrl => RelayError::MissingUrl,
            RelayError::InvalidUrl(cause) => RelayError::InvalidUrl(cause@),
        }
    }
}

impl RelayError<String> {
    /// What the user is told, the cause of an invalid URL aside.
    pub fn message(&self) -> (text: &'static str)
        ensures
            text@ == match self@ {
                RelayError::MissingUrl =>
                    "missing relay URL: pass --url <relay-url> (example: --url http://localhost:4443/anon)"@,
                RelayError::InvalidUrl(_) => "invalid relay URL"@,
            },
    {
        match self {
            RelayError::MissingUrl =>
                "missing relay URL: pass --url <relay-url> (example: --url http://localhost:4443/anon)",
            RelayError::InvalidUrl(_) => "invalid relay URL",
        }
    }
}

/// The relay that a URL given by the user leads to.
pub open spec fn resolved(raw: Seq<char>) -> Result<Seq<char>, RelayError<Seq<char>>> {
    match parsed_url(raw) {
        Ok(parts) => Ok(relay_root(parts)),
        Err(cause) => Err(RelayError::InvalidUrl(cause)),
    }
}

/// The text of a relay's URL, or the error, as sequences of characters.
pub open spec fn resolution(relay: Result<String, RelayError<String>>) -> Result<
    Seq<char>,
    RelayError<Seq<char>>,
> {
    match relay {
        Ok(root) => Ok(root@),
        Err(error) => Err(error@),
    }
}

/// The text of the URL of the relay that `raw` leads to.
pub fn resolve_relay(raw: &str) -> (relay: Result<String, RelayError<String>>)
    ensures
        resolution(relay) == resolved(raw@),
        relay is Ok <==> parsed_url(raw@) is Ok,
        relay matches Ok(root) ==> root@ == relay_root(parsed_url(raw@)->Ok_0),
        relay matches Err(error) ==> (error matches RelayError::InvalidUrl(cause) && cause@
            == parsed_url(raw@)->Err_0),
{
    match RelayUrl::parse(raw) {
        Ok(url) => Ok(normalize_relay_root(url)),
        Err(cause) => Err(RelayError::InvalidUrl(cause)),
    }
}

proof fn lemma_trimmed_is_prefix(path: Seq<char>)
    ensures
        without_trailing_slashes(path).len() <= path.len(),
        without_trailing_slashes(path) == path.take(without_trailing_slashes(path).len() as int),
    decreases path.len(),
{
    if path.len() > 0 && path.last() == '/' {
        lemma_trimmed_is_prefix(path.drop_last());
    }
    assert(without_trailing_slashes(path) =~= path.take(
        without_trailing_slashes(path).len() as int,
    ));
}

proof fn lemma_root_path_leads(path: Seq<char>)
    requires
        root_path(path) is Some,
    ensures
        leads(root_path(path)->Some_0, path),
{
    reveal_strlit("/clock");
    lemma_trimmed_is_prefix(path);
    let trimmed = without_trailing_slashes(path);
    assert(trimmed.skip(trimmed.len() - 6)[0] == path[trimmed.len() - 6]);
    assert(trimmed.take(trimmed.len() - 6) =~= path.take(trimmed.len() - 6));
}

/// `count` slashes.
pub open spec fn slashes(count: nat) -> Seq<char> {
    Seq::new(count, |i: int| '/')
}

proof fn lemma_slashes_are_trimmed(path: Seq<char>, count: nat)
    requires
        path.len() == 0 || path.last() != '/',
    ensures
        without_trailing_slashes(path + slashes(count)) == path,
    decreases count,
{
    if count == 0 {
        assert(path + slashes(count) =~= path);
    } else {
        let less = (count - 1) as nat;
        assert((path + slashes(count)).drop_last() =~= path + slashes(less));
        lemma_slashes_are_trimmed(path, less);
    }
}

/// The last segment of a path decides, and slashes behind it change nothing: if it is `clock`,
/// the relay's path is what stands before it, or `/` if nothing does; if it is anything else,
/// the path stays.
pub proof fn law_last_segment_decides(parent: Seq<char>, leaf: Seq<char>, count: nat)
    requires
        leaf.len() > 0,
        !leaf.contains('/'),
    ensures
        root_path(parent + "/"@ + leaf + slashes(count)) == if leaf == "clock"@ {
            Some(if parent.len() == 0 { "/"@ } else { parent })
        } else {
            None::<Seq<char>>
        },
{
    reveal_strlit("/");
    reveal_strlit("clock");
    reveal_strlit("/clock");
    let full = parent + "/"@ + leaf;
    assert(leaf.contains(leaf.last()));
    assert(full.last() == leaf.last());
    lemma_slashes_are_trimmed(full, count);
    if leaf == "clock"@ {
        assert(full.skip(full.len() - 6) =~= "/clock"@);
        assert(full.take(full.len() - 6) =~= parent);
    } else if full.len() >= 6 && full.skip(full.len() - 6) == "/clock"@ {
        let tail = full.skip(full.len() - 6);
        if leaf.len() > 5 {
            assert(leaf[leaf.len() - 6] == tail[0]);
            assert(leaf.contains('/'));
        } else if leaf.len() < 5 {
            assert(tail[5 - leaf.len()] == '/');
        } else {
            assert forall|i: int| 0 <= i < 5 implies leaf[i] == "clock"@[i] by {
                assert(leaf[i] == tail[i + 1]);
            }
            assert(leaf =~= "clock"@);
        }
        assert(false);
    }
}

/// A path without a slash before its last segment stays, even if that segment is `clock`.
pub proof fn law_lone_segment_stays(leaf: Seq<char>, count: nat)
    requires
        !leaf.contains('/'),
    ensures
        root_path(leaf + slashes(count)) is None,
{
    reveal_strlit("/clock");
    if leaf.len() > 0 {
        assert(leaf.contains(leaf.last()));
    }
    lemma_slashes_are_trimmed(leaf, count);
    if leaf.len() >= 6 {
        assert(leaf.skip(leaf.len() - 6)[0] == leaf[leaf.len() - 6]);
        assert(leaf.contains(leaf[leaf.len() - 6]));
    }
}

/// Of a URL only the path can change, and to nothing but leading segments of itself: scheme, user,
/// host and port, which stand before it, and query and fragment, which stand after it, are kept.
/// Only behind a drive letter, in a `file` URL, are those segments not written as they were.
pub proof fn law_only_the_path_is_cut(parts: (Seq<char>, Seq<char>, Seq<char>))
    requires
        names_clock(parts.1),
    ensures
        relay_root(parts) == parts.0 + written_path(parts.0, root_path(parts.1)->Some_0) + parts.2,
        root_path(parts.1)->Some_0.is_prefix_of(parts.1),
        !(is_file_url(parts.0) && has_drive(root_path(parts.1)->Some_0)) ==> relay_root(parts)
            == parts.0 + root_path(parts.1)->Some_0 + parts.2,
{
    let path = parts.1;
    reveal_strlit("/");
    lemma_root_path_leads(path);
    let root = root_path(path)->Some_0;
    assert(root =~= path.take(root.len() as int));
}

/// A URL that does not name the clock broadcast is kept as it is, a `file` URL too.
pub proof fn law_other_urls_are_kept(parts: (Seq<char>, Seq<char>, Seq<char>))
    requires
        !names_clock(parts.1),
    ensures
        relay_root(parts) == parts.0 + parts.1 + parts.2,
{
}

/// The URL of the clock broadcast on a relay leads to the relay: with `/clock` and any number of
/// slashes more in its path, or in place of a path that is `/`, a URL leads to what it is without
/// them, whatever its path ends in, but for a `file` URL's drive letter. The URL of the relay leads
/// there too, unless its own path names the clock.
pub proof fn law_clock_url_leads_to_its_relay(
    relay: (Seq<char>, Seq<char>, Seq<char>),
    count: nat,
)
    requires
        relay.1.len() > 0,
    ensures
        ({
            let clock = relay_root((relay.0, relay.1 + "/clock"@ + slashes(count), relay.2));
            &&& clock == relay.0 + written_path(relay.0, relay.1) + relay.2
            &&& !(is_file_url(relay.0) && has_drive(relay.1)) ==> clock == relay.0 + relay.1
                + relay.2
            &&& !(is_file_url(relay.0) && has_drive(relay.1)) && !names_clock(relay.1) ==> clock
                == relay_root(relay)
        }),
        relay.1 == "/"@ ==> relay_root((relay.0, "/clock"@ + slashes(count), relay.2)) == relay.0
            + relay.1 + relay.2,
{
    reveal_strlit("/");
    reveal_strlit("clock");
    reveal_strlit("/clock");
    assert("/clock"@ + slashes(count) =~= Seq::<char>::empty() + "/"@ + "clock"@ + slashes(count));
    law_last_segment_decides(Seq::empty(), "clock"@, count);
    assert("/clock"@ =~= "/"@ + "clock"@);
    assert(relay.1 + "/clock"@ =~= relay.1 + "/"@ + "clock"@);
    law_last_segment_decides(relay.1, "clock"@, count);
}

proof fn lemma_trimmed_at(path: Seq<char>, end: int)
    requires
        0 <= end <= path.len(),
        forall|i: int| end <= i < path.len() ==> (#[trigger] path[i]) == '/',
        end > 0 ==> path[end - 1] != '/',
    ensures
        without_trailing_slashes(path) == path.take(end),
    decreases path.len(),
{
    if end < path.len() {
        let less = path.drop_last();
        assert(path.last() == '/');
        lemma_trimmed_at(less, end);
        assert(less.take(end) =~= path.take(end));
    } else {
        assert(path.take(end) =~= path);
    }
}

/// A path is cut exactly if, up to `end`, where the slashes at its end begin, it ends in `/clock`.
/// What stands before that is then the path of the relay, or `/` if nothing does.
pub proof fn law_path_is_cut_before_its_last_clock(path: Seq<char>, end: int)
    requires
        0 <= end <= path.len(),
        forall|i: int| end <= i < path.len() ==> (#[trigger] path[i]) == '/',
        end > 0 ==> path[end - 1] != '/',
    ensures
        root_path(path) == if end >= 6 && path.subrange(end - 6, end) == "/clock"@ {
            Some(
                if end == 6 {
                    "/"@
                } else {
                    path.take(end - 6)
                },
            )
        } else {
            None
        },
{
    lemma_trimmed_at(path, end);
    let trimmed = path.take(end);
    if end >= 6 {
        assert(trimmed.skip(end - 6) =~= path.subrange(end - 6, end));
        assert(trimmed.take(end - 6) =~= path.take(end - 6));
    }
}

/// A text that cannot be parsed leads nowhere, and the cause is told as it is.
pub proof fn law_unparsed_text_leads_nowhere(raw: Seq<char>)
    ensures
        parsed_url(raw) is Err <==> resolved(raw) is Err,
        parsed_url(raw) is Err ==> resolved(raw) == Err::<Seq<char>, RelayError<Seq<char>>>(
            RelayError::InvalidUrl(parsed_url(raw)->Err_0),
        ),
{
}

/// Every text that is parsed leads to the URL it is parsed to, with at most its path changed. Up to
/// `end`, where the slashes at the end of the path begin, the path may end in `/clock`: then what
/// stands before that is left of the path, or `/` if nothing does. Otherwise all is kept.
pub proof fn law_parsed_text_leads_to_its_own_relay(raw: Seq<char>, end: int)
    requires
        parsed_url(raw) is Ok,
        0 <= end <= parsed_url(raw)->Ok_0.1.len(),
        forall|i: int|
            end <= i < parsed_url(raw)->Ok_0.1.len() ==> (#[trigger] parsed_url(raw)->Ok_0.1[i])
                == '/',
        end > 0 ==> parsed_url(raw)->Ok_0.1[end - 1] != '/',
    ensures
        ({
            let (before, path, after) = parsed_url(raw)->Ok_0;
            let cut = end >= 6 && path.subrange(end - 6, end) == "/clock"@;
            &&& !cut ==> resolved(raw) == Ok::<Seq<char>, RelayError<Seq<char>>>(
                before + path + after,
            )
            &&& cut && end == 6 ==> resolved(raw) == Ok::<Seq<char>, RelayError<Seq<char>>>(
                before + "/"@ + after,
            )
            &&& cut && end > 6 && !"file:"@.is_prefix_of(before) ==> resolved(raw) == Ok::<
                Seq<char>,
                RelayError<Seq<char>>,
            >(before + path.take(end - 6) + after)
            &&& cut && end > 6 && "file:"@.is_prefix_of(before) ==> resolved(raw) == Ok::<
                Seq<char>,
                RelayError<Seq<char>>,
            >(before + file_path(path.take(end - 6)) + after)
        }),
{
    let path = parsed_url(raw)->Ok_0.1;
    law_path_is_cut_before_its_last_clock(path, end);
    reveal_strlit("/");
}

/// The same of a URL that has been parsed: at most its path changes.
pub proof fn law_relay_root_keeps_what_is_around_the_path(
    before: Seq<char>,
    path: Seq<char>,
    after: Seq<char>,
    end: int,
)
    requires
        0 <= end <= path.len(),
        forall|i: int| end <= i < path.len() ==> (#[trigger] path[i]) == '/',
        end > 0 ==> path[end - 1] != '/',
    ensures
        ({
            let cut = end >= 6 && path.subrange(end - 6, end) == "/clock"@;
            let root = relay_root((before, path, after));
            &&& !cut ==> root == before + path + after
            &&& cut && end == 6 ==> root == before + "/"@ + after
            &&& cut && end > 6 && !"file:"@.is_prefix_of(before) ==> root == before + path.take(
                end - 6,
            ) + after
            &&& cut && end > 6 && "file:"@.is_prefix_of(before) ==> root == before + file_path(
                path.take(end - 6),
            ) + after
        }),
{
    law_path_is_cut_before_its_last_clock(path, end);
    reveal_strlit("/");
}

proof fn lemma_segment_length(path: Seq<char>, length: int)
    requires
        0 <= length <= path.len(),
        forall|i: int| 0 <= i < length ==> (#[trigger] path[i]) != '/',
        length < path.len() ==> path[length] == '/',
    ensures
        segment_length(path) == length,
    decreases length,
{
    if length > 0 {
        lemma_segment_length(path.skip(1), length - 1);
    }
}

/// Where a path set on a `file` URL is written as it is: everywhere but at its beginning, where a
/// slash, a letter and `|` or `:` make a whole segment. There the character after the letter
/// becomes `:` and nothing else changes, but that behind `:` a segment is left out that is one dot
/// or two, each plain or encoded; `end` is where it ends.
pub proof fn law_file_path_changes_drives_alone(path: Seq<char>, end: int)
    requires
        path.len() >= 4 && path[3] == '/' ==> {
            &&& 4 <= end <= path.len()
            &&& forall|i: int| 4 <= i < end ==> (#[trigger] path[i]) != '/'
            &&& end < path.len() ==> path[end] == '/'
        },
    ensures
        ({
            let letter = path.len() >= 3 && path[0] == '/' && ('a' <= path[1] <= 'z' || 'A'
                <= path[1] <= 'Z') && (path.len() == 3 || path[3] == '/');
            let segment = path.subrange(4, end);
            let dots = segment == "."@ || segment == "%2e"@ || segment == "%2E"@ || segment
                == "."@ + "."@ || segment == "."@ + "%2e"@ || segment == "."@ + "%2E"@ || segment
                == "%2e"@ + "."@ || segment == "%2e"@ + "%2e"@ || segment == "%2e"@ + "%2E"@
                || segment == "%2E"@ + "."@ || segment == "%2E"@ + "%2e"@ || segment == "%2E"@
                + "%2E"@;
            &&& !letter || path[2] != '|' && path[2] != ':' ==> file_path(path) == path
            &&& letter && path[2] == '|' ==> file_path(path) == path.update(2, ':')
            &&& letter && path[2] == ':' && (path.len() == 3 || !dots) ==> file_path(path) == path
            &&& letter && path[2] == ':' && path.len() > 3 && dots ==> file_path(path) == path.take(
                4,
            ) + if end < path.len() {
                path.skip(end + 1)
            } else {
                Seq::empty()
            }
        }),
{
    if path.len() >= 4 && path[3] == '/' {
        let below = path.skip(4);
        let segment = path.subrange(4, end);
        assert forall|i: int| 0 <= i < end - 4 implies (#[trigger] below[i]) != '/' by {
            assert(below[i] == path[i + 4]);
        }
        lemma_segment_length(below, end - 4);
        assert(below.take(end - 4) =~= segment);
        assert(end < path.len() ==> below.skip(end - 3) =~= path.skip(end + 1));
        lemma_dot_segments(segment);
    }
}

proof fn lemma_two_dots(s: Seq<char>, a: Seq<char>, b: Seq<char>)
    requires
        is_dot(a),
        is_dot(b),
        s == a + b,
    ensures
        is_dot_segment(s),
{
    reveal_strlit(".");
    reveal_strlit("%2e");
    reveal_strlit("%2E");
    assert(s.take(a.len() as int) =~= a);
    assert(s.skip(a.len() as int) =~= b);
}

proof fn lemma_dot_segments(s: Seq<char>)
    ensures
        is_dot_segment(s) <==> {
            ||| s == "."@ || s == "%2e"@ || s == "%2E"@
            ||| s == "."@ + "."@ || s == "."@ + "%2e"@ || s == "."@ + "%2E"@
            ||| s == "%2e"@ + "."@ || s == "%2e"@ + "%2e"@ || s == "%2e"@ + "%2E"@
            ||| s == "%2E"@ + "."@ || s == "%2E"@ + "%2e"@ || s == "%2E"@ + "%2E"@
        },
{
    let dots = seq!["."@, "%2e"@, "%2E"@];
    if is_dot_segment(s) && !is_dot(s) {
        let i = choose|i: int|
            0 < i < s.len() && is_dot(#[trigger] s.take(i)) && is_dot(s.skip(i));
        assert(s =~= s.take(i) + s.skip(i));
    }
    assert forall|j: int, k: int|
        0 <= j < 3 && 0 <= k < 3 && s == #[trigger] dots[j] + #[trigger] dots[k] implies
        is_dot_segment(s) by {
        lemma_two_dots(s, dots[j], dots[k]);
    }
    assert(dots[0] == "."@ && dots[1] == "%2e"@ && dots[2] == "%2E"@);
}

/// Only `file` URLs, whose text begins with `file:`, have their paths rewritten.
pub proof fn law_paths_of_other_urls_are_written_as_they_are(before: Seq<char>, path: Seq<char>)
    ensures
        !"file:"@.is_prefix_of(before) ==> written_path(before, path) == path,
        "file:"@.is_prefix_of(before) ==> written_path(before, path) == file_path(path),
{
}

/// Outcomes are seen as they are: a text with its own characters, an error with its own cause.
pub proof fn law_outcomes_are_seen_as_they_are(
    parsed: Result<(String, String, String), String>,
    relay: Result<String, RelayError<String>>,
)
    ensures
        parsed matches Ok(parts) ==> outcome(parsed) == Ok::<
            (Seq<char>, Seq<char>, Seq<char>),
            Seq<char>,
        >((parts.0@, parts.1@, parts.2@)),
        parsed matches Err(cause) ==> outcome(parsed) == Err::<
            (Seq<char>, Seq<char>, Seq<char>),
            Seq<char>,
        >(cause@),
        relay matches Ok(root) ==> resolution(relay) == Ok::<Seq<char>, RelayError<Seq<char>>>(
            root@,
        ),
        relay matches Err(RelayError::InvalidUrl(cause)) ==> resolution(relay) == Err::<
            Seq<char>,
            RelayError<Seq<char>>,
        >(RelayError::InvalidUrl(cause@)),
        relay matches Err(RelayError::MissingUrl) ==> resolution(relay) == Err::<
            Seq<char>,
            RelayError<Seq<char>>,
        >(RelayError::MissingUrl),
{
}

} // verus!
