//! Finding the relay URL among the command-line arguments.
//!
//! The URL is the value that follows `--url`, or else the first argument that is not an option.
//! Arguments are scanned one at a time, so none is looked at after the URL has been found.

use crate::text::{begins_with, same_text};
use vstd::prelude::*;

verus! {

/// Whether an argument is an option: whether it begins with `-`.
pub open spec fn is_option(arg: Seq<char>) -> bool {
    arg.len() > 0 && arg[0] == '-'
}

/// Whether an argument settles where the URL is: `--url` announces it, anything but an option
/// is it.
pub open spec fn settles(arg: Seq<char>) -> bool {
    arg == "--url"@ || !is_option(arg)
}

/// The first position from `from` on whose argument settles where the URL is, or the number of
/// arguments.
pub open spec fn settling_position(args: Seq<Seq<char>>, from: int) -> int
    decreases args.len() - from,
{
    if from >= args.len() || settles(args[from]) {
        from
    } else {
        settling_position(args, from + 1)
    }
}

/// The relay URL in a command line, whose first entry is the name of the program.
pub open spec fn url_argument(args: Seq<Seq<char>>) -> Option<Seq<char>> {
    let at = settling_position(args, 1);
    if at >= args.len() {
        None
    } else if args[at] != "--url"@ {
        Some(args[at])
    } else if at + 1 < args.len() {
        Some(args[at + 1])
    } else {
        None
    }
}

/// The arguments as sequences of characters.
pub open spec fn texts(args: Seq<String>) -> Seq<Seq<char>> {
    args.map_values(|arg: String| arg@)
}

/// What the next argument is read as.
#[derive(Clone, Copy, Debug, PartialEq, Eq, Structural)]
pub enum Expecting {
    /// The name of the program.
    Program,
    /// An option, or the URL itself.
    Argument,
    /// The value of `--url`.
    Url,
}

/// What reading one argument led to.
#[derive(Debug)]
pub enum Scan<S> {
    /// The URL has not been found yet.
    Continue(Expecting),
    /// This is the URL.
    Found(S),
}

impl View for Scan<String> {
    type V = Scan<Seq<char>>;

    open spec fn view(&self) -> Scan<Seq<char>> {
        match *self {
            Scan::Continue(expecting) => Scan::Continue(expecting),
            Scan::Found(url) => Scan::Found(url@),
        }
    }
}

/// What reading `arg` leads to.
pub open spec fn scanned(expecting: Expecting, arg: Seq<char>) -> Scan<Seq<char>> {
    match expecting {
        Expecting::Program => Scan::Continue(Expecting::Argument),
        Expecting::Url => Scan::Found(arg),
        Expecting::Argument => if arg == "--url"@ {
            Scan::Continue(Expecting::Url)
        } else if is_option(arg) {
            Scan::Continue(Expecting::Argument)
        } else {
            Scan::Found(arg)
        },
    }
}

/// The URL that scanning `args` from position `from` on arrives at.
pub open spec fn scan_result(
    expecting: Expecting,
    args: Seq<Seq<char>>,
    from: int,
) -> Option<Seq<char>>
    decreases args.len() - from,
{
    if from >= args.len() {
        None
    } else {
        match scanned(expecting, args[from]) {
            Scan::Found(url) => Some(url),
            Scan::Continue(next) => scan_result(next, args, from + 1),
        }
    }
}

/// Reads one argument.
pub fn scan_arg(expecting: Expecting, arg: String) -> (scan: Scan<String>)
    ensures
        scan@ == scanned(expecting, arg@),
{
    match expecting {
        Expecting::Program => Scan::Continue(Expecting::Argument),
        Expecting::Url => Scan::Found(arg),
        Expecting::Argument => if same_text(arg.as_str(), "--url") {
            Scan::Continue(Expecting::Url)
        } else if begins_with(arg.as_str(), '-') {
            Scan::Continue(Expecting::Argument)
        } else {
            Scan::Found(arg)
        },
    }
}

/// The relay URL in a command line, whose first entry is the name of the program.
pub fn find_relay_url(args: &Vec<String>) -> (url: Option<String>)
    ensures
        url is Some <==> url_argument(texts(args@)) is Some,
        url matches Some(text) ==> url_argument(texts(args@)) == Some(text@),
{
    let mut expecting = Expecting::Program;
    let mut i: usize = 0;
    proof {
        law_scanning_finds_the_url_argument(texts(args@));
    }
    while i < args.len()
        invariant
            i <= args@.len(),
            scan_result(expecting, texts(args@), i as int) == url_argument(texts(args@)),
        decreases args@.len() - i,
    {
        match scan_arg(expecting, args[i].clone()) {
            Scan::Found(url) => {
                return Some(url);
            },
            Scan::Continue(next) => {
                expecting = next;
            },
        }
        i += 1;
    }
    None
}

proof fn lemma_scan_from(args: Seq<Seq<char>>, from: int)
    requires
        0 <= from,
    ensures
        scan_result(Expecting::Argument, args, from) == ({
            let at = settling_position(args, from);
            if at >= args.len() {
                None
            } else if args[at] != "--url"@ {
                Some(args[at])
            } else if at + 1 < args.len() {
                Some(args[at + 1])
            } else {
                None
            }
        }),
    decreases args.len() - from,
{
    reveal_with_fuel(scan_result, 3);
    reveal_strlit("--url");
    if from < args.len() && !settles(args[from]) {
        lemma_scan_from(args, from + 1);
    }
}

/// Scanning a command line from its start, one argument after the other, finds the relay URL
/// exactly where it stands in the command line, and finds none exactly where there is none.
pub proof fn law_scanning_finds_the_url_argument(args: Seq<Seq<char>>)
    ensures
        scan_result(Expecting::Program, args, 0) == url_argument(args),
{
    lemma_scan_from(args, 1);
    if args.len() == 0 {
        assert(settling_position(args, 1) == 1);
    }
}

proof fn lemma_options_are_passed_over(args: Seq<Seq<char>>, from: int, to: int)
    requires
        0 <= from <= to <= args.len(),
        forall|i: int| from <= i < to ==> !settles(#[trigger] args[i]),
        to < args.len() ==> settles(args[to]),
    ensures
        settling_position(args, from) == to,
    decreases to - from,
{
    if from < to {
        lemma_options_are_passed_over(args, from + 1, to);
    }
}

/// Options other than `--url` are passed over, and what follows `--url` is the URL, whatever it
/// looks like; arguments behind it are not looked at.
pub proof fn law_url_option(args: Seq<Seq<char>>, at: int)
    requires
        1 <= at < args.len() - 1,
        args[at] == "--url"@,
        forall|i: int| 1 <= i < at ==> !settles(#[trigger] args[i]),
    ensures
        url_argument(args) == Some(args[at + 1]),
{
    lemma_options_are_passed_over(args, 1, at);
}

/// With nothing but options before it, an argument that is no option is the URL.
pub proof fn law_positional_url(args: Seq<Seq<char>>, at: int)
    requires
        1 <= at < args.len(),
        !is_option(args[at]),
        forall|i: int| 1 <= i < at ==> !settles(#[trigger] args[i]),
    ensures
        url_argument(args) == Some(args[at]),
{
    reveal_strlit("--url");
    lemma_options_are_passed_over(args, 1, at);
}

/// A command line of options alone names no URL, and neither does one that ends in `--url`.
pub proof fn law_no_url(args: Seq<Seq<char>>)
    requires
        args.len() >= 1,
        forall|i: int| 1 <= i < args.len() - 1 ==> !settles(#[trigger] args[i]),
        args.len() > 1 ==> is_option(args.last()),
    ensures
        url_argument(args) is None,
{
    if args.len() > 1 && settles(args.last()) {
        lemma_options_are_passed_over(args, 1, args.len() - 1);
    } else {
        lemma_options_are_passed_over(args, 1, args.len() as int);
    }
}

/// Arguments whose first character is a dash are passed over, `--url` aside, and no others: behind
/// any number of them, an argument that is empty or begins with another character is the URL, and
/// `--url` makes the argument that follows it the URL, whatever that is, or there is none if
/// nothing follows.
pub proof fn law_first_argument_without_a_dash_is_the_url(args: Seq<Seq<char>>, at: int)
    requires
        1 <= at < args.len(),
        forall|i: int|
            1 <= i < at ==> (#[trigger] args[i]).len() > 0 && args[i][0] == '-' && args[i]
                != "--url"@,
    ensures
        args[at].len() == 0 || args[at][0] != '-' ==> url_argument(args) == Some(args[at]),
        args[at] == "--url"@ && at + 1 < args.len() ==> url_argument(args) == Some(args[at + 1]),
        args[at] == "--url"@ && at + 1 == args.len() ==> url_argument(args) is None,
{
    reveal_strlit("--url");
    if args[at].len() == 0 || args[at][0] != '-' || args[at] == "--url"@ {
        lemma_options_are_passed_over(args, 1, at);
    }
}

/// Where every argument begins with a dash and none is `--url`, there is no URL, and neither is
/// there one where there are no arguments.
pub proof fn law_dashes_alone_name_no_url(args: Seq<Seq<char>>)
    requires
        forall|i: int|
            1 <= i < args.len() ==> (#[trigger] args[i]).len() > 0 && args[i][0] == '-' && args[i]
                != "--url"@,
    ensures
        url_argument(args) is None,
{
    if args.len() > 1 {
        lemma_options_are_passed_over(args, 1, args.len() as int);
    }
}

proof fn lemma_settling_position_is_local(args: Seq<Seq<char>>, more: Seq<Seq<char>>, from: int)
    requires
        1 <= from,
        settling_position(args, from) < args.len(),
    ensures
        settling_position(args + more, from) == settling_position(args, from),
        from <= settling_position(args, from),
    decreases args.len() - from,
{
    if from < args.len() && !settles(args[from]) {
        lemma_settling_position_is_local(args, more, from + 1);
    }
}

/// What stands behind the URL does not matter: a URL that was found stays found, whatever is
/// added to the command line.
pub proof fn law_later_arguments_do_not_matter(args: Seq<Seq<char>>, more: Seq<Seq<char>>)
    requires
        url_argument(args) is Some,
    ensures
        url_argument(args + more) == url_argument(args),
{
    lemma_settling_position_is_local(args, more, 1);
}

/// A URL that is found is one of the arguments, as it was given; it is not the name of the program.
pub proof fn law_url_is_an_argument(args: Seq<Seq<char>>)
    requires
        url_argument(args) is Some,
    ensures
        args.skip(1).contains(url_argument(args)->Some_0),
{
    lemma_settling_position_is_local(args, Seq::empty(), 1);
    let at = settling_position(args, 1);
    let found = if args[at] == "--url"@ {
        at + 1
    } else {
        at
    };
    assert(args.skip(1)[found - 1] == args[found]);
}

/// Read one after the other, the name of the program is passed over, whatever it is, and so is an
/// argument that begins with a dash; `--url` announces the URL. Any other argument, and any at all
/// behind `--url`, is found to be the URL, just as it stands.
pub proof fn law_arguments_are_told_apart_by_their_first_character(arg: Seq<char>)
    ensures
        scanned(Expecting::Program, arg) == Scan::<Seq<char>>::Continue(Expecting::Argument),
        scanned(Expecting::Url, arg) == Scan::Found(arg),
        arg.len() == 0 || arg[0] != '-' ==> scanned(Expecting::Argument, arg) == Scan::Found(arg),
        arg.len() > 0 && arg[0] == '-' && arg != "--url"@ ==> scanned(Expecting::Argument, arg)
            == Scan::<Seq<char>>::Continue(Expecting::Argument),
        arg == "--url"@ ==> scanned(Expecting::Argument, arg) == Scan::<Seq<char>>::Continue(
            Expecting::Url,
        ),
{
    reveal_strlit("--url");
}

/// A scan is seen as it is, and so is a command line: each argument in its place, with its own
/// characters.
pub proof fn law_arguments_are_seen_as_given(args: Seq<String>, scan: Scan<String>)
    ensures
        texts(args).len() == args.len(),
        forall|i: int| 0 <= i < args.len() ==> #[trigger] texts(args)[i] == args[i]@,
        scan matches Scan::Found(url) ==> scan@ == Scan::Found(url@),
        scan matches Scan::Continue(expecting) ==> scan@ == Scan::<Seq<char>>::Continue(expecting),
{
}

} // verus!
