//! Finding things by what a user typed on the command line: a renderer by its name, the host of
//! an address, and parameters given as pairs.

use vstd::prelude::*;
use vstd::string::*;

use crate::ingest::{equal_but_case, same_but_case};
use crate::line::{is_char, split_at_char, split_once};
use crate::listing::{pad, padded};
use crate::rows::{first_at, found_first, found_none};
use crate::sink::SinkKind;
use crate::text::{chars_of, concat, decimal, number, string_of, texts};
use crate::time::{capped_sum, Duration, Instant, NANOS_PER_MILLI, NANOS_PER_SEC};

verus! {

/// How long a name is looked for, in seconds.
pub const DISCOVERY_WINDOW_SECS: u64 = 5;

/// How long to wait for the list of renderers to change before looking again, in milliseconds.
pub const LOOK_AGAIN_MS: u64 = 250;

/// The port a Chromecast listens on where none is given.
pub const CAST_PORT: u16 = 8009;

/// A renderer as discovery found it.
#[derive(Debug, PartialEq, Eq)]
pub struct Found {
    pub id: String,
    pub name: String,
    pub kind: SinkKind,
    /// Where it listens.
    pub addr: String,
    /// Where it describes itself, if it does.
    pub location: Option<String>,
}

/// A renderer called `target`, whatever the case of its letters.
pub open spec fn is_called(target: Seq<char>) -> spec_fn(Found) -> bool {
    |f: Found| same_but_case(f.name@, target)
}

/// Looking for a renderer by name.
#[derive(Debug, PartialEq, Eq)]
pub struct Lookup {
    pub target: String,
    pub deadline: Instant,
}

/// What comes of a look at the renderers found so far.
#[derive(Debug, PartialEq, Eq)]
pub enum Look {
    /// The one at this place.
    Found(usize),
    /// Wait for the list to change, for so long at most, and look again.
    Wait(Duration),
    /// It was not found in time.
    GiveUp(String),
}

/// Why looking for `target` was given up.
pub open spec fn not_there(target: Seq<char>) -> Seq<char> {
    "no renderer named “"@ + target + "” found; run `canon devices` to list them"@
}

impl Lookup {
    /// Looking for `target` from `now` on.
    pub fn new(target: String, now: Instant) -> (lookup: Lookup)
        ensures
            lookup.target == target,
            lookup.deadline.nanos == capped_sum(
                now.nanos,
                (DISCOVERY_WINDOW_SECS * NANOS_PER_SEC) as u128,
            ),
    {
        Lookup { target, deadline: now.after(Duration::from_secs(DISCOVERY_WINDOW_SECS)) }
    }

    /// Look at the renderers found so far.
    pub fn look(&self, found: &Vec<Found>, now: Instant) -> (look: Look)
        ensures
            match look {
                Look::Found(at) => first_at(found@, is_called(self.target@)) == Some(at as int),
                Look::Wait(wait) => first_at(found@, is_called(self.target@)) is None && now.nanos
                    < self.deadline.nanos && wait.nanos == LOOK_AGAIN_MS * NANOS_PER_MILLI,
                Look::GiveUp(why) => first_at(found@, is_called(self.target@)) is None && now.nanos
                    >= self.deadline.nanos && why@ == not_there(self.target@),
            },
    {
        let ghost p = is_called(self.target@);
        let mut i: usize = 0;
        while i < found.len()
            invariant
                i <= found@.len(),
                p == is_called(self.target@),
                forall|k: int| 0 <= k < i ==> !p(#[trigger] found@[k]),
            decreases found.len() - i,
        {
            if equal_but_case(found[i].name.as_str(), self.target.as_str()) {
                proof {
                    found_first(found@, p, i as int);
                }
                return Look::Found(i);
            }
            i = i + 1;
        }
        proof {
            found_none(found@, p);
        }
        if now.nanos >= self.deadline.nanos {
            let mut why = concat("no renderer named “", self.target.as_str());
            why.append("” found; run `canon devices` to list them");
            Look::GiveUp(why)
        } else {
            Look::Wait(Duration::from_millis(LOOK_AGAIN_MS))
        }
    }
}

/// The name of a kind of output.
pub open spec fn kind_name(kind: SinkKind) -> Seq<char> {
    match kind {
        SinkKind::Local => "Local"@,
        SinkKind::Chromecast => "Chromecast"@,
        SinkKind::Dlna => "Dlna"@,
    }
}

fn name_of_kind(kind: SinkKind) -> (name: &'static str)
    ensures
        name@ == kind_name(kind),
{
    match kind {
        SinkKind::Local => "Local",
        SinkKind::Chromecast => "Chromecast",
        SinkKind::Dlna => "Dlna",
    }
}

/// A renderer: one line, and one more for where it describes itself.
pub open spec fn found_text(found: Found) -> Seq<Seq<char>> {
    let first = "  "@ + padded(kind_name(found.kind), 11) + " "@ + padded(found.name@, 24) + " "@
        + found.addr@ + "  ["@ + found.id@ + "]"@;
    match found.location {
        Some(location) => seq![first, "              described at "@ + location@],
        None => seq![first],
    }
}

/// The renderers found, line by line.
pub open spec fn devices_text(found: Seq<Found>) -> Seq<Seq<char>>
    decreases found.len(),
{
    if found.len() == 0 {
        Seq::empty()
    } else {
        devices_text(found.drop_last()) + found_text(found.last())
    }
}

fn put_found(lines: &mut Vec<String>, found: &Found)
    ensures
        texts(final(lines)@) == texts(old(lines)@) + found_text(*found),
{
    let mut first = concat("  ", pad(name_of_kind(found.kind), 11).as_str());
    first.append(" ");
    first.append(pad(found.name.as_str(), 24).as_str());
    first.append(" ");
    first.append(found.addr.as_str());
    first.append("  [");
    first.append(found.id.as_str());
    first.append("]");
    lines.push(first);
    if let Some(location) = &found.location {
        lines.push(concat("              described at ", location.as_str()));
    }
    assert(texts(lines@) =~= texts(old(lines)@) + found_text(*found));
}

/// What a browse of the network found.
pub fn device_lines(found: &Vec<Found>) -> (lines: Vec<String>)
    ensures
        texts(lines@) == if found@.len() == 0 {
            seq!["no renderers found. check that the device is on and on this LAN subnet."@]
        } else {
            seq!["found "@ + decimal(found@.len()) + " renderer(s):"@] + devices_text(found@)
        },
{
    let mut lines: Vec<String> = Vec::new();
    if found.len() == 0 {
        lines.push(
            "no renderers found. check that the device is on and on this LAN subnet.".to_owned(),
        );
        assert(texts(lines@) =~= seq![
            "no renderers found. check that the device is on and on this LAN subnet."@,
        ]);
        return lines;
    }
    let mut head = concat("found ", number(found.len() as u64).as_str());
    head.append(" renderer(s):");
    lines.push(head);
    let ghost headed = texts(lines@);
    assert(headed =~= seq!["found "@ + decimal(found@.len()) + " renderer(s):"@]);
    let mut i: usize = 0;
    assert(headed + devices_text(found@.take(0)) =~= headed);
    while i < found.len()
        invariant
            i <= found@.len(),
            texts(lines@) == headed + devices_text(found@.take(i as int)),
        decreases found.len() - i,
    {
        put_found(&mut lines, &found[i]);
        assert(found@.take(i + 1).drop_last() =~= found@.take(i as int));
        assert(texts(lines@) =~= headed + devices_text(found@.take(i + 1)));
        i = i + 1;
    }
    assert(found@.take(i as int) =~= found@);
    lines
}

/// What stands between the second and the third slash of `url`: its host.
pub open spec fn host_of(url: Seq<char>) -> Seq<char> {
    match split_once(url, is_char('/')) {
        None => "?"@,
        Some((_, rest)) => match split_once(rest, is_char('/')) {
            None => "?"@,
            Some((_, rest)) => match split_once(rest, is_char('/')) {
                None => rest,
                Some((host, _)) => host,
            },
        },
    }
}

/// The host of `url`, or a question mark.
pub fn host(url: &str) -> (r: String)
    ensures
        r@ == host_of(url@),
{
    match split_at_char(&chars_of(url), '/') {
        None => "?".to_owned(),
        Some((_, rest)) => match split_at_char(&rest, '/') {
            None => "?".to_owned(),
            Some((_, rest)) => match split_at_char(&rest, '/') {
                None => string_of(&rest),
                Some((host, _)) => string_of(&host),
            },
        },
    }
}

/// A name and its value, given as `name=value`.
pub open spec fn is_pair(typed: Seq<char>, pair: (String, String)) -> bool {
    split_once(typed, is_char('=')) == Some((pair.0@, pair.1@))
}

/// The parameters typed, each as `key=value`.
pub fn parameters(typed: &Vec<String>) -> (pairs: Result<Vec<(String, String)>, String>)
    ensures
        match pairs {
            Ok(pairs) => pairs@.len() == typed@.len() && forall|i: int|
                0 <= i < typed@.len() ==> is_pair(typed@[i]@, #[trigger] pairs@[i]),
            Err(why) => why@ == "query parameters are key=value"@ && exists|i: int|
                0 <= i < typed@.len() && split_once(
                    (#[trigger] typed@[i])@,
                    is_char('='),
                ) is None,
        },
{
    let mut pairs: Vec<(String, String)> = Vec::new();
    let mut i: usize = 0;
    while i < typed.len()
        invariant
            i <= typed@.len(),
            pairs@.len() == i,
            forall|k: int| 0 <= k < i ==> is_pair(typed@[k]@, #[trigger] pairs@[k]),
        decreases typed.len() - i,
    {
        match split_at_char(&chars_of(typed[i].as_str()), '=') {
            Some((key, value)) => {
                pairs.push((string_of(&key), string_of(&value)));
            },
            None => {
                assert(split_once(typed@[i as int]@, is_char('=')) is None);
                return Err("query parameters are key=value".to_owned());
            },
        }
        i = i + 1;
    }
    Ok(pairs)
}

/// A name is found whatever the case of its letters.
pub proof fn a_name_is_found_whatever_its_case(found: Seq<Found>, target: Seq<char>, at: int)
    requires
        0 <= at < found.len(),
        same_but_case(found[at].name@, target),
    ensures
        first_at(found, is_called(target)) is Some,
{
    crate::rows::first_at_matches(found, is_called(target));
    assert(is_called(target)(found[at]));
}

} // verus!
