//! What a typed line means: how words, numbers and positions are read, and what each verb asks for.

use vstd::prelude::*;

use crate::amount::{sought, typed_volume, whole_seconds_are_read_exactly};
use crate::client::{
    choice_after, chosen_playlist_typed, items_in, named_item, named_items, run_verb,
    two_positions, verb_and_rest, verb_of, About, Ask, ChosenAskView, DeskView, ItemView,
    PlaylistAskView, Transport, TypedView, Verb, With,
};
use crate::id::Service;
use crate::line::{
    is_char, is_space, is_white, last_at, rsplit_once, split_once, trimmed,
    trimmed_back, trimmed_front, typed_position, whole, word_end, words, words_from,
};
use crate::lookup::host_of;
use crate::model::EntityKind;
use crate::protocol::QueueAt;
use crate::rows::{found_first, found_none};
use crate::text::{all_digits, decimal, decimal_value, digit, is_digit};

verus! {

// --- numbers ---

/// A number written out is read back as itself.
pub proof fn a_number_reads_back(n: nat)
    ensures
        decimal(n).len() > 0,
        all_digits(decimal(n)),
        decimal_value(decimal(n)) == n,
        n >= 10 ==> decimal(n).len() >= 2,
        n > 0 ==> decimal(n)[0] != '0',
    decreases n,
{
    if n < 10 {
        assert(decimal(n).drop_last() =~= Seq::empty());
        assert(decimal_value(Seq::empty()) == 0);
        assert(digit(n) as nat == 48 + n);
    } else {
        a_number_reads_back(n / 10);
        assert(decimal(n).drop_last() =~= decimal(n / 10));
        assert(digit(n % 10) as nat == 48 + n % 10);
        assert forall|i: int| 0 <= i < decimal(n).len() implies is_digit(
            #[trigger] decimal(n)[i],
        ) by {
            if i < decimal(n / 10).len() {
                assert(decimal(n)[i] == decimal(n / 10)[i]);
            }
        }
        assert(decimal(n)[0] == decimal(n / 10)[0]);
    }
}

/// Two numbers are written alike only where they are the same.
pub proof fn different_numbers_are_written_differently(n: nat, m: nat)
    requires
        decimal(n) == decimal(m),
    ensures
        n == m,
{
    a_number_reads_back(n);
    a_number_reads_back(m);
}

proof fn digits_are_not_white(s: Seq<char>)
    requires
        all_digits(s),
    ensures
        forall|i: int| 0 <= i < s.len() ==> !is_white(#[trigger] s[i]),
        s.len() > 0 ==> trimmed(s) == s,
{
    assert forall|i: int| 0 <= i < s.len() implies !is_white(#[trigger] s[i]) by {
        assert(is_digit(s[i]));
    }
}

/// A whole number that is typed is the number it writes, with a plus sign or without.
pub proof fn a_typed_number_is_read(n: nat)
    ensures
        whole(decimal(n)) == Some(n),
        whole(seq!['+'] + decimal(n)) == Some(n),
        whole(seq!['-'] + decimal(n)) is None,
{
    a_number_reads_back(n);
    assert(is_digit(decimal(n)[0]));
    assert((seq!['+'] + decimal(n)).skip(1) =~= decimal(n));
    let below = seq!['-'] + decimal(n);
    assert(below[0] == '-');
    assert(!is_digit(below[0]));
}

/// Positions are counted from one where they are typed, and from nought where they are used.
pub proof fn a_typed_position_counts_from_one(n: nat)
    ensures
        1 <= n <= usize::MAX ==> typed_position(decimal(n)) == Some(n - 1),
        n == 0 ==> typed_position(decimal(n)) is None,
{
    a_typed_number_is_read(n);
    a_number_reads_back(n);
    digits_are_not_white(decimal(n));
}

// --- parts of a line ---

/// A text is parted at the first mark in it, and is not where it has none.
pub proof fn a_text_is_parted_at_the_first_mark(before: Seq<char>, mark: char, after: Seq<char>)
    requires
        !before.contains(mark),
    ensures
        split_once(before + seq![mark] + after, is_char(mark)) == Some((before, after)),
        split_once(before, is_char(mark)) is None,
{
    let s = before + seq![mark] + after;
    let p = is_char(mark);
    let n = before.len() as int;
    assert(p(s[n]));
    assert forall|j: int| 0 <= j < n implies !p(#[trigger] s[j]) by {
        assert(before[j] == s[j]);
        assert(before.contains(before[j]));
    }
    found_first(s, p, n);
    assert(s.take(n) =~= before);
    assert(s.skip(n + 1) =~= after);
    assert forall|j: int| 0 <= j < before.len() implies !p(#[trigger] before[j]) by {
        assert(before.contains(before[j]));
    }
    found_none(before, p);
}

proof fn the_last_mark_is_found(before: Seq<char>, mark: char, after: Seq<char>, n: int)
    requires
        !after.contains(mark),
        before.len() < n <= before.len() + 1 + after.len(),
    ensures
        last_at(before + seq![mark] + after, mark, n) == Some(before.len() as int),
    decreases n,
{
    let s = before + seq![mark] + after;
    if n - 1 > before.len() {
        let k = n - 1 - before.len() - 1;
        assert(s[n - 1] == after[k]);
        assert(after.contains(after[k]));
        the_last_mark_is_found(before, mark, after, n - 1);
    }
}

/// Read from the back, a text is parted at the last mark in it.
pub proof fn a_text_is_parted_at_the_last_mark(before: Seq<char>, mark: char, after: Seq<char>)
    requires
        !after.contains(mark),
    ensures
        rsplit_once(before + seq![mark] + after, mark) == Some((before, after)),
{
    let s = before + seq![mark] + after;
    the_last_mark_is_found(before, mark, after, s.len() as int);
    assert(s.take(before.len() as int) =~= before);
    assert(s.skip(before.len() as int + 1) =~= after);
}

proof fn white_in_front_goes(white: Seq<char>, core: Seq<char>)
    requires
        forall|i: int| 0 <= i < white.len() ==> is_white(#[trigger] white[i]),
        core.len() > 0 ==> !is_white(core[0]),
    ensures
        trimmed_front(white + core) == core,
    decreases white.len(),
{
    if white.len() > 0 {
        assert((white + core)[0] == white[0]);
        assert((white + core).skip(1) =~= white.skip(1) + core);
        white_in_front_goes(white.skip(1), core);
    } else {
        assert(white + core =~= core);
    }
}

proof fn white_behind_goes(core: Seq<char>, white: Seq<char>)
    requires
        forall|i: int| 0 <= i < white.len() ==> is_white(#[trigger] white[i]),
        core.len() > 0 ==> !is_white(core.last()),
    ensures
        trimmed_back(core + white) == core,
    decreases white.len(),
{
    if white.len() > 0 {
        assert((core + white).last() == white.last());
        assert(white.last() == white[white.len() - 1]);
        assert((core + white).drop_last() =~= core + white.drop_last());
        white_behind_goes(core, white.drop_last());
    } else {
        assert(core + white =~= core);
    }
}

/// Trimming takes off the white space at both ends and nothing else.
pub proof fn trimming_takes_off_the_white_at_the_ends(
    front: Seq<char>,
    core: Seq<char>,
    back: Seq<char>,
)
    requires
        forall|i: int| 0 <= i < front.len() ==> is_white(#[trigger] front[i]),
        forall|i: int| 0 <= i < back.len() ==> is_white(#[trigger] back[i]),
        core.len() > 0,
        !is_white(core[0]),
        !is_white(core.last()),
    ensures
        trimmed(front + core + back) == core,
{
    assert(front + core + back =~= front + (core + back));
    assert((core + back)[0] == core[0]);
    white_in_front_goes(front, core + back);
    white_behind_goes(core, back);
}

proof fn a_word_ends_at_white(word: Seq<char>, rest: Seq<char>, from: int)
    requires
        forall|i: int| 0 <= i < word.len() ==> !is_white(#[trigger] word[i]),
        rest.len() > 0 ==> is_white(rest[0]),
        0 <= from <= word.len(),
    ensures
        word_end(word + rest, from) == word.len(),
    decreases word.len() - from,
{
    let s = word + rest;
    if from < word.len() {
        assert(s[from] == word[from]);
        a_word_ends_at_white(word, rest, from + 1);
    } else if rest.len() > 0 {
        assert(s[from] == rest[0]);
    }
}

proof fn a_word_ends_alike(s: Seq<char>, off: int, from: int)
    requires
        0 <= off <= s.len(),
        0 <= from,
    ensures
        word_end(s, off + from) == off + word_end(s.skip(off), from),
    decreases s.len() - off - from,
{
    if off + from < s.len() && !is_white(s[off + from]) {
        a_word_ends_alike(s, off, from + 1);
    }
}

proof fn words_follow_alike(s: Seq<char>, off: int, from: int)
    requires
        0 <= off <= s.len(),
        0 <= from,
    ensures
        words_from(s, off + from) == words_from(s.skip(off), from),
    decreases s.len() - off - from,
{
    if off + from < s.len() {
        let t = s.skip(off);
        assert(t[from] == s[off + from]);
        if is_white(s[off + from]) {
            words_follow_alike(s, off, from + 1);
        } else {
            a_word_ends_alike(s, off, from + 1);
            let end = word_end(t, from + 1);
            if from < end <= t.len() {
                words_follow_alike(s, off, end);
                assert(s.subrange(off + from, off + end) =~= t.subrange(from, end));
            }
        }
    }
}

/// The words of a line are what stands between its white space, in order.
pub proof fn words_stand_between_white(word: Seq<char>, gap: char, rest: Seq<char>)
    requires
        is_white(gap),
        word.len() > 0,
        forall|i: int| 0 <= i < word.len() ==> !is_white(#[trigger] word[i]),
    ensures
        words(word) == seq![word],
        words(word + seq![gap] + rest) == seq![word] + words(rest),
        words(seq![gap] + rest) == words(rest),
        words(Seq::empty()) == Seq::<Seq<char>>::empty(),
{
    let n = word.len() as int;
    assert(word + Seq::<char>::empty() =~= word);
    a_word_ends_at_white(word, Seq::empty(), 1);
    assert(!is_white(word[0]));
    assert(word.subrange(0, n) =~= word);
    assert(words_from(word, n) =~= Seq::empty());
    assert(words(word) =~= seq![word]);
    let s = word + seq![gap] + rest;
    assert(s =~= word + (seq![gap] + rest));
    a_word_ends_at_white(word, seq![gap] + rest, 1);
    assert(s[0] == word[0]);
    assert(s.subrange(0, n) =~= word);
    assert(s[n] == gap);
    assert(words_from(s, n) == words_from(s, n + 1));
    words_follow_alike(s, n + 1, 0);
    assert(s.skip(n + 1) =~= rest);
    let t = seq![gap] + rest;
    assert(t[0] == gap);
    words_follow_alike(t, 1, 0);
    assert(t.skip(1) =~= rest);
}

/// The host in an address is what stands between its second and its third slash.
pub proof fn a_host_stands_between_slashes(scheme: Seq<char>, host: Seq<char>, path: Seq<char>)
    requires
        !scheme.contains('/'),
        !host.contains('/'),
    ensures
        host_of(scheme + seq!['/', '/'] + host + seq!['/'] + path) == host,
        host_of(scheme + seq!['/', '/'] + host) == host,
{
    let empty = Seq::<char>::empty();
    let url = scheme + seq!['/', '/'] + host + seq!['/'] + path;
    let rest = host + seq!['/'] + path;
    assert(url =~= scheme + seq!['/'] + (empty + seq!['/'] + rest));
    a_text_is_parted_at_the_first_mark(scheme, '/', empty + seq!['/'] + rest);
    a_text_is_parted_at_the_first_mark(empty, '/', rest);
    a_text_is_parted_at_the_first_mark(host, '/', path);
    let bare = scheme + seq!['/', '/'] + host;
    assert(bare =~= scheme + seq!['/'] + (empty + seq!['/'] + host));
    a_text_is_parted_at_the_first_mark(scheme, '/', empty + seq!['/'] + host);
    a_text_is_parted_at_the_first_mark(empty, '/', host);
}

// --- where to seek to ---

/// Whole seconds typed after a plus sign go that far on, and after a minus sign that far back, but
/// not past the start; without a sign they are where to go.
pub proof fn seconds_are_sought_from_where_the_sign_says(secs: nat, current_ms: u64)
    requires
        secs * 1_000 < 0x20_0000_0000_0000,
    ensures
        sought(decimal(secs), current_ms) == Some((secs * 1_000) as u64),
        current_ms + secs * 1_000 <= u64::MAX ==> sought(
            seq!['+'] + decimal(secs),
            current_ms,
        ) == Some((current_ms + secs * 1_000) as u64),
        current_ms >= secs * 1_000 ==> sought(seq!['-'] + decimal(secs), current_ms) == Some(
            (current_ms - secs * 1_000) as u64,
        ),
        current_ms < secs * 1_000 ==> sought(seq!['-'] + decimal(secs), current_ms) == Some(0u64),
{
    vstd::arithmetic::power2::lemma2_to64_rest();
    a_number_reads_back(secs);
    let s = decimal(secs);
    digits_are_not_white(s);
    whole_seconds_are_read_exactly(s);
    assert(is_digit(s[0]));
    assert(!s.contains(':')) by {
        if s.contains(':') {
            let k = choose|k: int| 0 <= k < s.len() && s[k] == ':';
            assert(is_digit(s[k]));
        }
    }
    a_text_is_parted_at_the_first_mark(s, ':', Seq::empty());
    assert((seq!['+'] + s).skip(1) =~= s);
    assert((seq!['-'] + s).skip(1) =~= s);
}

/// Minutes and seconds are sought as so many minutes of sixty seconds, and so many seconds more.
pub proof fn minutes_and_seconds_are_sought_together(minutes: nat, secs: nat, current_ms: u64)
    requires
        secs * 1_000 < 0x20_0000_0000_0000,
        (minutes * 60 + secs) * 1_000 <= u64::MAX,
    ensures
        sought(decimal(minutes) + seq![':'] + decimal(secs), current_ms) == Some(
            ((minutes * 60 + secs) * 1_000) as u64,
        ),
{
    vstd::arithmetic::power2::lemma2_to64_rest();
    a_number_reads_back(minutes);
    a_number_reads_back(secs);
    a_typed_number_is_read(minutes);
    let m = decimal(minutes);
    let s = decimal(secs);
    digits_are_not_white(m);
    digits_are_not_white(s);
    whole_seconds_are_read_exactly(s);
    assert(!m.contains(':')) by {
        if m.contains(':') {
            let k = choose|k: int| 0 <= k < m.len() && m[k] == ':';
            assert(is_digit(m[k]));
        }
    }
    a_text_is_parted_at_the_first_mark(m, ':', s);
    let typed = m + seq![':'] + s;
    assert(typed[0] == m[0]);
    assert(is_digit(m[0]));
}

// --- what a word names ---

/// A number after a hash names an entry of the last listing, counted from one, and nothing beyond
/// its end.
pub proof fn a_hash_names_an_entry_of_the_listing(n: nat, listing: Seq<ItemView>)
    ensures
        1 <= n <= listing.len() ==> named_item(seq!['#'] + decimal(n), listing) == Some(
            listing[n - 1],
        ),
        n == 0 || n > listing.len() ==> named_item(seq!['#'] + decimal(n), listing) is None,
{
    reveal_strlit("#");
    a_typed_number_is_read(n);
    let word = seq!['#'] + decimal(n);
    assert("#"@ =~= seq!['#']);
    assert("#"@.is_prefix_of(word));
    assert(word.skip(1) =~= decimal(n));
}

/// A bare number names a track on Tidal, unless it is as long as an id of the library's own.
pub proof fn a_bare_number_names_a_track(n: nat, listing: Seq<ItemView>)
    requires
        n < 1_000_000_000_000,
    ensures
        named_item(decimal(n), listing) == Some(
            ItemView::OnService { service: Service::Tidal, id: decimal(n), kind: None },
        ),
{
    reveal_strlit("#");
    reveal_strlit("album:");
    a_number_reads_back(n);
    let word = decimal(n);
    assert(is_digit(word[0]));
    assert("#"@[0] == '#');
    assert("album:"@[0] == 'a');
    assert(!("#"@.is_prefix_of(word)));
    assert(!("album:"@.is_prefix_of(word)));
    digits_hold_no_hyphen(word);
}

proof fn digits_hold_no_hyphen(s: Seq<char>)
    requires
        all_digits(s),
    ensures
        crate::client::count_of(s, '-') == 0,
    decreases s.len(),
{
    if s.len() > 0 {
        assert(is_digit(s[s.len() - 1]));
        assert forall|i: int| 0 <= i < s.drop_last().len() implies is_digit(
            #[trigger] s.drop_last()[i],
        ) by {
            assert(is_digit(s[i]));
        }
        digits_hold_no_hyphen(s.drop_last());
    }
}

/// What follows `album:` names an album on Tidal.
pub proof fn an_album_is_named_by_its_tidal_id(id: Seq<char>, listing: Seq<ItemView>)
    ensures
        named_item("album:"@ + id, listing) == Some(
            ItemView::OnService { service: Service::Tidal, id, kind: Some(EntityKind::Album) },
        ),
{
    reveal_strlit("#");
    reveal_strlit("album:");
    let word = "album:"@ + id;
    assert("album:"@.is_prefix_of(word));
    assert(word.skip(6) =~= id);
    assert(word[0] == 'a');
    assert("#"@[0] == '#');
    assert(!("#"@.is_prefix_of(word)));
}

proof fn each_word_names_an_item(all: Seq<Seq<char>>, listing: Seq<ItemView>, n: int)
    requires
        0 <= n <= all.len(),
    ensures
        named_items(all, listing, n) is Some <==> forall|i: int|
            0 <= i < n ==> named_item(#[trigger] all[i], listing) is Some,
        named_items(all, listing, n) is Some ==> {
            let items = named_items(all, listing, n)->0;
            &&& items.len() == n
            &&& forall|i: int| 0 <= i < n ==> #[trigger] items[i] == named_item(all[i], listing)->0
        },
    decreases n,
{
    if n > 0 {
        each_word_names_an_item(all, listing, n - 1);
        if named_items(all, listing, n) is Some {
            let before = named_items(all, listing, n - 1)->0;
            let items = named_items(all, listing, n)->0;
            assert forall|i: int| 0 <= i < n implies #[trigger] items[i] == named_item(
                all[i],
                listing,
            )->0 by {
                if i < n - 1 {
                    assert(before[i] == named_item(all[i], listing)->0);
                }
            }
        }
        if forall|i: int| 0 <= i < n ==> named_item(#[trigger] all[i], listing) is Some {
            assert(named_item(all[n - 1], listing) is Some);
        }
    }
}

/// The items in a line are what its words name, one each and in order; a word that names nothing
/// spoils the line.
pub proof fn the_words_of_a_line_name_its_items(s: Seq<char>, listing: Seq<ItemView>)
    ensures
        items_in(s, listing) is Some ==> {
            let items = items_in(s, listing)->0;
            &&& items.len() == words(s).len() > 0
            &&& forall|i: int|
                0 <= i < items.len() ==> named_item(words(s)[i], listing) == Some(
                    #[trigger] items[i],
                )
        },
        words(s).len() > 0 && (forall|i: int|
            0 <= i < words(s).len() ==> named_item(#[trigger] words(s)[i], listing) is Some)
            ==> items_in(s, listing) is Some,
{
    let all = words(s);
    each_word_names_an_item(all, listing, all.len() as int);
    if items_in(s, listing) is Some {
        let items = items_in(s, listing)->0;
        assert forall|i: int| 0 <= i < items.len() implies named_item(all[i], listing) == Some(
            #[trigger] items[i],
        ) by {
            assert(named_item(all[i], listing) is Some);
        }
    }
}

/// Two positions typed are where from and where to, each counted from one.
pub proof fn two_typed_positions_are_from_and_to(a: nat, b: nat)
    requires
        1 <= a <= usize::MAX,
        1 <= b <= usize::MAX,
    ensures
        two_positions(decimal(a) + seq![' '] + decimal(b)) == Some((a - 1, b - 1)),
{
    a_number_reads_back(a);
    let typed = decimal(a);
    assert(!typed.contains(' ')) by {
        if typed.contains(' ') {
            let k = choose|k: int| 0 <= k < typed.len() && typed[k] == ' ';
            assert(is_digit(typed[k]));
        }
    }
    a_text_is_parted_at_the_first_mark(typed, ' ', decimal(b));
    a_typed_position_counts_from_one(a);
    a_typed_position_counts_from_one(b);
}

// --- what a line asks for ---

/// The first word of a line is its verb, and what follows, without the white space round it, is
/// what the verb is about.
pub proof fn the_first_word_is_the_verb(
    front: Seq<char>,
    verb: Seq<char>,
    gap: char,
    rest: Seq<char>,
)
    requires
        forall|i: int| 0 <= i < front.len() ==> is_white(#[trigger] front[i]),
        verb.len() > 0,
        forall|i: int| 0 <= i < verb.len() ==> !is_white(#[trigger] verb[i]),
        is_white(gap),
        rest.len() > 0,
        !is_white(rest[0]),
        !is_white(rest.last()),
    ensures
        verb_and_rest(front + verb + seq![gap] + rest) == (verb, rest),
        verb_and_rest(front + verb) == (verb, Seq::<char>::empty()),
{
    let empty = Seq::<char>::empty();
    let line = front + verb + seq![gap] + rest;
    let core = verb + seq![gap] + rest;
    assert(line =~= front + core + empty);
    assert(core[0] == verb[0]);
    assert(core.last() == rest.last());
    trimming_takes_off_the_white_at_the_ends(front, core, empty);
    let p = is_space();
    let n = verb.len() as int;
    assert(p(core[n]));
    assert forall|j: int| 0 <= j < n implies !p(#[trigger] core[j]) by {
        assert(core[j] == verb[j]);
    }
    found_first(core, p, n);
    assert(core.take(n) =~= verb);
    assert(core.skip(n + 1) =~= rest);
    assert(rest =~= empty + rest + empty);
    trimming_takes_off_the_white_at_the_ends(empty, rest, empty);
    assert(front + verb =~= front + verb + empty);
    assert(verb.last() == verb[n - 1]);
    trimming_takes_off_the_white_at_the_ends(front, verb, empty);
    assert forall|j: int| 0 <= j < n implies !p(#[trigger] verb[j]) by {}
    found_none(verb, p);
}

/// What was chosen stays chosen until another playlist is made or used; a rename is taken up, and
/// what is deleted is chosen no more. A request that failed changes nothing.
pub proof fn the_playlist_chosen_follows_what_was_asked(
    chosen: Option<(Seq<char>, Seq<char>)>,
    ask: PlaylistAskView,
    id: Seq<char>,
    name: Seq<char>,
)
    ensures
        choice_after(chosen, ask, None) == chosen,
        ask is New || ask is FromQueue || ask is Use ==> choice_after(
            chosen,
            ask,
            Some((Some(id), Some(name))),
        ) == Some((id, name)),
        ask is List ==> choice_after(chosen, ask, Some((Some(id), Some(name)))) == chosen,
        ask is Chosen && ask->what is Delete ==> choice_after(
            chosen,
            ask,
            Some((Some(id), Some(name))),
        ) is None,
        ask is Chosen && ask->what is Rename ==> choice_after(
            chosen,
            ask,
            Some((Some(id), Some(name))),
        ) == Some((ask->playlist, ask->what->Rename_0)),
        ask is Chosen && !(ask->what is Delete) && !(ask->what is Rename) ==> choice_after(
            chosen,
            ask,
            Some((Some(id), Some(name))),
        ) == chosen,
{
}

// --- what the verbs ask for ---

/// The verbs of the transport ask the player for what they say.
pub proof fn transport_verbs_ask_the_player(desk: DeskView, verb: Seq<char>, rest: Seq<char>)
    ensures
        verb_of(verb) is Pause ==> run_verb(desk, verb, rest) == TypedView::Transport(
            Transport::Pause,
        ),
        verb_of(verb) is Stop ==> run_verb(desk, verb, rest) == TypedView::Transport(
            Transport::Stop,
        ),
        verb_of(verb) is Next ==> run_verb(desk, verb, rest) == TypedView::Transport(
            Transport::Next,
        ),
        verb_of(verb) is Previous ==> run_verb(desk, verb, rest) == TypedView::Transport(
            Transport::Previous,
        ),
        verb_of(verb) is Clear ==> run_verb(desk, verb, rest) == TypedView::Transport(
            Transport::Clear,
        ),
        verb_of(verb) is Mute ==> run_verb(desk, verb, rest) == TypedView::Transport(
            Transport::Muted(true),
        ),
        verb_of(verb) is Unmute ==> run_verb(desk, verb, rest) == TypedView::Transport(
            Transport::Muted(false),
        ),
        verb_of(verb) is Play && rest.len() == 0 ==> run_verb(desk, verb, rest)
            == TypedView::Transport(Transport::Play),
        verb_of(verb) is Seek && sought(rest, desk.position_ms) is Some ==> run_verb(
            desk,
            verb,
            rest,
        ) == TypedView::Transport(Transport::Seek(sought(rest, desk.position_ms)->0)),
        verb_of(verb) is Seek && sought(rest, desk.position_ms) is None ==> run_verb(
            desk,
            verb,
            rest,
        ) is Say,
        verb_of(verb) is Volume && typed_volume(rest, desk.volume) is Some ==> run_verb(
            desk,
            verb,
            rest,
        ) == TypedView::Transport(Transport::Volume(typed_volume(rest, desk.volume)->0)),
{
}

/// The verbs of the queue ask for the positions and the items that were typed.
pub proof fn queue_verbs_ask_for_what_was_typed(desk: DeskView, verb: Seq<char>, rest: Seq<char>)
    ensures
        verb_of(verb) is Jump && typed_position(rest) is Some ==> run_verb(desk, verb, rest)
            == TypedView::Ask(Ask::Jump(typed_position(rest)->0 as usize)),
        verb_of(verb) is Remove && typed_position(rest) is Some ==> run_verb(desk, verb, rest)
            == TypedView::Ask(Ask::Remove(typed_position(rest)->0 as usize)),
        verb_of(verb) is Move && two_positions(rest) is Some ==> run_verb(desk, verb, rest)
            == TypedView::Ask(
            Ask::Move {
                from: (two_positions(rest)->0).0 as usize,
                to: (two_positions(rest)->0).1 as usize,
            },
        ),
        verb_of(verb) is Play && rest.len() > 0 && items_in(rest, desk.listing) is Some ==> run_verb(
            desk,
            verb,
            rest,
        ) == (TypedView::Queue { items: items_in(rest, desk.listing)->0, at: QueueAt::Now }),
        verb_of(verb) is Add && items_in(rest, desk.listing) is Some ==> run_verb(desk, verb, rest)
            == (TypedView::Queue { items: items_in(rest, desk.listing)->0, at: QueueAt::End }),
        verb_of(verb) is PlayNext && items_in(rest, desk.listing) is Some ==> run_verb(
            desk,
            verb,
            rest,
        ) == (TypedView::Queue { items: items_in(rest, desk.listing)->0, at: QueueAt::Next }),
        (verb_of(verb) is Add || verb_of(verb) is PlayNext) && items_in(rest, desk.listing) is None
            ==> run_verb(desk, verb, rest) is Say,
        verb_of(verb) is Shuffle ==> run_verb(desk, verb, rest) == TypedView::Ask(Ask::Shuffle),
        verb_of(verb) is Queue ==> run_verb(desk, verb, rest) == TypedView::Ask(Ask::Queue),
        verb_of(verb) is Sinks ==> run_verb(desk, verb, rest) == TypedView::Ask(Ask::Sinks),
        verb_of(verb) is Settings ==> run_verb(desk, verb, rest) == TypedView::Ask(Ask::Settings),
        verb_of(verb) is Search && rest.len() > 0 ==> run_verb(desk, verb, rest) == (
        TypedView::With { what: With::Search, text: rest }),
        verb_of(verb) is Sink && rest.len() > 0 ==> run_verb(desk, verb, rest) == (TypedView::With {
            what: With::Sink,
            text: rest,
        }),
{
}

/// The verbs about an item are about the one that was named, and of the kind they ask for; without
/// one, saving and radio are about the track that plays.
pub proof fn verbs_are_about_the_item_named(
    desk: DeskView,
    verb: Seq<char>,
    rest: Seq<char>,
    id: Seq<char>,
)
    ensures
        verb_of(verb) is Save && rest.len() == 0 && desk.playing == Some(id) ==> run_verb(
            desk,
            verb,
            rest,
        ) == (TypedView::About { what: About::Save, item: ItemView::Entity(id) }),
        verb_of(verb) is Unsave && rest.len() == 0 && desk.playing == Some(id) ==> run_verb(
            desk,
            verb,
            rest,
        ) == (TypedView::About { what: About::Unsave, item: ItemView::Entity(id) }),
        verb_of(verb) is Radio && rest.len() == 0 && desk.playing == Some(id) ==> run_verb(
            desk,
            verb,
            rest,
        ) == (TypedView::About { what: About::Radio, item: ItemView::Entity(id) }),
        verb_of(verb) is Save && rest.len() > 0 && named_item(rest, desk.listing) is Some
            ==> run_verb(desk, verb, rest) == (TypedView::About {
            what: About::Save,
            item: named_item(rest, desk.listing)->0,
        }),
        verb_of(verb) is Radio && rest.len() > 0 && named_item(rest, desk.listing) is Some
            ==> run_verb(desk, verb, rest) == (TypedView::About {
            what: About::Radio,
            item: named_item(rest, desk.listing)->0,
        }),
        verb_of(verb) is Album && named_item(rest, desk.listing) == Some(ItemView::Entity(id))
            ==> run_verb(desk, verb, rest) == (TypedView::About {
            what: About::Album,
            item: ItemView::Entity(id),
        }),
        verb_of(verb) is Artist && named_item(rest, desk.listing) == Some(
            ItemView::OnService { service: Service::Tidal, id, kind: None },
        ) ==> run_verb(desk, verb, rest) == (TypedView::About {
            what: About::Artist,
            item: ItemView::OnService {
                service: Service::Tidal,
                id,
                kind: Some(EntityKind::Artist),
            },
        }),
        verb_of(verb) is Album && named_item(rest, desk.listing) == Some(
            ItemView::OnService { service: Service::Tidal, id, kind: None },
        ) ==> run_verb(desk, verb, rest) == (TypedView::About {
            what: About::Album,
            item: ItemView::OnService { service: Service::Tidal, id, kind: Some(EntityKind::Album) },
        }),
{
}

/// What is done to the playlist chosen is what was typed of it.
pub proof fn a_chosen_playlist_is_edited_as_typed(desk: DeskView, rest: Seq<char>)
    ensures
        chosen_playlist_typed(desk, "show"@, rest) == Ok::<ChosenAskView, Seq<char>>(
            ChosenAskView::Show,
        ),
        chosen_playlist_typed(desk, "play"@, rest) == Ok::<ChosenAskView, Seq<char>>(
            ChosenAskView::Play,
        ),
        items_in(rest, desk.listing) is Some ==> chosen_playlist_typed(desk, "add"@, rest) == Ok::<
            ChosenAskView,
            Seq<char>,
        >(ChosenAskView::Add(items_in(rest, desk.listing)->0)),
        typed_position(rest) is Some ==> chosen_playlist_typed(desk, "rm"@, rest) == Ok::<
            ChosenAskView,
            Seq<char>,
        >(ChosenAskView::Remove(typed_position(rest)->0)),
        two_positions(rest) is Some ==> chosen_playlist_typed(desk, "mv"@, rest) == Ok::<
            ChosenAskView,
            Seq<char>,
        >(
            ChosenAskView::Move {
                from: (two_positions(rest)->0).0,
                to: (two_positions(rest)->0).1,
            },
        ),
        rest.len() > 0 ==> chosen_playlist_typed(desk, "rename"@, rest) == Ok::<
            ChosenAskView,
            Seq<char>,
        >(ChosenAskView::Rename(rest)),
        chosen_playlist_typed(desk, "delete"@, rest) == Ok::<ChosenAskView, Seq<char>>(
            ChosenAskView::Delete,
        ),
{
    reveal_strlit("show");
    reveal_strlit("play");
    reveal_strlit("add");
    reveal_strlit("rm");
    reveal_strlit("mv");
    reveal_strlit("rename");
    reveal_strlit("delete");
    assert("show"@.len() == 4);
    assert("show"@[0] == 's');
    assert("play"@.len() == 4);
    assert("play"@[0] == 'p');
    assert("add"@.len() == 3);
    assert("rm"@.len() == 2);
    assert("rm"@[0] == 'r');
    assert("mv"@.len() == 2);
    assert("mv"@[0] == 'm');
    assert("rename"@.len() == 6);
    assert("rename"@[0] == 'r');
    assert("delete"@.len() == 6);
    assert("delete"@[0] == 'd');
}

/// Each verb is read by its name, and by the names it also goes by.
#[verifier::rlimit(60)]
pub proof fn verbs_are_read_by_name()
    ensures
        verb_of("quit"@) == Verb::Quit,
        verb_of("exit"@) == Verb::Quit,
        verb_of("q"@) == Verb::Quit,
        verb_of("help"@) == Verb::Help,
        verb_of("?"@) == Verb::Help,
        verb_of("play"@) == Verb::Play,
        verb_of("add"@) == Verb::Add,
        verb_of("enqueue"@) == Verb::Add,
        verb_of("playnext"@) == Verb::PlayNext,
        verb_of("next-up"@) == Verb::PlayNext,
        verb_of("jump"@) == Verb::Jump,
        verb_of("rm"@) == Verb::Remove,
        verb_of("remove"@) == Verb::Remove,
        verb_of("mv"@) == Verb::Move,
        verb_of("move"@) == Verb::Move,
        verb_of("search"@) == Verb::Search,
        verb_of("find"@) == Verb::Search,
        verb_of("album"@) == Verb::Album,
        verb_of("artist"@) == Verb::Artist,
        verb_of("playfrom"@) == Verb::PlayFrom,
        verb_of("radio"@) == Verb::Radio,
        verb_of("similar"@) == Verb::Similar,
        verb_of("mixes"@) == Verb::Mixes,
        verb_of("mix"@) == Verb::Mix,
        verb_of("autoplay"@) == Verb::Autoplay,
        verb_of("spotify-app"@) == Verb::SpotifyApp,
        verb_of("save"@) == Verb::Save,
        verb_of("unsave"@) == Verb::Unsave,
        verb_of("library"@) == Verb::Library,
        verb_of("lib"@) == Verb::Library,
        verb_of("pl"@) == Verb::Playlist,
        verb_of("playlist"@) == Verb::Playlist,
        verb_of("services"@) == Verb::Services,
        verb_of("connect"@) == Verb::Connect,
        verb_of("disconnect"@) == Verb::Disconnect,
        verb_of("import"@) == Verb::Import,
        verb_of("shuffle"@) == Verb::Shuffle,
        verb_of("repeat"@) == Verb::Repeat,
        verb_of("pause"@) == Verb::Pause,
        verb_of("stop"@) == Verb::Stop,
        verb_of("next"@) == Verb::Next,
        verb_of("prev"@) == Verb::Previous,
        verb_of("previous"@) == Verb::Previous,
        verb_of("clear"@) == Verb::Clear,
        verb_of("mute"@) == Verb::Mute,
        verb_of("unmute"@) == Verb::Unmute,
        verb_of("seek"@) == Verb::Seek,
        verb_of("vol"@) == Verb::Volume,
        verb_of("volume"@) == Verb::Volume,
        verb_of("sinks"@) == Verb::Sinks,
        verb_of("queue"@) == Verb::Queue,
        verb_of("settings"@) == Verb::Settings,
        verb_of("mode"@) == Verb::Mode,
        verb_of("sink"@) == Verb::Sink,
        verb_of("status"@) == Verb::Status,
        verb_of("sleep"@) == Verb::Sleep,
        verb_of("watch"@) == Verb::Sleep,
{
    reveal_strlit("");
    reveal_strlit("#");
    reveal_strlit("quit");
    reveal_strlit("exit");
    reveal_strlit("q");
    reveal_strlit("help");
    reveal_strlit("?");
    reveal_strlit("play");
    reveal_strlit("add");
    reveal_strlit("enqueue");
    reveal_strlit("playnext");
    reveal_strlit("next-up");
    reveal_strlit("jump");
    reveal_strlit("rm");
    reveal_strlit("remove");
    reveal_strlit("mv");
    reveal_strlit("move");
    reveal_strlit("search");
    reveal_strlit("find");
    reveal_strlit("album");
    reveal_strlit("artist");
    reveal_strlit("playfrom");
    reveal_strlit("radio");
    reveal_strlit("similar");
    reveal_strlit("mixes");
    reveal_strlit("mix");
    reveal_strlit("autoplay");
    reveal_strlit("spotify-app");
    reveal_strlit("save");
    reveal_strlit("unsave");
    reveal_strlit("library");
    reveal_strlit("lib");
    reveal_strlit("pl");
    reveal_strlit("playlist");
    reveal_strlit("services");
    reveal_strlit("connect");
    reveal_strlit("disconnect");
    reveal_strlit("import");
    reveal_strlit("shuffle");
    reveal_strlit("repeat");
    reveal_strlit("pause");
    reveal_strlit("stop");
    reveal_strlit("next");
    reveal_strlit("prev");
    reveal_strlit("previous");
    reveal_strlit("clear");
    reveal_strlit("mute");
    reveal_strlit("unmute");
    reveal_strlit("seek");
    reveal_strlit("vol");
    reveal_strlit("volume");
    reveal_strlit("sinks");
    reveal_strlit("queue");
    reveal_strlit("settings");
    reveal_strlit("mode");
    reveal_strlit("sink");
    reveal_strlit("status");
    reveal_strlit("sleep");
    reveal_strlit("watch");
    assert(""@.len() == 0);
    assert("#"@.len() == 1);
    assert("#"@[0] == '#');
    assert("quit"@.len() == 4);
    assert("quit"@[0] == 'q');
    assert("exit"@.len() == 4);
    assert("exit"@[0] == 'e');
    assert("q"@.len() == 1);
    assert("q"@[0] == 'q');
    assert("help"@.len() == 4);
    assert("help"@[0] == 'h');
    assert("?"@.len() == 1);
    assert("?"@[0] == '?');
    assert("play"@.len() == 4);
    assert("play"@[0] == 'p');
    assert("play"@[1] == 'l');
    assert("add"@.len() == 3);
    assert("add"@[0] == 'a');
    assert("enqueue"@.len() == 7);
    assert("enqueue"@[0] == 'e');
    assert("playnext"@.len() == 8);
    assert("playnext"@[0] == 'p');
    assert("playnext"@[1] == 'l');
    assert("playnext"@[4] == 'n');
    assert("next-up"@.len() == 7);
    assert("next-up"@[0] == 'n');
    assert("jump"@.len() == 4);
    assert("jump"@[0] == 'j');
    assert("rm"@.len() == 2);
    assert("rm"@[0] == 'r');
    assert("remove"@.len() == 6);
    assert("remove"@[0] == 'r');
    assert("remove"@[2] == 'm');
    assert("mv"@.len() == 2);
    assert("mv"@[0] == 'm');
    assert("move"@.len() == 4);
    assert("move"@[0] == 'm');
    assert("move"@[1] == 'o');
    assert("move"@[2] == 'v');
    assert("search"@.len() == 6);
    assert("search"@[0] == 's');
    assert("search"@[1] == 'e');
    assert("find"@.len() == 4);
    assert("find"@[0] == 'f');
    assert("album"@.len() == 5);
    assert("album"@[0] == 'a');
    assert("artist"@.len() == 6);
    assert("artist"@[0] == 'a');
    assert("playfrom"@.len() == 8);
    assert("playfrom"@[0] == 'p');
    assert("playfrom"@[1] == 'l');
    assert("playfrom"@[4] == 'f');
    assert("radio"@.len() == 5);
    assert("radio"@[0] == 'r');
    assert("similar"@.len() == 7);
    assert("similar"@[0] == 's');
    assert("similar"@[1] == 'i');
    assert("mixes"@.len() == 5);
    assert("mixes"@[0] == 'm');
    assert("mix"@.len() == 3);
    assert("mix"@[0] == 'm');
    assert("autoplay"@.len() == 8);
    assert("autoplay"@[0] == 'a');
    assert("spotify-app"@.len() == 11);
    assert("save"@.len() == 4);
    assert("save"@[0] == 's');
    assert("save"@[1] == 'a');
    assert("unsave"@.len() == 6);
    assert("unsave"@[0] == 'u');
    assert("unsave"@[2] == 's');
    assert("library"@.len() == 7);
    assert("library"@[0] == 'l');
    assert("lib"@.len() == 3);
    assert("lib"@[0] == 'l');
    assert("pl"@.len() == 2);
    assert("pl"@[0] == 'p');
    assert("playlist"@.len() == 8);
    assert("playlist"@[0] == 'p');
    assert("playlist"@[1] == 'l');
    assert("playlist"@[4] == 'l');
    assert("services"@.len() == 8);
    assert("services"@[0] == 's');
    assert("services"@[2] == 'r');
    assert("connect"@.len() == 7);
    assert("connect"@[0] == 'c');
    assert("disconnect"@.len() == 10);
    assert("import"@.len() == 6);
    assert("import"@[0] == 'i');
    assert("shuffle"@.len() == 7);
    assert("shuffle"@[0] == 's');
    assert("shuffle"@[1] == 'h');
    assert("repeat"@.len() == 6);
    assert("repeat"@[0] == 'r');
    assert("repeat"@[2] == 'p');
    assert("pause"@.len() == 5);
    assert("pause"@[0] == 'p');
    assert("stop"@.len() == 4);
    assert("stop"@[0] == 's');
    assert("stop"@[1] == 't');
    assert("next"@.len() == 4);
    assert("next"@[0] == 'n');
    assert("prev"@.len() == 4);
    assert("prev"@[0] == 'p');
    assert("prev"@[1] == 'r');
    assert("previous"@.len() == 8);
    assert("previous"@[0] == 'p');
    assert("previous"@[1] == 'r');
    assert("clear"@.len() == 5);
    assert("clear"@[0] == 'c');
    assert("mute"@.len() == 4);
    assert("mute"@[0] == 'm');
    assert("mute"@[1] == 'u');
    assert("unmute"@.len() == 6);
    assert("unmute"@[0] == 'u');
    assert("unmute"@[2] == 'm');
    assert("seek"@.len() == 4);
    assert("seek"@[0] == 's');
    assert("seek"@[1] == 'e');
    assert("vol"@.len() == 3);
    assert("vol"@[0] == 'v');
    assert("volume"@.len() == 6);
    assert("volume"@[0] == 'v');
    assert("sinks"@.len() == 5);
    assert("sinks"@[0] == 's');
    assert("sinks"@[1] == 'i');
    assert("queue"@.len() == 5);
    assert("queue"@[0] == 'q');
    assert("settings"@.len() == 8);
    assert("settings"@[0] == 's');
    assert("settings"@[2] == 't');
    assert("mode"@.len() == 4);
    assert("mode"@[0] == 'm');
    assert("mode"@[1] == 'o');
    assert("mode"@[2] == 'd');
    assert("sink"@.len() == 4);
    assert("sink"@[0] == 's');
    assert("sink"@[1] == 'i');
    assert("status"@.len() == 6);
    assert("status"@[0] == 's');
    assert("status"@[1] == 't');
    assert("sleep"@.len() == 5);
    assert("sleep"@[0] == 's');
    assert("sleep"@[1] == 'l');
    assert("watch"@.len() == 5);
    assert("watch"@[0] == 'w');
}

} // verus!
