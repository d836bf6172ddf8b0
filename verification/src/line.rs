//! Typed text: words, numbers and amounts as a person types them.

use vstd::prelude::*;

use crate::text::{all_digits, chars_of, decimal_value, is_digit};

verus! {

/// Unicode's white space.
pub open spec fn is_white(c: char) -> bool {
    ||| '\u{9}' <= c <= '\u{d}'
    ||| c == ' '
    ||| c == '\u{85}'
    ||| c == '\u{a0}'
    ||| c == '\u{1680}'
    ||| '\u{2000}' <= c <= '\u{200a}'
    ||| c == '\u{2028}'
    ||| c == '\u{2029}'
    ||| c == '\u{202f}'
    ||| c == '\u{205f}'
    ||| c == '\u{3000}'
}

pub fn white(c: char) -> (r: bool)
    ensures
        r == is_white(c),
{
    ('\u{9}' <= c && c <= '\u{d}') || c == ' ' || c == '\u{85}' || c == '\u{a0}' || c == '\u{1680}'
        || ('\u{2000}' <= c && c <= '\u{200a}') || c == '\u{2028}' || c == '\u{2029}' || c
        == '\u{202f}' || c == '\u{205f}' || c == '\u{3000}'
}

/// `s` without white space in front.
pub open spec fn trimmed_front(s: Seq<char>) -> Seq<char>
    decreases s.len(),
{
    if s.len() > 0 && is_white(s[0]) {
        trimmed_front(s.skip(1))
    } else {
        s
    }
}

/// `s` without white space behind.
pub open spec fn trimmed_back(s: Seq<char>) -> Seq<char>
    decreases s.len(),
{
    if s.len() > 0 && is_white(s.last()) {
        trimmed_back(s.drop_last())
    } else {
        s
    }
}

/// `s` without white space around it.
pub open spec fn trimmed(s: Seq<char>) -> Seq<char> {
    trimmed_back(trimmed_front(s))
}

/// What comes before the first character `p` holds of, and what comes after it.
pub open spec fn split_once(s: Seq<char>, p: spec_fn(char) -> bool) -> Option<
    (Seq<char>, Seq<char>),
> {
    match crate::rows::first_at(s, p) {
        Some(i) => Some((s.take(i), s.skip(i + 1))),
        None => None,
    }
}

pub open spec fn is_char(c: char) -> spec_fn(char) -> bool {
    |x: char| x == c
}

pub open spec fn is_space() -> spec_fn(char) -> bool {
    |x: char| is_white(x)
}

/// Where the last `c` in the first `n` characters of `s` is.
pub open spec fn last_at(s: Seq<char>, c: char, n: int) -> Option<int>
    decreases n,
{
    if n <= 0 {
        None
    } else if s[n - 1] == c {
        Some(n - 1)
    } else {
        last_at(s, c, n - 1)
    }
}

/// What comes before the last `c`, and what comes after it.
pub open spec fn rsplit_once(s: Seq<char>, c: char) -> Option<(Seq<char>, Seq<char>)> {
    match last_at(s, c, s.len() as int) {
        Some(i) => Some((s.take(i), s.skip(i + 1))),
        None => None,
    }
}

/// How many characters of `s` come before the first white space at or after `from`.
pub open spec fn word_end(s: Seq<char>, from: int) -> int
    decreases s.len() - from,
{
    if from >= s.len() || is_white(s[from]) {
        from
    } else {
        word_end(s, from + 1)
    }
}

/// The words of `s` from `from` on.
pub open spec fn words_from(s: Seq<char>, from: int) -> Seq<Seq<char>>
    decreases s.len() - from,
{
    if from < 0 || from >= s.len() {
        Seq::empty()
    } else if is_white(s[from]) {
        words_from(s, from + 1)
    } else {
        let end = word_end(s, from + 1);
        if from < end <= s.len() {
            seq![s.subrange(from, end)] + words_from(s, end)
        } else {
            Seq::empty()
        }
    }
}

/// The words of `s`: what stands between white space.
pub open spec fn words(s: Seq<char>) -> Seq<Seq<char>> {
    words_from(s, 0)
}

/// What several texts given as characters say.
pub open spec fn lists_view(all: Seq<Vec<char>>) -> Seq<Seq<char>> {
    all.map_values(|v: Vec<char>| v@)
}

/// A copy of part of `s`.
pub fn part(s: &Vec<char>, from: usize, to: usize) -> (r: Vec<char>)
    requires
        from <= to <= s@.len(),
    ensures
        r@ == s@.subrange(from as int, to as int),
{
    let mut r: Vec<char> = Vec::new();
    let mut i: usize = from;
    while i < to
        invariant
            from <= i <= to <= s@.len(),
            r@ == s@.subrange(from as int, i as int),
        decreases to - i,
    {
        r.push(s[i]);
        assert(s@.subrange(from as int, i + 1) =~= s@.subrange(from as int, i as int).push(
            s@[i as int],
        ));
        i = i + 1;
    }
    r
}

/// `s` without white space around it.
pub fn trim(s: &Vec<char>) -> (r: Vec<char>)
    ensures
        r@ == trimmed(s@),
{
    let mut from: usize = 0;
    assert(s@.skip(0) =~= s@);
    while from < s.len() && white(s[from])
        invariant
            from <= s@.len(),
            trimmed_front(s@) == trimmed_front(s@.skip(from as int)),
        decreases s.len() - from,
    {
        assert(s@.skip(from as int).skip(1) =~= s@.skip(from + 1));
        from = from + 1;
    }
    let ghost front = s@.skip(from as int);
    assert(trimmed_front(s@) == front);
    let mut to: usize = s.len();
    assert(s@.subrange(from as int, to as int) =~= front);
    while to > from && white(s[to - 1])
        invariant
            from <= to <= s@.len(),
            front == s@.skip(from as int),
            trimmed_back(front) == trimmed_back(s@.subrange(from as int, to as int)),
        decreases to,
    {
        assert(s@.subrange(from as int, to as int).drop_last() =~= s@.subrange(
            from as int,
            to - 1,
        ));
        to = to - 1;
    }
    part(s, from, to)
}

/// What comes before the first white space, and what comes after it.
pub fn split_at_space(s: &Vec<char>) -> (halves: Option<(Vec<char>, Vec<char>)>)
    ensures
        match halves {
            Some((a, b)) => split_once(s@, is_space()) == Some((a@, b@)),
            None => split_once(s@, is_space()) is None,
        },
{
    let ghost p = is_space();
    let mut i: usize = 0;
    while i < s.len()
        invariant
            i <= s@.len(),
            p == is_space(),
            forall|k: int| 0 <= k < i ==> !p(#[trigger] s@[k]),
        decreases s.len() - i,
    {
        if white(s[i]) {
            proof {
                crate::rows::found_first(s@, p, i as int);
                assert(s@.subrange(0, i as int) =~= s@.take(i as int));
                assert(s@.subrange(i + 1, s@.len() as int) =~= s@.skip(i + 1));
            }
            return Some((part(s, 0, i), part(s, i + 1, s.len())));
        }
        i = i + 1;
    }
    proof {
        crate::rows::found_none(s@, p);
    }
    None
}

/// What comes before the first `c`, and what comes after it.
pub fn split_at_char(s: &Vec<char>, c: char) -> (halves: Option<(Vec<char>, Vec<char>)>)
    ensures
        match halves {
            Some((a, b)) => split_once(s@, is_char(c)) == Some((a@, b@)),
            None => split_once(s@, is_char(c)) is None,
        },
{
    let ghost p = is_char(c);
    let mut i: usize = 0;
    while i < s.len()
        invariant
            i <= s@.len(),
            p == is_char(c),
            forall|k: int| 0 <= k < i ==> !p(#[trigger] s@[k]),
        decreases s.len() - i,
    {
        if s[i] == c {
            proof {
                crate::rows::found_first(s@, p, i as int);
                assert(s@.subrange(0, i as int) =~= s@.take(i as int));
                assert(s@.subrange(i + 1, s@.len() as int) =~= s@.skip(i + 1));
            }
            return Some((part(s, 0, i), part(s, i + 1, s.len())));
        }
        i = i + 1;
    }
    proof {
        crate::rows::found_none(s@, p);
    }
    None
}

/// What comes before the last `c`, and what comes after it.
pub fn rsplit_at_char(s: &Vec<char>, c: char) -> (halves: Option<(Vec<char>, Vec<char>)>)
    ensures
        match halves {
            Some((a, b)) => rsplit_once(s@, c) == Some((a@, b@)),
            None => rsplit_once(s@, c) is None,
        },
{
    let mut n: usize = s.len();
    while n > 0
        invariant
            n <= s@.len(),
            last_at(s@, c, s@.len() as int) == last_at(s@, c, n as int),
        decreases n,
    {
        if s[n - 1] == c {
            assert(s@.subrange(0, n - 1) =~= s@.take(n - 1));
            assert(s@.subrange(n as int, s@.len() as int) =~= s@.skip(n as int));
            return Some((part(s, 0, n - 1), part(s, n, s.len())));
        }
        n = n - 1;
    }
    None
}

proof fn word_ends_within(s: Seq<char>, from: int)
    requires
        0 <= from <= s.len(),
    ensures
        from <= word_end(s, from) <= s.len(),
    decreases s.len() - from,
{
    if from < s.len() && !is_white(s[from]) {
        word_ends_within(s, from + 1);
    }
}

/// The words of `s`.
pub fn split_words(s: &Vec<char>) -> (all: Vec<Vec<char>>)
    ensures
        lists_view(all@) == words(s@),
{
    let mut all: Vec<Vec<char>> = Vec::new();
    let mut i: usize = 0;
    assert(lists_view(all@) + words_from(s@, 0) =~= words(s@));
    while i < s.len()
        invariant
            i <= s@.len(),
            lists_view(all@) + words_from(s@, i as int) == words(s@),
        decreases s.len() - i,
    {
        if white(s[i]) {
            i = i + 1;
        } else {
            let mut end: usize = i + 1;
            proof {
                word_ends_within(s@, i + 1);
            }
            while end < s.len() && !white(s[end])
                invariant
                    i < end <= s@.len(),
                    word_end(s@, i + 1) == word_end(s@, end as int),
                decreases s.len() - end,
            {
                end = end + 1;
            }
            let word = part(s, i, end);
            let ghost before = all@;
            all.push(word);
            proof {
                assert(lists_view(all@) =~= lists_view(before).push(word@));
                assert(words_from(s@, i as int) =~= seq![word@] + words_from(s@, end as int));
                assert(lists_view(all@) + words_from(s@, end as int) =~= lists_view(before)
                    + words_from(s@, i as int));
            }
            i = end;
        }
    }
    assert(words_from(s@, i as int) =~= Seq::empty());
    assert(lists_view(all@) + Seq::<Seq<char>>::empty() =~= lists_view(all@));
    all
}

/// Whether `s` is `text`.
pub fn is_text(s: &Vec<char>, text: &str) -> (r: bool)
    ensures
        r == (s@ == text@),
{
    let other = chars_of(text);
    if s.len() != other.len() {
        return false;
    }
    let mut i: usize = 0;
    while i < s.len()
        invariant
            i <= s@.len(),
            other@ == text@,
            s@.len() == other@.len(),
            forall|k: int| 0 <= k < i ==> s@[k] == other@[k],
        decreases s.len() - i,
    {
        if s[i] != other[i] {
            return false;
        }
        i = i + 1;
    }
    assert(s@ =~= text@);
    true
}

/// What follows `prefix` in `s`, if `s` starts with it.
pub open spec fn after_prefix(s: Seq<char>, prefix: Seq<char>) -> Option<Seq<char>> {
    if prefix.is_prefix_of(s) {
        Some(s.skip(prefix.len() as int))
    } else {
        None
    }
}

/// What follows `prefix` in `s`, if `s` starts with it.
pub fn strip_prefix(s: &Vec<char>, prefix: &str) -> (rest: Option<Vec<char>>)
    ensures
        match rest {
            Some(r) => after_prefix(s@, prefix@) == Some(r@),
            None => after_prefix(s@, prefix@) is None,
        },
{
    let lead = chars_of(prefix);
    if lead.len() > s.len() {
        return None;
    }
    let mut i: usize = 0;
    while i < lead.len()
        invariant
            i <= lead@.len() <= s@.len(),
            lead@ == prefix@,
            forall|k: int| 0 <= k < i ==> lead@[k] == s@[k],
        decreases lead.len() - i,
    {
        if s[i] != lead[i] {
            assert(prefix@[i as int] != s@[i as int]);
            return None;
        }
        i = i + 1;
    }
    assert(prefix@.is_prefix_of(s@)) by {
        assert(prefix@ =~= s@.subrange(0, prefix@.len() as int));
    }
    assert(s@.subrange(i as int, s@.len() as int) =~= s@.skip(i as int));
    Some(part(s, i, s.len()))
}

/// A whole number as typed: digits, perhaps with a plus sign in front.
pub open spec fn whole(s: Seq<char>) -> Option<nat> {
    let digits = if s.len() > 0 && s[0] == '+' {
        s.skip(1)
    } else {
        s
    };
    if digits.len() > 0 && all_digits(digits) {
        Some(decimal_value(digits))
    } else {
        None
    }
}

proof fn more_digits_write_no_less(s: Seq<char>, n: int, m: int)
    requires
        0 <= n <= m <= s.len(),
        all_digits(s),
    ensures
        decimal_value(s.take(n)) <= decimal_value(s.take(m)),
    decreases m - n,
{
    if n < m {
        more_digits_write_no_less(s, n, m - 1);
        assert(s.take(m).drop_last() =~= s.take(m - 1));
        assert(is_digit(s[m - 1]));
    }
}

/// The number `digits` write from `from` on, or `None` if one is no digit, or it is more than
/// `most`.
pub fn read_digits(digits: &Vec<char>, from: usize, most: u128) -> (n: Option<u128>)
    requires
        from <= digits@.len(),
    ensures
        ({
            let typed = digits@.skip(from as int);
            match n {
                Some(n) => all_digits(typed) && n == decimal_value(typed) && n <= most,
                None => !all_digits(typed) || decimal_value(typed) > most,
            }
        }),
{
    let ghost typed = digits@.skip(from as int);
    let mut n: u128 = 0;
    let mut over: bool = false;
    let mut i: usize = from;
    assert(typed.take(0) =~= Seq::empty());
    while i < digits.len()
        invariant
            from <= i <= digits@.len(),
            typed == digits@.skip(from as int),
            forall|k: int| 0 <= k < i - from ==> is_digit(#[trigger] typed[k]),
            n <= most,
            !over ==> n == decimal_value(typed.take(i - from)),
            over ==> decimal_value(typed.take(i - from)) > most,
        decreases digits.len() - i,
    {
        let c = digits[i];
        assert(typed[i - from] == c);
        if !('0' <= c && c <= '9') {
            assert(!is_digit(typed[i - from]));
            return None;
        }
        let d: u128 = (c as u32 - 48) as u128;
        let ghost upto = typed.take(i + 1 - from);
        assert(upto.drop_last() =~= typed.take(i - from));
        assert(upto.last() == c);
        assert(decimal_value(upto) == decimal_value(typed.take(i - from)) * 10 + d);
        if !over {
            if d > most || n > most / 10 || n * 10 > most - d {
                over = true;
                assert(n * 10 + d > most) by {
                    if n > most / 10 {
                        assert(n * 10 > most);
                    }
                }
            } else {
                n = n * 10 + d;
            }
        }
        i = i + 1;
    }
    assert(typed.take(i - from) =~= typed);
    if over {
        None
    } else {
        Some(n)
    }
}

/// A whole number as typed, if it is no more than `most`.
pub fn read_whole(s: &Vec<char>, most: u64) -> (n: Option<u64>)
    ensures
        match n {
            Some(n) => whole(s@) == Some(n as nat) && n <= most,
            None => whole(s@) is None || whole(s@)->0 > most,
        },
{
    let from: usize = if s.len() > 0 && s[0] == '+' {
        1
    } else {
        0
    };
    if from >= s.len() {
        return None;
    }
    assert(s@.skip(0) =~= s@);
    match read_digits(s, from, most as u128) {
        Some(n) => Some(n as u64),
        None => None,
    }
}

/// Whether `s` is digits only.
pub fn only_digits(s: &Vec<char>) -> (r: bool)
    ensures
        r == all_digits(s@),
{
    let mut i: usize = 0;
    while i < s.len()
        invariant
            i <= s@.len(),
            forall|k: int| 0 <= k < i ==> is_digit(#[trigger] s@[k]),
        decreases s.len() - i,
    {
        if !('0' <= s[i] && s[i] <= '9') {
            assert(!is_digit(s@[i as int]));
            return false;
        }
        i = i + 1;
    }
    true
}

/// A place in a numbered list as typed, counted from 1, as an index.
pub open spec fn typed_position(s: Seq<char>) -> Option<int> {
    match whole(trimmed(s)) {
        Some(n) => if 1 <= n <= usize::MAX {
            Some(n - 1)
        } else {
            None
        },
        None => None,
    }
}

/// A place in a numbered list as typed, counted from 1, as an index.
pub fn position(typed: &Vec<char>) -> (index: Option<usize>)
    ensures
        match index {
            Some(i) => typed_position(typed@) == Some(i as int),
            None => typed_position(typed@) is None,
        },
{
    let digits = trim(typed);
    match read_whole(&digits, usize::MAX as u64) {
        Some(n) => if n >= 1 {
            Some((n - 1) as usize)
        } else {
            None
        },
        None => None,
    }
}

} // verus!
