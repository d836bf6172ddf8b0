//! Text: comparing it, joining it, and writing numbers into it.

use vstd::prelude::*;
use vstd::string::*;

verus! {

/// The characters of a text that may be missing.
pub open spec fn opt_text(text: Option<String>) -> Option<Seq<char>> {
    match text {
        Some(t) => Some(t@),
        None => None,
    }
}

/// The characters of each of several texts.
pub open spec fn texts(all: Seq<String>) -> Seq<Seq<char>> {
    all.map_values(|t: String| t@)
}

/// `parts` one after another, with `separator` between each two.
pub open spec fn joined(parts: Seq<Seq<char>>, separator: Seq<char>) -> Seq<char>
    decreases parts.len(),
{
    if parts.len() == 0 {
        Seq::empty()
    } else if parts.len() == 1 {
        parts[0]
    } else {
        joined(parts.drop_last(), separator) + separator + parts.last()
    }
}

/// The decimal digit that stands for `d`.
pub open spec fn digit(d: nat) -> char {
    (48 + d) as char
}

/// `n` in decimal.
pub open spec fn decimal(n: nat) -> Seq<char>
    decreases n,
{
    if n < 10 {
        seq![digit(n)]
    } else {
        decimal(n / 10).push(digit(n % 10))
    }
}

/// The number a sequence of decimal digits writes.
pub open spec fn decimal_value(digits: Seq<char>) -> nat
    decreases digits.len(),
{
    if digits.len() == 0 {
        0
    } else {
        decimal_value(digits.drop_last()) * 10 + (digits.last() as nat - 48) as nat
    }
}

pub open spec fn is_digit(c: char) -> bool {
    '0' <= c <= '9'
}

pub open spec fn all_digits(s: Seq<char>) -> bool {
    forall|i: int| 0 <= i < s.len() ==> is_digit(#[trigger] s[i])
}

/// `String::push`: puts `c` at the end of `s`.
pub assume_specification[ String::push ](s: &mut String, c: char)
    ensures
        final(s)@ == old(s)@.push(c),
;

/// Text quoted and escaped, as `Debug` writes it.
pub uninterp spec fn quoted_text(text: Seq<char>) -> Seq<char>;

/// `format!("{:?}")` of a `str`: the text in double quotes, with what needs it escaped. Which
/// characters those are is not said here; the result depends on the text alone.
#[verifier::external_body]
pub(crate) fn quoted(text: &str) -> (quoted: String)
    ensures
        quoted@ == quoted_text(text@),
{
    format!("{:?}", text)
}

/// Text in lower case.
pub uninterp spec fn lower_text(text: Seq<char>) -> Seq<char>;

/// `str::to_lowercase`: the text with each upper-case character in lower case. Which characters
/// those are is Unicode's to say and not said here; the result depends on the text alone.
#[verifier::external_body]
pub(crate) fn lowered(text: &str) -> (lower: String)
    ensures
        lower@ == lower_text(text@),
{
    text.to_lowercase()
}

/// Whether `a` and `b` hold the same characters.
pub fn same(a: &str, b: &str) -> (r: bool)
    ensures
        r == (a@ == b@),
{
    let left = a.to_owned();
    let right = b.to_owned();
    left == right
}

/// `a` followed by `b`.
pub fn concat(a: &str, b: &str) -> (r: String)
    ensures
        r@ == a@ + b@,
{
    let mut r = a.to_owned();
    r.append(b);
    r
}

/// A copy of `all`, text by text.
pub fn clone_texts(all: &Vec<String>) -> (copy: Vec<String>)
    ensures
        copy@ == all@,
{
    let copy = all.clone();
    assert(copy@ =~= all@) by {
        assert forall|i: int| 0 <= i < all@.len() implies copy@[i] == all@[i] by {
            assert(cloned::<String>(all@[i], copy@[i]));
        }
    }
    copy
}

/// A copy of a text that may be missing.
pub fn clone_opt(text: &Option<String>) -> (copy: Option<String>)
    ensures
        copy == *text,
{
    match text {
        Some(t) => Some(t.clone()),
        None => None,
    }
}

/// Whether two texts that may be missing are the same.
pub fn same_opt(a: &Option<String>, b: &Option<String>) -> (r: bool)
    ensures
        r == (opt_text(*a) == opt_text(*b)),
{
    match (a, b) {
        (Some(x), Some(y)) => *x == *y,
        (None, None) => true,
        _ => false,
    }
}

/// `parts` one after another, with `separator` between each two.
pub fn join(parts: &Vec<String>, separator: &str) -> (r: String)
    ensures
        r@ == joined(texts(parts@), separator@),
{
    let mut r = String::new();
    let mut i: usize = 0;
    while i < parts.len()
        invariant
            i <= parts.len(),
            r@ == joined(texts(parts@.take(i as int)), separator@),
        decreases parts.len() - i,
    {
        let ghost before = texts(parts@.take(i as int));
        let ghost after = texts(parts@.take(i + 1));
        assert(after.drop_last() =~= before);
        assert(after.last() == parts@[i as int]@);
        if i > 0 {
            r.append(separator);
        } else {
            assert(Seq::<char>::empty() + parts@[0]@ =~= parts@[0]@);
        }
        r.append(parts[i].as_str());
        i = i + 1;
    }
    assert(parts@.take(i as int) =~= parts@);
    r
}

/// `n` in decimal.
pub fn number(n: u64) -> (r: String)
    ensures
        r@ == decimal(n as nat),
    decreases n,
{
    let mut r = if n < 10 {
        String::new()
    } else {
        number(n / 10)
    };
    let d: u8 = (n % 10) as u8;
    let c: char = (48 + d) as char;
    r.push(c);
    assert(r@ =~= decimal(n as nat));
    r
}

/// The characters of `s`.
pub fn chars_of(s: &str) -> (chars: Vec<char>)
    ensures
        chars@ == s@,
{
    let mut chars: Vec<char> = Vec::new();
    for c in it: s.chars()
        invariant
            chars@ == it.seq().take(it.index()),
            it.seq() == s@,
    {
        chars.push(c);
        assert(it.seq().take(it.index() + 1) =~= it.seq().take(it.index()).push(c));
    }
    assert(chars@ =~= s@);
    chars
}

/// The text made of `chars`.
pub fn string_of(chars: &Vec<char>) -> (s: String)
    ensures
        s@ == chars@,
{
    let mut s = String::new();
    let mut i: usize = 0;
    while i < chars.len()
        invariant
            i <= chars.len(),
            s@ == chars@.take(i as int),
        decreases chars.len() - i,
    {
        s.push(chars[i]);
        assert(chars@.take(i + 1) =~= chars@.take(i as int).push(chars@[i as int]));
        i = i + 1;
    }
    assert(chars@.take(i as int) =~= chars@);
    s
}

/// Joining one more part puts the separator and the part behind what the others give; one part
/// alone is itself.
pub proof fn joining_one_more(parts: Seq<Seq<char>>, more: Seq<char>, separator: Seq<char>)
    ensures
        joined(Seq::empty(), separator) == Seq::<char>::empty(),
        joined(seq![more], separator) == more,
        parts.len() > 0 ==> joined(parts.push(more), separator) == joined(parts, separator)
            + separator + more,
{
    assert(parts.push(more).drop_last() =~= parts);
}

} // verus!
