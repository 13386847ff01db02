//! Character classification, case mapping and the sequence vocabulary
//! (splitting, joining) that the rest of the library is specified with.

use vstd::prelude::*;

verus! {

// ------------------------------------------------------------------
// Unicode properties and case mappings of std's `char`
// ------------------------------------------------------------------

/// Whether `c` has the Unicode `Alphabetic` property (the result of `char::is_alphabetic`).
pub uninterp spec fn is_alphabetic_char(c: char) -> bool;

/// Whether `c` has the Unicode `White_Space` property (the result of `char::is_whitespace`).
pub uninterp spec fn is_whitespace_char(c: char) -> bool;

/// The characters yielded by `char::to_uppercase`.
pub uninterp spec fn upper_of(c: char) -> Seq<char>;

/// The characters yielded by `char::to_lowercase`.
pub uninterp spec fn lower_of(c: char) -> Seq<char>;

/// The text returned by `str::to_lowercase`.
pub uninterp spec fn lowercase_text(s: Seq<char>) -> Seq<char>;

/// Calls `char::is_alphabetic`; the contract claims only that the answer is a
/// function of the character.
#[verifier::external_body]
pub(crate) fn char_is_alphabetic(c: char) -> (r: bool)
    ensures
        r == is_alphabetic_char(c),
{
    c.is_alphabetic()
}

/// Calls `char::is_whitespace`; the answer is a function of the character.
#[verifier::external_body]
pub(crate) fn char_is_whitespace(c: char) -> (r: bool)
    ensures
        r == is_whitespace_char(c),
{
    c.is_whitespace()
}

/// Collects `char::to_uppercase` into a `String`. std documents that the
/// iterator yields one or more characters (the character itself when it has
/// no uppercase mapping), so the result is never empty.
#[verifier::external_body]
pub(crate) fn char_to_uppercase(c: char) -> (r: String)
    ensures
        r@ == upper_of(c),
        r@.len() >= 1,
{
    c.to_uppercase().collect::<String>()
}

/// Collects `char::to_lowercase` into a `String`; as for the uppercase
/// mapping, std documents one or more characters.
#[verifier::external_body]
pub(crate) fn char_to_lowercase(c: char) -> (r: String)
    ensures
        r@ == lower_of(c),
        r@.len() >= 1,
{
    c.to_lowercase().collect::<String>()
}

/// Calls `str::to_lowercase`; the result is a function of the text.
#[verifier::external_body]
pub(crate) fn str_to_lowercase(s: &str) -> (r: String)
    ensures
        r@ == lowercase_text(s@),
{
    s.to_lowercase()
}

/// Calls `String::push`, which appends one character.
#[verifier::external_body]
pub(crate) fn push_char(s: &mut String, c: char)
    ensures
        final(s)@ == old(s)@.push(c),
{
    s.push(c)
}

// ------------------------------------------------------------------
// Sequences of characters
// ------------------------------------------------------------------

/// The characters of `s`, collected into a vector.
pub fn chars_of(s: &str) -> (r: Vec<char>)
    ensures
        r@ == s@,
{
    let mut r: Vec<char> = Vec::new();
    for c in it: s.chars()
        invariant
            r@ == it.seq().take(it.index() as int),
    {
        r.push(c);
    }
    r
}


/// The `White_Space` flag of each character of `s`.
pub open spec fn whitespace_flags(s: Seq<char>) -> Seq<bool> {
    s.map_values(|c: char| is_whitespace_char(c))
}

/// The words of `s` (maximal runs of characters that are not whitespace), as
/// `str::split_whitespace` yields them; `ws[i]` tells whether `s[i]` is
/// whitespace.
pub open spec fn words_by(s: Seq<char>, ws: Seq<bool>) -> Seq<Seq<char>>
    decreases s.len(),
{
    if s.len() == 0 {
        seq![]
    } else {
        let n = s.len() - 1;
        let rest = words_by(s.drop_last(), ws.take(n));
        if ws[n] {
            rest
        } else if n > 0 && !ws[n - 1] {
            rest.update(rest.len() - 1, rest.last().push(s[n]))
        } else {
            rest.push(seq![s[n]])
        }
    }
}

/// The words of `s`, split at Unicode whitespace.
pub open spec fn words(s: Seq<char>) -> Seq<Seq<char>> {
    words_by(s, whitespace_flags(s))
}

/// The number of leading `true` flags.
pub open spec fn leading_count(ws: Seq<bool>) -> nat
    decreases ws.len(),
{
    if ws.len() == 0 || !ws[0] {
        0
    } else {
        1 + leading_count(ws.drop_first())
    }
}

/// The number of trailing `true` flags.
pub open spec fn trailing_count(ws: Seq<bool>) -> nat
    decreases ws.len(),
{
    if ws.len() == 0 || !ws.last() {
        0
    } else {
        1 + trailing_count(ws.drop_last())
    }
}

/// `s` without its leading and trailing whitespace; `ws[i]` tells whether
/// `s[i]` is whitespace.
pub open spec fn trimmed_by(s: Seq<char>, ws: Seq<bool>) -> Seq<char> {
    let lo = leading_count(ws);
    let rest = s.skip(lo as int);
    let rest_ws = ws.skip(lo as int);
    rest.take(rest.len() - trailing_count(rest_ws))
}

/// `s` without its leading and trailing Unicode whitespace, as `str::trim`
/// returns it.
pub open spec fn trimmed(s: Seq<char>) -> Seq<char> {
    trimmed_by(s, whitespace_flags(s))
}

proof fn lemma_leading_count_bound(ws: Seq<bool>)
    ensures
        leading_count(ws) <= ws.len(),
        forall|i: int| 0 <= i < leading_count(ws) ==> ws[i],
        leading_count(ws) < ws.len() ==> !ws[leading_count(ws) as int],
    decreases ws.len(),
{
    if ws.len() > 0 && ws[0] {
        lemma_leading_count_bound(ws.drop_first());
        assert forall|i: int| 0 <= i < leading_count(ws) implies ws[i] by {
            if i > 0 {
                assert(ws[i] == ws.drop_first()[i - 1]);
            }
        }
    }
}

proof fn lemma_trailing_count_bound(ws: Seq<bool>)
    ensures
        trailing_count(ws) <= ws.len(),
        forall|i: int| ws.len() - trailing_count(ws) <= i < ws.len() ==> ws[i],
        trailing_count(ws) < ws.len() ==> !ws[ws.len() - 1 - trailing_count(ws)],
    decreases ws.len(),
{
    if ws.len() > 0 && ws.last() {
        lemma_trailing_count_bound(ws.drop_last());
        assert forall|i: int| ws.len() - trailing_count(ws) <= i < ws.len() implies ws[i] by {
            if i < ws.len() - 1 {
                assert(ws[i] == ws.drop_last()[i]);
            }
        }
    }
}

/// The whitespace flag of each character of `chars`.
pub fn whitespace_of(chars: &Vec<char>) -> (r: Vec<bool>)
    ensures
        r@ == whitespace_flags(chars@),
{
    let mut flags: Vec<bool> = Vec::new();
    let mut i: usize = 0;
    while i < chars.len()
        invariant
            i <= chars.len(),
            flags@ =~= whitespace_flags(chars@).take(i as int),
        decreases chars.len() - i,
    {
        let w = char_is_whitespace(chars[i]);
        flags.push(w);
        i += 1;
    }
    assert(flags@ =~= whitespace_flags(chars@));
    flags
}

/// Splits `chars` into words at the characters flagged as whitespace.
pub fn split_words(chars: &Vec<char>, ws: &Vec<bool>) -> (r: Vec<String>)
    requires
        chars.len() == ws.len(),
    ensures
        r@.map_values(|t: String| t@) == words_by(chars@, ws@),
{
    let mut words: Vec<String> = Vec::new();
    let mut current = String::new();
    let mut in_word = false;
    let mut i: usize = 0;
    while i < chars.len()
        invariant
            i <= chars.len(),
            chars.len() == ws.len(),
            in_word == (i > 0 && !ws@[i - 1]),
            in_word ==> words@.map_values(|t: String| t@).push(current@) == words_by(
                chars@.take(i as int),
                ws@.take(i as int),
            ),
            !in_word ==> words@.map_values(|t: String| t@) == words_by(
                chars@.take(i as int),
                ws@.take(i as int),
            ),
        decreases chars.len() - i,
    {
        assert(chars@.take(i + 1).drop_last() =~= chars@.take(i as int));
        assert(ws@.take(i + 1).take(i as int) =~= ws@.take(i as int));
        let ghost before = words@.map_values(|t: String| t@);
        let c = chars[i];
        if ws[i] {
            if in_word {
                let done = current;
                words.push(done);
                current = String::new();
                assert(words@.map_values(|t: String| t@) =~= before.push(done@));
            }
            in_word = false;
        } else {
            if in_word {
                push_char(&mut current, c);
                assert(before.push(current@) =~= words_by(chars@.take(i + 1), ws@.take(i + 1)));
            } else {
                current = String::new();
                push_char(&mut current, c);
                assert(current@ =~= seq![c]);
                assert(before.push(current@) =~= words_by(chars@.take(i + 1), ws@.take(i + 1)));
            }
            in_word = true;
        }
        i += 1;
    }
    assert(chars@.take(chars.len() as int) =~= chars@);
    assert(ws@.take(ws.len() as int) =~= ws@);
    if in_word {
        let ghost before = words@.map_values(|t: String| t@);
        let last = current;
        words.push(last);
        assert(words@.map_values(|t: String| t@) =~= before.push(last@));
    }
    words
}

/// The words of `s`, as `str::split_whitespace` yields them.
pub fn words_of(s: &str) -> (r: Vec<String>)
    ensures
        r@.map_values(|t: String| t@) == words(s@),
{
    let chars = chars_of(s);
    let ws = whitespace_of(&chars);
    split_words(&chars, &ws)
}

/// `chars[lo..hi]` collected into a string.
pub fn string_from_range(chars: &Vec<char>, lo: usize, hi: usize) -> (r: String)
    requires
        lo <= hi <= chars.len(),
    ensures
        r@ == chars@.subrange(lo as int, hi as int),
{
    let mut r = String::new();
    let mut i = lo;
    while i < hi
        invariant
            lo <= i <= hi <= chars.len(),
            r@ == chars@.subrange(lo as int, i as int),
        decreases hi - i,
    {
        push_char(&mut r, chars[i]);
        assert(r@ =~= chars@.subrange(lo as int, i + 1));
        i += 1;
    }
    r
}

/// Removes the characters flagged as whitespace from both ends of `chars`.
pub fn trim_chars(chars: &Vec<char>, ws: &Vec<bool>) -> (r: String)
    requires
        chars.len() == ws.len(),
    ensures
        r@ == trimmed_by(chars@, ws@),
{
    proof {
        lemma_leading_count_bound(ws@);
    }
    let mut lo: usize = 0;
    while lo < ws.len() && ws[lo]
        invariant
            lo <= ws.len(),
            lo <= leading_count(ws@),
            forall|i: int| 0 <= i < leading_count(ws@) ==> ws@[i],
            leading_count(ws@) <= ws.len(),
            leading_count(ws@) < ws.len() ==> !ws@[leading_count(ws@) as int],
        decreases ws.len() - lo,
    {
        lo += 1;
    }
    assert(lo == leading_count(ws@));
    let ghost rest_ws = ws@.skip(lo as int);
    proof {
        lemma_trailing_count_bound(rest_ws);
    }
    let mut hi: usize = ws.len();
    while hi > lo && ws[hi - 1]
        invariant
            lo <= hi <= ws.len(),
            rest_ws == ws@.skip(lo as int),
            ws.len() - hi <= trailing_count(rest_ws),
            trailing_count(rest_ws) <= rest_ws.len(),
            forall|i: int| rest_ws.len() - trailing_count(rest_ws) <= i < rest_ws.len() ==> rest_ws[i],
            trailing_count(rest_ws) < rest_ws.len() ==> !rest_ws[rest_ws.len() - 1 - trailing_count(rest_ws)],
        decreases hi,
    {
        assert(ws@[hi - 1] == rest_ws[hi - 1 - lo]);
        hi -= 1;
    }
    proof {
        if hi > lo {
            assert(ws@[hi - 1] == rest_ws[hi - 1 - lo]);
        }
    }
    assert(ws.len() - hi == trailing_count(rest_ws));
    let r = string_from_range(chars, lo, hi);
    assert(r@ =~= trimmed_by(chars@, ws@));
    r
}

/// `s` without leading and trailing Unicode whitespace, as `str::trim`
/// returns it.
pub fn trim_text(s: &str) -> (r: String)
    ensures
        r@ == trimmed(s@),
{
    let chars = chars_of(s);
    let ws = whitespace_of(&chars);
    trim_chars(&chars, &ws)
}


/// Whether `s` and `lit` hold the same characters.
pub fn text_is(s: &str, lit: &str) -> (r: bool)
    ensures
        r == (s@ == lit@),
{
    let a = chars_of(s);
    let b = chars_of(lit);
    if a.len() != b.len() {
        return false;
    }
    let mut i: usize = 0;
    while i < a.len()
        invariant
            i <= a.len(),
            a.len() == b.len(),
            a@ == s@,
            b@ == lit@,
            a@.take(i as int) == b@.take(i as int),
        decreases a.len() - i,
    {
        let (x, y) = (a[i], b[i]);
        if x != y {
            assert(a@[i as int] != b@[i as int]);
            assert(a@ != b@);
            return false;
        }
        assert(a@.take(i + 1) =~= a@.take(i as int).push(a@[i as int]));
        assert(b@.take(i + 1) =~= b@.take(i as int).push(b@[i as int]));
        i += 1;
    }
    assert(a@ =~= a@.take(i as int));
    assert(b@ =~= b@.take(i as int));
    true
}

/// Whether two strings hold the same characters.
pub fn same_text(a: &String, b: &String) -> (r: bool)
    ensures
        r == (a@ == b@),
{
    text_is(a.as_str(), b.as_str())
}


/// The decimal digit for `n < 10`.
pub open spec fn digit_char(n: nat) -> char {
    (48 + n) as char
}

/// The decimal representation of `n`, without sign or leading zeros.
pub open spec fn decimal(n: nat) -> Seq<char>
    decreases n,
{
    if n < 10 {
        seq![digit_char(n)]
    } else {
        decimal(n / 10).push(digit_char(n % 10))
    }
}

fn digit_of(d: usize) -> (c: char)
    requires
        d < 10,
    ensures
        c == digit_char(d as nat),
{
    let b: u8 = 48 + d as u8;
    b as char
}

/// `n` in decimal, without sign or leading zeros.
pub(crate) fn usize_to_text(n: usize) -> (r: String)
    ensures
        r@ == decimal(n as nat),
    decreases n,
{
    let d = digit_of(n % 10);
    let mut s = if n < 10 {
        String::new()
    } else {
        usize_to_text(n / 10)
    };
    push_char(&mut s, d);
    s
}

} // verus!
