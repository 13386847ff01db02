//! String normalization utilities for Bookweald.
//!
//! Cleans names extracted from FB2 files (especially Russian books) for
//! stable `Person.id` / `Book.id` generation and filesystem-safe names.

use vstd::prelude::*;

use crate::text::{
    char_is_alphabetic, char_to_lowercase, char_to_uppercase, chars_of, is_alphabetic_char,
    lower_of, push_char, upper_of,
};

verus! {

// ------------------------------------------------------------------
// Specification
// ------------------------------------------------------------------

/// What one character becomes in a cleaned chunk: `Ё` and `ё` become `е`,
/// other alphabetic characters stay, everything else is dropped.
pub open spec fn kept_char(c: char, alphabetic: bool) -> Option<char> {
    if c == 'Ё' || c == 'ё' {
        Some('е')
    } else if alphabetic {
        Some(c)
    } else {
        None
    }
}

/// The cleaned characters of `s`, where `alphabetic[i]` tells whether `s[i]`
/// is alphabetic.
pub open spec fn letters_by(s: Seq<char>, alphabetic: Seq<bool>) -> Seq<char>
    decreases s.len(),
{
    if s.len() == 0 {
        seq![]
    } else {
        let rest = letters_by(s.drop_last(), alphabetic.take(s.len() - 1));
        match kept_char(s.last(), alphabetic[s.len() - 1]) {
            Some(c) => rest.push(c),
            None => rest,
        }
    }
}

/// The Unicode `Alphabetic` flag of each character of `s`.
pub open spec fn alphabetic_flags(s: Seq<char>) -> Seq<bool> {
    s.map_values(|c: char| is_alphabetic_char(c))
}

/// The cleaned characters of `s`: letters only, with `Ё`/`ё` folded to `е`.
pub open spec fn letters(s: Seq<char>) -> Seq<char> {
    letters_by(s, alphabetic_flags(s))
}

/// The concatenation of the pieces of `parts`.
pub open spec fn concat_all(parts: Seq<Seq<char>>) -> Seq<char>
    decreases parts.len(),
{
    if parts.len() == 0 {
        seq![]
    } else {
        concat_all(parts.drop_last()) + parts.last()
    }
}

/// The lowercase mapping of each character of `s`, concatenated.
pub open spec fn lowered(s: Seq<char>) -> Seq<char> {
    concat_all(s.map_values(|c: char| lower_of(c)))
}

/// Title case of a non-empty `s`: the uppercase mapping of its first
/// character followed by the lowercase mapping of the others.
pub open spec fn title_cased(s: Seq<char>) -> Seq<char> {
    upper_of(s[0]) + lowered(s.drop_first())
}

/// What `normalize_chunk` returns for the characters `s`.
pub open spec fn spec_normalize_chunk(s: Seq<char>) -> Option<Seq<char>> {
    let l = letters(s);
    if l.len() == 0 {
        None
    } else {
        Some(title_cased(l))
    }
}

/// Whether `s` holds a character that survives cleaning.
pub open spec fn has_letter(s: Seq<char>) -> bool {
    exists|i: int| 0 <= i < s.len() && (s[i] == 'Ё' || s[i] == 'ё' || is_alphabetic_char(s[i]))
}

/// The pieces of `s` between occurrences of `sep` (as `str::split` yields them):
/// one piece more than there are separators.
pub open spec fn split_on(s: Seq<char>, sep: char) -> Seq<Seq<char>>
    decreases s.len(),
{
    if s.len() == 0 {
        seq![seq![]]
    } else {
        let rest = split_on(s.drop_last(), sep);
        if s.last() == sep {
            rest.push(seq![])
        } else {
            rest.update(rest.len() - 1, rest.last().push(s.last()))
        }
    }
}

/// `parts` joined with `sep` between consecutive parts.
pub open spec fn join_with(parts: Seq<Seq<char>>, sep: Seq<char>) -> Seq<char>
    decreases parts.len(),
{
    if parts.len() == 0 {
        seq![]
    } else if parts.len() == 1 {
        parts[0]
    } else {
        join_with(parts.drop_last(), sep) + sep + parts.last()
    }
}

/// The normalized chunks of `pieces`, in order, leaving out those that
/// normalize to nothing.
pub open spec fn surviving_chunks(pieces: Seq<Seq<char>>) -> Seq<Seq<char>>
    decreases pieces.len(),
{
    if pieces.len() == 0 {
        seq![]
    } else {
        let rest = surviving_chunks(pieces.drop_last());
        match spec_normalize_chunk(pieces.last()) {
            Some(c) => rest.push(c),
            None => rest,
        }
    }
}

/// What `normalize_name` returns for the characters `s`.
pub open spec fn spec_normalize_name(s: Seq<char>) -> Option<Seq<char>> {
    let joined = join_with(surviving_chunks(split_on(s, '-')), seq!['-']);
    if joined.len() == 0 {
        None
    } else {
        Some(joined)
    }
}

// ------------------------------------------------------------------
// Lemmas
// ------------------------------------------------------------------

proof fn lemma_letters_by_empty_iff(s: Seq<char>, alphabetic: Seq<bool>)
    requires
        alphabetic.len() == s.len(),
    ensures
        (letters_by(s, alphabetic).len() == 0) <==> !(exists|i: int|
            0 <= i < s.len() && (s[i] == 'Ё' || s[i] == 'ё' || alphabetic[i])),
    decreases s.len(),
{
    if s.len() > 0 {
        let s0 = s.drop_last();
        let a0 = alphabetic.take(s.len() - 1);
        lemma_letters_by_empty_iff(s0, a0);
        if exists|i: int| 0 <= i < s.len() && (s[i] == 'Ё' || s[i] == 'ё' || alphabetic[i]) {
            let i = choose|i: int| 0 <= i < s.len() && (s[i] == 'Ё' || s[i] == 'ё' || alphabetic[i]);
            if i < s.len() - 1 {
                assert(s0[i] == s[i] && a0[i] == alphabetic[i]);
            }
        } else {
            assert forall|i: int| 0 <= i < s0.len() implies !(s0[i] == 'Ё' || s0[i] == 'ё'
                || a0[i]) by {
                assert(s0[i] == s[i] && a0[i] == alphabetic[i]);
            }
        }
    }
}

/// A string normalizes to a chunk exactly when it holds a letter (an
/// alphabetic character, or `Ё`/`ё`).
pub proof fn lemma_chunk_some_iff_letter(s: Seq<char>)
    ensures
        spec_normalize_chunk(s) is Some <==> has_letter(s),
{
    lemma_letters_by_empty_iff(s, alphabetic_flags(s));
}

/// Splitting yields at least one piece.
pub proof fn lemma_split_on_nonempty(s: Seq<char>, sep: char)
    ensures
        split_on(s, sep).len() >= 1,
    decreases s.len(),
{
    if s.len() > 0 {
        lemma_split_on_nonempty(s.drop_last(), sep);
    }
}

proof fn lemma_join_empty_iff(parts: Seq<Seq<char>>, sep: Seq<char>)
    requires
        sep.len() >= 1,
        forall|i: int| 0 <= i < parts.len() ==> #[trigger] parts[i].len() >= 1,
    ensures
        (join_with(parts, sep).len() == 0) <==> parts.len() == 0,
    decreases parts.len(),
{
    if parts.len() > 1 {
        lemma_join_empty_iff(parts.drop_last(), sep);
    }
}


/// The view of an optional string.
pub open spec fn opt_view(o: Option<String>) -> Option<Seq<char>> {
    match o {
        Some(t) => Some(t@),
        None => None,
    }
}

/// The views of a sequence of strings.
pub open spec fn views(parts: Seq<String>) -> Seq<Seq<char>> {
    parts.map_values(|t: String| t@)
}

proof fn lemma_surviving_empty_iff(pieces: Seq<Seq<char>>)
    ensures
        (surviving_chunks(pieces).len() == 0) <==> (forall|i: int|
            0 <= i < pieces.len() ==> #[trigger] spec_normalize_chunk(pieces[i]) is None),
    decreases pieces.len(),
{
    if pieces.len() > 0 {
        let p0 = pieces.drop_last();
        lemma_surviving_empty_iff(p0);
        assert forall|i: int| 0 <= i < p0.len() implies p0[i] == pieces[i] by {}
        if forall|i: int| 0 <= i < pieces.len() ==> #[trigger] spec_normalize_chunk(pieces[i]) is None {
            assert(spec_normalize_chunk(pieces[pieces.len() - 1]) is None);
            assert forall|i: int| 0 <= i < p0.len() implies #[trigger] spec_normalize_chunk(p0[i]) is None by {
                assert(spec_normalize_chunk(pieces[i]) is None);
            }
        }
    }
}

/// A name none of whose hyphen-separated pieces holds a letter normalizes
/// to nothing.
pub proof fn lemma_name_without_letter(s: Seq<char>)
    requires
        forall|i: int| 0 <= i < split_on(s, '-').len() ==> !has_letter(#[trigger] split_on(s, '-')[i]),
    ensures
        spec_normalize_name(s) is None,
{
    let pieces = split_on(s, '-');
    assert forall|i: int| 0 <= i < pieces.len() implies #[trigger] spec_normalize_chunk(pieces[i]) is None by {
        lemma_chunk_some_iff_letter(pieces[i]);
    }
    lemma_surviving_empty_iff(pieces);
}

/// Cleaning reads a text character by character: appending a character
/// appends `е` for `Ё`/`ё`, the character itself when it is alphabetic,
/// and nothing otherwise.
pub proof fn law_letters_push(s: Seq<char>, c: char)
    ensures
        letters(s.push(c)) == letters(s) + (if c == 'Ё' || c == 'ё' {
            seq!['е']
        } else if is_alphabetic_char(c) {
            seq![c]
        } else {
            Seq::<char>::empty()
        }),
{
    let t = s.push(c);
    assert(t.drop_last() =~= s);
    assert(alphabetic_flags(t).take(t.len() - 1) =~= alphabetic_flags(s));
    assert(alphabetic_flags(t)[t.len() - 1] == is_alphabetic_char(c));
    assert(t.last() == c);
    assert(letters(s) + Seq::<char>::empty() =~= letters(s));
    assert(letters(s).push('е') =~= letters(s) + seq!['е']);
    assert(letters(s).push(c) =~= letters(s) + seq![c]);
}

/// Cleaning keeps a text of alphabetic characters other than `Ё`/`ё`
/// unchanged.
pub proof fn law_letters_keep_plain_letters(s: Seq<char>)
    requires
        forall|i: int| 0 <= i < s.len() ==> is_alphabetic_char(#[trigger] s[i]) && s[i] != 'Ё' && s[i] != 'ё',
    ensures
        letters(s) == s,
    decreases s.len(),
{
    if s.len() > 0 {
        let init = s.drop_last();
        assert forall|i: int| 0 <= i < init.len() implies is_alphabetic_char(#[trigger] init[i]) && init[i] != 'Ё'
            && init[i] != 'ё' by {
            assert(init[i] == s[i]);
        }
        law_letters_keep_plain_letters(init);
        law_letters_push(init, s.last());
        assert(s.last() == s[s.len() - 1]);
        assert(init.push(s.last()) =~= s);
        assert(init + seq![s.last()] =~= s);
    } else {
        assert(letters(s) =~= s);
    }
}

/// A chunk of alphabetic characters other than `Ё`/`ё` normalizes to the
/// uppercase mapping of its first character followed by the lowercase
/// mappings of the others.
pub proof fn law_plain_chunk_is_title_cased(s: Seq<char>)
    requires
        s.len() > 0,
        forall|i: int| 0 <= i < s.len() ==> is_alphabetic_char(#[trigger] s[i]) && s[i] != 'Ё' && s[i] != 'ё',
    ensures
        spec_normalize_chunk(s) == Some(upper_of(s[0]) + concat_all(s.drop_first().map_values(|c: char| lower_of(c)))),
{
    law_letters_keep_plain_letters(s);
}

/// Text without the separator is a single piece.
pub proof fn lemma_split_without_separator(s: Seq<char>, sep: char)
    requires
        !s.contains(sep),
    ensures
        split_on(s, sep) == seq![s],
    decreases s.len(),
{
    if s.len() > 0 {
        let s0 = s.drop_last();
        assert(!s0.contains(sep)) by {
            if s0.contains(sep) {
                let i = choose|i: int| 0 <= i < s0.len() && s0[i] == sep;
                assert(s[i] == sep);
            }
        }
        lemma_split_without_separator(s0, sep);
        assert(s.last() != sep) by {
            assert(s[s.len() - 1] == s.last());
        }
        assert(s0.push(s.last()) =~= s);
        assert(seq![s0].update(0, s0.push(s.last())) =~= seq![s]);
    } else {
        assert(s =~= Seq::<char>::empty());
    }
}

/// A name without hyphens normalizes as one chunk: to nothing when the
/// chunk normalizes to nothing, and otherwise to the (non-empty) chunk.
pub proof fn law_name_without_hyphen_is_one_chunk(s: Seq<char>)
    requires
        !s.contains('-'),
    ensures
        spec_normalize_chunk(s) is None ==> spec_normalize_name(s) is None,
        spec_normalize_chunk(s) matches Some(c) ==> (c.len() > 0 ==> spec_normalize_name(s) == Some(c)),
{
    lemma_split_without_separator(s, '-');
    let pieces = seq![s];
    assert(pieces.drop_last() =~= Seq::<Seq<char>>::empty());
    assert(surviving_chunks(Seq::<Seq<char>>::empty()) =~= Seq::<Seq<char>>::empty());
    match spec_normalize_chunk(s) {
        Some(c) => {
            assert(surviving_chunks(pieces) =~= seq![c]);
        },
        None => {
            assert(surviving_chunks(pieces) =~= Seq::<Seq<char>>::empty());
        },
    }
}

// ------------------------------------------------------------------
// Implementation
// ------------------------------------------------------------------

/// Keeps the characters of `chars` that survive cleaning, folding `Ё`/`ё`
/// to `е`; `alphabetic[i]` tells whether `chars[i]` is alphabetic.
pub fn keep_letters(chars: &Vec<char>, alphabetic: &Vec<bool>) -> (r: Vec<char>)
    requires
        chars.len() == alphabetic.len(),
    ensures
        r@ == letters_by(chars@, alphabetic@),
{
    let mut r: Vec<char> = Vec::new();
    let mut i: usize = 0;
    while i < chars.len()
        invariant
            i <= chars.len(),
            chars.len() == alphabetic.len(),
            r@ == letters_by(chars@.take(i as int), alphabetic@.take(i as int)),
        decreases chars.len() - i,
    {
        assert(chars@.take(i + 1).drop_last() =~= chars@.take(i as int));
        assert(alphabetic@.take(i + 1).take(i as int) =~= alphabetic@.take(i as int));
        let c = chars[i];
        if c == 'Ё' || c == 'ё' {
            r.push('е');
        } else if alphabetic[i] {
            r.push(c);
        }
        i += 1;
    }
    assert(chars@.take(chars.len() as int) =~= chars@);
    assert(alphabetic@.take(alphabetic.len() as int) =~= alphabetic@);
    r
}

/// `first` followed by every string of `rest`, in order.
pub fn title_case(first: &String, rest: &Vec<String>) -> (r: String)
    ensures
        r@ == first@ + concat_all(views(rest@)),
{
    let mut r = first.clone();
    let mut k: usize = 0;
    while k < rest.len()
        invariant
            k <= rest.len(),
            r@ == first@ + concat_all(views(rest@.take(k as int))),
        decreases rest.len() - k,
    {
        assert(views(rest@.take(k + 1)).drop_last() =~= views(rest@.take(k as int)));
        r.append(rest[k].as_str());
        k += 1;
    }
    assert(rest@.take(rest.len() as int) =~= rest@);
    r
}

/// Internal helper: normalizes a single chunk (part between hyphens).
///
/// - Replaces Ё/ё with е
/// - Keeps only alphabetic Unicode characters
/// - Applies title case (first letter upper, rest lower)
pub fn normalize_chunk(s: &str) -> (r: Option<String>)
    ensures
        r is None <==> spec_normalize_chunk(s@) is None,
        r matches Some(t) ==> spec_normalize_chunk(s@) == Some(t@) && t@.len() >= 1,
        r is Some <==> has_letter(s@),
{
    proof {
        lemma_chunk_some_iff_letter(s@);
    }
    let chars = chars_of(s);
    let mut flags: Vec<bool> = Vec::new();
    let mut i: usize = 0;
    while i < chars.len()
        invariant
            i <= chars.len(),
            flags@ =~= alphabetic_flags(chars@).take(i as int),
        decreases chars.len() - i,
    {
        let a = char_is_alphabetic(chars[i]);
        flags.push(a);
        i += 1;
    }
    assert(flags@ =~= alphabetic_flags(s@));
    let cleaned = keep_letters(&chars, &flags);
    if cleaned.len() == 0 {
        return None;
    }
    let first = char_to_uppercase(cleaned[0]);
    let mut lowers: Vec<String> = Vec::new();
    let mut j: usize = 1;
    while j < cleaned.len()
        invariant
            1 <= j <= cleaned.len(),
            lowers.len() == j - 1,
            forall|k: int| 0 <= k < lowers.len() ==> #[trigger] lowers@[k]@ == lower_of(cleaned@[k + 1]),
        decreases cleaned.len() - j,
    {
        let l = char_to_lowercase(cleaned[j]);
        lowers.push(l);
        j += 1;
    }
    let r = title_case(&first, &lowers);
    assert(views(lowers@) =~= cleaned@.drop_first().map_values(|c: char| lower_of(c)));
    Some(r)
}


/// The pieces of `s` between hyphens, as `str::split('-')` yields them.
pub fn split_hyphens(s: &str) -> (r: Vec<String>)
    ensures
        views(r@) == split_on(s@, '-'),
{
    let chars = chars_of(s);
    let mut pieces: Vec<String> = Vec::new();
    let mut current = String::new();
    let mut i: usize = 0;
    while i < chars.len()
        invariant
            i <= chars.len(),
            chars@ == s@,
            views(pieces@).push(current@) == split_on(chars@.take(i as int), '-'),
        decreases chars.len() - i,
    {
        assert(chars@.take(i + 1).drop_last() =~= chars@.take(i as int));
        let c = chars[i];
        proof {
            lemma_split_on_nonempty(chars@.take(i as int), '-');
        }
        if c == '-' {
            let ghost old_views = views(pieces@);
            let done = current;
            pieces.push(done);
            current = String::new();
            assert(views(pieces@) =~= old_views.push(done@));
        } else {
            push_char(&mut current, c);
            assert(views(pieces@).push(current@) =~= split_on(chars@.take(i + 1), '-'));
        }
        i += 1;
    }
    assert(chars@.take(chars.len() as int) =~= chars@);
    let ghost before = views(pieces@);
    let last = current;
    pieces.push(last);
    assert(views(pieces@) =~= before.push(last@));
    pieces
}

/// `parts` joined with `sep` between consecutive parts.
pub fn join_strings(parts: &Vec<String>, sep: char) -> (r: String)
    ensures
        r@ == join_with(views(parts@), seq![sep]),
{
    let mut r = String::new();
    let mut k: usize = 0;
    while k < parts.len()
        invariant
            k <= parts.len(),
            r@ == join_with(views(parts@.take(k as int)), seq![sep]),
        decreases parts.len() - k,
    {
        assert(views(parts@.take(k + 1)).drop_last() =~= views(parts@.take(k as int)));
        if k > 0 {
            push_char(&mut r, sep);
        }
        r.append(parts[k].as_str());
        proof {
            if k == 0 {
                assert(views(parts@.take(1))[0] == parts@[0]@);
                assert(r@ =~= parts@[0]@);
            }
        }
        k += 1;
    }
    assert(parts@.take(parts.len() as int) =~= parts@);
    r
}

/// Normalizes a full name string (may contain hyphens).
///
/// - Splits on `-`
/// - Normalizes each part with [`normalize_chunk`]
/// - Joins surviving parts with `-`
/// - Returns `None` if the final result is empty
///
/// The result is `None` exactly when no hyphen-separated part holds a letter.
pub fn normalize_name(s: &String) -> (r: Option<String>)
    ensures
        r is None <==> spec_normalize_name(s@) is None,
        r matches Some(t) ==> spec_normalize_name(s@) == Some(t@),
        r is None <==> (forall|i: int|
            0 <= i < split_on(s@, '-').len() ==> !has_letter(#[trigger] split_on(s@, '-')[i])),
{
    let pieces = split_hyphens(s.as_str());
    let ghost pv = split_on(s@, '-');
    let mut kept: Vec<String> = Vec::new();
    let mut k: usize = 0;
    while k < pieces.len()
        invariant
            k <= pieces.len(),
            views(pieces@) == pv,
            views(kept@) == surviving_chunks(pv.take(k as int)),
            forall|j: int| 0 <= j < kept.len() ==> (#[trigger] kept@[j])@.len() >= 1,
        decreases pieces.len() - k,
    {
        assert(pv.take(k + 1).drop_last() =~= pv.take(k as int));
        assert(pv[k as int] == pieces@[k as int]@);
        let ghost before = views(kept@);
        match normalize_chunk(pieces[k].as_str()) {
            Some(t) => {
                kept.push(t);
                assert(views(kept@) =~= before.push(kept@[kept.len() - 1]@));
            },
            None => {},
        }
        k += 1;
    }
    assert(pv.take(pieces.len() as int) =~= pv);
    let joined = join_strings(&kept, '-');
    proof {
        assert forall|i: int| 0 <= i < views(kept@).len() implies #[trigger] views(kept@)[i].len() >= 1 by {
            assert(views(kept@)[i] == kept@[i]@);
        }
        lemma_join_empty_iff(views(kept@), seq!['-']);
        lemma_surviving_empty_iff(pv);
        assert forall|i: int| 0 <= i < pv.len() implies (spec_normalize_chunk(#[trigger] pv[i]) is None
            <==> !has_letter(pv[i])) by {
            lemma_chunk_some_iff_letter(pv[i]);
        }
    }
    if joined.as_str().is_empty() {
        None
    } else {
        Some(joined)
    }
}

} // verus!
