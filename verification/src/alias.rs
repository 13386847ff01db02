//! Author alias handling for book metadata normalization.

use vstd::prelude::*;

use crate::normalize::opt_view;
use crate::person::{person_create_exn, spec_normalize, Person, PersonModel};
use crate::text::{trim_text, trimmed, words, words_of};
use serde_json::Value;

verus! {

/// The last, first and middle name that one, two or three words stand for.
pub open spec fn word_parts(w: Seq<Seq<char>>) -> (Option<Seq<char>>, Option<Seq<char>>, Option<Seq<char>>) {
    if w.len() == 1 {
        (Some(w[0]), None, None)
    } else if w.len() == 2 {
        (Some(w[0]), Some(w[1]), None)
    } else {
        (Some(w[0]), Some(w[1]), Some(w[2]))
    }
}

/// The words of a person's text are read in order as the last, first and
/// middle name: the first word is always the last name, a second word the
/// first name, a third word the middle name, and missing words leave those
/// names out.
pub proof fn law_words_are_last_first_middle(s: Seq<char>)
    requires
        1 <= words(s).len() <= 3,
    ensures
        word_parts(words(s)).0 == Some(words(s)[0]),
        word_parts(words(s)).1 == (if words(s).len() >= 2 {
            Some(words(s)[1])
        } else {
            None::<Seq<char>>
        }),
        word_parts(words(s)).2 == (if words(s).len() == 3 {
            Some(words(s)[2])
        } else {
            None::<Seq<char>>
        }),
        names_person(s) ==> {
            &&& person_named(s).3 == Some(words(s)[0])
            &&& person_named(s).1 == word_parts(words(s)).1
            &&& person_named(s).2 == word_parts(words(s)).2
        },
{
}

/// Whether `s` names a person: it has one to three words ("Last",
/// "Last First" or "Last First Middle") and they do not all normalize to
/// nothing.
pub open spec fn names_person(s: Seq<char>) -> bool {
    let w = words(s);
    let (l, f, m) = word_parts(w);
    &&& 1 <= w.len() <= 3
    &&& spec_normalize(l, f, m) is Some
}

/// Builds a person from "Last", "Last First" or "Last First Middle"; the
/// words are separated by whitespace, and surrounding whitespace is ignored.
/// Any other input names no person, and `requires` excludes it;
/// [`person_from_string`] answers `None` there.
pub fn person_from_string_exn(s: &str) -> (p: Person)
    requires
        names_person(s@),
    ensures
        (opt_view(p.last_name), opt_view(p.first_name), opt_view(p.middle_name)) == word_parts(words(s@)),
        Some(p.id@) == spec_normalize(word_parts(words(s@)).0, word_parts(words(s@)).1, word_parts(words(s@)).2),
{
    let w = words_of(s);
    assert(w@.len() == words(s@).len());
    assert forall|i: int| 0 <= i < w.len() implies #[trigger] w@[i]@ == words(s@)[i] by {
        assert(w@.map_values(|t: String| t@)[i] == w@[i]@);
    }
    if w.len() == 3 {
        person_create_exn(&Some(w[0].clone()), &Some(w[1].clone()), &Some(w[2].clone()))
    } else if w.len() == 2 {
        person_create_exn(&Some(w[0].clone()), &Some(w[1].clone()), &None)
    } else {
        person_create_exn(&Some(w[0].clone()), &None, &None)
    }
}

/// Builds a person like [`person_from_string_exn`], answering `None` where
/// that function would refuse the input.
pub fn person_from_string(s: &str) -> (r: Option<Person>)
    ensures
        r is None <==> !names_person(s@),
        r matches Some(p) ==> {
            &&& (opt_view(p.last_name), opt_view(p.first_name), opt_view(p.middle_name)) == word_parts(words(s@))
            &&& Some(p.id@) == spec_normalize(word_parts(words(s@)).0, word_parts(words(s@)).1, word_parts(words(s@)).2)
        },
{
    let w = words_of(s);
    assert(w@.len() == words(s@).len());
    assert forall|i: int| 0 <= i < w.len() implies #[trigger] w@[i]@ == words(s@)[i] by {
        assert(w@.map_values(|t: String| t@)[i] == w@[i]@);
    }
    if w.len() < 1 || w.len() > 3 {
        return None;
    }
    let last = Some(w[0].clone());
    let first = if w.len() >= 2 { Some(w[1].clone()) } else { None };
    let middle = if w.len() == 3 { Some(w[2].clone()) } else { None };
    match crate::person::person_create(&last, &first, &middle) {
        None => None,
        Some(_) => Some(person_from_string_exn(s)),
    }
}

// ------------------------------------------------------------------
// Alias table
// ------------------------------------------------------------------

/// The hasher state of `ahash`, which `ahash::HashMap` is built with.
#[verifier::external_type_specification]
#[verifier::external_body]
pub struct ExAhashRandomState(ahash::RandomState);

/// The map that holds an alias table: `ahash::HashMap<String, Person>`.
pub type AliasMap = std::collections::HashMap<String, Person, ahash::RandomState>;

/// The entries of an alias map: each key's text and the person stored under it.
pub uninterp spec fn alias_entries(map: AliasMap) -> Map<Seq<char>, PersonModel>;

/// Creates an empty `ahash::HashMap` (through `Default`); it holds no entry.
#[verifier::external_body]
fn alias_map_new() -> (r: AliasMap)
    ensures
        alias_entries(r).dom() =~= Set::empty(),
{
    ahash::HashMap::default()
}

/// Calls `HashMap::insert`: afterwards `key` maps to `person`, and the other
/// entries are unchanged.
#[verifier::external_body]
fn alias_map_insert(
    m: &mut AliasMap,
    key: String,
    person: Person,
)
    ensures
        alias_entries(*final(m)) == alias_entries(*old(m)).insert(key@, person.model()),
{
    m.insert(key, person);
}

/// Calls `HashMap::get` with a `&str` key: it finds the person stored under
/// the key with the same text, if any.
#[verifier::external_body]
fn alias_map_get<'a>(
    m: &'a AliasMap,
    key: &str,
) -> (r: Option<&'a Person>)
    ensures
        r is Some <==> alias_entries(*m).contains_key(key@),
        r matches Some(p) ==> p.model() == alias_entries(*m)[key@],
{
    m.get(key)
}

/// A table gives back, for an alias just added, the canonical person it was
/// added for, under the alias as trimmed; the other aliases keep their persons.
pub proof fn law_alias_read_after_add(
    table: Map<Seq<char>, PersonModel>,
    alias: Seq<char>,
    canonical: PersonModel,
    other: Seq<char>,
)
    requires
        trimmed(alias).len() > 0,
        other != trimmed(alias),
    ensures
        table.insert(trimmed(alias), canonical).contains_key(trimmed(alias)),
        table.insert(trimmed(alias), canonical)[trimmed(alias)] == canonical,
        table.insert(trimmed(alias), canonical).contains_key(other) == table.contains_key(other),
        table.contains_key(other) ==> table.insert(trimmed(alias), canonical)[other] == table[other],
{
}

/// A table from alias names to canonical persons.
pub struct AliasTable {
    map: AliasMap,
}

impl View for AliasTable {
    type V = Map<Seq<char>, PersonModel>;

    closed spec fn view(&self) -> Map<Seq<char>, PersonModel> {
        alias_entries(self.map)
    }
}

impl AliasTable {
    /// An empty table.
    pub fn new() -> (t: AliasTable)
        ensures
            t@ == Map::<Seq<char>, PersonModel>::empty(),
    {
        AliasTable { map: alias_map_new() }
    }

    /// Records `alias` (trimmed of surrounding whitespace) as a name of
    /// `canonical`; an alias that is empty after trimming is ignored. A
    /// later alias with the same text replaces an earlier one.
    pub fn add_alias(&mut self, alias: &str, canonical: &Person)
        ensures
            trimmed(alias@).len() == 0 ==> final(self)@ == old(self)@,
            trimmed(alias@).len() > 0 ==> final(self)@ == old(self)@.insert(trimmed(alias@), canonical.model()),
    {
        let key = trim_text(alias);
        if key.as_str().is_empty() {
            return;
        }
        let person = canonical.duplicate();
        alias_map_insert(&mut self.map, key, person);
    }

    /// The canonical person recorded under `name`, if any.
    pub fn get(&self, name: &str) -> (r: Option<&Person>)
        ensures
            r is Some <==> self@.contains_key(name@),
            r matches Some(p) ==> p.model() == self@[name@],
    {
        alias_map_get(&self.map, name)
    }
}

// ------------------------------------------------------------------
// Reading an alias file
// ------------------------------------------------------------------

/// The person that the text `s` names (when it names one): the model of
/// what [`person_from_string`] builds from it.
pub open spec fn person_named(s: Seq<char>) -> PersonModel {
    let (l, f, m) = word_parts(words(s));
    (spec_normalize(l, f, m).unwrap(), f, m, l)
}

/// The table `m` after recording each string of `items`, in order, as a
/// name of `p` (see [`AliasTable::add_alias`]); items that are not strings
/// (`None`) are skipped.
pub open spec fn with_aliases(m: Map<Seq<char>, PersonModel>, items: Seq<Option<Seq<char>>>, p: PersonModel) -> Map<
    Seq<char>,
    PersonModel,
>
    decreases items.len(),
{
    if items.len() == 0 {
        m
    } else {
        let before = with_aliases(m, items.drop_last(), p);
        match items.last() {
            Some(alias) => if trimmed(alias).len() > 0 {
                before.insert(trimmed(alias), p)
            } else {
                before
            },
            None => before,
        }
    }
}

/// Why a canonical name of an alias file names no person.
pub enum AliasRefusal {
    /// It has no word, or more than three.
    NotAPerson(Seq<char>),
    /// Its one to three words all normalize to nothing.
    EmptyName(Seq<char>),
}

/// Why the canonical name `s` names no person, if it names none.
pub open spec fn person_refusal(s: Seq<char>) -> Option<AliasRefusal> {
    let w = words(s);
    if !(1 <= w.len() <= 3) {
        Some(AliasRefusal::NotAPerson(s))
    } else if !names_person(s) {
        Some(AliasRefusal::EmptyName(s))
    } else {
        None
    }
}

/// The table that the members of an alias file stand for. Each member is a
/// canonical name with its value: a list of items (`Some`) or anything else
/// (`None`, skipped). The members are read in order; the first canonical
/// name with a list that names no person refuses the file.
pub open spec fn read_alias_entries(entries: Seq<(Seq<char>, Option<Seq<Option<Seq<char>>>>)>) -> Result<
    Map<Seq<char>, PersonModel>,
    AliasRefusal,
>
    decreases entries.len(),
{
    if entries.len() == 0 {
        Ok(Map::empty())
    } else {
        match read_alias_entries(entries.drop_last()) {
            Err(c) => Err(c),
            Ok(m) => {
                let (canonical, value) = entries.last();
                match value {
                    None => Ok(m),
                    Some(items) => match person_refusal(canonical) {
                        None => Ok(with_aliases(m, items, person_named(canonical))),
                        Some(f) => Err(f),
                    },
                }
            },
        }
    }
}

/// The plain values of a list of items.
pub open spec fn item_views(items: Seq<Option<String>>) -> Seq<Option<Seq<char>>> {
    items.map_values(|a: Option<String>| opt_view(a))
}

/// The plain values of the members of an alias file.
pub open spec fn entry_views(entries: Seq<(String, Option<Vec<Option<String>>>)>) -> Seq<
    (Seq<char>, Option<Seq<Option<Seq<char>>>>),
> {
    entries.map_values(
        |e: (String, Option<Vec<Option<String>>>)|
            (
                e.0@,
                match e.1 {
                    Some(v) => Some(item_views(v@)),
                    None => None,
                },
            ),
    )
}

impl AliasTable {
    /// Records each string of `items`, in order, as a name of `canonical`;
    /// the other items are skipped.
    pub fn add_aliases(&mut self, items: &Vec<Option<String>>, canonical: &Person)
        ensures
            final(self)@ == with_aliases(old(self)@, item_views(items@), canonical.model()),
    {
        let ghost start = self@;
        let ghost iv = item_views(items@);
        let mut k: usize = 0;
        while k < items.len()
            invariant
                k <= items.len(),
                iv == item_views(items@),
                self@ == with_aliases(start, iv.take(k as int), canonical.model()),
            decreases items.len() - k,
        {
            assert(iv.take(k + 1).drop_last() =~= iv.take(k as int));
            assert(iv.take(k + 1).last() == opt_view(items@[k as int]));
            match &items[k] {
                Some(alias) => self.add_alias(alias.as_str(), canonical),
                None => {},
            }
            k += 1;
        }
        assert(iv.take(items.len() as int) =~= iv);
    }
}

/// Why an alias file is refused.
#[derive(Debug)]
pub enum AliasFileError {
    /// The file is not valid JSON; the parser's message.
    InvalidJson { reason: String },
    /// The file's value is not an object.
    NotAnObject,
    /// A canonical name has no word, or more than three.
    NotAPerson { name: String },
    /// A canonical name's words all normalize to nothing.
    EmptyName { name: String },
}

/// Whether `r` is what the outcome `o` of reading the members of an alias
/// file stands for.
pub open spec fn alias_result_matches(
    r: Result<AliasTable, AliasFileError>,
    o: Result<Map<Seq<char>, PersonModel>, AliasRefusal>,
) -> bool {
    match (r, o) {
        (Ok(t), Ok(m)) => t@ == m,
        (Err(AliasFileError::NotAPerson { name }), Err(AliasRefusal::NotAPerson(c))) => name@ == c,
        (Err(AliasFileError::EmptyName { name }), Err(AliasRefusal::EmptyName(c))) => name@ == c,
        _ => false,
    }
}

/// Builds the alias table from the members of an alias file (canonical
/// names with their values, in the file's order; see
/// [`read_alias_entries`]).
pub fn alias_table_from(entries: &Vec<(String, Option<Vec<Option<String>>>)>) -> (r: Result<AliasTable, AliasFileError>)
    ensures
        alias_result_matches(r, read_alias_entries(entry_views(entries@))),
{
    let ghost ev = entry_views(entries@);
    let mut table = AliasTable::new();
    let mut k: usize = 0;
    while k < entries.len()
        invariant
            k <= entries.len(),
            ev == entry_views(entries@),
            read_alias_entries(ev.take(k as int)) == Ok::<Map<Seq<char>, PersonModel>, AliasRefusal>(table@),
        decreases entries.len() - k,
    {
        assert(ev.take(k + 1).drop_last() =~= ev.take(k as int));
        assert(ev.take(k + 1).last() == ev[k as int]);
        let canonical = &entries[k].0;
        match &entries[k].1 {
            None => {},
            Some(items) => match person_from_string(canonical.as_str()) {
                None => {
                    let count = words_of(canonical.as_str()).len();
                    let e = if 1 <= count && count <= 3 {
                        AliasFileError::EmptyName { name: canonical.clone() }
                    } else {
                        AliasFileError::NotAPerson { name: canonical.clone() }
                    };
                    proof {
                        lemma_read_alias_entries_refused(ev, k as int);
                    }
                    return Err(e);
                },
                Some(person) => {
                    table.add_aliases(items, &person);
                },
            },
        }
        k += 1;
    }
    assert(ev.take(entries.len() as int) =~= ev);
    Ok(table)
}

proof fn lemma_read_alias_entries_refused(ev: Seq<(Seq<char>, Option<Seq<Option<Seq<char>>>>)>, k: int)
    requires
        0 <= k < ev.len(),
        read_alias_entries(ev.take(k)) is Ok,
        ev[k].1 is Some,
        person_refusal(ev[k].0) is Some,
    ensures
        read_alias_entries(ev) == Err::<Map<Seq<char>, PersonModel>, AliasRefusal>(person_refusal(ev[k].0).unwrap()),
    decreases ev.len() - k,
{
    assert(ev.take(k + 1).drop_last() =~= ev.take(k));
    assert(ev.take(k + 1).last() == ev[k]);
    if k + 1 == ev.len() {
        assert(ev.take(k + 1) =~= ev);
    } else {
        lemma_read_alias_entries_refused_prefix(ev, k + 1, person_refusal(ev[k].0).unwrap());
    }
}

proof fn lemma_read_alias_entries_refused_prefix(
    ev: Seq<(Seq<char>, Option<Seq<Option<Seq<char>>>>)>,
    j: int,
    f: AliasRefusal,
)
    requires
        0 < j <= ev.len(),
        read_alias_entries(ev.take(j)) == Err::<Map<Seq<char>, PersonModel>, AliasRefusal>(f),
    ensures
        read_alias_entries(ev) == Err::<Map<Seq<char>, PersonModel>, AliasRefusal>(f),
    decreases ev.len() - j,
{
    if j == ev.len() {
        assert(ev.take(j) =~= ev);
    } else {
        assert(ev.take(j + 1).drop_last() =~= ev.take(j));
        lemma_read_alias_entries_refused_prefix(ev, j + 1, f);
    }
}

/// Whether one of `items` is a string that trims to `t`.
pub open spec fn alias_listed(items: Seq<Option<Seq<char>>>, t: Seq<char>) -> bool {
    exists|j: int| 0 <= j < items.len() && (#[trigger] items[j]) is Some && trimmed(items[j]->Some_0) == t
}

/// Whether the member at `i` of `entries` has a list with a string that
/// trims to `t`.
pub open spec fn member_lists(entries: Seq<(Seq<char>, Option<Seq<Option<Seq<char>>>>)>, i: int, t: Seq<char>) -> bool {
    0 <= i < entries.len() && entries[i].1 is Some && alias_listed(entries[i].1->Some_0, t)
}

proof fn lemma_with_aliases(m: Map<Seq<char>, PersonModel>, items: Seq<Option<Seq<char>>>, p: PersonModel, t: Seq<char>)
    ensures
        with_aliases(m, items, p).contains_key(t) <==> (m.contains_key(t) || (t.len() > 0 && alias_listed(items, t))),
        t.len() > 0 && alias_listed(items, t) ==> with_aliases(m, items, p)[t] == p,
        !(t.len() > 0 && alias_listed(items, t)) && m.contains_key(t) ==> with_aliases(m, items, p)[t] == m[t],
    decreases items.len(),
{
    if items.len() > 0 {
        let init = items.drop_last();
        lemma_with_aliases(m, init, p, t);
        assert(alias_listed(items, t) <==> (alias_listed(init, t) || (items.last() is Some && trimmed(
            items.last()->Some_0,
        ) == t))) by {
            if alias_listed(items, t) {
                let j = choose|j: int| 0 <= j < items.len() && (#[trigger] items[j]) is Some && trimmed(items[j]->Some_0) == t;
                if j < init.len() {
                    assert(init[j] == items[j]);
                }
            }
            if alias_listed(init, t) {
                let j = choose|j: int| 0 <= j < init.len() && (#[trigger] init[j]) is Some && trimmed(init[j]->Some_0) == t;
                assert(items[j] == init[j]);
            }
            if items.last() is Some && trimmed(items.last()->Some_0) == t {
                assert(items[items.len() - 1] == items.last());
            }
        }
    } else {
        assert(!alias_listed(items, t));
    }
}

/// The table read from the members of an alias file has as keys exactly the
/// non-empty trimmed strings listed by its members, and maps each key to
/// the person named by a member that lists it.
pub proof fn law_alias_table_keys(entries: Seq<(Seq<char>, Option<Seq<Option<Seq<char>>>>)>, t: Seq<char>)
    ensures
        read_alias_entries(entries) matches Ok(m) ==> {
            &&& m.contains_key(t) <==> (t.len() > 0 && exists|i: int| #[trigger] member_lists(entries, i, t))
            &&& m.contains_key(t) ==> exists|i: int| #[trigger] member_lists(entries, i, t) && m[t] == person_named(
                entries[i].0,
            )
        },
    decreases entries.len(),
{
    if entries.len() > 0 {
        let init = entries.drop_last();
        let k = entries.len() - 1;
        law_alias_table_keys(init, t);
        assert forall|i: int| 0 <= i < init.len() implies (member_lists(init, i, t) <==> #[trigger] member_lists(
            entries,
            i,
            t,
        )) by {
            assert(init[i] == entries[i]);
        }
        if let Ok(m0) = read_alias_entries(init) {
            let (canonical, value) = entries.last();
            assert(entries[k] == entries.last());
            if let Some(items) = value {
                if person_refusal(canonical) is None {
                    lemma_with_aliases(m0, items, person_named(canonical), t);
                    let m = with_aliases(m0, items, person_named(canonical));
                    if m.contains_key(t) {
                        if t.len() > 0 && alias_listed(items, t) {
                            assert(member_lists(entries, k, t));
                        } else {
                            let i = choose|i: int| #[trigger] member_lists(init, i, t) && m0[t] == person_named(init[i].0);
                            assert(member_lists(entries, i, t));
                        }
                    }
                    if t.len() > 0 && exists|i: int| #[trigger] member_lists(entries, i, t) {
                        let i = choose|i: int| #[trigger] member_lists(entries, i, t);
                        if i < k {
                            assert(member_lists(init, i, t));
                        }
                    }
                }
            } else {
                if t.len() > 0 && exists|i: int| #[trigger] member_lists(entries, i, t) {
                    let i = choose|i: int| #[trigger] member_lists(entries, i, t);
                    if i < k {
                        assert(member_lists(init, i, t));
                    }
                }
                if m0.contains_key(t) {
                    let i = choose|i: int| #[trigger] member_lists(init, i, t) && m0[t] == person_named(init[i].0);
                    assert(member_lists(entries, i, t));
                }
            }
        }
    }
}

// ------------------------------------------------------------------
// The JSON text of an alias file
// ------------------------------------------------------------------

/// A JSON document as an alias file is read: an object, with its members in
/// the order that `serde_json`'s map yields them, or any other value. A
/// member's value is an array (`Some`, with each item a string or, `None`,
/// any other value) or any other value (`None`).
pub enum JsonDocument {
    Object(Vec<(String, Option<Vec<Option<String>>>)>),
    Other,
}

/// A JSON document as plain values (see [`JsonDocument`]).
pub enum JsonDocumentModel {
    Object(Seq<(Seq<char>, Option<Seq<Option<Seq<char>>>>)>),
    Other,
}

/// The plain values of a parse's result.
pub open spec fn json_result_view(r: Result<JsonDocument, String>) -> Result<JsonDocumentModel, Seq<char>> {
    match r {
        Ok(JsonDocument::Object(members)) => Ok(JsonDocumentModel::Object(entry_views(members@))),
        Ok(JsonDocument::Other) => Ok(JsonDocumentModel::Other),
        Err(m) => Err(m@),
    }
}

/// What `serde_json::from_slice` parses `content` into, as a
/// [`JsonDocumentModel`], or the parser's message when it refuses it.
pub uninterp spec fn json_document_of(content: Seq<u8>) -> Result<JsonDocumentModel, Seq<char>>;

/// Parses `content` with `serde_json::from_slice` into a `Value` and
/// converts it: an object's members one for one (arrays and their string
/// items kept, every other value marked as such), any other value as
/// `Other`, and an error as its message. The result is a function of the
/// bytes.
#[verifier::external_body]
fn parse_json(content: &[u8]) -> (r: Result<JsonDocument, String>)
    ensures
        json_result_view(r) == json_document_of(content@),
{
    match serde_json::from_slice(content) {
        Err(e) => Err(e.to_string()),
        Ok(Value::Object(members)) => Ok(JsonDocument::Object(members.into_iter().map(|(k, v)| (k, match v {
            Value::Array(items) => Some(items.into_iter().map(|i| match i {
                Value::String(a) => Some(a),
                _ => None,
            }).collect()),
            _ => None,
        })).collect())),
        Ok(_) => Ok(JsonDocument::Other),
    }
}

/// Builds the alias table from the bytes of an alias file: a JSON object
/// from canonical names ("Last First Middle") to lists of aliases (see
/// [`read_alias_entries`]).
pub fn alias_table_from_json(content: &[u8]) -> (r: Result<AliasTable, AliasFileError>)
    ensures
        match json_document_of(content@) {
            Err(m) => r matches Err(AliasFileError::InvalidJson { reason }) && reason@ == m,
            Ok(JsonDocumentModel::Other) => r matches Err(AliasFileError::NotAnObject),
            Ok(JsonDocumentModel::Object(members)) => alias_result_matches(r, read_alias_entries(members)),
        },
{
    match parse_json(content) {
        Err(reason) => Err(AliasFileError::InvalidJson { reason }),
        Ok(JsonDocument::Other) => Err(AliasFileError::NotAnObject),
        Ok(JsonDocument::Object(members)) => alias_table_from(&members),
    }
}

} // verus!
