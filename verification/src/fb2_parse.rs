//! Extraction of book metadata from the `<description>` of an FB2 document.
//!
//! The XML is tokenized by `quick_xml`; the library reads the stream of
//! events, keeps the path of open elements, and collects the title, language,
//! genre, external id, version, encoding and the authors.

use vstd::prelude::*;

use crate::alias::AliasTable;
use crate::book::Book;
use crate::normalize::{normalize_chunk, opt_view, spec_normalize_chunk};
use crate::person::{person_create, spec_normalize, Person, PersonModel};
use crate::paths::{extension, file_stem, path_extension, path_file_stem};
use crate::text::{same_text, text_is};
use crate::xml::{xml_event_at, XmlEvent, XmlEventModel, XmlFailure, XmlFailureModel, XmlStream};

verus! {

// ------------------------------------------------------------------
// Elements and events
// ------------------------------------------------------------------

/// The FB2 elements that the metadata is read from; every other element is `Other`.
#[derive(Clone, Copy, Debug, PartialEq, Eq, Structural)]
pub enum Tag {
    Description,
    TitleInfo,
    DocumentInfo,
    Author,
    BookTitle,
    Lang,
    Genre,
    FirstName,
    MiddleName,
    LastName,
    Id,
    Version,
    Other,
}

/// The tag that an element name stands for.
pub open spec fn tag_of(name: Seq<char>) -> Tag {
    if name == "description"@ {
        Tag::Description
    } else if name == "title-info"@ {
        Tag::TitleInfo
    } else if name == "document-info"@ {
        Tag::DocumentInfo
    } else if name == "author"@ {
        Tag::Author
    } else if name == "book-title"@ {
        Tag::BookTitle
    } else if name == "lang"@ {
        Tag::Lang
    } else if name == "genre"@ {
        Tag::Genre
    } else if name == "first-name"@ {
        Tag::FirstName
    } else if name == "middle-name"@ {
        Tag::MiddleName
    } else if name == "last-name"@ {
        Tag::LastName
    } else if name == "id"@ {
        Tag::Id
    } else if name == "version"@ {
        Tag::Version
    } else {
        Tag::Other
    }
}

/// The tag that the element name `name` stands for.
pub fn classify_tag(name: &str) -> (t: Tag)
    ensures
        t == tag_of(name@),
{
    if text_is(name, "description") {
        Tag::Description
    } else if text_is(name, "title-info") {
        Tag::TitleInfo
    } else if text_is(name, "document-info") {
        Tag::DocumentInfo
    } else if text_is(name, "author") {
        Tag::Author
    } else if text_is(name, "book-title") {
        Tag::BookTitle
    } else if text_is(name, "lang") {
        Tag::Lang
    } else if text_is(name, "genre") {
        Tag::Genre
    } else if text_is(name, "first-name") {
        Tag::FirstName
    } else if text_is(name, "middle-name") {
        Tag::MiddleName
    } else if text_is(name, "last-name") {
        Tag::LastName
    } else if text_is(name, "id") {
        Tag::Id
    } else if text_is(name, "version") {
        Tag::Version
    } else {
        Tag::Other
    }
}

/// The metadata fields that character data can fill.
#[derive(Clone, Copy, Debug, PartialEq, Eq, Structural)]
pub enum Field {
    Title,
    Lang,
    Genre,
    FirstName,
    MiddleName,
    LastName,
    ExtId,
    Version,
}

/// Whether the open elements end with `a`, `b`, `c`.
pub open spec fn ends_with3(s: Seq<Tag>, a: Tag, b: Tag, c: Tag) -> bool {
    s.len() >= 3 && s[s.len() - 3] == a && s[s.len() - 2] == b && s[s.len() - 1] == c
}

/// Whether the open elements end with `a`, `b`, `c`, `d`.
pub open spec fn ends_with4(s: Seq<Tag>, a: Tag, b: Tag, c: Tag, d: Tag) -> bool {
    s.len() >= 4 && s[s.len() - 4] == a && s[s.len() - 3] == b && s[s.len() - 2] == c && s[s.len()
        - 1] == d
}

/// The field that character data fills when the open elements are `s`.
pub open spec fn text_target(s: Seq<Tag>) -> Option<Field> {
    if ends_with3(s, Tag::Description, Tag::TitleInfo, Tag::BookTitle) {
        Some(Field::Title)
    } else if ends_with3(s, Tag::Description, Tag::TitleInfo, Tag::Lang) {
        Some(Field::Lang)
    } else if ends_with3(s, Tag::Description, Tag::TitleInfo, Tag::Genre) {
        Some(Field::Genre)
    } else if ends_with4(s, Tag::Description, Tag::TitleInfo, Tag::Author, Tag::FirstName) {
        Some(Field::FirstName)
    } else if ends_with4(s, Tag::Description, Tag::TitleInfo, Tag::Author, Tag::MiddleName) {
        Some(Field::MiddleName)
    } else if ends_with4(s, Tag::Description, Tag::TitleInfo, Tag::Author, Tag::LastName) {
        Some(Field::LastName)
    } else if ends_with3(s, Tag::Description, Tag::DocumentInfo, Tag::Id) {
        Some(Field::ExtId)
    } else if ends_with3(s, Tag::Description, Tag::DocumentInfo, Tag::Version) {
        Some(Field::Version)
    } else {
        None
    }
}

/// Whether an opening tag that leaves the open elements at `s` starts an
/// author of the title or document info (which closes the author before it).
pub open spec fn starts_author(s: Seq<Tag>) -> bool {
    ends_with3(s, Tag::Description, Tag::TitleInfo, Tag::Author) || ends_with3(
        s,
        Tag::Description,
        Tag::DocumentInfo,
        Tag::Author,
    )
}

fn ends_with3_of(s: &Vec<Tag>, a: Tag, b: Tag, c: Tag) -> (r: bool)
    ensures
        r == ends_with3(s@, a, b, c),
{
    let n = s.len();
    n >= 3 && s[n - 3] == a && s[n - 2] == b && s[n - 1] == c
}

fn ends_with4_of(s: &Vec<Tag>, a: Tag, b: Tag, c: Tag, d: Tag) -> (r: bool)
    ensures
        r == ends_with4(s@, a, b, c, d),
{
    let n = s.len();
    n >= 4 && s[n - 4] == a && s[n - 3] == b && s[n - 2] == c && s[n - 1] == d
}

/// The field that character data fills when the open elements are `s`.
pub fn text_target_of(s: &Vec<Tag>) -> (r: Option<Field>)
    ensures
        r == text_target(s@),
{
    if ends_with3_of(s, Tag::Description, Tag::TitleInfo, Tag::BookTitle) {
        Some(Field::Title)
    } else if ends_with3_of(s, Tag::Description, Tag::TitleInfo, Tag::Lang) {
        Some(Field::Lang)
    } else if ends_with3_of(s, Tag::Description, Tag::TitleInfo, Tag::Genre) {
        Some(Field::Genre)
    } else if ends_with4_of(s, Tag::Description, Tag::TitleInfo, Tag::Author, Tag::FirstName) {
        Some(Field::FirstName)
    } else if ends_with4_of(s, Tag::Description, Tag::TitleInfo, Tag::Author, Tag::MiddleName) {
        Some(Field::MiddleName)
    } else if ends_with4_of(s, Tag::Description, Tag::TitleInfo, Tag::Author, Tag::LastName) {
        Some(Field::LastName)
    } else if ends_with3_of(s, Tag::Description, Tag::DocumentInfo, Tag::Id) {
        Some(Field::ExtId)
    } else if ends_with3_of(s, Tag::Description, Tag::DocumentInfo, Tag::Version) {
        Some(Field::Version)
    } else {
        None
    }
}

// ------------------------------------------------------------------
// Aliases
// ------------------------------------------------------------------

/// The entries of an optional alias table.
pub open spec fn alias_view(aliases: Option<AliasTable>) -> Option<Map<Seq<char>, PersonModel>> {
    match aliases {
        Some(t) => Some(t@),
        None => None,
    }
}

/// The person that `p` stands for: the canonical person recorded under its
/// id, if the table has one, and `p` itself otherwise.
pub open spec fn aliased(p: PersonModel, aliases: Option<Map<Seq<char>, PersonModel>>) -> PersonModel {
    match aliases {
        Some(m) => if m.contains_key(p.0) {
            m[p.0]
        } else {
            p
        },
        None => p,
    }
}

/// The canonical person recorded under the id of `p`, if the table has one,
/// and `p` itself otherwise.
pub fn apply_aliases<'a>(p: &'a Person, aliases: &'a Option<AliasTable>) -> (r: &'a Person)
    ensures
        r.model() == aliased(p.model(), alias_view(*aliases)),
{
    match aliases {
        None => p,
        Some(table) => match table.get(p.id.as_str()) {
            None => p,
            Some(ap) => ap,
        },
    }
}

// ------------------------------------------------------------------
// The scanning state
// ------------------------------------------------------------------

/// What has been read of the description so far.
pub struct ScanState {
    pub stack: Seq<Tag>,
    pub first_name: Option<Seq<char>>,
    pub middle_name: Option<Seq<char>>,
    pub last_name: Option<Seq<char>>,
    pub ext_id: Option<Seq<char>>,
    pub title: Option<Seq<char>>,
    pub lang: Option<Seq<char>>,
    pub genre: Option<Seq<char>>,
    pub version: Option<Seq<char>>,
    pub encoding: Option<Seq<char>>,
    pub authors: Seq<PersonModel>,
}

/// Whether one of `authors` has the id `id`.
pub open spec fn has_author_id(authors: Seq<PersonModel>, id: Seq<char>) -> bool {
    exists|i: int| 0 <= i < authors.len() && (#[trigger] authors[i]).0 == id
}

/// Whether no two of `authors` share an id.
pub open spec fn distinct_ids(authors: Seq<PersonModel>) -> bool {
    forall|i: int, j: int| 0 <= i < j < authors.len() ==> (#[trigger] authors[i]).0 != (#[trigger] authors[j]).0
}

/// The state with the pending author's names cleared.
pub open spec fn cleared(s: ScanState) -> ScanState {
    ScanState { first_name: None, middle_name: None, last_name: None, ..s }
}

/// Closes the pending author: an author with a last or middle name whose
/// name normalizes is added (replaced by its alias, if any) unless an author
/// with the same id is already there; the pending names are then cleared.
pub open spec fn flush_author(s: ScanState, aliases: Option<Map<Seq<char>, PersonModel>>) -> ScanState {
    if s.last_name is None && s.middle_name is None {
        cleared(s)
    } else {
        match spec_normalize(s.last_name, s.first_name, s.middle_name) {
            None => cleared(s),
            Some(id) => {
                let candidate = aliased((id, s.first_name, s.middle_name, s.last_name), aliases);
                if has_author_id(s.authors, candidate.0) {
                    cleared(s)
                } else {
                    ScanState { authors: s.authors.push(candidate), ..cleared(s) }
                }
            },
        }
    }
}

/// Stores `text` in field `f`.
pub open spec fn with_field(s: ScanState, f: Field, text: Seq<char>) -> ScanState {
    match f {
        Field::Title => ScanState { title: Some(text), ..s },
        Field::Lang => ScanState { lang: Some(text), ..s },
        Field::Genre => ScanState { genre: Some(text), ..s },
        Field::FirstName => ScanState { first_name: Some(text), ..s },
        Field::MiddleName => ScanState { middle_name: Some(text), ..s },
        Field::LastName => ScanState { last_name: Some(text), ..s },
        Field::ExtId => ScanState { ext_id: Some(text), ..s },
        Field::Version => ScanState { version: Some(text), ..s },
    }
}

/// How the scan goes on after an event.
#[derive(Clone, Copy, Debug, PartialEq, Eq, Structural)]
pub enum ScanStatus {
    /// Keep reading.
    Continue,
    /// `</description>` was read: the metadata is complete.
    Done,
    /// The input ended before `</description>`.
    NoDescription,
}

/// The state and status after reading one event in state `s`.
pub open spec fn scan_step(s: ScanState, ev: XmlEventModel, aliases: Option<Map<Seq<char>, PersonModel>>) -> (
    ScanState,
    ScanStatus,
) {
    match ev {
        XmlEventModel::Decl(encoding) => match encoding {
            Some(e) => (ScanState { encoding: Some(e), ..s }, ScanStatus::Continue),
            None => (s, ScanStatus::Continue),
        },
        XmlEventModel::Start(name) => {
            let pushed = ScanState { stack: s.stack.push(tag_of(name)), ..s };
            if starts_author(pushed.stack) {
                (flush_author(pushed, aliases), ScanStatus::Continue)
            } else {
                (pushed, ScanStatus::Continue)
            }
        },
        XmlEventModel::End => {
            if s.stack.len() == 0 {
                (s, ScanStatus::Continue)
            } else {
                let popped = ScanState { stack: s.stack.drop_last(), ..s };
                if s.stack.last() == Tag::Description {
                    (popped, ScanStatus::Done)
                } else {
                    (popped, ScanStatus::Continue)
                }
            }
        },
        XmlEventModel::Text(text) => {
            if text.len() == 0 {
                (s, ScanStatus::Continue)
            } else {
                match text_target(s.stack) {
                    Some(f) => (with_field(s, f, text), ScanStatus::Continue),
                    None => (s, ScanStatus::Continue),
                }
            }
        },
        XmlEventModel::Eof => (s, ScanStatus::NoDescription),
        XmlEventModel::Other => (s, ScanStatus::Continue),
    }
}

/// The state before any event.
pub open spec fn initial_state() -> ScanState {
    ScanState {
        stack: seq![],
        first_name: None,
        middle_name: None,
        last_name: None,
        ext_id: None,
        title: None,
        lang: None,
        genre: None,
        version: None,
        encoding: None,
        authors: seq![],
    }
}

/// Reads `evs` from state `s` until an event ends the scan; running out of
/// events counts as the end of the input.
pub open spec fn scan_events(s: ScanState, evs: Seq<XmlEventModel>, aliases: Option<Map<Seq<char>, PersonModel>>) -> (
    ScanState,
    ScanStatus,
)
    decreases evs.len(),
{
    if evs.len() == 0 {
        (s, ScanStatus::NoDescription)
    } else {
        let (s1, st) = scan_step(s, evs[0], aliases);
        if st == ScanStatus::Continue {
            scan_events(s1, evs.drop_first(), aliases)
        } else {
            (s1, st)
        }
    }
}


// ------------------------------------------------------------------
// Outcome of a scan
// ------------------------------------------------------------------

/// The fields of a book, as plain values.
pub struct BookModel {
    pub ext_id: Option<Seq<char>>,
    pub version: Option<Seq<char>>,
    pub title: Seq<char>,
    pub authors: Seq<PersonModel>,
    pub lang: Option<Seq<char>>,
    pub genre: Option<Seq<char>>,
    pub filename: Seq<char>,
    pub encoding: Seq<char>,
}

/// The fields of `b`, as plain values.
pub open spec fn book_model(b: Book) -> BookModel {
    BookModel {
        ext_id: opt_view(b.ext_id),
        version: opt_view(b.version),
        title: b.title@,
        authors: models(b.authors@),
        lang: opt_view(b.lang),
        genre: opt_view(b.genre),
        filename: b.filename@,
        encoding: b.encoding@,
    }
}

/// How reading a description ends.
pub enum ScanOutcome {
    /// The input ended before `</description>`.
    NoDescription,
    /// The description has no book title.
    NoTitle,
    /// The book title is empty after normalization.
    EmptyTitle(Seq<char>),
    /// The metadata of the book.
    Parsed(BookModel),
}

/// The outcome of a completed description read into `s`: the title must be
/// present and must not be empty after normalization; the pending author is
/// closed; the encoding defaults to "UTF-8".
pub open spec fn finish_outcome(s: ScanState, filename: Seq<char>, aliases: Option<Map<Seq<char>, PersonModel>>) -> ScanOutcome {
    match s.title {
        None => ScanOutcome::NoTitle,
        Some(t) => if spec_normalize_chunk(t) is None {
            ScanOutcome::EmptyTitle(t)
        } else {
            let f = flush_author(s, aliases);
            ScanOutcome::Parsed(
                BookModel {
                    ext_id: f.ext_id,
                    version: f.version,
                    title: t,
                    authors: f.authors,
                    lang: f.lang,
                    genre: f.genre,
                    filename: filename,
                    encoding: match f.encoding {
                        Some(e) => e,
                        None => "UTF-8"@,
                    },
                },
            )
        },
    }
}

/// The outcome of reading the events `evs` of a file whose name without
/// extension is `filename`.
pub open spec fn outcome_of(evs: Seq<XmlEventModel>, filename: Seq<char>, aliases: Option<Map<Seq<char>, PersonModel>>) -> ScanOutcome {
    let (s, st) = scan_events(initial_state(), evs, aliases);
    if st == ScanStatus::NoDescription {
        ScanOutcome::NoDescription
    } else {
        finish_outcome(s, filename, aliases)
    }
}

/// The reasons why a ZIP archive yields no FB2 document.
#[derive(Clone, Copy, Debug, PartialEq, Eq, Structural)]
pub enum ZipFailure {
    /// The bytes are not a ZIP archive.
    Archive,
    /// The first entry cannot be opened (the archive has no files).
    Entry,
    /// The first entry cannot be read.
    Read,
}

/// Why the metadata of a file could not be read.
#[derive(Debug)]
pub enum Fb2Error {
    /// The path has no file stem.
    InvalidFilename { path: String },
    /// The file is a ZIP archive that yields no document.
    Zip { failure: ZipFailure },
    /// The XML reader reported an error.
    Xml { path: String, reason: String },
    /// Character data could not be decoded.
    Decode { reason: String },
    /// The input ended before `</description>`.
    NoDescription { path: String },
    /// The description has no book title.
    NoTitle,
    /// The book title is empty after normalization.
    EmptyTitle { title: String },
}

/// Whether `r` is what the outcome `o` stands for, for the file at `path`.
pub open spec fn result_matches(r: Result<Book, Fb2Error>, o: ScanOutcome, path: Seq<char>) -> bool {
    match (r, o) {
        (Ok(b), ScanOutcome::Parsed(m)) => book_model(b) == m,
        (Err(Fb2Error::NoDescription { path: p }), ScanOutcome::NoDescription) => p@ == path,
        (Err(Fb2Error::NoTitle), ScanOutcome::NoTitle) => true,
        (Err(Fb2Error::EmptyTitle { title }), ScanOutcome::EmptyTitle(t)) => title@ == t,
        _ => false,
    }
}

// ------------------------------------------------------------------
// Scanning
// ------------------------------------------------------------------

/// The metadata read so far from a description.
pub struct Fb2Scan {
    stack: Vec<Tag>,
    first_name: Option<String>,
    middle_name: Option<String>,
    last_name: Option<String>,
    ext_id: Option<String>,
    title: Option<String>,
    lang: Option<String>,
    genre: Option<String>,
    version: Option<String>,
    encoding: Option<String>,
    authors: Vec<Person>,
}

/// The models of a sequence of persons.
pub open spec fn models(ps: Seq<Person>) -> Seq<PersonModel> {
    ps.map_values(|p: Person| p.model())
}

impl View for Fb2Scan {
    type V = ScanState;

    closed spec fn view(&self) -> ScanState {
        ScanState {
            stack: self.stack@,
            first_name: opt_view(self.first_name),
            middle_name: opt_view(self.middle_name),
            last_name: opt_view(self.last_name),
            ext_id: opt_view(self.ext_id),
            title: opt_view(self.title),
            lang: opt_view(self.lang),
            genre: opt_view(self.genre),
            version: opt_view(self.version),
            encoding: opt_view(self.encoding),
            authors: models(self.authors@),
        }
    }
}

fn contains_author(authors: &Vec<Person>, id: &String) -> (r: bool)
    ensures
        r == has_author_id(models(authors@), id@),
{
    let mut i: usize = 0;
    while i < authors.len()
        invariant
            i <= authors.len(),
            forall|j: int| 0 <= j < i ==> (#[trigger] models(authors@)[j]).0 != id@,
        decreases authors.len() - i,
    {
        if same_text(&authors[i].id, id) {
            assert(models(authors@)[i as int].0 == id@);
            return true;
        }
        i += 1;
    }
    false
}

impl Fb2Scan {
    /// The state before any event.
    pub fn new() -> (r: Fb2Scan)
        ensures
            r@ == initial_state(),
    {
        let r = Fb2Scan {
            stack: Vec::new(),
            first_name: None,
            middle_name: None,
            last_name: None,
            ext_id: None,
            title: None,
            lang: None,
            genre: None,
            version: None,
            encoding: None,
            authors: Vec::new(),
        };
        assert(models(r.authors@) =~= Seq::<PersonModel>::empty());
        r
    }

    /// Closes the pending author (see [`flush_author`]).
    fn flush(&mut self, aliases: &Option<AliasTable>)
        ensures
            final(self)@ == flush_author(old(self)@, alias_view(*aliases)),
    {
        if self.last_name.is_some() || self.middle_name.is_some() {
            match person_create(&self.last_name, &self.first_name, &self.middle_name) {
                None => {},
                Some(person) => {
                    let candidate = apply_aliases(&person, aliases);
                    if !contains_author(&self.authors, &candidate.id) {
                        let ghost before = models(self.authors@);
                        let added = candidate.duplicate();
                        self.authors.push(added);
                        assert(models(self.authors@) =~= before.push(added.model()));
                    }
                },
            }
        }
        self.first_name = None;
        self.middle_name = None;
        self.last_name = None;
    }

    /// Reads one event (see [`scan_step`]).
    pub fn step(&mut self, ev: XmlEvent, aliases: &Option<AliasTable>) -> (st: ScanStatus)
        ensures
            (final(self)@, st) == scan_step(old(self)@, ev@, alias_view(*aliases)),
    {
        match ev {
            XmlEvent::Decl { encoding } => {
                if encoding.is_some() {
                    self.encoding = encoding;
                }
                ScanStatus::Continue
            },
            XmlEvent::Start { name } => {
                let tag = classify_tag(name.as_str());
                self.stack.push(tag);
                if ends_with3_of(&self.stack, Tag::Description, Tag::TitleInfo, Tag::Author)
                    || ends_with3_of(&self.stack, Tag::Description, Tag::DocumentInfo, Tag::Author) {
                    self.flush(aliases);
                }
                ScanStatus::Continue
            },
            XmlEvent::End => {
                match self.stack.pop() {
                    None => ScanStatus::Continue,
                    Some(t) => if t == Tag::Description {
                        ScanStatus::Done
                    } else {
                        ScanStatus::Continue
                    },
                }
            },
            XmlEvent::Text { text } => {
                if text.as_str().is_empty() {
                    return ScanStatus::Continue;
                }
                match text_target_of(&self.stack) {
                    Some(Field::Title) => self.title = Some(text),
                    Some(Field::Lang) => self.lang = Some(text),
                    Some(Field::Genre) => self.genre = Some(text),
                    Some(Field::FirstName) => self.first_name = Some(text),
                    Some(Field::MiddleName) => self.middle_name = Some(text),
                    Some(Field::LastName) => self.last_name = Some(text),
                    Some(Field::ExtId) => self.ext_id = Some(text),
                    Some(Field::Version) => self.version = Some(text),
                    None => {},
                }
                ScanStatus::Continue
            },
            XmlEvent::Eof => ScanStatus::NoDescription,
            XmlEvent::Other => ScanStatus::Continue,
        }
    }
}


impl Fb2Scan {
    /// Completes a read description into a book (see [`finish_outcome`]).
    pub fn finish(self, path: &str, filename: String, aliases: &Option<AliasTable>) -> (r: Result<Book, Fb2Error>)
        ensures
            result_matches(r, finish_outcome(self@, filename@, alias_view(*aliases)), path@),
    {
        let mut scan = self;
        let title = match scan.title {
            None => return Err(Fb2Error::NoTitle),
            Some(t) => t,
        };
        if normalize_chunk(title.as_str()).is_none() {
            return Err(Fb2Error::EmptyTitle { title });
        }
        scan.title = None;
        let ghost before = scan@;
        scan.flush(aliases);
        let encoding = match scan.encoding {
            Some(e) => e,
            None => String::from_str("UTF-8"),
        };
        let b = Book {
            title,
            authors: scan.authors,
            ext_id: scan.ext_id,
            version: scan.version,
            lang: scan.lang,
            genre: scan.genre,
            filename,
            encoding,
        };
        proof {
            assert(flush_author(self@, alias_view(*aliases)).authors == flush_author(before, alias_view(*aliases)).authors);
        }
        Ok(b)
    }
}

/// The plain values of a sequence of events.
pub open spec fn event_models(evs: Seq<XmlEvent>) -> Seq<XmlEventModel> {
    evs.map_values(|e: XmlEvent| e@)
}

/// Reads the events `events` of the file at `path`, whose name without
/// extension is `filename`, into a book.
pub fn book_from_events(
    path: &str,
    filename: String,
    events: Vec<XmlEvent>,
    aliases: &Option<AliasTable>,
) -> (r: Result<Book, Fb2Error>)
    ensures
        result_matches(r, outcome_of(event_models(events@), filename@, alias_view(*aliases)), path@),
{
    let ghost all = event_models(events@);
    let mut evs = events;
    let mut scan = Fb2Scan::new();
    while evs.len() > 0
        invariant
            scan_events(initial_state(), all, alias_view(*aliases)) == scan_events(
                scan@,
                event_models(evs@),
                alias_view(*aliases),
            ),
            all == event_models(events@),
        decreases evs.len(),
    {
        let ghost cur = evs@;
        let ghost before = scan@;
        let ev = evs.remove(0);
        proof {
            assert(event_models(evs@) =~= event_models(cur).drop_first());
            assert(ev@ == event_models(cur)[0]);
        }
        let st = scan.step(ev, aliases);
        match st {
            ScanStatus::Continue => {},
            ScanStatus::Done => {
                assert(outcome_of(all, filename@, alias_view(*aliases)) == finish_outcome(
                    scan@,
                    filename@,
                    alias_view(*aliases),
                ));
                return scan.finish(path, filename, aliases);
            },
            ScanStatus::NoDescription => {
                return Err(Fb2Error::NoDescription { path: String::from_str(path) });
            },
        }
    }
    Err(Fb2Error::NoDescription { path: String::from_str(path) })
}

// ------------------------------------------------------------------
// Laws of the scan
// ------------------------------------------------------------------

proof fn lemma_flush_keeps_distinct(s: ScanState, aliases: Option<Map<Seq<char>, PersonModel>>)
    requires
        distinct_ids(s.authors),
    ensures
        distinct_ids(flush_author(s, aliases).authors),
{
    let f = flush_author(s, aliases);
    if f.authors.len() > s.authors.len() {
        let c = f.authors.last();
        assert(f.authors == s.authors.push(c));
        assert(!has_author_id(s.authors, c.0));
        assert forall|i: int, j: int| 0 <= i < j < f.authors.len() implies (#[trigger] f.authors[i]).0
            != (#[trigger] f.authors[j]).0 by {
            if j == f.authors.len() - 1 {
                assert(f.authors[i] == s.authors[i]);
            } else {
                assert(f.authors[i] == s.authors[i] && f.authors[j] == s.authors[j]);
            }
        }
    }
}

proof fn lemma_step_keeps_distinct(s: ScanState, ev: XmlEventModel, aliases: Option<Map<Seq<char>, PersonModel>>)
    requires
        distinct_ids(s.authors),
    ensures
        distinct_ids(scan_step(s, ev, aliases).0.authors),
{
    match ev {
        XmlEventModel::Start(name) => {
            let pushed = ScanState { stack: s.stack.push(tag_of(name)), ..s };
            lemma_flush_keeps_distinct(pushed, aliases);
        },
        _ => {},
    }
}

proof fn lemma_scan_keeps_distinct(s: ScanState, evs: Seq<XmlEventModel>, aliases: Option<Map<Seq<char>, PersonModel>>)
    requires
        distinct_ids(s.authors),
    ensures
        distinct_ids(scan_events(s, evs, aliases).0.authors),
    decreases evs.len(),
{
    if evs.len() > 0 {
        lemma_step_keeps_distinct(s, evs[0], aliases);
        let (s1, st) = scan_step(s, evs[0], aliases);
        if st == ScanStatus::Continue {
            lemma_scan_keeps_distinct(s1, evs.drop_first(), aliases);
        }
    }
}

proof fn lemma_finish_invariants(s: ScanState, filename: Seq<char>, aliases: Option<Map<Seq<char>, PersonModel>>)
    requires
        distinct_ids(s.authors),
    ensures
        finish_outcome(s, filename, aliases) matches ScanOutcome::Parsed(m) ==> {
            &&& distinct_ids(m.authors)
            &&& spec_normalize_chunk(m.title) is Some
            &&& m.filename == filename
        },
{
    lemma_flush_keeps_distinct(s, aliases);
}

/// A book read from any event stream has a title that is not empty after
/// normalization, no two of its authors share an id, and its file name is
/// the one the stream was read for.
pub proof fn lemma_parsed_book_invariants(
    evs: Seq<XmlEventModel>,
    filename: Seq<char>,
    aliases: Option<Map<Seq<char>, PersonModel>>,
)
    ensures
        outcome_of(evs, filename, aliases) matches ScanOutcome::Parsed(m) ==> {
            &&& distinct_ids(m.authors)
            &&& spec_normalize_chunk(m.title) is Some
            &&& m.filename == filename
        },
{
    lemma_scan_keeps_distinct(initial_state(), evs, aliases);
    let (s, st) = scan_events(initial_state(), evs, aliases);
    lemma_finish_invariants(s, filename, aliases);
}

proof fn lemma_scan_skip(s: ScanState, evs: Seq<XmlEventModel>, i: int, aliases: Option<Map<Seq<char>, PersonModel>>)
    requires
        0 <= i < evs.len(),
    ensures
        scan_events(s, evs.skip(i), aliases) == (if scan_step(s, evs[i], aliases).1 == ScanStatus::Continue {
            scan_events(scan_step(s, evs[i], aliases).0, evs.skip(i + 1), aliases)
        } else {
            scan_step(s, evs[i], aliases)
        }),
{
    assert(evs.skip(i).drop_first() =~= evs.skip(i + 1));
    assert(evs.skip(i)[0] == evs[i]);
}

/// The events of a description whose title info holds the book title `t`
/// and one author with the first, middle and last names `f`, `m`, `l`.
pub open spec fn one_author_description(t: Seq<char>, f: Seq<char>, m: Seq<char>, l: Seq<char>) -> Seq<XmlEventModel> {
    seq![
        XmlEventModel::Start("description"@),
        XmlEventModel::Start("title-info"@),
        XmlEventModel::Start("book-title"@),
        XmlEventModel::Text(t),
        XmlEventModel::End,
        XmlEventModel::Start("author"@),
        XmlEventModel::Start("first-name"@),
        XmlEventModel::Text(f),
        XmlEventModel::End,
        XmlEventModel::Start("middle-name"@),
        XmlEventModel::Text(m),
        XmlEventModel::End,
        XmlEventModel::Start("last-name"@),
        XmlEventModel::Text(l),
        XmlEventModel::End,
        XmlEventModel::End,
        XmlEventModel::End,
        XmlEventModel::End,
    ]
}

/// The texts under `first-name`, `middle-name` and `last-name` of an author
/// of the title info are that author's names: a description with one
/// author gives a book with that one author, whose first, middle and last
/// names are those texts and whose id is the normalization of the three.
pub proof fn law_author_names_are_read(
    t: Seq<char>,
    f: Seq<char>,
    m: Seq<char>,
    l: Seq<char>,
    filename: Seq<char>,
)
    requires
        t.len() > 0,
        f.len() > 0,
        m.len() > 0,
        l.len() > 0,
        spec_normalize_chunk(t) is Some,
        spec_normalize(Some(l), Some(f), Some(m)) is Some,
    ensures
        outcome_of(one_author_description(t, f, m, l), filename, None) == ScanOutcome::Parsed(
            BookModel {
                ext_id: None,
                version: None,
                title: t,
                authors: seq![(spec_normalize(Some(l), Some(f), Some(m))->Some_0, Some(f), Some(m), Some(l))],
                lang: None,
                genre: None,
                filename: filename,
                encoding: "UTF-8"@,
            },
        ),
{
    reveal_strlit("description");
    reveal_strlit("title-info");
    reveal_strlit("document-info");
    reveal_strlit("author");
    reveal_strlit("book-title");
    reveal_strlit("lang");
    reveal_strlit("genre");
    reveal_strlit("first-name");
    reveal_strlit("middle-name");
    reveal_strlit("last-name");
    reveal_strlit("id");
    reveal_strlit("version");
    assert("description"@.len() == 11 && "description"@[0] == 'd');
    assert("title-info"@.len() == 10 && "title-info"@[0] == 't');
    assert("document-info"@.len() == 13 && "document-info"@[0] == 'd');
    assert("author"@.len() == 6 && "author"@[0] == 'a');
    assert("book-title"@.len() == 10 && "book-title"@[0] == 'b');
    assert("lang"@.len() == 4 && "lang"@[0] == 'l');
    assert("genre"@.len() == 5 && "genre"@[0] == 'g');
    assert("first-name"@.len() == 10 && "first-name"@[0] == 'f');
    assert("middle-name"@.len() == 11 && "middle-name"@[0] == 'm');
    assert("last-name"@.len() == 9 && "last-name"@[0] == 'l');
    assert("id"@.len() == 2 && "id"@[0] == 'i');
    assert("version"@.len() == 7 && "version"@[0] == 'v');
    assert(tag_of("description"@) == Tag::Description);
    assert(tag_of("title-info"@) == Tag::TitleInfo);
    assert(tag_of("book-title"@) == Tag::BookTitle);
    assert(tag_of("author"@) == Tag::Author);
    assert(tag_of("first-name"@) == Tag::FirstName);
    assert(tag_of("middle-name"@) == Tag::MiddleName);
    assert(tag_of("last-name"@) == Tag::LastName);
    let evs = one_author_description(t, f, m, l);
    let a: Option<Map<Seq<char>, PersonModel>> = None;
    let s0 = initial_state();
    lemma_scan_skip(s0, evs, 0, a);
    let s1 = scan_step(s0, evs[0], a).0;
    lemma_scan_skip(s1, evs, 1, a);
    let s2 = scan_step(s1, evs[1], a).0;
    lemma_scan_skip(s2, evs, 2, a);
    let s3 = scan_step(s2, evs[2], a).0;
    lemma_scan_skip(s3, evs, 3, a);
    assert(s3.stack =~= seq![Tag::Description, Tag::TitleInfo, Tag::BookTitle]);
    assert(text_target(s3.stack) == Some(Field::Title));
    let s4 = scan_step(s3, evs[3], a).0;
    assert(s4.title == Some(t));
    lemma_scan_skip(s4, evs, 4, a);
    let s5 = scan_step(s4, evs[4], a).0;
    lemma_scan_skip(s5, evs, 5, a);
    assert(s5.stack =~= seq![Tag::Description, Tag::TitleInfo]);
    let s6 = scan_step(s5, evs[5], a).0;
    assert(s6.authors.len() == 0);
    assert(s6.stack =~= seq![Tag::Description, Tag::TitleInfo, Tag::Author]);
    lemma_scan_skip(s6, evs, 6, a);
    let s7 = scan_step(s6, evs[6], a).0;
    lemma_scan_skip(s7, evs, 7, a);
    assert(s7.stack =~= seq![Tag::Description, Tag::TitleInfo, Tag::Author, Tag::FirstName]);
    assert(text_target(s7.stack) == Some(Field::FirstName));
    let s8 = scan_step(s7, evs[7], a).0;
    assert(s8.first_name == Some(f));
    lemma_scan_skip(s8, evs, 8, a);
    let s9 = scan_step(s8, evs[8], a).0;
    lemma_scan_skip(s9, evs, 9, a);
    let s10 = scan_step(s9, evs[9], a).0;
    lemma_scan_skip(s10, evs, 10, a);
    assert(s9.stack =~= seq![Tag::Description, Tag::TitleInfo, Tag::Author]);
    assert(s10.stack =~= seq![Tag::Description, Tag::TitleInfo, Tag::Author, Tag::MiddleName]);
    assert(text_target(s10.stack) == Some(Field::MiddleName));
    let s11 = scan_step(s10, evs[10], a).0;
    assert(s11.middle_name == Some(m));
    lemma_scan_skip(s11, evs, 11, a);
    let s12 = scan_step(s11, evs[11], a).0;
    lemma_scan_skip(s12, evs, 12, a);
    let s13 = scan_step(s12, evs[12], a).0;
    lemma_scan_skip(s13, evs, 13, a);
    assert(s12.stack =~= seq![Tag::Description, Tag::TitleInfo, Tag::Author]);
    assert(s13.stack =~= seq![Tag::Description, Tag::TitleInfo, Tag::Author, Tag::LastName]);
    assert(text_target(s13.stack) == Some(Field::LastName));
    let s14 = scan_step(s13, evs[13], a).0;
    assert(s14.last_name == Some(l));
    lemma_scan_skip(s14, evs, 14, a);
    let s15 = scan_step(s14, evs[14], a).0;
    lemma_scan_skip(s15, evs, 15, a);
    let s16 = scan_step(s15, evs[15], a).0;
    lemma_scan_skip(s16, evs, 16, a);
    let s17 = scan_step(s16, evs[16], a).0;
    lemma_scan_skip(s17, evs, 17, a);
    assert(s15.stack =~= seq![Tag::Description, Tag::TitleInfo, Tag::Author]);
    assert(s16.stack =~= seq![Tag::Description, Tag::TitleInfo]);
    assert(s17.stack =~= seq![Tag::Description]);
    let (s18, st) = scan_step(s17, evs[17], a);
    assert(st == ScanStatus::Done);
    assert(evs.skip(0) =~= evs);
    assert(scan_events(s0, evs, a) == (s18, ScanStatus::Done));
    let fl = flush_author(s18, a);
    assert(fl.authors =~= seq![(spec_normalize(Some(l), Some(f), Some(m))->Some_0, Some(f), Some(m), Some(l))]);
}

/// The events of a document that declares the encoding `e` and whose
/// description holds the book title `t`, the language `la`, the genre `g`,
/// and in its document info the id `i` and the version `v`.
pub open spec fn document_info_description(
    e: Seq<char>,
    t: Seq<char>,
    la: Seq<char>,
    g: Seq<char>,
    i: Seq<char>,
    v: Seq<char>,
) -> Seq<XmlEventModel> {
    seq![
        XmlEventModel::Decl(Some(e)),
        XmlEventModel::Start("description"@),
        XmlEventModel::Start("title-info"@),
        XmlEventModel::Start("book-title"@),
        XmlEventModel::Text(t),
        XmlEventModel::End,
        XmlEventModel::Start("lang"@),
        XmlEventModel::Text(la),
        XmlEventModel::End,
        XmlEventModel::Start("genre"@),
        XmlEventModel::Text(g),
        XmlEventModel::End,
        XmlEventModel::End,
        XmlEventModel::Start("document-info"@),
        XmlEventModel::Start("id"@),
        XmlEventModel::Text(i),
        XmlEventModel::End,
        XmlEventModel::Start("version"@),
        XmlEventModel::Text(v),
        XmlEventModel::End,
        XmlEventModel::End,
        XmlEventModel::End,
    ]
}

/// Each metadata field is read from its own element: the declared encoding
/// becomes the book's encoding, the texts of `book-title`, `lang` and
/// `genre` under the title info its title, language and genre, and the texts
/// of `id` and `version` under the document info its external id and
/// version.
pub proof fn law_metadata_fields_are_read(
    e: Seq<char>,
    t: Seq<char>,
    la: Seq<char>,
    g: Seq<char>,
    i: Seq<char>,
    v: Seq<char>,
    filename: Seq<char>,
)
    requires
        t.len() > 0,
        la.len() > 0,
        g.len() > 0,
        i.len() > 0,
        v.len() > 0,
        spec_normalize_chunk(t) is Some,
    ensures
        outcome_of(document_info_description(e, t, la, g, i, v), filename, None) == ScanOutcome::Parsed(
            BookModel {
                ext_id: Some(i),
                version: Some(v),
                title: t,
                authors: Seq::<PersonModel>::empty(),
                lang: Some(la),
                genre: Some(g),
                filename: filename,
                encoding: e,
            },
        ),
{
    reveal_strlit("description");
    reveal_strlit("title-info");
    reveal_strlit("document-info");
    reveal_strlit("author");
    reveal_strlit("book-title");
    reveal_strlit("lang");
    reveal_strlit("genre");
    reveal_strlit("first-name");
    reveal_strlit("middle-name");
    reveal_strlit("last-name");
    reveal_strlit("id");
    reveal_strlit("version");
    assert("description"@.len() == 11 && "description"@[0] == 'd');
    assert("title-info"@.len() == 10 && "title-info"@[0] == 't');
    assert("document-info"@.len() == 13 && "document-info"@[0] == 'd');
    assert("author"@.len() == 6 && "author"@[0] == 'a');
    assert("book-title"@.len() == 10 && "book-title"@[0] == 'b');
    assert("lang"@.len() == 4 && "lang"@[0] == 'l');
    assert("genre"@.len() == 5 && "genre"@[0] == 'g');
    assert("first-name"@.len() == 10 && "first-name"@[0] == 'f');
    assert("middle-name"@.len() == 11 && "middle-name"@[0] == 'm');
    assert("last-name"@.len() == 9 && "last-name"@[0] == 'l');
    assert("id"@.len() == 2 && "id"@[0] == 'i');
    assert("version"@.len() == 7 && "version"@[0] == 'v');
    assert(tag_of("description"@) == Tag::Description);
    assert(tag_of("title-info"@) == Tag::TitleInfo);
    assert(tag_of("book-title"@) == Tag::BookTitle);
    assert(tag_of("lang"@) == Tag::Lang);
    assert(tag_of("genre"@) == Tag::Genre);
    assert(tag_of("document-info"@) == Tag::DocumentInfo);
    assert(tag_of("id"@) == Tag::Id);
    assert(tag_of("version"@) == Tag::Version);
    let evs = document_info_description(e, t, la, g, i, v);
    let a: Option<Map<Seq<char>, PersonModel>> = None;
    let s0 = initial_state();
    lemma_scan_skip(s0, evs, 0, a);
    let s1 = scan_step(s0, evs[0], a).0;
    assert(s1.stack =~= Seq::<Tag>::empty());
    lemma_scan_skip(s1, evs, 1, a);
    let s2 = scan_step(s1, evs[1], a).0;
    assert(s2.stack =~= seq![Tag::Description]);
    lemma_scan_skip(s2, evs, 2, a);
    let s3 = scan_step(s2, evs[2], a).0;
    assert(s3.stack =~= seq![Tag::Description, Tag::TitleInfo]);
    lemma_scan_skip(s3, evs, 3, a);
    let s4 = scan_step(s3, evs[3], a).0;
    assert(s4.stack =~= seq![Tag::Description, Tag::TitleInfo, Tag::BookTitle]);
    lemma_scan_skip(s4, evs, 4, a);
    let s5 = scan_step(s4, evs[4], a).0;
    assert(s5.stack =~= seq![Tag::Description, Tag::TitleInfo, Tag::BookTitle]);
    lemma_scan_skip(s5, evs, 5, a);
    let s6 = scan_step(s5, evs[5], a).0;
    assert(s6.stack =~= seq![Tag::Description, Tag::TitleInfo]);
    lemma_scan_skip(s6, evs, 6, a);
    let s7 = scan_step(s6, evs[6], a).0;
    assert(s7.stack =~= seq![Tag::Description, Tag::TitleInfo, Tag::Lang]);
    lemma_scan_skip(s7, evs, 7, a);
    let s8 = scan_step(s7, evs[7], a).0;
    assert(s8.stack =~= seq![Tag::Description, Tag::TitleInfo, Tag::Lang]);
    lemma_scan_skip(s8, evs, 8, a);
    let s9 = scan_step(s8, evs[8], a).0;
    assert(s9.stack =~= seq![Tag::Description, Tag::TitleInfo]);
    lemma_scan_skip(s9, evs, 9, a);
    let s10 = scan_step(s9, evs[9], a).0;
    assert(s10.stack =~= seq![Tag::Description, Tag::TitleInfo, Tag::Genre]);
    lemma_scan_skip(s10, evs, 10, a);
    let s11 = scan_step(s10, evs[10], a).0;
    assert(s11.stack =~= seq![Tag::Description, Tag::TitleInfo, Tag::Genre]);
    lemma_scan_skip(s11, evs, 11, a);
    let s12 = scan_step(s11, evs[11], a).0;
    assert(s12.stack =~= seq![Tag::Description, Tag::TitleInfo]);
    lemma_scan_skip(s12, evs, 12, a);
    let s13 = scan_step(s12, evs[12], a).0;
    assert(s13.stack =~= seq![Tag::Description]);
    lemma_scan_skip(s13, evs, 13, a);
    let s14 = scan_step(s13, evs[13], a).0;
    assert(s14.stack =~= seq![Tag::Description, Tag::DocumentInfo]);
    lemma_scan_skip(s14, evs, 14, a);
    let s15 = scan_step(s14, evs[14], a).0;
    assert(s15.stack =~= seq![Tag::Description, Tag::DocumentInfo, Tag::Id]);
    lemma_scan_skip(s15, evs, 15, a);
    let s16 = scan_step(s15, evs[15], a).0;
    assert(s16.stack =~= seq![Tag::Description, Tag::DocumentInfo, Tag::Id]);
    lemma_scan_skip(s16, evs, 16, a);
    let s17 = scan_step(s16, evs[16], a).0;
    assert(s17.stack =~= seq![Tag::Description, Tag::DocumentInfo]);
    lemma_scan_skip(s17, evs, 17, a);
    let s18 = scan_step(s17, evs[17], a).0;
    assert(s18.stack =~= seq![Tag::Description, Tag::DocumentInfo, Tag::Version]);
    lemma_scan_skip(s18, evs, 18, a);
    let s19 = scan_step(s18, evs[18], a).0;
    assert(s19.stack =~= seq![Tag::Description, Tag::DocumentInfo, Tag::Version]);
    lemma_scan_skip(s19, evs, 19, a);
    let s20 = scan_step(s19, evs[19], a).0;
    assert(s20.stack =~= seq![Tag::Description, Tag::DocumentInfo]);
    lemma_scan_skip(s20, evs, 20, a);
    let s21 = scan_step(s20, evs[20], a).0;
    assert(s21.stack =~= seq![Tag::Description]);
    lemma_scan_skip(s21, evs, 21, a);
    let (sl, st) = scan_step(s21, evs[21], a);
    assert(st == ScanStatus::Done);
    assert(evs.skip(0) =~= evs);
    assert(scan_events(s0, evs, a) == (sl, ScanStatus::Done));
    assert(flush_author(sl, a).authors =~= Seq::<PersonModel>::empty());
}

// ------------------------------------------------------------------
// Reading a document
// ------------------------------------------------------------------

/// How reading the events of a document ends: with an error of the reader,
/// or with the scan's state and status.
pub enum ReadEnd {
    Fault(XmlFailureModel),
    Scanned(ScanState, ScanStatus),
}

/// Reads the events of `doc` from the `index`-th on, from state `s`, until
/// an event ends the scan or the reader fails; after `fuel` events the input
/// counts as ended.
pub open spec fn read_events(
    doc: Seq<u8>,
    index: nat,
    fuel: nat,
    s: ScanState,
    aliases: Option<Map<Seq<char>, PersonModel>>,
) -> ReadEnd
    decreases fuel,
{
    if fuel == 0 {
        ReadEnd::Scanned(s, ScanStatus::NoDescription)
    } else {
        match xml_event_at(doc, index) {
            Err(f) => ReadEnd::Fault(f),
            Ok(ev) => {
                let (s1, st) = scan_step(s, ev, aliases);
                if st == ScanStatus::Continue {
                    read_events(doc, index + 1, (fuel - 1) as nat, s1, aliases)
                } else {
                    ReadEnd::Scanned(s1, st)
                }
            },
        }
    }
}

/// How reading a whole document ends.
pub enum DocOutcome {
    /// The reader failed.
    Fault(XmlFailureModel),
    /// The scan ended.
    Scanned(ScanOutcome),
}

/// The outcome of reading the document `doc` of a file whose book file name
/// is `filename`. Every event but the end of the input takes at least one
/// byte, so the reader is asked for at most one event more than `doc` has
/// bytes.
pub open spec fn document_outcome(doc: Seq<u8>, filename: Seq<char>, aliases: Option<Map<Seq<char>, PersonModel>>) -> DocOutcome {
    match read_events(doc, 0, doc.len() + 1, initial_state(), aliases) {
        ReadEnd::Fault(f) => DocOutcome::Fault(f),
        ReadEnd::Scanned(s, st) => DocOutcome::Scanned(
            if st == ScanStatus::NoDescription {
                ScanOutcome::NoDescription
            } else {
                finish_outcome(s, filename, aliases)
            },
        ),
    }
}

/// Whether `r` is what the outcome `o` of reading a document stands for,
/// for the file at `path`.
pub open spec fn doc_result_matches(r: Result<Book, Fb2Error>, o: DocOutcome, path: Seq<char>) -> bool {
    match o {
        DocOutcome::Fault(XmlFailureModel::Syntax(m)) => r matches Err(Fb2Error::Xml { path: p, reason })
            && p@ == path && reason@ == m,
        DocOutcome::Fault(XmlFailureModel::Decode(m)) => r matches Err(Fb2Error::Decode { reason }) && reason@
            == m,
        DocOutcome::Scanned(so) => result_matches(r, so, path),
    }
}

proof fn lemma_read_keeps_distinct(
    doc: Seq<u8>,
    index: nat,
    fuel: nat,
    s: ScanState,
    aliases: Option<Map<Seq<char>, PersonModel>>,
)
    requires
        distinct_ids(s.authors),
    ensures
        read_events(doc, index, fuel, s, aliases) matches ReadEnd::Scanned(s1, _) ==> distinct_ids(s1.authors),
    decreases fuel,
{
    if fuel > 0 {
        if let Ok(ev) = xml_event_at(doc, index) {
            lemma_step_keeps_distinct(s, ev, aliases);
            let (s1, st) = scan_step(s, ev, aliases);
            if st == ScanStatus::Continue {
                lemma_read_keeps_distinct(doc, index + 1, (fuel - 1) as nat, s1, aliases);
            }
        }
    }
}

/// A book read from any document has a title that is not empty after
/// normalization, no two of its authors share an id, and its file name is
/// the one the document was read for.
pub proof fn lemma_document_book_invariants(
    doc: Seq<u8>,
    filename: Seq<char>,
    aliases: Option<Map<Seq<char>, PersonModel>>,
)
    ensures
        document_outcome(doc, filename, aliases) matches DocOutcome::Scanned(ScanOutcome::Parsed(m)) ==> {
            &&& distinct_ids(m.authors)
            &&& spec_normalize_chunk(m.title) is Some
            &&& m.filename == filename
        },
{
    lemma_read_keeps_distinct(doc, 0, doc.len() + 1, initial_state(), aliases);
    if let ReadEnd::Scanned(s, st) = read_events(doc, 0, doc.len() + 1, initial_state(), aliases) {
        lemma_finish_invariants(s, filename, aliases);
    }
}

// ------------------------------------------------------------------
// Reading a file
// ------------------------------------------------------------------

/// What the file at position `index` of a ZIP archive holds (read with
/// `zip::ZipArchive`).
pub uninterp spec fn zip_entry(archive: Seq<u8>, index: nat) -> Result<Seq<u8>, ZipFailure>;

/// The bytes of a result, as plain values.
pub open spec fn bytes_result(r: Result<Vec<u8>, ZipFailure>) -> Result<Seq<u8>, ZipFailure> {
    match r {
        Ok(v) => Ok(v@),
        Err(f) => Err(f),
    }
}

/// Opens `archive` with `zip::ZipArchive::new`, opens the file at `index`
/// with `by_index` and reads it to the end; the outcome is a function of the
/// archive's bytes and the index.
#[verifier::external_body]
fn unzip_entry(archive: &[u8], index: usize) -> (r: Result<Vec<u8>, ZipFailure>)
    ensures
        bytes_result(r) == zip_entry(archive@, index as nat),
{
    let mut zip = match zip::ZipArchive::new(std::io::Cursor::new(archive)) {
        Ok(z) => z,
        Err(_) => return Err(ZipFailure::Archive),
    };
    let mut entry = match zip.by_index(index) {
        Ok(e) => e,
        Err(_) => return Err(ZipFailure::Entry),
    };
    let mut content = Vec::new();
    match std::io::Read::read_to_end(&mut entry, &mut content) {
        Ok(_) => Ok(content),
        Err(_) => Err(ZipFailure::Read),
    }
}

/// The FB2 document that the file at `path` with bytes `content` holds: a
/// `.zip` file holds it as its first entry, any other file is the document.
pub open spec fn book_document(path: Seq<char>, content: Seq<u8>) -> Result<Seq<u8>, ZipFailure> {
    if path_extension(path) == Some("zip"@) {
        zip_entry(content, 0)
    } else {
        Ok(content)
    }
}

/// The book file name of the file at `path`: its name without extension,
/// and for a `.fb2.zip` file its name without both extensions. `None` when
/// the path has no file name.
pub open spec fn spec_book_filename(path: Seq<char>) -> Option<Seq<char>> {
    match path_file_stem(path) {
        None => None,
        Some(stem) => if path_extension(path) == Some("zip"@) && path_extension(stem) == Some("fb2"@) {
            match path_file_stem(stem) {
                Some(inner) => Some(inner),
                None => Some(stem),
            }
        } else {
            Some(stem)
        },
    }
}

/// The book file name of the file at `path` (see [`spec_book_filename`]).
pub fn book_filename(path: &str) -> (r: Option<String>)
    ensures
        opt_view(r) == spec_book_filename(path@),
{
    let stem = match file_stem(path) {
        Some(s) => s,
        None => return None,
    };
    let zipped = match extension(path) {
        Some(e) => text_is(e.as_str(), "zip"),
        None => false,
    };
    let fb2_inside = match extension(stem.as_str()) {
        Some(e) => text_is(e.as_str(), "fb2"),
        None => false,
    };
    if zipped && fb2_inside {
        match file_stem(stem.as_str()) {
            Some(inner) => Some(inner),
            None => Some(stem),
        }
    } else {
        Some(stem)
    }
}

/// Reads the metadata of an FB2 document from `content`, the bytes of the
/// file at `path`; a `.zip` file holds the document as its first entry.
///
/// The book's `filename` is the file name without its extensions (see
/// [`spec_book_filename`]). The events of the document come from
/// `quick_xml` ([`xml_event_at`]); the reader stops at `</description>`, and
/// a document without one, without a book title, or whose title is empty
/// after normalization is refused (see [`document_outcome`]).
pub fn parse_book_info(path: &str, content: &[u8], aliases: &Option<AliasTable>) -> (r: Result<Book, Fb2Error>)
    ensures
        match spec_book_filename(path@) {
            None => r matches Err(Fb2Error::InvalidFilename { path: p }) && p@ == path@,
            Some(name) => match book_document(path@, content@) {
                Err(f) => r matches Err(Fb2Error::Zip { failure }) && failure == f,
                Ok(doc) => doc_result_matches(r, document_outcome(doc, name, alias_view(*aliases)), path@),
            },
        },
        r matches Ok(b) ==> {
            &&& spec_normalize_chunk(b.title@) is Some
            &&& distinct_ids(models(b.authors@))
        },
{
    let filename = match book_filename(path) {
        Some(f) => f,
        None => return Err(Fb2Error::InvalidFilename { path: String::from_str(path) }),
    };
    let is_zip = match extension(path) {
        Some(e) => text_is(e.as_str(), "zip"),
        None => false,
    };
    let unzipped: Vec<u8>;
    let document: &[u8] = if is_zip {
        match unzip_entry(content, 0) {
            Ok(d) => {
                unzipped = d;
                unzipped.as_slice()
            },
            Err(failure) => return Err(Fb2Error::Zip { failure }),
        }
    } else {
        content
    };
    let ghost doc = document@;
    let ghost av = alias_view(*aliases);
    let ghost start = read_events(doc, 0, doc.len() + 1, initial_state(), av);
    proof {
        lemma_document_book_invariants(doc, filename@, av);
    }
    let mut stream = XmlStream::new(document);
    let mut scan = Fb2Scan::new();
    let bound: u128 = document.len() as u128;
    let mut count: u128 = 0;
    while count <= bound
        invariant
            bound == doc.len(),
            bound < 0x1_0000_0000_0000_0000,
            count <= bound + 1,
            stream.doc() == doc,
            stream.index() == count,
            av == alias_view(*aliases),
            spec_book_filename(path@) == Some(filename@),
            book_document(path@, content@) matches Ok(d) && d == doc,
            start == read_events(doc, 0, doc.len() + 1, initial_state(), av),
            start == read_events(doc, count as nat, (doc.len() + 1 - count) as nat, scan@, av),
            distinct_ids(scan@.authors),
            document_outcome(doc, filename@, av) matches DocOutcome::Scanned(ScanOutcome::Parsed(m)) ==> {
                &&& distinct_ids(m.authors)
                &&& spec_normalize_chunk(m.title) is Some
            },
        decreases bound + 1 - count,
    {
        let ghost before = scan@;
        let ev = match stream.next_event() {
            Ok(ev) => ev,
            Err(XmlFailure::Syntax(reason)) => {
                return Err(Fb2Error::Xml { path: String::from_str(path), reason });
            },
            Err(XmlFailure::Decode(reason)) => {
                return Err(Fb2Error::Decode { reason });
            },
        };
        let ghost evm = ev@;
        let st = scan.step(ev, aliases);
        proof {
            lemma_step_keeps_distinct(before, evm, av);
        }
        match st {
            ScanStatus::Continue => {},
            ScanStatus::Done => {
                let ghost done = scan@;
                let r = scan.finish(path, filename, aliases);
                proof {
                    lemma_finish_invariants(done, filename@, av);
                }
                return r;
            },
            ScanStatus::NoDescription => {
                return Err(Fb2Error::NoDescription { path: String::from_str(path) });
            },
        }
        count += 1;
    }
    Err(Fb2Error::NoDescription { path: String::from_str(path) })
}

/// The message of a metadata error.
pub open spec fn spec_fb2_message(e: Fb2Error) -> Seq<char> {
    match e {
        Fb2Error::InvalidFilename { path } => "Invalid UTF-8 filename or missing stem: "@ + path@,
        Fb2Error::Zip { failure } => match failure {
            ZipFailure::Archive => "Failed to open ZIP archive"@,
            ZipFailure::Entry => "ZIP archive contains no files"@,
            ZipFailure::Read => "Failed to read FB2 from ZIP"@,
        },
        Fb2Error::Xml { path, reason } => "XML parse error in "@ + path@,
        Fb2Error::Decode { reason } => reason@,
        Fb2Error::NoDescription { path } => "No <description> found in FB2 file "@ + path@,
        Fb2Error::NoTitle => "No <book-title> found in FB2 file"@,
        Fb2Error::EmptyTitle { title } => "Book title normalizes to empty: '"@ + title@ + "'"@,
    }
}

impl Fb2Error {
    /// The message of this error (see [`spec_fb2_message`]).
    pub fn message(&self) -> (r: String)
        ensures
            r@ == spec_fb2_message(*self),
    {
        match self {
            Fb2Error::InvalidFilename { path } => {
                let mut m = String::from_str("Invalid UTF-8 filename or missing stem: ");
                m.append(path.as_str());
                m
            },
            Fb2Error::Zip { failure } => match failure {
                ZipFailure::Archive => String::from_str("Failed to open ZIP archive"),
                ZipFailure::Entry => String::from_str("ZIP archive contains no files"),
                ZipFailure::Read => String::from_str("Failed to read FB2 from ZIP"),
            },
            Fb2Error::Xml { path, reason: _ } => {
                let mut m = String::from_str("XML parse error in ");
                m.append(path.as_str());
                m
            },
            Fb2Error::Decode { reason } => reason.clone(),
            Fb2Error::NoDescription { path } => {
                let mut m = String::from_str("No <description> found in FB2 file ");
                m.append(path.as_str());
                m
            },
            Fb2Error::NoTitle => String::from_str("No <book-title> found in FB2 file"),
            Fb2Error::EmptyTitle { title } => {
                let mut m = String::from_str("Book title normalizes to empty: '");
                m.append(title.as_str());
                m.append("'");
                m
            },
        }
    }
}

} // verus!
