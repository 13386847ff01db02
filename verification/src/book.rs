//! Book record and creation utilities.

use vstd::prelude::*;

use crate::normalize::{concat_all, has_letter, normalize_chunk, opt_view, spec_normalize_chunk};
use crate::person::Person;

verus! {

/// Book record.
#[derive(Debug)]
pub struct Book {
    /// External ID (e.g. from <id> element). Defined for most books.
    pub ext_id: Option<String>,
    /// Optional version of the book (e.g. "1.1", "1.2", ...).
    /// The tuple (version, ext_id) should be unique, but this is not enforced.
    pub version: Option<String>,
    /// Book title — this field is required and must not be empty after normalization.
    pub title: String,
    /// List of authors. May be empty (e.g. for magazines or anonymous works).
    pub authors: Vec<Person>,
    /// Book language as specified in the FB2 metadata (not validated).
    pub lang: Option<String>,
    /// Book genre as specified in the FB2 metadata (not validated).
    pub genre: Option<String>,
    /// The file's name without the .fb2 extension (and without .zip for a
    /// zipped file).
    pub filename: String,
    /// The character encoding of the file (e.g. "utf8", "windows-1251").
    pub encoding: String,
}

/// [book_create_exn title authors ext_id version lang genre filename encoding]
/// Creates a new [book] record from its fields.
/// The book's identifier is computed from the normalized title, the external
/// id, the version and the author ids: it is the digest of [`digest_text`]
/// (see [`book_digest`]), which the contract gives for the new book.
/// A title that is empty after normalization is not a valid book title, so
/// `requires` asks for one that is not; [`book_create`] answers `None` there.
pub fn book_create_exn(
    title: String,
    authors: Vec<Person>,
    ext_id: Option<String>,
    version: Option<String>,
    lang: Option<String>,
    genre: Option<String>,
    filename: String,
    encoding: String,
) -> (b: Book)
    requires
        spec_normalize_chunk(title@) is Some,
    ensures
        b.title == title,
        b.authors == authors,
        b.ext_id == ext_id,
        b.version == version,
        b.lang == lang,
        b.genre == genre,
        b.filename == filename,
        b.encoding == encoding,
        digest_text(b) == spec_normalize_chunk(title@).unwrap() + or_empty(opt_view(ext_id)) + or_empty(
            opt_view(version),
        ) + concat_all(authors@.map_values(|p: Person| p.id@)),
{
    Book { ext_id, version, title, authors, lang, genre, filename, encoding }
}

/// Creates a book like [`book_create_exn`], answering `None` where that
/// function would refuse: when the title holds no letter.
pub fn book_create(
    title: String,
    authors: Vec<Person>,
    ext_id: Option<String>,
    version: Option<String>,
    lang: Option<String>,
    genre: Option<String>,
    filename: String,
    encoding: String,
) -> (r: Option<Book>)
    ensures
        r is None <==> !has_letter(title@),
        r matches Some(b) ==> {
            &&& b.title == title
            &&& b.authors == authors
            &&& b.ext_id == ext_id
            &&& b.version == version
            &&& b.lang == lang
            &&& b.genre == genre
            &&& b.filename == filename
            &&& b.encoding == encoding
        },
{
    match normalize_chunk(title.as_str()) {
        None => None,
        Some(_) => Some(book_create_exn(title, authors, ext_id, version, lang, genre, filename, encoding)),
    }
}

// ------------------------------------------------------------------
// Digest
// ------------------------------------------------------------------

/// The MD5 digest of `data` (what `md5::compute` returns).
pub uninterp spec fn md5_digest(data: Seq<u8>) -> Seq<u8>;

/// Calls `md5::compute`; the digest is a function of the bytes, and it has
/// 16 bytes by its type.
#[verifier::external_body]
fn md5_compute(data: &[u8]) -> (r: [u8; 16])
    ensures
        r@ == md5_digest(data@),
{
    md5::compute(data).0
}

/// The lowercase hexadecimal digit for `n < 16`.
pub open spec fn hex_digit(n: u8) -> char {
    if n < 10 {
        (48 + n) as char
    } else {
        (87 + n) as char
    }
}

/// `data` in lowercase hexadecimal, two digits per byte, high nibble first.
pub open spec fn hex_lower(data: Seq<u8>) -> Seq<char>
    decreases data.len(),
{
    if data.len() == 0 {
        seq![]
    } else {
        hex_lower(data.drop_last()) + seq![hex_digit(data.last() / 16), hex_digit(data.last() % 16)]
    }
}

/// Calls `hex::encode`, which its documentation describes as encoding data
/// as a hex string with lowercase characters, two per byte.
#[verifier::external_body]
fn hex_encode(data: &[u8]) -> (r: String)
    ensures
        r@ == hex_lower(data@),
{
    hex::encode(data)
}

/// The text hashed for a book: the normalized title, the external id and the
/// version (empty when absent), then the ids of the authors in order.
pub open spec fn digest_text(b: Book) -> Seq<char> {
    spec_normalize_chunk(b.title@).unwrap() + or_empty(opt_view(b.ext_id)) + or_empty(opt_view(b.version))
        + concat_all(b.authors@.map_values(|p: Person| p.id@))
}

/// The text of an optional string, empty when absent.
pub open spec fn or_empty(o: Option<Seq<char>>) -> Seq<char> {
    match o {
        Some(t) => t,
        None => seq![],
    }
}

fn append_opt(s: &mut String, o: &Option<String>)
    ensures
        final(s)@ == old(s)@ + or_empty(opt_view(*o)),
{
    match o {
        Some(t) => s.append(t.as_str()),
        None => {
            assert(old(s)@ + or_empty(opt_view(*o)) =~= old(s)@);
        },
    }
}

/// The text hashed by [`book_digest`] for `book`.
pub fn digest_input(book: &Book) -> (r: String)
    requires
        spec_normalize_chunk(book.title@) is Some,
    ensures
        r@ == digest_text(*book),
{
    let mut s = match normalize_chunk(book.title.as_str()) {
        Some(t) => t,
        None => {
            proof {
                assert(false);
            }
            String::new()
        },
    };
    append_opt(&mut s, &book.ext_id);
    append_opt(&mut s, &book.version);
    let ghost head = s@;
    let mut k: usize = 0;
    while k < book.authors.len()
        invariant
            k <= book.authors.len(),
            s@ == head + concat_all(book.authors@.take(k as int).map_values(|p: Person| p.id@)),
        decreases book.authors.len() - k,
    {
        assert(book.authors@.take(k + 1).map_values(|p: Person| p.id@).drop_last()
            =~= book.authors@.take(k as int).map_values(|p: Person| p.id@));
        s.append(book.authors[k].id.as_str());
        k += 1;
    }
    assert(book.authors@.take(book.authors.len() as int) =~= book.authors@);
    s
}

/// The MD5 digest of a book's [`digest_input`], as raw bytes.
pub fn book_md5(book: &Book) -> (r: [u8; 16])
    requires
        spec_normalize_chunk(book.title@) is Some,
    ensures
        r@ == md5_digest(vstd::utf8::encode_utf8(digest_text(*book))),
{
    let s = digest_input(book);
    md5_compute(s.as_str().as_bytes())
}

proof fn lemma_hex_lower_len(data: Seq<u8>)
    ensures
        hex_lower(data).len() == 2 * data.len(),
    decreases data.len(),
{
    if data.len() > 0 {
        lemma_hex_lower_len(data.drop_last());
    }
}

/// Whether `c` is a lowercase hexadecimal digit.
pub open spec fn is_hex_digit(c: char) -> bool {
    ('0' <= c && c <= '9') || ('a' <= c && c <= 'f')
}

proof fn lemma_hex_lower_digits(data: Seq<u8>)
    ensures
        forall|i: int| 0 <= i < hex_lower(data).len() ==> is_hex_digit(#[trigger] hex_lower(data)[i]),
    decreases data.len(),
{
    if data.len() > 0 {
        lemma_hex_lower_digits(data.drop_last());
        let x = data.last();
        assert(x / 16 < 16 && x % 16 < 16);
        let tail = seq![hex_digit(x / 16), hex_digit(x % 16)];
        assert(is_hex_digit(tail[0]) && is_hex_digit(tail[1]));
        let h = hex_lower(data.drop_last());
        assert forall|i: int| 0 <= i < hex_lower(data).len() implies is_hex_digit(#[trigger] hex_lower(data)[i]) by {
            if i < h.len() {
                assert(hex_lower(data)[i] == h[i]);
            } else {
                assert(hex_lower(data)[i] == tail[i - h.len()]);
            }
        }
    }
}

/// Two books with the same title, external id, version and author ids have
/// the same digest, whatever their other fields.
pub proof fn law_digest_depends_on_identity(b1: Book, b2: Book)
    requires
        b1.title@ == b2.title@,
        opt_view(b1.ext_id) == opt_view(b2.ext_id),
        opt_view(b1.version) == opt_view(b2.version),
        b1.authors@.len() == b2.authors@.len(),
        forall|i: int| 0 <= i < b1.authors@.len() ==> (#[trigger] b1.authors@[i]).id@ == b2.authors@[i].id@,
    ensures
        digest_text(b1) == digest_text(b2),
        hex_lower(md5_digest(vstd::utf8::encode_utf8(digest_text(b1)))) == hex_lower(
            md5_digest(vstd::utf8::encode_utf8(digest_text(b2))),
        ),
{
    assert(b1.authors@.map_values(|p: Person| p.id@) =~= b2.authors@.map_values(|p: Person| p.id@));
}

/// Computes a MD5 digest for a book, in lowercase hexadecimal.
///
/// `ext_id` and `version` default to empty string if `None`
/// `title` is passed through `normalize_chunk`, which must give a result
/// (`requires`; [`book_digest_checked`] answers `None` otherwise)
/// `authors` are expected to be already normalized IDs
pub fn book_digest(book: &Book) -> (r: String)
    requires
        spec_normalize_chunk(book.title@) is Some,
    ensures
        r@ == hex_lower(md5_digest(vstd::utf8::encode_utf8(digest_text(*book)))),
        r@.len() == 32,
        forall|i: int| 0 <= i < r@.len() ==> is_hex_digit(#[trigger] r@[i]),
{
    let d = book_md5(book);
    proof {
        lemma_hex_lower_len(d@);
        lemma_hex_lower_digits(d@);
    }
    hex_encode(&d)
}

/// The digest of `book` (see [`book_digest`]), or `None` when its title is
/// empty after normalization.
pub fn book_digest_checked(book: &Book) -> (r: Option<String>)
    ensures
        r is None <==> spec_normalize_chunk(book.title@) is None,
        r matches Some(d) ==> {
            &&& d@ == hex_lower(md5_digest(vstd::utf8::encode_utf8(digest_text(*book))))
            &&& d@.len() == 32
        },
{
    match normalize_chunk(book.title.as_str()) {
        None => None,
        Some(_) => Some(book_digest(book)),
    }
}

} // verus!
