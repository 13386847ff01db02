//! The decisions of indexing: which parsed books are stored, and in which
//! batches.
//!
//! Parsing and the database work happen outside; the library decides, book by
//! book, whether a book is wanted, whether it repeats a digest already seen in
//! this run, and when a batch is full.

use vstd::prelude::*;

use crate::book::Book;
use crate::fb2_parse::{book_model, BookModel};

verus! {

/// The number of books stored together.
pub const BATCH_SIZE: usize = 1000;

/// Whether a book is indexed: always when existing books are overwritten,
/// otherwise only when its digest is not stored yet.
pub fn is_wanted(overwrite: bool, already_stored: bool) -> (r: bool)
    ensures
        r == (overwrite || !already_stored),
{
    overwrite || !already_stored
}

/// The map from digests to file names: `ahash::HashMap<[u8; 16], String>`.
pub type DigestMap = std::collections::HashMap<[u8; 16], String, ahash::RandomState>;

/// The entries of a digest map: each digest's bytes and the text of its file name.
pub uninterp spec fn digest_entries(map: DigestMap) -> Map<Seq<u8>, Seq<char>>;

/// Creates an empty `ahash::HashMap` (through `Default`); it holds no entry.
#[verifier::external_body]
fn digest_map_new() -> (r: DigestMap)
    ensures
        digest_entries(r).dom() =~= Set::empty(),
{
    ahash::HashMap::default()
}

/// Calls `HashMap::insert`: afterwards `key` maps to `value`, and the other
/// entries are unchanged.
#[verifier::external_body]
fn digest_map_insert(m: &mut DigestMap, key: [u8; 16], value: String)
    ensures
        digest_entries(*final(m)) == digest_entries(*old(m)).insert(key@, value@),
{
    m.insert(key, value);
}

/// Calls `HashMap::get`: the file name stored under `key`, if any.
#[verifier::external_body]
fn digest_map_get<'a>(m: &'a DigestMap, key: &[u8; 16]) -> (r: Option<&'a String>)
    ensures
        r is Some <==> digest_entries(*m).contains_key(key@),
        r matches Some(v) ==> v@ == digest_entries(*m)[key@],
{
    m.get(key)
}

/// What became of an offered book.
pub enum Offer {
    /// A book with the same digest was already accepted in this run; it
    /// came from the file `previous`. The offered book is dropped.
    Duplicate { previous: String },
    /// The book waits in the batch.
    Queued,
    /// The book waits in the batch, which is now full and should be stored.
    BatchFull,
}

/// The books accepted in one indexing run, and the batch not stored yet.
pub struct IndexBatcher {
    seen: DigestMap,
    batch: Vec<(Book, [u8; 16])>,
    /// The digests of the batches handed out so far, in order.
    emitted: Ghost<Seq<Seq<u8>>>,
}

/// A batch of books with their digests, as plain values.
pub open spec fn batch_model(batch: Seq<(Book, [u8; 16])>) -> Seq<(BookModel, Seq<u8>)> {
    batch.map_values(|e: (Book, [u8; 16])| (book_model(e.0), e.1@))
}

/// The digests of a batch, in order.
pub open spec fn digests(batch: Seq<(BookModel, Seq<u8>)>) -> Seq<Seq<u8>> {
    batch.map_values(|e: (BookModel, Seq<u8>)| e.1)
}

impl IndexBatcher {
    /// The digests accepted in this run, with the file name of the book accepted for each.
    pub closed spec fn seen(&self) -> Map<Seq<u8>, Seq<char>> {
        digest_entries(self.seen)
    }

    /// The books waiting to be stored.
    pub closed spec fn pending(&self) -> Seq<(BookModel, Seq<u8>)> {
        batch_model(self.batch@)
    }

    /// The digests of the books handed out by [`IndexBatcher::take_batch`]
    /// so far, in order.
    pub closed spec fn emitted(&self) -> Seq<Seq<u8>> {
        self.emitted@
    }

    /// The digests of all accepted books, in the order they were accepted:
    /// those handed out, then those waiting.
    pub open spec fn accepted(&self) -> Seq<Seq<u8>> {
        self.emitted() + digests(self.pending())
    }

    /// No digest is accepted twice, and the accepted digests are exactly the
    /// keys of [`IndexBatcher::seen`].
    pub open spec fn wf(&self) -> bool {
        &&& self.accepted().no_duplicates()
        &&& forall|d: Seq<u8>| #[trigger] self.seen().contains_key(d) <==> self.accepted().contains(d)
    }

    /// A batcher that has accepted nothing.
    pub fn new() -> (r: IndexBatcher)
        ensures
            r.seen() == Map::<Seq<u8>, Seq<char>>::empty(),
            r.pending() == Seq::<(BookModel, Seq<u8>)>::empty(),
            r.emitted() == Seq::<Seq<u8>>::empty(),
            r.wf(),
    {
        let r = IndexBatcher { seen: digest_map_new(), batch: Vec::new(), emitted: Ghost(Seq::empty()) };
        assert(r.pending() =~= Seq::<(BookModel, Seq<u8>)>::empty());
        assert(r.accepted() =~= Seq::<Seq<u8>>::empty());
        r
    }

    /// Offers a parsed book with its digest: a digest accepted before makes
    /// the book a duplicate; otherwise the digest is accepted with the book's
    /// file name and the book joins the batch, which is full at
    /// [`BATCH_SIZE`] books.
    pub fn offer(&mut self, book: Book, md5: [u8; 16]) -> (r: Offer)
        requires
            old(self).wf(),
        ensures
            final(self).wf(),
            old(self).seen().contains_key(md5@) ==> {
                &&& r matches Offer::Duplicate { previous } && previous@ == old(self).seen()[md5@]
                &&& final(self).seen() == old(self).seen()
                &&& final(self).pending() == old(self).pending()
            },
            final(self).emitted() == old(self).emitted(),
            !old(self).seen().contains_key(md5@) ==> {
                &&& final(self).seen() == old(self).seen().insert(md5@, book.filename@)
                &&& final(self).pending() == old(self).pending().push((book_model(book), md5@))
                &&& (r is BatchFull <==> final(self).pending().len() >= BATCH_SIZE)
                &&& (r is Queued <==> final(self).pending().len() < BATCH_SIZE)
            },
    {
        match digest_map_get(&self.seen, &md5) {
            Some(previous) => {
                return Offer::Duplicate { previous: previous.clone() };
            },
            None => {},
        }
        let ghost old_pending = self.pending();
        let ghost old_accepted = self.accepted();
        let ghost old_seen = self.seen();
        assert(!old_seen.contains_key(md5@));
        let name = book.filename.clone();
        digest_map_insert(&mut self.seen, md5, name);
        let ghost bm = book_model(book);
        self.batch.push((book, md5));
        proof {
            assert(self.pending() =~= old_pending.push((bm, md5@)));
            assert(digests(self.pending()) =~= digests(old_pending).push(md5@));
            assert(self.accepted() =~= old_accepted.push(md5@));
            assert(!old_accepted.contains(md5@));
            assert forall|i: int, j: int| 0 <= i < j < self.accepted().len() implies self.accepted()[i]
                != self.accepted()[j] by {
                if j == old_accepted.len() {
                    assert(old_accepted[i] == self.accepted()[i]);
                }
            }
            assert forall|d: Seq<u8>| #[trigger] self.seen().contains_key(d) <==> self.accepted().contains(d) by {
                if d != md5@ {
                    if old_accepted.contains(d) {
                        let k = choose|k: int| 0 <= k < old_accepted.len() && old_accepted[k] == d;
                        assert(self.accepted()[k] == d);
                    }
                    if self.accepted().contains(d) {
                        let k = choose|k: int| 0 <= k < self.accepted().len() && self.accepted()[k] == d;
                        assert(old_accepted[k] == d);
                    }
                } else {
                    assert(self.accepted()[old_accepted.len() as int] == d);
                }
                assert(self.seen().contains_key(d) <==> (d == md5@ || old_seen.contains_key(d)));
            }
        }
        if self.batch.len() >= BATCH_SIZE {
            Offer::BatchFull
        } else {
            Offer::Queued
        }
    }

    /// Hands out the waiting books and empties the batch; the accepted
    /// digests are kept.
    pub fn take_batch(&mut self) -> (r: Vec<(Book, [u8; 16])>)
        requires
            old(self).wf(),
        ensures
            final(self).wf(),
            batch_model(r@) == old(self).pending(),
            final(self).pending() == Seq::<(BookModel, Seq<u8>)>::empty(),
            final(self).seen() == old(self).seen(),
            final(self).emitted() == old(self).emitted() + digests(old(self).pending()),
    {
        let ghost handed = self.accepted();
        let ghost seen_before = self.seen();
        let mut taken: Vec<(Book, [u8; 16])> = Vec::new();
        std::mem::swap(&mut taken, &mut self.batch);
        self.emitted = Ghost(handed);
        assert(self.pending() =~= Seq::<(BookModel, Seq<u8>)>::empty());
        assert(self.accepted() =~= handed);
        assert(self.seen() == seen_before);
        assert forall|d: Seq<u8>| #[trigger] self.seen().contains_key(d) <==> self.accepted().contains(d) by {
            assert(seen_before.contains_key(d) <==> handed.contains(d));
        }
        taken
    }

    /// Whether books are waiting to be stored.
    pub fn has_pending(&self) -> (r: bool)
        ensures
            r == (self.pending().len() > 0),
    {
        self.batch.len() > 0
    }
}

/// Over a whole indexing run, the books handed out in batches never repeat
/// a digest: the digests of all batches taken so far are pairwise distinct,
/// and each of them is one that was accepted.
pub proof fn law_batches_never_repeat_a_digest(b: IndexBatcher)
    requires
        b.wf(),
    ensures
        b.emitted().no_duplicates(),
        forall|i: int| 0 <= i < b.emitted().len() ==> b.seen().contains_key(#[trigger] b.emitted()[i]),
{
    assert forall|i: int, j: int| 0 <= i < j < b.emitted().len() implies b.emitted()[i] != b.emitted()[j] by {
        assert(b.accepted()[i] == b.emitted()[i] && b.accepted()[j] == b.emitted()[j]);
    }
    assert forall|i: int| 0 <= i < b.emitted().len() implies b.seen().contains_key(#[trigger] b.emitted()[i]) by {
        assert(b.accepted()[i] == b.emitted()[i]);
        assert(b.accepted().contains(b.emitted()[i]));
    }
}

} // verus!
