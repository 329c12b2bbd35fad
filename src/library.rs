use vstd::prelude::*;
use crate::error::StoreError;
use crate::ident::{book_id, md5_hex_of};
use crate::text::{copy_opt, same_text};

verus! {

/// One library entry.
#[derive(Debug, PartialEq)]
pub struct Book {
    /// Content address of `file_path` (see `book_id`).
    pub id: String,
    pub title: String,
    pub author: String,
    pub file_path: String,
    /// Path of the extracted cover file, if one was written.
    pub cover_path: Option<String>,
    /// When the book was last opened, in microseconds since the Unix epoch.
    pub last_opened: i64,
    /// The reading fraction, carried as the bit pattern of an IEEE-754
    /// single; the store never interprets it.
    pub progress: u32,
    /// Opaque reading-position marker, present once progress was saved.
    pub cfi: Option<String>,
}

impl Clone for Book {
    fn clone(&self) -> (r: Self)
        ensures
            r == *self,
    {
        Book {
            id: self.id.clone(),
            title: self.title.clone(),
            author: self.author.clone(),
            file_path: self.file_path.clone(),
            cover_path: copy_opt(&self.cover_path),
            last_opened: self.last_opened,
            progress: self.progress,
            cfi: copy_opt(&self.cfi),
        }
    }
}

/// The whole library document.
#[derive(Debug, Clone, PartialEq)]
pub struct Library {
    pub books: Vec<Book>,
}

/// No two entries share an id.
pub open spec fn ids_unique(s: Seq<Book>) -> bool {
    forall|i: int, j: int|
        0 <= i < s.len() && 0 <= j < s.len() && i != j ==> #[trigger] s[i].id@ != #[trigger] s[j].id@
}

pub open spec fn contains_id(s: Seq<Book>, id: Seq<char>) -> bool {
    exists|i: int| 0 <= i < s.len() && #[trigger] s[i].id@ == id
}

/// The index of the entry with `id`, meaningful when `contains_id(s, id)`.
pub open spec fn pos(s: Seq<Book>, id: Seq<char>) -> int {
    choose|i: int| 0 <= i < s.len() && #[trigger] s[i].id@ == id
}

/// An entry reopened at `now`: the cover is replaced only by a new one.
pub open spec fn touched(b: Book, cover: Option<String>, now: i64) -> Book {
    Book {
        last_opened: now,
        cover_path: if cover is Some { cover } else { b.cover_path },
        ..b
    }
}

/// `(new, r)` is the result of adding the book at `path` to `old`.
pub open spec fn added(
    old: Seq<Book>,
    title: String,
    author: String,
    path: String,
    cover: Option<String>,
    now: i64,
    new: Seq<Book>,
    r: Book,
) -> bool {
    let id = md5_hex_of(path@);
    if contains_id(old, id) {
        &&& r == touched(old[pos(old, id)], cover, now)
        &&& new == old.update(pos(old, id), r)
    } else {
        &&& r.id@ == id
        &&& r.title == title
        &&& r.author == author
        &&& r.file_path == path
        &&& r.cover_path == cover
        &&& r.last_opened == now
        &&& r.progress == 0
        &&& r.cfi is None
        &&& new == old.push(r)
    }
}

/// `new` is `old` after saving progress for `id`; nothing changes when no
/// entry has that id.
pub open spec fn progress_saved(
    old: Seq<Book>,
    id: Seq<char>,
    progress: u32,
    cfi: String,
    now: i64,
    new: Seq<Book>,
) -> bool {
    if contains_id(old, id) {
        let b = old[pos(old, id)];
        new == old.update(
            pos(old, id),
            Book { progress: progress, cfi: Some(cfi), last_opened: now, ..b },
        )
    } else {
        new == old
    }
}

/// The stored position marker of the entry with `id`.
pub open spec fn marker(s: Seq<Book>, id: Seq<char>) -> Option<String> {
    if contains_id(s, id) {
        s[pos(s, id)].cfi
    } else {
        None
    }
}

proof fn lemma_pos_is(s: Seq<Book>, id: Seq<char>, i: int)
    requires
        ids_unique(s),
        0 <= i < s.len(),
        s[i].id@ == id,
    ensures
        contains_id(s, id),
        pos(s, id) == i,
{
    assert(contains_id(s, id));
    let j = pos(s, id);
    assert(s[j].id@ == id);
}

proof fn lemma_update_keeps_unique(s: Seq<Book>, i: int, b: Book)
    requires
        ids_unique(s),
        0 <= i < s.len(),
        b.id@ == s[i].id@,
    ensures
        ids_unique(s.update(i, b)),
{
    let u = s.update(i, b);
    assert forall|x: int, y: int|
        0 <= x < u.len() && 0 <= y < u.len() && x != y implies #[trigger] u[x].id@
            != #[trigger] u[y].id@ by {
        assert(s[x].id@ != s[y].id@);
    }
}

impl Library {
    pub open spec fn wf(&self) -> bool {
        ids_unique(self.books@)
    }

    /// An empty library, as used when no library file exists yet.
    pub fn new() -> (r: Library)
        ensures
            r.wf(),
            r.books@.len() == 0,
    {
        Library { books: Vec::new() }
    }

    /// Whether no two entries share an id, as a decoded library file must
    /// satisfy before any other operation applies to it.
    pub fn has_unique_ids(&self) -> (r: bool)
        ensures
            r == self.wf(),
    {
        let n = self.books.len();
        let mut i: usize = 0;
        while i < n
            invariant
                n == self.books@.len(),
                i <= n,
                forall|x: int, y: int|
                    0 <= x < i && 0 <= y < n && x != y ==> #[trigger] self.books@[x].id@
                        != #[trigger] self.books@[y].id@,
            decreases n - i,
        {
            let mut j: usize = 0;
            while j < n
                invariant
                    n == self.books@.len(),
                    i < n,
                    j <= n,
                    forall|y: int|
                        0 <= y < j && y != i ==> self.books@[i as int].id@
                            != #[trigger] self.books@[y].id@,
                decreases n - j,
            {
                if j != i && self.books[i].id == self.books[j].id {
                    return false;
                }
                j += 1;
            }
            proof {
                assert forall|x: int, y: int|
                    0 <= x < i + 1 && 0 <= y < n && x != y implies #[trigger] self.books@[x].id@
                        != #[trigger] self.books@[y].id@ by {
                    if x == i {
                        assert(self.books@[i as int].id@ != self.books@[y].id@);
                    }
                }
            }
            i += 1;
        }
        true
    }

    /// The index of the entry with `id`, if any.
    pub fn find(&self, id: &str) -> (r: Option<usize>)
        requires
            self.wf(),
        ensures
            match r {
                Some(i) => contains_id(self.books@, id@) && i as int == pos(self.books@, id@),
                None => !contains_id(self.books@, id@),
            },
    {
        let mut i: usize = 0;
        while i < self.books.len()
            invariant
                self.wf(),
                i <= self.books@.len(),
                forall|k: int| 0 <= k < i ==> #[trigger] self.books@[k].id@ != id@,
            decreases self.books@.len() - i,
        {
            if same_text(self.books[i].id.as_str(), id) {
                proof {
                    lemma_pos_is(self.books@, id@, i as int);
                }
                return Some(i);
            }
            i += 1;
        }
        None
    }
}

/// Adds the book at `path`, or touches it when its id is already present:
/// a known entry keeps its title, author and progress, gets `now` as its
/// last-opened time and `cover_path` when one was extracted. Returns the
/// new or updated entry; the caller persists the whole library.
pub fn add_book(
    library: &mut Library,
    title: String,
    author: String,
    path: String,
    cover_path: Option<String>,
    now: i64,
) -> (r: Book)
    requires
        old(library).wf(),
    ensures
        final(library).wf(),
        added(old(library).books@, title, author, path, cover_path, now, final(library).books@, r),
{
    let id = book_id(path.as_str());
    match library.find(id.as_str()) {
        Some(i) => {
            let mut b = library.books[i].clone();
            b.last_opened = now;
            if cover_path.is_some() {
                b.cover_path = cover_path;
            }
            let r = b.clone();
            proof {
                lemma_update_keeps_unique(old(library).books@, i as int, b);
            }
            library.books.set(i, b);
            r
        },
        None => {
            let b = Book {
                id,
                title,
                author,
                file_path: path,
                cover_path,
                last_opened: now,
                progress: 0,
                cfi: None,
            };
            let r = b.clone();
            library.books.push(b);
            proof {
                let s = library.books@;
                let o = old(library).books@;
                assert forall|x: int, y: int|
                    0 <= x < s.len() && 0 <= y < s.len() && x != y implies #[trigger] s[x].id@
                        != #[trigger] s[y].id@ by {
                    if x < o.len() && y < o.len() {
                        assert(o[x].id@ != o[y].id@);
                    } else if x < o.len() {
                        assert(o[x].id@ != r.id@);
                    } else {
                        assert(o[y].id@ != r.id@);
                    }
                }
            }
            r
        },
    }
}

/// Saves the reading position of the entry with `book_id`: sets its
/// progress and marker and refreshes its last-opened time. An unknown id
/// changes nothing. Returns whether an entry was updated, that is whether
/// the library must be persisted.
pub fn update_progress(library: &mut Library, book_id: &str, progress: u32, cfi: String, now: i64) -> (r:
    bool)
    requires
        old(library).wf(),
    ensures
        final(library).wf(),
        r == contains_id(old(library).books@, book_id@),
        progress_saved(old(library).books@, book_id@, progress, cfi, now, final(library).books@),
{
    match library.find(book_id) {
        Some(i) => {
            let mut b = library.books[i].clone();
            b.progress = progress;
            b.cfi = Some(cfi);
            b.last_opened = now;
            proof {
                lemma_update_keeps_unique(old(library).books@, i as int, b);
            }
            library.books.set(i, b);
            true
        },
        None => false,
    }
}

/// The saved position marker of the entry with `book_id`; absent when the
/// entry is unknown or has no saved position.
pub fn get_book_progress(library: &Library, book_id: &str) -> (r: Option<String>)
    requires
        library.wf(),
    ensures
        r == marker(library.books@, book_id@),
{
    match library.find(book_id) {
        Some(i) => copy_opt(&library.books[i].cfi),
        None => None,
    }
}

/// Removes the entry with `book_id` and returns its cover path, which the
/// caller deletes on a best-effort basis. Fails with `NotFound` and leaves
/// the library as it was when no entry has that id.
pub fn remove_book(library: &mut Library, book_id: &str) -> (r: Result<Option<String>, StoreError>)
    requires
        old(library).wf(),
    ensures
        final(library).wf(),
        !contains_id(final(library).books@, book_id@),
        contains_id(old(library).books@, book_id@) ==> {
            let i = pos(old(library).books@, book_id@);
            &&& r == Ok::<Option<String>, StoreError>(old(library).books@[i].cover_path)
            &&& final(library).books@ == old(library).books@.remove(i)
        },
        !contains_id(old(library).books@, book_id@) ==> {
            &&& r matches Err(StoreError::NotFound(s)) && s@ == book_id@
            &&& final(library).books@ == old(library).books@
        },
{
    match library.find(book_id) {
        Some(i) => {
            let b = library.books.remove(i);
            proof {
                let s = library.books@;
                let o = old(library).books@;
                assert forall|x: int, y: int|
                    0 <= x < s.len() && 0 <= y < s.len() && x != y implies #[trigger] s[x].id@
                        != #[trigger] s[y].id@ by {
                    let ox = if x < i { x } else { x + 1 };
                    let oy = if y < i { y } else { y + 1 };
                    assert(s[x] == o[ox]);
                    assert(s[y] == o[oy]);
                    assert(o[ox].id@ != o[oy].id@);
                }
                if contains_id(s, book_id@) {
                    let k = choose|k: int| 0 <= k < s.len() && #[trigger] s[k].id@ == book_id@;
                    let ok = if k < i { k } else { k + 1 };
                    assert(s[k] == o[ok]);
                    assert(o[ok].id@ != o[i as int].id@);
                }
            }
            Ok(b.cover_path)
        },
        None => Err(StoreError::NotFound(String::from_str(book_id))),
    }
}

/// Adding the same path twice yields the same entry again: equal id,
/// title, author, path, progress and marker; only the last-opened time
/// (and the cover, when a new one was extracted) differ.
pub proof fn lemma_add_twice_same_entry(
    l0: Seq<Book>,
    l1: Seq<Book>,
    l2: Seq<Book>,
    b1: Book,
    b2: Book,
    path: String,
    title1: String,
    author1: String,
    cover1: Option<String>,
    now1: i64,
    title2: String,
    author2: String,
    cover2: Option<String>,
    now2: i64,
)
    requires
        ids_unique(l0),
        added(l0, title1, author1, path, cover1, now1, l1, b1),
        added(l1, title2, author2, path, cover2, now2, l2, b2),
    ensures
        b2.id == b1.id,
        b2.title == b1.title,
        b2.author == b1.author,
        b2.file_path == b1.file_path,
        b2.progress == b1.progress,
        b2.cfi == b1.cfi,
        b2.last_opened == now2,
        b2.cover_path == (if cover2 is Some { cover2 } else { b1.cover_path }),
        l2.len() == l1.len(),
{
    let id = md5_hex_of(path@);
    if contains_id(l0, id) {
        let i = pos(l0, id);
        assert(l1[i] == b1);
        lemma_update_keeps_unique(l0, i, b1);
        lemma_pos_is(l1, id, i);
    } else {
        let i = l0.len() as int;
        assert(l1[i] == b1);
        assert(ids_unique(l1)) by {
            assert forall|x: int, y: int|
                0 <= x < l1.len() && 0 <= y < l1.len() && x != y implies #[trigger] l1[x].id@
                    != #[trigger] l1[y].id@ by {
                if x < i && y < i {
                    assert(l0[x].id@ != l0[y].id@);
                } else if x < i {
                    assert(l1[x] == l0[x]);
                } else {
                    assert(l1[y] == l0[y]);
                }
            }
        }
        lemma_pos_is(l1, id, i);
    }
}

/// After saving progress for an entry that exists, its marker reads back
/// as the one just saved.
pub proof fn lemma_progress_round_trip(
    l0: Seq<Book>,
    l1: Seq<Book>,
    id: Seq<char>,
    progress: u32,
    cfi: String,
    now: i64,
)
    requires
        ids_unique(l0),
        contains_id(l0, id),
        progress_saved(l0, id, progress, cfi, now, l1),
    ensures
        marker(l1, id) == Some(cfi),
{
    let i = pos(l0, id);
    lemma_update_keeps_unique(l0, i, l1[i]);
    lemma_pos_is(l1, id, i);
}

/// `t` holds the entries of `s` through the source positions `idx`, newest
/// first; entries opened at the same time keep their order in `s`.
pub open spec fn newest_first_via(s: Seq<Book>, t: Seq<Book>, idx: Seq<int>) -> bool {
    &&& t.len() == s.len()
    &&& idx.len() == s.len()
    &&& forall|k: int| 0 <= k < t.len() ==> 0 <= #[trigger] idx[k] < s.len() && t[k] == s[idx[k]]
    &&& forall|k: int, l: int|
        0 <= k < l < t.len() ==> #[trigger] t[k].last_opened > #[trigger] t[l].last_opened || (
        t[k].last_opened == t[l].last_opened && idx[k] < idx[l])
}

/// `t` is the stable reordering of `s` by last-opened time, newest first
/// (a reordering: see `lemma_newest_first_distinct_sources`).
pub open spec fn newest_first(s: Seq<Book>, t: Seq<Book>) -> bool {
    exists|idx: Seq<int>| newest_first_via(s, t, idx)
}

/// The at most `limit` most recently opened entries, newest first; entries
/// opened at the same time keep their order in the library.
pub fn get_recent_books(library: Library, limit: usize) -> (r: Vec<Book>)
    ensures
        exists|t: Seq<Book>|
            newest_first(library.books@, t) && r@ == t.take(
                if limit < t.len() { limit as int } else { t.len() as int },
            ),
{
    let ghost s = library.books@;
    let mut rest = library.books;
    let mut res: Vec<Book> = Vec::new();
    let ghost mut idx: Seq<int> = Seq::empty();
    let n = rest.len();
    let mut i: usize = 0;
    while i < n
        invariant
            n == s.len(),
            i <= n,
            rest@ == s.skip(i as int),
            newest_first_via(s.take(i as int), res@, idx),
        decreases n - i,
    {
        let x = rest.remove(0);
        assert(x == s[i as int]);
        let mut p: usize = 0;
        while p < res.len() && res[p].last_opened >= x.last_opened
            invariant
                p <= res@.len(),
                forall|q: int| 0 <= q < p ==> #[trigger] res@[q].last_opened >= x.last_opened,
            decreases res@.len() - p,
        {
            p += 1;
        }
        let ghost old_res = res@;
        let ghost old_idx = idx;
        res.insert(p, x);
        proof {
            idx = old_idx.insert(p as int, i as int);
            let s0 = s.take(i as int);
            let s1 = s.take(i + 1);
            let t = res@;
            assert forall|k: int| 0 <= k < t.len() implies 0 <= #[trigger] idx[k] < s1.len()
                && t[k] == s1[idx[k]] by {
                if k < p {
                    assert(t[k] == old_res[k] && idx[k] == old_idx[k]);
                    assert(s1[old_idx[k]] == s0[old_idx[k]]);
                } else if k > p {
                    assert(t[k] == old_res[k - 1] && idx[k] == old_idx[k - 1]);
                    assert(s1[old_idx[k - 1]] == s0[old_idx[k - 1]]);
                }
            }
            assert forall|k: int, l: int|
                0 <= k < l < t.len() implies #[trigger] t[k].last_opened > #[trigger] t[l].last_opened || (
                t[k].last_opened == t[l].last_opened && idx[k] < idx[l]) by {
                if p < old_res.len() {
                    assert(old_res[p as int].last_opened < x.last_opened);
                }
                if k < p && l < p {
                    assert(t[k] == old_res[k] && t[l] == old_res[l]);
                } else if k < p && l == p {
                    assert(t[k] == old_res[k]);
                    assert(0 <= old_idx[k] < i);
                } else if k < p {
                    assert(t[k] == old_res[k] && t[l] == old_res[l - 1]);
                } else if k == p {
                    assert(t[l] == old_res[l - 1]);
                    if l - 1 > p {
                        assert(old_res[p as int].last_opened >= old_res[l - 1].last_opened);
                    }
                } else {
                    assert(t[k] == old_res[k - 1] && t[l] == old_res[l - 1]);
                }
            }
        }
        i += 1;
    }
    proof {
        assert(s.take(n as int) == s);
    }
    let ghost full = res@;
    assert(newest_first(s, full));
    let m = if limit < res.len() { limit } else { res.len() };
    res.truncate(m);
    assert(res@ == full.take(m as int));
    res
}

/// No two positions of a newest-first ordering come from the same entry of
/// the source.
pub proof fn lemma_newest_first_distinct_sources(s: Seq<Book>, t: Seq<Book>, idx: Seq<int>)
    requires
        newest_first_via(s, t, idx),
    ensures
        forall|k: int, l: int| 0 <= k < l < t.len() ==> #[trigger] idx[k] != #[trigger] idx[l],
{
    assert forall|k: int, l: int| 0 <= k < l < t.len() implies #[trigger] idx[k] != #[trigger] idx[l] by {
        if idx[k] == idx[l] {
            assert(t[k] == t[l]);
            assert(t[k].last_opened > t[l].last_opened || (t[k].last_opened == t[l].last_opened
                && idx[k] < idx[l]));
        }
    }
}

/// A list of recent books holds at most the limit asked for and runs from
/// the most to the least recently opened.
pub proof fn lemma_recent_bounded_and_sorted(s: Seq<Book>, t: Seq<Book>, r: Seq<Book>, limit: usize)
    requires
        newest_first(s, t),
        r == t.take(if limit < t.len() { limit as int } else { t.len() as int }),
    ensures
        r.len() <= limit,
        r.len() <= s.len(),
        forall|k: int, l: int|
            0 <= k < l < r.len() ==> #[trigger] r[k].last_opened >= #[trigger] r[l].last_opened,
{
    let idx = choose|idx: Seq<int>| newest_first_via(s, t, idx);
    assert forall|k: int, l: int| 0 <= k < l < r.len() implies #[trigger] r[k].last_opened
        >= #[trigger] r[l].last_opened by {
        assert(r[k] == t[k] && r[l] == t[l]);
        assert(t[k].last_opened > t[l].last_opened || t[k].last_opened == t[l].last_opened);
    }
}

} // verus!
