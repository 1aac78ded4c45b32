//! The article repository: an in-memory table of article rows with the
//! create / update / delete / lookup operations and the paging queries.
//!
//! The store assigns both the id and the logical creation stamp of every
//! inserted row, each from its own strictly growing counter, so rows stand
//! in the table in ascending creation order and ids are never reused.
//! Every operation answers with the affected row, or with the fixed error
//! message of the original data layer when no row matches.

use vstd::prelude::*;

use crate::model::Article;
use crate::model::ArticleCreate;
use crate::model::ArticleDelete;
use crate::model::ArticleEdit;

verus! {

/// In-memory article table. `rows` is kept in insertion order, which by
/// construction is ascending `created_time`; `next_id` and `next_time` are
/// the counters the store assigns ids and creation stamps from.
pub struct ArticleStore {
    pub rows: Vec<Article>,
    pub next_id: u64,
    pub next_time: u64,
}

/// The index of the first row of `rows` whose id is `id`, or the length of
/// `rows` when no row matches.
pub open spec fn article_index(rows: Seq<Article>, id: u64) -> int
    decreases rows.len(),
{
    if rows.len() == 0 {
        0
    } else if rows[0].id == id {
        0
    } else {
        1 + article_index(rows.drop_first(), id)
    }
}

/// Whether some row of `rows` has id `id`.
pub open spec fn article_exists(rows: Seq<Article>, id: u64) -> bool {
    exists|i: int| 0 <= i < rows.len() && rows[i].id == id
}

/// Well-formedness of the table: creation stamps strictly grow along the
/// rows (so ids are in insertion order and the default order is just the
/// reverse of the rows), and every id and stamp lies below its counter,
/// which makes ids unique and fresh ids really fresh.
pub open spec fn wf_articles(s: ArticleStore) -> bool {
    &&& forall|i: int, j: int|
        0 <= i < j < s.rows@.len() ==> s.rows@[i].created_time < s.rows@[j].created_time
    &&& forall|i: int| 0 <= i < s.rows@.len() ==> (#[trigger] s.rows@[i]).id < s.next_id
    &&& forall|i: int| 0 <= i < s.rows@.len() ==> (#[trigger] s.rows@[i]).created_time < s.next_time
    &&& forall|i: int, j: int|
        0 <= i < j < s.rows@.len() ==> s.rows@[i].id != s.rows@[j].id
}

impl ArticleStore {
    /// An empty article table.
    pub fn new() -> (r: ArticleStore)
        ensures
            wf_articles(r),
            r.rows@.len() == 0,
            r.next_id == 1,
            r.next_time == 1,
    {
        ArticleStore { rows: Vec::new(), next_id: 1, next_time: 1 }
    }
}

/// When a row with id `id` exists, `article_index` points at the first one;
/// when none does, it is the length of `rows`.
pub proof fn lemma_article_index(rows: Seq<Article>, id: u64)
    ensures
        article_exists(rows, id) ==> {
            &&& 0 <= article_index(rows, id) < rows.len()
            &&& rows[article_index(rows, id)].id == id
            &&& forall|i: int| 0 <= i < article_index(rows, id) ==> rows[i].id != id
        },
        !article_exists(rows, id) ==> article_index(rows, id) == rows.len(),
    decreases rows.len(),
{
    if rows.len() == 0 {
    } else if rows[0].id == id {
        assert(article_exists(rows, id));
    } else {
        let sub = rows.drop_first();
        lemma_article_index(sub, id);
        assert(forall|i: int| 0 <= i < sub.len() ==> sub[i] == rows[i + 1]);
        if article_exists(sub, id) {
            let j = choose|i: int| 0 <= i < sub.len() && sub[i].id == id;
            assert(rows[j + 1].id == id);
            assert(article_exists(rows, id));
        }
        if article_exists(rows, id) {
            let w = choose|i: int| 0 <= i < rows.len() && rows[i].id == id;
            assert(w >= 1);
            assert(sub[w - 1] == rows[w]);
            assert(article_exists(sub, id));
            let k = article_index(sub, id);
            assert(rows[k + 1] == sub[k]);
            assert(rows[article_index(rows, id)].id == id);
            assert forall|i: int| 0 <= i < article_index(rows, id) implies rows[i].id != id by {
                if i >= 1 {
                    assert(sub[i - 1] == rows[i]);
                }
            }
        }
    }
}

/// The rows in the default listing order: creation time descending, which
/// for a well-formed table is exactly the reverse of the row order.
pub open spec fn desc(s: Seq<Article>) -> Seq<Article> {
    Seq::new(s.len(), |i: int| s[s.len() - 1 - i])
}

/// The window of `s` one page wide: it starts at offset `page * size` and
/// holds at most `size` items, empty past the end of `s`.
pub open spec fn page_of(s: Seq<Article>, page: int, size: int) -> Seq<Article>
    recommends
        page >= 0,
        size >= 0,
{
    let lo = if page * size > s.len() { s.len() as int } else { page * size };
    let hi = if page * size + size > s.len() { s.len() as int } else { page * size + size };
    s.subrange(lo, hi)
}

/// The articles of section `sid`, in row (ascending creation) order.
pub open spec fn sec_articles(s: Seq<Article>, sid: u64) -> Seq<Article>
    decreases s.len(),
{
    if s.len() == 0 {
        Seq::empty()
    } else if s.last().section_id == sid {
        sec_articles(s.drop_last(), sid).push(s.last())
    } else {
        sec_articles(s.drop_last(), sid)
    }
}

/// One page of `rows`, newest first: the window of the reversed sequence
/// at offset `page * size`, at most `size` rows long.
fn window_desc(rows: &Vec<Article>, page: usize, size: usize) -> (r: Vec<Article>)
    ensures
        r@ == page_of(desc(rows@), page as int, size as int),
{
    let n = rows.len();
    let offset: usize = match page.checked_mul(size) {
        Some(o) => if o > n {
            n
        } else {
            o
        },
        None => n,
    };
    let count: usize = if n - offset < size {
        n - offset
    } else {
        size
    };
    let mut out: Vec<Article> = Vec::new();
    let mut i: usize = 0;
    while i < count
        invariant
            n == rows@.len(),
            offset + count <= n,
            0 <= i <= count,
            out@.len() == i,
            forall|j: int| 0 <= j < i ==> out@[j] == rows@[n - 1 - offset - j],
        decreases count - i,
    {
        out.push(rows[n - 1 - offset - i].clone());
        i = i + 1;
    }
    proof {
        let d = desc(rows@);
        let p = page_of(d, page as int, size as int);
        assert(out@.len() == p.len());
        assert(forall|j: int| 0 <= j < p.len() ==> p[j] == d[offset + j]);
        assert(out@ =~= p);
    }
    out
}

/// Replacing a row by one with the same id and creation stamp keeps the
/// table well-formed.
proof fn lemma_wf_update(s0: ArticleStore, s1: ArticleStore, k: int, a: Article)
    requires
        wf_articles(s0),
        0 <= k < s0.rows@.len(),
        s1.rows@ == s0.rows@.update(k, a),
        a.id == s0.rows@[k].id,
        a.created_time == s0.rows@[k].created_time,
        s1.next_id == s0.next_id,
        s1.next_time == s0.next_time,
    ensures
        wf_articles(s1),
{
    let rs = s1.rows@;
    let os = s0.rows@;
    assert forall|p: int, q: int| 0 <= p < q < rs.len() implies rs[p].created_time
        < rs[q].created_time by {
        assert(os[p].created_time < os[q].created_time);
    }
    assert forall|p: int| 0 <= p < rs.len() implies (#[trigger] rs[p]).id < s1.next_id
        && rs[p].created_time < s1.next_time by {
        assert(os[p].id < s0.next_id && os[p].created_time < s0.next_time);
    }
    assert forall|p: int, q: int| 0 <= p < q < rs.len() implies rs[p].id != rs[q].id by {
        assert(os[p].id != os[q].id);
    }
}

/// Removing a row keeps the table well-formed.
proof fn lemma_wf_remove(s0: ArticleStore, s1: ArticleStore, k: int)
    requires
        wf_articles(s0),
        0 <= k < s0.rows@.len(),
        s1.rows@ == s0.rows@.remove(k),
        s1.next_id == s0.next_id,
        s1.next_time == s0.next_time,
    ensures
        wf_articles(s1),
{
    let rs = s1.rows@;
    let os = s0.rows@;
    assert(forall|p: int| 0 <= p < k ==> rs[p] == os[p]);
    assert(forall|p: int| k <= p < rs.len() ==> rs[p] == os[p + 1]);
    assert forall|p: int, q: int| 0 <= p < q < rs.len() implies rs[p].created_time
        < rs[q].created_time && rs[p].id != rs[q].id by {
        let p0: int = if p < k { p } else { p + 1 };
        let q0: int = if q < k { q } else { q + 1 };
        assert(os[p0].created_time < os[q0].created_time);
        assert(os[p0].id != os[q0].id);
    }
    assert forall|p: int| 0 <= p < rs.len() implies (#[trigger] rs[p]).id < s1.next_id
        && rs[p].created_time < s1.next_time by {
        let p0: int = if p < k { p } else { p + 1 };
        assert(os[p0].id < s0.next_id && os[p0].created_time < s0.next_time);
    }
}

impl ArticleCreate {
    /// Inserts a new article built from these fields. The store assigns a
    /// fresh id and the next creation stamp and appends the row; the call
    /// fails, with the fixed message and the store unchanged, exactly when
    /// one of the two counters is exhausted.
    pub fn insert(&self, store: &mut ArticleStore) -> (r: Result<Article, String>)
        requires
            wf_articles(*old(store)),
        ensures
            wf_articles(*final(store)),
            r is Ok <==> old(store).next_id < u64::MAX && old(store).next_time < u64::MAX,
            r matches Ok(a) ==> {
                &&& a.section_id == self.section_id
                &&& a.title == self.title
                &&& a.content == self.content
                &&& a.id == old(store).next_id
                &&& a.created_time == old(store).next_time
                &&& forall|i: int|
                    0 <= i < old(store).rows@.len()
                        ==> (#[trigger] old(store).rows@[i]).id != a.id
                &&& final(store).rows@ == old(store).rows@.push(a)
                &&& final(store).next_id == old(store).next_id + 1
                &&& final(store).next_time == old(store).next_time + 1
            },
            r matches Err(m) ==> *final(store) == *old(store) && m@ == "Insert article error."@,
    {
        if store.next_id == u64::MAX || store.next_time == u64::MAX {
            return Err("Insert article error.".to_owned());
        }
        let article = Article {
            id: store.next_id,
            section_id: self.section_id,
            title: self.title.clone(),
            content: self.content.clone(),
            created_time: store.next_time,
        };
        let copy = article.clone();
        store.rows.push(article);
        store.next_id = store.next_id + 1;
        store.next_time = store.next_time + 1;
        Ok(copy)
    }
}

impl ArticleEdit {
    /// Overwrites the row whose id is `self.id` with these fields; the
    /// row keeps its `section_id` and `created_time`. Returns the row as
    /// rewritten, or fails with the fixed message, and the store unchanged,
    /// exactly when no row has that id.
    pub fn update(&self, store: &mut ArticleStore) -> (r: Result<Article, String>)
        requires
            wf_articles(*old(store)),
        ensures
            wf_articles(*final(store)),
            r is Ok <==> article_exists(old(store).rows@, self.id),
            r matches Ok(a) ==> {
                let k = article_index(old(store).rows@, self.id);
                &&& a.id == self.id
                &&& a.title == self.title
                &&& a.content == self.content
                &&& a.section_id == old(store).rows@[k].section_id
                &&& a.created_time == old(store).rows@[k].created_time
                &&& final(store).rows@ == old(store).rows@.update(k, a)
                &&& final(store).next_id == old(store).next_id
                &&& final(store).next_time == old(store).next_time
            },
            r matches Err(m) ==> *final(store) == *old(store) && m@ == "Update article error."@,
    {
        let n = store.rows.len();
        let mut i: usize = 0;
        while i < n
            invariant
                wf_articles(*old(store)),
                *store == *old(store),
                n == store.rows@.len(),
                0 <= i <= n,
                forall|j: int| 0 <= j < i ==> store.rows@[j].id != self.id,
            decreases n - i,
        {
            if store.rows[i].id == self.id {
                proof {
                    assert(article_exists(old(store).rows@, self.id));
                    lemma_article_index(old(store).rows@, self.id);
                    assert(article_index(old(store).rows@, self.id) == i);
                }
                let row = &store.rows[i];
                let article = Article {
                    id: self.id,
                    section_id: row.section_id,
                    title: self.title.clone(),
                    content: self.content.clone(),
                    created_time: row.created_time,
                };
                let copy = article.clone();
                store.rows.set(i, article);
                proof {
                    lemma_wf_update(*old(store), *store, i as int, article);
                }
                return Ok(copy);
            }
            i = i + 1;
        }
        proof {
            assert(forall|j: int| 0 <= j < store.rows@.len() ==> store.rows@[j].id != self.id);
            assert(!article_exists(store.rows@, self.id));
        }
        Err("Update article error.".to_owned())
    }
}

impl ArticleDelete {
    /// Removes the row whose id is `self.id` and returns its prior
    /// contents; fails with the fixed message, and the store unchanged,
    /// exactly when no row has that id.
    pub fn delete(&self, store: &mut ArticleStore) -> (r: Result<Article, String>)
        requires
            wf_articles(*old(store)),
        ensures
            wf_articles(*final(store)),
            r is Ok <==> article_exists(old(store).rows@, self.id),
            r matches Ok(a) ==> {
                let k = article_index(old(store).rows@, self.id);
                &&& a == old(store).rows@[k]
                &&& final(store).rows@ == old(store).rows@.remove(k)
                &&& final(store).next_id == old(store).next_id
                &&& final(store).next_time == old(store).next_time
            },
            r matches Err(m) ==> *final(store) == *old(store) && m@ == "Delete article error."@,
    {
        let n = store.rows.len();
        let mut i: usize = 0;
        while i < n
            invariant
                wf_articles(*old(store)),
                *store == *old(store),
                n == store.rows@.len(),
                0 <= i <= n,
                forall|j: int| 0 <= j < i ==> store.rows@[j].id != self.id,
            decreases n - i,
        {
            if store.rows[i].id == self.id {
                proof {
                    assert(article_exists(old(store).rows@, self.id));
                    lemma_article_index(old(store).rows@, self.id);
                    assert(article_index(old(store).rows@, self.id) == i);
                }
                let copy = store.rows[i].clone();
                store.rows.remove(i);
                proof {
                    lemma_wf_remove(*old(store), *store, i as int);
                }
                return Ok(copy);
            }
            i = i + 1;
        }
        proof {
            assert(!article_exists(store.rows@, self.id));
        }
        Err("Delete article error.".to_owned())
    }
}

impl Article {
    /// Looks an article up by id. Returns the matching row, or fails with
    /// the fixed message exactly when no row has that id.
    pub fn get_by_id(store: &ArticleStore, id: u64) -> (r: Result<Article, String>)
        requires
            wf_articles(*store),
        ensures
            r is Ok <==> article_exists(store.rows@, id),
            r matches Ok(a) ==> a == store.rows@[article_index(store.rows@, id)],
            r matches Err(m) ==> m@ == "get article error."@,
    {
        let n = store.rows.len();
        let mut i: usize = 0;
        while i < n
            invariant
                n == store.rows@.len(),
                0 <= i <= n,
                forall|j: int| 0 <= j < i ==> store.rows@[j].id != id,
            decreases n - i,
        {
            if store.rows[i].id == id {
                proof {
                    lemma_article_index(store.rows@, id);
                }
                return Ok(store.rows[i].clone());
            }
            i = i + 1;
        }
        proof {
            lemma_article_index(store.rows@, id);
        }
        Err("get article error.".to_owned())
    }

    /// One page of all articles, newest first: offset `page_size * page`,
    /// at most `page_size` rows, and never an error. `page` is 0-indexed.
    pub fn paging(store: &ArticleStore, page: usize, page_size: usize) -> (r: Vec<Article>)
        requires
            wf_articles(*store),
        ensures
            r@ == page_of(desc(store.rows@), page as int, page_size as int),
    {
        window_desc(&store.rows, page, page_size)
    }

    /// One page of the articles of section `section_id`, newest first, with
    /// the same offset and limit rule as `paging`. `page` is 0-indexed.
    pub fn paging_by_section(store: &ArticleStore, section_id: u64, page: usize, page_size: usize) -> (r: Vec<Article>)
        requires
            wf_articles(*store),
        ensures
            r@ == page_of(desc(sec_articles(store.rows@, section_id)), page as int, page_size as int),
    {
        let fil = Self::all_by_section(store, section_id);
        window_desc(&fil, page, page_size)
    }

    /// Every article of section `section_id`, in row (ascending creation)
    /// order.
    pub fn all_by_section(store: &ArticleStore, section_id: u64) -> (r: Vec<Article>)
        ensures
            r@ == sec_articles(store.rows@, section_id),
    {
        let n = store.rows.len();
        let mut out: Vec<Article> = Vec::new();
        let mut i: usize = 0;
        while i < n
            invariant
                n == store.rows@.len(),
                0 <= i <= n,
                out@ == sec_articles(store.rows@.subrange(0, i as int), section_id),
            decreases n - i,
        {
            proof {
                let pre = store.rows@.subrange(0, i as int);
                let cur = store.rows@.subrange(0, i + 1 as int);
                assert(cur.drop_last() =~= pre);
                assert(cur.last() == store.rows@[i as int]);
            }
            if store.rows[i].section_id == section_id {
                out.push(store.rows[i].clone());
            }
            i = i + 1;
        }
        proof {
            assert(store.rows@.subrange(0, n as int) =~= store.rows@);
        }
        out
    }
}

} // verus!
