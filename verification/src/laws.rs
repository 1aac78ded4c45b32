//! The relational laws of the repository: what one operation leaves for
//! the next to find. Each proof function here states one guarantee over
//! the same spec functions the operations' own contracts use, so a caller
//! can chain the operations and carry these facts across.

use vstd::prelude::*;

use crate::article::ArticleStore;
use crate::article::article_exists;
use crate::article::article_index;
use crate::article::desc;
use crate::article::lemma_article_index;
use crate::article::page_of;
use crate::article::wf_articles;
use crate::handlers::Params;
use crate::handlers::Route;
use crate::handlers::detail_ensures;
use crate::handlers::parses;
use crate::model::Article;
use crate::model::ArticleEdit;
use crate::model::Section;
use crate::model::User;
use crate::parse::digits_val;
use crate::section::NUMBER_ARTICLE_PER_PAGE;
use crate::section::suser_exists;
use crate::section::suser_index;

verus! {

/// Rewriting a row and then looking its id up finds exactly the rewritten
/// record: the update is a full overwrite of the targeted fields, with no
/// partial merge.
pub proof fn lemma_update_then_get(s0: ArticleStore, e: ArticleEdit)
    requires
        wf_articles(s0),
        article_exists(s0.rows@, e.id),
    ensures
        ({
            let k = article_index(s0.rows@, e.id);
            let a = Article {
                id: e.id,
                section_id: s0.rows@[k].section_id,
                title: e.title,
                content: e.content,
                created_time: s0.rows@[k].created_time,
            };
            let rows1 = s0.rows@.update(k, a);
            &&& article_exists(rows1, e.id)
            &&& rows1[article_index(rows1, e.id)] == a
        }),
{
    lemma_article_index(s0.rows@, e.id);
    let k = article_index(s0.rows@, e.id);
    let a = Article {
        id: e.id,
        section_id: s0.rows@[k].section_id,
        title: e.title,
        content: e.content,
        created_time: s0.rows@[k].created_time,
    };
    let rows1 = s0.rows@.update(k, a);
    assert(rows1[k].id == e.id);
    assert(article_exists(rows1, e.id));
    lemma_article_index(rows1, e.id);
    let k1 = article_index(rows1, e.id);
    if k1 < k {
        assert(rows1[k1] == s0.rows@[k1]);
        assert(s0.rows@[k1].id != e.id);
    }
    if k1 > k {
        assert(rows1[k].id != e.id);
    }
}

/// Removing a row and then looking its id up finds nothing: the lookup
/// after a delete must fail with the not-found error.
pub proof fn lemma_delete_then_get(s0: ArticleStore, id: u64)
    requires
        wf_articles(s0),
        article_exists(s0.rows@, id),
    ensures
        !article_exists(s0.rows@.remove(article_index(s0.rows@, id)), id),
{
    lemma_article_index(s0.rows@, id);
    let k = article_index(s0.rows@, id);
    let rows1 = s0.rows@.remove(k);
    assert forall|j: int| 0 <= j < rows1.len() implies (#[trigger] rows1[j]).id != id by {
        let j0: int = if j < k {
            j
        } else {
            j + 1
        };
        assert(rows1[j] == s0.rows@[j0]);
        if j0 != k {
            assert(s0.rows@[j0].id != s0.rows@[k].id);
        }
    }
}

/// A page is never wider than the requested size.
pub proof fn lemma_page_len(s: Seq<Article>, page: int, size: int)
    requires
        page >= 0,
        size >= 0,
    ensures
        page_of(s, page, size).len() <= size,
{
}

/// On a well-formed table every page is strictly descending by creation
/// time: the listing order is newest first.
pub proof fn lemma_page_sorted(s: ArticleStore, page: int, size: int)
    requires
        wf_articles(s),
        page >= 0,
        size >= 0,
    ensures
        ({
            let p = page_of(desc(s.rows@), page, size);
            forall|i: int, j: int|
                0 <= i < j < p.len() ==> p[i].created_time > p[j].created_time
        }),
{
    let p = page_of(desc(s.rows@), page, size);
    assert forall|i: int, j: int|
        0 <= i < j < p.len() implies p[i].created_time > p[j].created_time by {
        let n = s.rows@.len();
        let lo = if page * size > n {
            n as int
        } else {
            page * size
        };
        assert(p[i] == s.rows@[n - 1 - lo - i]);
        assert(p[j] == s.rows@[n - 1 - lo - j]);
    }
}

/// The pages `0 .. k`, each `size` wide, laid end to end.
pub open spec fn pages_concat(s: Seq<Article>, size: int, k: int) -> Seq<Article>
    decreases k,
{
    if k <= 0 {
        Seq::empty()
    } else {
        pages_concat(s, size, k - 1) + page_of(s, k - 1, size)
    }
}

/// The first `k` pages together are exactly the first `k * size` rows of
/// the listing: no duplicates, no gaps, order kept.
proof fn lemma_pages_concat_prefix(s: Seq<Article>, size: int, k: int)
    requires
        size >= 1,
        k >= 0,
    ensures
        pages_concat(s, size, k) =~= s.subrange(
            0,
            if k * size > s.len() {
                s.len() as int
            } else {
                k * size
            },
        ),
    decreases k,
{
    if k == 0 {
        assert(k * size == 0) by (nonlinear_arith)
            requires
                k == 0,
        ;
    } else {
        lemma_pages_concat_prefix(s, size, k - 1);
        assert((k - 1) * size == k * size - size) by (nonlinear_arith);
        let n = s.len() as int;
        let a: int = if (k - 1) * size > n {
            n
        } else {
            (k - 1) * size
        };
        let b: int = if k * size > n {
            n
        } else {
            k * size
        };
        assert(page_of(s, k - 1, size) =~= s.subrange(a, b));
        assert(pages_concat(s, size, k) =~= s.subrange(0, a) + s.subrange(a, b));
        assert(s.subrange(0, a) + s.subrange(a, b) =~= s.subrange(0, b));
    }
}

/// Paging walks the whole listing: once `k * size` reaches the number of
/// rows, the concatenation of pages `0 .. k` reproduces the full
/// descending order, with no duplicates and no gaps.
pub proof fn lemma_paging_concat_complete(s: Seq<Article>, size: int, k: int)
    requires
        size >= 1,
        k >= 0,
        k * size >= s.len(),
    ensures
        pages_concat(s, size, k) =~= s,
{
    lemma_pages_concat_prefix(s, size, k);
}

/// The page count for an empty section is one: the off-by-one of the
/// original computation, kept as it is.
pub proof fn lemma_total_page_empty()
    ensures
        0int / (NUMBER_ARTICLE_PER_PAGE as int) + 1 == 1,
{
}

/// The page count for an exact multiple of the page size is one more than
/// the quotient: the same off-by-one, kept as it is.
pub proof fn lemma_total_page_exact(k: int)
    requires
        k >= 0,
    ensures
        (k * NUMBER_ARTICLE_PER_PAGE as int) / (NUMBER_ARTICLE_PER_PAGE as int) + 1 == k + 1,
{
    vstd::arithmetic::div_mod::lemma_div_by_multiple(k, NUMBER_ARTICLE_PER_PAGE as int);
}

/// The bytes `o` are a parameter that reads as the number `v`.
pub open spec fn opt_parses_to(o: Option<Vec<u8>>, v: u64) -> bool {
    match o {
        Some(b) => parses(b@) && digits_val(b@) == v,
        None => false,
    }
}

/// A blog-by-author request whose author owns a section answers exactly as
/// the direct-id request for that section does: the two routes admit the
/// same outcomes.
pub proof fn lemma_blog_by_author_matches_direct(
    srows: Seq<Section>,
    arows: Seq<Article>,
    params_a: Params,
    params_i: Params,
    user: Option<User>,
    r: crate::handlers::Outcome,
    aid: u64,
)
    requires
        suser_exists(srows, aid),
        opt_parses_to(params_a.author_id, aid),
        opt_parses_to(params_i.id, srows[suser_index(srows, aid)].id),
        params_a.current_page == params_i.current_page,
    ensures
        detail_ensures(srows, arows, Route::BlogWithAuthor, params_a, user, r) <==> detail_ensures(
            srows,
            arows,
            Route::Section,
            params_i,
            user,
            r,
        ),
{
}

} // verus!
