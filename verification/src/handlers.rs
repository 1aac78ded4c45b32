//! The page handlers of the section module, as pure decision functions:
//! each takes the request's extracted parameters, the acting user, and the
//! repositories, and answers with the view to render, the redirect to
//! follow, or the error outcome — exactly one of them for every input.
//!
//! The permission gate of the module runs before every route: a request
//! without an administrator behind it is rejected before any handler, and
//! `dispatch` guarantees the store is then left untouched.

use vstd::prelude::*;

use crate::article::ArticleStore;
use crate::article::desc;
use crate::article::page_of;
use crate::article::sec_articles;
use crate::article::wf_articles;
use crate::model::ADMIN_ROLE;
use crate::model::Article;
use crate::model::SECTION_TYPE_BLOG;
use crate::model::Section;
use crate::model::SectionEdit;
use crate::model::SectionNew;
use crate::model::User;
use crate::parse::all_digits;
use crate::parse::digits_val;
use crate::parse::parse_u64;
use crate::section::NUMBER_ARTICLE_PER_PAGE;
use crate::section::SectionStore;
use crate::section::forum_only;
use crate::section::section_exists;
use crate::section::section_index;
use crate::section::sort_secs;
use crate::section::suser_exists;
use crate::section::suser_index;
use crate::section::wf_sections;

verus! {

/// Where a successful write redirects to.
pub enum RedirectTarget {
    /// The section detail route, with the affected section's id as its
    /// query parameter.
    SectionWithId(u64),
    /// The rearrange page itself.
    RearrangePage,
}

/// The routes of the section module.
pub enum Route {
    /// Section detail by id.
    Section,
    /// Blog detail by id.
    Blog,
    /// Blog detail by owning author.
    BlogWithAuthor,
    /// The new-section form.
    CreateSectionPage,
    /// The edit-section form.
    EditSectionPage,
    /// Create a section from form fields.
    CreateSection,
    /// Edit a section from form fields.
    EditSection,
    /// The manual-reorder page.
    RearrangeSectionPage,
    /// Apply a manual reorder.
    RearrangeSection,
}

/// The request parameters this module reads, each as extracted text:
/// numeric ones as raw bytes still to be parsed, free text as strings.
pub struct Params {
    pub id: Option<Vec<u8>>,
    pub author_id: Option<Vec<u8>>,
    pub current_page: Option<Vec<u8>>,
    pub title: Option<String>,
    pub description: Option<String>,
    pub order: Vec<Vec<u8>>,
}

/// Everything the section detail page shows.
pub struct SectionDetailView {
    pub section: Section,
    pub is_a_blog: bool,
    pub is_myown_blog: bool,
    pub is_admin: bool,
    pub is_login: bool,
    pub user: Option<User>,
    pub total_item: usize,
    pub total_page: u64,
    pub current_page: u64,
    pub articles: Vec<Article>,
}

/// What a handler answers: a page to render, a redirect, or an error
/// outcome with its message and class.
pub enum Outcome {
    SectionDetail(SectionDetailView),
    SectionCreateForm,
    SectionEditForm(Section),
    RearrangeList(Vec<Section>),
    Redirect(RedirectTarget),
    BadRequest(String),
    NotFound(String),
    ServerError(String),
    NoPermission(String),
}

/// A nonempty digit string whose value fits in a `u64`: what `parse_u64`
/// accepts.
pub open spec fn parses(b: Seq<u8>) -> bool {
    b.len() > 0 && all_digits(b) && digits_val(b) <= u64::MAX
}

/// The rejection a missing or malformed required parameter produces.
pub open spec fn param_err(r: Outcome) -> bool {
    r matches Outcome::BadRequest(m) && m@ == "missing or malformed parameter"@
}

/// The detail view computed for a resolved section id `sid` and 1-indexed
/// page `cp`: a not-found rejection when no such section exists, else the
/// fully determined page.
pub open spec fn detail_outcome_ok(
    srows: Seq<Section>,
    arows: Seq<Article>,
    sid: u64,
    cp: u64,
    user: Option<User>,
    r: Outcome,
) -> bool {
    if !section_exists(srows, sid) {
        r matches Outcome::NotFound(m) && m@ == "Not Found"@
    } else {
        let sec = srows[section_index(srows, sid)];
        let arts = sec_articles(arows, sid);
        r matches Outcome::SectionDetail(v) && {
            &&& v.section == sec
            &&& v.is_a_blog == (sec.stype == SECTION_TYPE_BLOG)
            &&& v.is_myown_blog == (user matches Some(u) && sec.suser == Some(u.id))
            &&& v.is_admin == (user matches Some(u) && u.role >= ADMIN_ROLE)
            &&& v.is_login == (user is Some)
            &&& v.user == user
            &&& v.total_item == arts.len()
            &&& v.total_page == arts.len() as int / (NUMBER_ARTICLE_PER_PAGE as int) + 1
            &&& v.current_page == cp
            &&& v.articles@ == page_of(
                desc(arts),
                if cp == 0 {
                    0int
                } else {
                    cp - 1
                },
                NUMBER_ARTICLE_PER_PAGE as int,
            )
        }
    }
}

/// The full contract of the detail page: how the section is resolved (by
/// id, or by owning author on the blog-by-author route), which parameter
/// failures give which rejection, and the view otherwise.
pub open spec fn detail_ensures(
    srows: Seq<Section>,
    arows: Seq<Article>,
    route: Route,
    params: Params,
    user: Option<User>,
    r: Outcome,
) -> bool {
    let cp_ok = match params.current_page {
        None => true,
        Some(b) => parses(b@),
    };
    let cp: u64 = match params.current_page {
        None => 1u64,
        Some(b) => digits_val(b@) as u64,
    };
    if (route matches Route::BlogWithAuthor) {
        match params.author_id {
            None => param_err(r),
            Some(b) => {
                if !parses(b@) {
                    param_err(r)
                } else if !suser_exists(srows, digits_val(b@) as u64) {
                    r matches Outcome::BadRequest(m) && m@ == "no this section"@
                } else if !cp_ok {
                    param_err(r)
                } else {
                    detail_outcome_ok(
                        srows,
                        arows,
                        srows[suser_index(srows, digits_val(b@) as u64)].id,
                        cp,
                        user,
                        r,
                    )
                }
            },
        }
    } else {
        match params.id {
            None => param_err(r),
            Some(b) => {
                if !parses(b@) {
                    param_err(r)
                } else if !cp_ok {
                    param_err(r)
                } else {
                    detail_outcome_ok(srows, arows, digits_val(b@) as u64, cp, user, r)
                }
            },
        }
    }
}

/// The edit form can only be asked for a section that exists: the page
/// looks the section up unconditionally once the id parameter reads.
pub open spec fn edit_page_ok(srows: Seq<Section>, params: Params) -> bool {
    match params.id {
        Some(b) => parses(b@) ==> section_exists(srows, digits_val(b@) as u64),
        None => true,
    }
}

/// The full contract of the create handler: a missing field is rejected,
/// a full store fails with the fixed message, and otherwise the new
/// section is appended and the redirect carries its id.
pub open spec fn create_ensures(s0: SectionStore, s1: SectionStore, params: Params, r: Outcome) -> bool {
    match (params.title, params.description) {
        (Some(t), Some(d)) => {
            if s0.next_id < u64::MAX {
                &&& r matches Outcome::Redirect(RedirectTarget::SectionWithId(id)) && id
                    == s0.next_id
                &&& s1.rows@ == s0.rows@.push(
                    Section {
                        id: s0.next_id,
                        title: t,
                        description: d,
                        stype: 0,
                        suser: None,
                        weight: 0,
                    },
                )
                &&& s1.next_id == s0.next_id + 1
            } else {
                &&& r matches Outcome::ServerError(m) && m@ == "section create error."@
                &&& s1 == s0
            }
        },
        _ => param_err(r) && s1 == s0,
    }
}

/// The full contract of the edit handler: parameter failures are
/// rejected, an unknown id fails with the fixed message, and otherwise
/// the row is rewritten and the redirect carries its id.
pub open spec fn edit_ensures(s0: SectionStore, s1: SectionStore, params: Params, r: Outcome) -> bool {
    match (params.id, params.title, params.description) {
        (Some(b), Some(t), Some(d)) => {
            if !parses(b@) {
                param_err(r) && s1 == s0
            } else {
                let v = digits_val(b@) as u64;
                if !section_exists(s0.rows@, v) {
                    &&& r matches Outcome::ServerError(m) && m@ == "section edit error."@
                    &&& s1 == s0
                } else {
                    let k = section_index(s0.rows@, v);
                    &&& r matches Outcome::Redirect(RedirectTarget::SectionWithId(id)) && id == v
                    &&& s1.rows@ == s0.rows@.update(
                        k,
                        Section { id: v, title: t, description: d, ..s0.rows@[k] },
                    )
                    &&& s1.next_id == s0.next_id
                }
            }
        },
        _ => param_err(r) && s1 == s0,
    }
}

/// One `order` entry is usable: it is there, and it is a weight literal
/// whose fixed-point value fits an `i64`.
pub open spec fn order_ok(order: Seq<Vec<u8>>, k: int) -> bool {
    &&& 0 <= k < order.len()
    &&& crate::parse::weight_wf(order[k]@)
    &&& crate::parse::weight_val(order[k]@) <= i64::MAX
    &&& -crate::parse::weight_val(order[k]@) <= i64::MAX
}

/// The first index in `k .. m` whose `order` entry is unusable, or `m`.
pub open spec fn first_bad(order: Seq<Vec<u8>>, m: int, k: int) -> int
    decreases m - k,
{
    if k >= m {
        m
    } else if !order_ok(order, k) {
        k
    } else {
        first_bad(order, m, k + 1)
    }
}

/// When every entry before `i` is usable and `i` is the end or unusable,
/// `i` is the first unusable index.
proof fn lemma_first_bad_from(order: Seq<Vec<u8>>, m: int, k: int, i: int)
    requires
        0 <= k <= i <= m,
        forall|j: int| k <= j < i ==> order_ok(order, j),
        i < m ==> !order_ok(order, i),
    ensures
        first_bad(order, m, k) == i,
    decreases i - k,
{
    if k < i {
        lemma_first_bad_from(order, m, k + 1, i);
    }
}

/// The section rows after the first `k` rearrange writes: for each listing
/// position in turn, the weight of the row with that section's id replaced
/// by the parsed form value.
pub open spec fn apply_weights(
    rows: Seq<Section>,
    secs: Seq<Section>,
    order: Seq<Vec<u8>>,
    k: int,
) -> Seq<Section>
    decreases k,
{
    if k <= 0 {
        rows
    } else {
        let prev = apply_weights(rows, secs, order, k - 1);
        let j = section_index(prev, secs[k - 1].id);
        prev.update(
            j,
            (Section { weight: crate::parse::weight_val(order[k - 1]@) as i64, ..prev[j] }),
        )
    }
}

/// The full contract of the rearrange handler: writes are applied in
/// listing order up to the first missing or malformed `order` value, which
/// aborts the request there — the earlier writes stand — and a full pass
/// redirects back to the rearrange page.
pub open spec fn rearrange_ensures(
    s0: SectionStore,
    s1: SectionStore,
    params: Params,
    r: Outcome,
) -> bool {
    let secs = sort_secs(forum_only(s0.rows@));
    let m = first_bad(params.order@, secs.len() as int, 0);
    &&& s1.rows@ == apply_weights(s0.rows@, secs, params.order@, m)
    &&& s1.next_id == s0.next_id
    &&& if m < secs.len() {
        param_err(r)
    } else {
        r matches Outcome::Redirect(RedirectTarget::RearrangePage)
    }
}

/// Every row of the forum listing comes from the table.
proof fn lemma_forum_only_sub(s: Seq<Section>)
    ensures
        forall|i: int| 0 <= i < forum_only(s).len() ==> s.contains(#[trigger] forum_only(s)[i]),
    decreases s.len(),
{
    if s.len() > 0 {
        lemma_forum_only_sub(s.drop_last());
        let f = forum_only(s);
        assert forall|i: int| 0 <= i < f.len() implies s.contains(#[trigger] f[i]) by {
            let fsub = forum_only(s.drop_last());
            if i < fsub.len() {
                assert(s.drop_last().contains(fsub[i]));
                let w = choose|j: int| 0 <= j < s.drop_last().len() && s.drop_last()[j] == fsub[i];
                assert(s[w] == fsub[i]);
            } else {
                assert(f[i] == s.last());
            }
        }
    }
}

/// The request acts as an authenticated administrator.
pub open spec fn is_admin_ctx(user: Option<User>) -> bool {
    user matches Some(u) && u.role >= ADMIN_ROLE
}

/// A request handled by one routed page of the section module.
pub struct SectionPage;

impl SectionPage {
    /// The new-section form; it reads nothing.
    pub fn section_create_page() -> (r: Outcome)
        ensures
            r matches Outcome::SectionCreateForm,
    {
        Outcome::SectionCreateForm
    }

    /// The edit-section form: rejects a missing or malformed id parameter,
    /// and otherwise shows the named section, which the caller must know
    /// exists.
    pub fn section_edit_page(store: &SectionStore, params: &Params) -> (r: Outcome)
        requires
            wf_sections(*store),
            edit_page_ok(store.rows@, *params),
        ensures
            match params.id {
                None => param_err(r),
                Some(b) => if !parses(b@) {
                    param_err(r)
                } else {
                    r matches Outcome::SectionEditForm(s) && s == store.rows@[section_index(
                        store.rows@,
                        digits_val(b@) as u64,
                    )]
                },
            },
    {
        let id = match &params.id {
            None => {
                return Outcome::BadRequest("missing or malformed parameter".to_owned());
            },
            Some(b) => match parse_u64(b) {
                None => {
                    return Outcome::BadRequest("missing or malformed parameter".to_owned());
                },
                Some(v) => v,
            },
        };
        match Section::get_by_id(store, id) {
            Ok(s) => Outcome::SectionEditForm(s),
            Err(_) => {
                proof {
                    assert(false);
                }
                Outcome::NotFound("Not Found".to_owned())
            },
        }
    }

    /// The section detail page, reached by id or — on the blog-by-author
    /// route — by owning author; see `detail_ensures` for the complete
    /// behaviour.
    pub fn section_detail_page(
        sstore: &SectionStore,
        astore: &ArticleStore,
        route: &Route,
        params: &Params,
        user: &Option<User>,
    ) -> (r: Outcome)
        requires
            wf_sections(*sstore),
            wf_articles(*astore),
        ensures
            detail_ensures(sstore.rows@, astore.rows@, *route, *params, *user, r),
    {
        let is_author_route = match route {
            Route::BlogWithAuthor => true,
            _ => false,
        };
        let sid: u64 = if is_author_route {
            let author_id = match &params.author_id {
                None => {
                    return Outcome::BadRequest("missing or malformed parameter".to_owned());
                },
                Some(b) => match parse_u64(b) {
                    None => {
                        return Outcome::BadRequest("missing or malformed parameter".to_owned());
                    },
                    Some(v) => v,
                },
            };
            match Section::get_by_suser(sstore, author_id) {
                Err(_) => {
                    return Outcome::BadRequest("no this section".to_owned());
                },
                Ok(s) => s.id,
            }
        } else {
            match &params.id {
                None => {
                    return Outcome::BadRequest("missing or malformed parameter".to_owned());
                },
                Some(b) => match parse_u64(b) {
                    None => {
                        return Outcome::BadRequest("missing or malformed parameter".to_owned());
                    },
                    Some(v) => v,
                },
            }
        };
        let current_page: u64 = match &params.current_page {
            None => 1,
            Some(b) => match parse_u64(b) {
                None => {
                    return Outcome::BadRequest("missing or malformed parameter".to_owned());
                },
                Some(v) => v,
            },
        };
        let section = match Section::get_by_id(sstore, sid) {
            Err(_) => {
                return Outcome::NotFound("Not Found".to_owned());
            },
            Ok(s) => s,
        };
        proof {
            crate::section::lemma_section_index(sstore.rows@, sid);
        }
        let is_a_blog = section.stype == SECTION_TYPE_BLOG;
        let mut is_myown_blog = false;
        let mut is_admin = false;
        let mut is_login = false;
        let mut user_copy: Option<User> = None;
        match user {
            Some(u) => {
                let owned = match section.suser {
                    Some(su) => su == u.id,
                    None => false,
                };
                if owned {
                    is_myown_blog = true;
                }
                if u.role >= ADMIN_ROLE {
                    is_admin = true;
                }
                is_login = true;
                user_copy = Some(u.clone());
            },
            None => {},
        }
        let total_item = Section::get_articles_count_belong_to_this(astore, section.id);
        let total_page = (total_item / NUMBER_ARTICLE_PER_PAGE) as u64 + 1;
        let articles = Section::get_articles_paging_belong_to_this(astore, section.id, current_page);
        Outcome::SectionDetail(
            SectionDetailView {
                section,
                is_a_blog,
                is_myown_blog,
                is_admin,
                is_login,
                user: user_copy,
                total_item,
                total_page,
                current_page,
                articles,
            },
        )
    }

    /// Creates a section from the `title` and `description` form fields
    /// and redirects to its detail page; see `create_ensures`.
    pub fn section_create(store: &mut SectionStore, params: &Params) -> (r: Outcome)
        requires
            wf_sections(*old(store)),
        ensures
            wf_sections(*final(store)),
            create_ensures(*old(store), *final(store), *params, r),
    {
        let title = match &params.title {
            None => {
                return Outcome::BadRequest("missing or malformed parameter".to_owned());
            },
            Some(t) => t.clone(),
        };
        let description = match &params.description {
            None => {
                return Outcome::BadRequest("missing or malformed parameter".to_owned());
            },
            Some(d) => d.clone(),
        };
        let section_new = SectionNew { title, description };
        match section_new.create(store) {
            Ok(section) => Outcome::Redirect(RedirectTarget::SectionWithId(section.id)),
            Err(_) => Outcome::ServerError("section create error.".to_owned()),
        }
    }

    /// Rewrites a section's `title` and `description` from form fields and
    /// redirects to its detail page; see `edit_ensures`.
    pub fn section_edit(store: &mut SectionStore, params: &Params) -> (r: Outcome)
        requires
            wf_sections(*old(store)),
        ensures
            wf_sections(*final(store)),
            edit_ensures(*old(store), *final(store), *params, r),
    {
        let id = match &params.id {
            None => {
                return Outcome::BadRequest("missing or malformed parameter".to_owned());
            },
            Some(b) => match parse_u64(b) {
                None => {
                    return Outcome::BadRequest("missing or malformed parameter".to_owned());
                },
                Some(v) => v,
            },
        };
        let title = match &params.title {
            None => {
                return Outcome::BadRequest("missing or malformed parameter".to_owned());
            },
            Some(t) => t.clone(),
        };
        let description = match &params.description {
            None => {
                return Outcome::BadRequest("missing or malformed parameter".to_owned());
            },
            Some(d) => d.clone(),
        };
        let section_edit = SectionEdit { id, title, description };
        match section_edit.update(store) {
            Ok(section) => Outcome::Redirect(RedirectTarget::SectionWithId(section.id)),
            Err(_) => Outcome::ServerError("section edit error.".to_owned()),
        }
    }

    /// The manual-reorder page: the forum sections in listing order.
    pub fn section_rearrange_page(store: &SectionStore) -> (r: Outcome)
        ensures
            r matches Outcome::RearrangeList(v) && v@ == sort_secs(forum_only(store.rows@)),
    {
        Outcome::RearrangeList(Section::forum_sections(store))
    }

    /// Applies a manual reorder: the `order` form values are, position by
    /// position, the new weights of the forum sections in listing order.
    /// Writes happen one row at a time and a missing or malformed value
    /// aborts the request where it stands, keeping the earlier writes; see
    /// `rearrange_ensures`.
    pub fn section_rearrange(store: &mut SectionStore, params: &Params) -> (r: Outcome)
        requires
            wf_sections(*old(store)),
        ensures
            wf_sections(*final(store)),
            rearrange_ensures(*old(store), *final(store), *params, r),
    {
        let secs = Section::forum_sections(store);
        proof {
            broadcast use vstd::seq_lib::group_to_multiset_ensures;

            lemma_forum_only_sub(old(store).rows@);
            crate::section::lemma_sort_secs_permutes(forum_only(old(store).rows@));
            let fo = forum_only(old(store).rows@);
            assert forall|j: int| 0 <= j < secs@.len() implies old(store).rows@.contains(
                #[trigger] secs@[j],
            ) by {
                assert(secs@.contains(secs@[j]));
                assert(secs@.to_multiset().contains(secs@[j]));
                assert(fo.to_multiset().contains(secs@[j]));
                assert(fo.contains(secs@[j]));
                let w = choose|q: int| 0 <= q < fo.len() && fo[q] == secs@[j];
                assert(old(store).rows@.contains(fo[w]));
            }
        }
        let n = secs.len();
        let mut i: usize = 0;
        while i < n
            invariant
                wf_sections(*old(store)),
                wf_sections(*store),
                n == secs@.len(),
                secs@ == sort_secs(forum_only(old(store).rows@)),
                forall|j: int|
                    0 <= j < n ==> old(store).rows@.contains(#[trigger] secs@[j]),
                0 <= i <= n,
                forall|j: int| 0 <= j < i ==> order_ok(params.order@, j),
                store.rows@ == apply_weights(old(store).rows@, secs@, params.order@, i as int),
                store.next_id == old(store).next_id,
                store.rows@.len() == old(store).rows@.len(),
                forall|j: int|
                    0 <= j < store.rows@.len() ==> (#[trigger] store.rows@[j]).id
                        == old(store).rows@[j].id,
            decreases n - i,
        {
            if i >= params.order.len() {
                proof {
                    lemma_first_bad_from(params.order@, n as int, 0, i as int);
                }
                return Outcome::BadRequest("missing or malformed parameter".to_owned());
            }
            let w = match crate::parse::parse_weight(&params.order[i]) {
                None => {
                    proof {
                        lemma_first_bad_from(params.order@, n as int, 0, i as int);
                    }
                    return Outcome::BadRequest("missing or malformed parameter".to_owned());
                },
                Some(w) => w,
            };
            proof {
                let sec = secs@[i as int];
                assert(old(store).rows@.contains(sec));
                let j = choose|j: int|
                    0 <= j < old(store).rows@.len() && old(store).rows@[j] == sec;
                assert(store.rows@[j].id == sec.id);
                assert(section_exists(store.rows@, sec.id));
            }
            let update_section_weight = crate::model::UpdateSectionWeight {
                id: secs[i].id,
                weight: w,
            };
            let ghost pre = store.rows@;
            match update_section_weight.update(store) {
                Ok(_) => {},
                Err(_) => {
                    proof {
                        assert(false);
                    }
                    return Outcome::ServerError("section rearrange error.".to_owned());
                },
            }
            proof {
                crate::section::lemma_section_index(pre, secs@[i as int].id);
                let k = section_index(pre, secs@[i as int].id);
                assert(store.rows@ == apply_weights(
                    old(store).rows@,
                    secs@,
                    params.order@,
                    i + 1 as int,
                ));
                assert forall|j: int| 0 <= j < store.rows@.len() implies (#[trigger] store.rows@[j]).id
                    == old(store).rows@[j].id by {
                    if j == k {
                        assert(store.rows@[j].id == pre[k].id);
                    } else {
                        assert(store.rows@[j] == pre[j]);
                    }
                    assert(pre[j].id == old(store).rows@[j].id);
                }
            }
            i = i + 1;
        }
        proof {
            lemma_first_bad_from(params.order@, n as int, 0, n as int);
        }
        Outcome::Redirect(RedirectTarget::RearrangePage)
    }

    /// The permission gate run before every route of this module: only an
    /// authenticated administrator passes.
    pub fn before(user: &Option<User>) -> (r: Result<(), String>)
        ensures
            r is Ok <==> (*user matches Some(u) && u.role >= ADMIN_ROLE),
            r matches Err(m) ==> m@ == "No permission."@,
    {
        match user {
            Some(u) => {
                if u.role >= ADMIN_ROLE {
                    Ok(())
                } else {
                    Err("No permission.".to_owned())
                }
            },
            None => Err("No permission.".to_owned()),
        }
    }

    /// Routes one request of this module. The permission gate runs first:
    /// without an administrator the request is rejected with the fixed
    /// message and the section store is left exactly as it was — no
    /// handler, and so no write, ever runs. For an admitted request the
    /// routed handler's own contract describes the outcome.
    pub fn dispatch(
        route: &Route,
        params: &Params,
        user: &Option<User>,
        astore: &ArticleStore,
        sstore: &mut SectionStore,
    ) -> (r: Outcome)
        requires
            wf_articles(*astore),
            wf_sections(*old(sstore)),
            is_admin_ctx(*user) && (*route matches Route::EditSectionPage) ==> edit_page_ok(
                old(sstore).rows@,
                *params,
            ),
        ensures
            wf_sections(*final(sstore)),
            !is_admin_ctx(*user) ==> {
                &&& r matches Outcome::NoPermission(m) && m@ == "No permission."@
                &&& *final(sstore) == *old(sstore)
            },
            is_admin_ctx(*user) ==> match *route {
                Route::Section | Route::Blog | Route::BlogWithAuthor => {
                    &&& detail_ensures(old(sstore).rows@, astore.rows@, *route, *params, *user, r)
                    &&& *final(sstore) == *old(sstore)
                },
                Route::CreateSectionPage => {
                    &&& r matches Outcome::SectionCreateForm
                    &&& *final(sstore) == *old(sstore)
                },
                Route::EditSectionPage => {
                    &&& match params.id {
                        None => param_err(r),
                        Some(b) => if !parses(b@) {
                            param_err(r)
                        } else {
                            r matches Outcome::SectionEditForm(s) && s == old(
                                sstore,
                            ).rows@[section_index(old(sstore).rows@, digits_val(b@) as u64)]
                        },
                    }
                    &&& *final(sstore) == *old(sstore)
                },
                Route::CreateSection => create_ensures(*old(sstore), *final(sstore), *params, r),
                Route::EditSection => edit_ensures(*old(sstore), *final(sstore), *params, r),
                Route::RearrangeSectionPage => {
                    &&& r matches Outcome::RearrangeList(v) && v@ == sort_secs(
                        forum_only(old(sstore).rows@),
                    )
                    &&& *final(sstore) == *old(sstore)
                },
                Route::RearrangeSection => rearrange_ensures(
                    *old(sstore),
                    *final(sstore),
                    *params,
                    r,
                ),
            },
    {
        match Self::before(user) {
            Err(m) => {
                return Outcome::NoPermission(m);
            },
            Ok(()) => {},
        }
        match route {
            Route::Section => Self::section_detail_page(sstore, astore, route, params, user),
            Route::Blog => Self::section_detail_page(sstore, astore, route, params, user),
            Route::BlogWithAuthor => Self::section_detail_page(sstore, astore, route, params, user),
            Route::CreateSectionPage => Self::section_create_page(),
            Route::EditSectionPage => Self::section_edit_page(sstore, params),
            Route::CreateSection => Self::section_create(sstore, params),
            Route::EditSection => Self::section_edit(sstore, params),
            Route::RearrangeSectionPage => Self::section_rearrange_page(sstore),
            Route::RearrangeSection => Self::section_rearrange(sstore, params),
        }
    }
}

} // verus!
