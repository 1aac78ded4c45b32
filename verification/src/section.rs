//! The section repository: an in-memory table of section rows with the
//! create / edit / weight-update operations, lookup by id and by owning
//! user, and the forum listing, which gives the forum-type sections in
//! ascending weight order (ties broken by id, so the order is total).
//!
//! The article queries that a section page needs — how many articles a
//! section holds and one page of them, newest first — live here as well,
//! on top of the article table.

use vstd::prelude::*;

use crate::article::ArticleStore;
use crate::article::desc;
use crate::article::page_of;
use crate::article::sec_articles;
use crate::article::wf_articles;
use crate::model::Article;
use crate::model::Section;
use crate::model::SectionEdit;
use crate::model::SectionNew;
use crate::model::UpdateSectionWeight;

verus! {

/// How many articles a section page shows.
pub const NUMBER_ARTICLE_PER_PAGE: usize = 20;

/// In-memory section table; `next_id` is the counter the store assigns
/// section ids from.
pub struct SectionStore {
    pub rows: Vec<Section>,
    pub next_id: u64,
}

/// The index of the first row of `rows` whose id is `id`, or the length of
/// `rows` when no row matches.
pub open spec fn section_index(rows: Seq<Section>, id: u64) -> int
    decreases rows.len(),
{
    if rows.len() == 0 {
        0
    } else if rows[0].id == id {
        0
    } else {
        1 + section_index(rows.drop_first(), id)
    }
}

/// Whether some row of `rows` has id `id`.
pub open spec fn section_exists(rows: Seq<Section>, id: u64) -> bool {
    exists|i: int| 0 <= i < rows.len() && rows[i].id == id
}

/// The index of the first row of `rows` owned by user `uid`, or the length
/// of `rows` when no row matches.
pub open spec fn suser_index(rows: Seq<Section>, uid: u64) -> int
    decreases rows.len(),
{
    if rows.len() == 0 {
        0
    } else if rows[0].suser == Some(uid) {
        0
    } else {
        1 + suser_index(rows.drop_first(), uid)
    }
}

/// Whether some row of `rows` is owned by user `uid`.
pub open spec fn suser_exists(rows: Seq<Section>, uid: u64) -> bool {
    exists|i: int| 0 <= i < rows.len() && rows[i].suser == Some(uid)
}

/// Well-formedness of the table: ids are unique and lie below the counter.
pub open spec fn wf_sections(s: SectionStore) -> bool {
    &&& forall|i: int| 0 <= i < s.rows@.len() ==> (#[trigger] s.rows@[i]).id < s.next_id
    &&& forall|i: int, j: int| 0 <= i < j < s.rows@.len() ==> s.rows@[i].id != s.rows@[j].id
}

/// The forum-type rows of `s` (those that are not blogs), in row order.
pub open spec fn forum_only(s: Seq<Section>) -> Seq<Section>
    decreases s.len(),
{
    if s.len() == 0 {
        Seq::empty()
    } else if s.last().stype == 0 {
        forum_only(s.drop_last()).push(s.last())
    } else {
        forum_only(s.drop_last())
    }
}

/// The listing order of forum sections: weight ascending, ties by id.
pub open spec fn sec_lt(a: Section, b: Section) -> bool {
    a.weight < b.weight || (a.weight == b.weight && a.id < b.id)
}

/// `x` placed into `s` before the first element it precedes.
pub open spec fn sorted_insert(x: Section, s: Seq<Section>) -> Seq<Section>
    decreases s.len(),
{
    if s.len() == 0 {
        seq![x]
    } else if sec_lt(x, s[0]) {
        seq![x] + s
    } else {
        seq![s[0]] + sorted_insert(x, s.drop_first())
    }
}

/// `s` sorted by `sec_lt`: each element in turn placed into the sorted
/// rest, so the result is fully determined by `s`.
pub open spec fn sort_secs(s: Seq<Section>) -> Seq<Section>
    decreases s.len(),
{
    if s.len() == 0 {
        Seq::empty()
    } else {
        sorted_insert(s.last(), sort_secs(s.drop_last()))
    }
}

/// Non-descending in the listing order.
pub open spec fn sec_sorted(s: Seq<Section>) -> bool {
    forall|i: int, j: int| 0 <= i < j < s.len() ==> !sec_lt(s[j], s[i])
}

/// When a row with id `id` exists, `section_index` points at the first
/// one; when none does, it is the length of `rows`.
pub proof fn lemma_section_index(rows: Seq<Section>, id: u64)
    ensures
        section_exists(rows, id) ==> {
            &&& 0 <= section_index(rows, id) < rows.len()
            &&& rows[section_index(rows, id)].id == id
            &&& forall|i: int| 0 <= i < section_index(rows, id) ==> rows[i].id != id
        },
        !section_exists(rows, id) ==> section_index(rows, id) == rows.len(),
    decreases rows.len(),
{
    if rows.len() == 0 {
    } else if rows[0].id == id {
        assert(section_exists(rows, id));
    } else {
        let sub = rows.drop_first();
        lemma_section_index(sub, id);
        assert(forall|i: int| 0 <= i < sub.len() ==> sub[i] == rows[i + 1]);
        if section_exists(sub, id) {
            let j = choose|i: int| 0 <= i < sub.len() && sub[i].id == id;
            assert(rows[j + 1].id == id);
            assert(section_exists(rows, id));
        }
        if section_exists(rows, id) {
            let w = choose|i: int| 0 <= i < rows.len() && rows[i].id == id;
            assert(w >= 1);
            assert(sub[w - 1] == rows[w]);
            assert(section_exists(sub, id));
            let k = section_index(sub, id);
            assert(rows[k + 1] == sub[k]);
            assert forall|i: int| 0 <= i < section_index(rows, id) implies rows[i].id != id by {
                if i >= 1 {
                    assert(sub[i - 1] == rows[i]);
                }
            }
        }
    }
}

/// The same statement for the first row owned by a given user.
pub proof fn lemma_suser_index(rows: Seq<Section>, uid: u64)
    ensures
        suser_exists(rows, uid) ==> {
            &&& 0 <= suser_index(rows, uid) < rows.len()
            &&& rows[suser_index(rows, uid)].suser == Some(uid)
            &&& forall|i: int| 0 <= i < suser_index(rows, uid) ==> rows[i].suser != Some(uid)
        },
        !suser_exists(rows, uid) ==> suser_index(rows, uid) == rows.len(),
    decreases rows.len(),
{
    if rows.len() == 0 {
    } else if rows[0].suser == Some(uid) {
        assert(suser_exists(rows, uid));
    } else {
        let sub = rows.drop_first();
        lemma_suser_index(sub, uid);
        assert(forall|i: int| 0 <= i < sub.len() ==> sub[i] == rows[i + 1]);
        if suser_exists(sub, uid) {
            let j = choose|i: int| 0 <= i < sub.len() && sub[i].suser == Some(uid);
            assert(rows[j + 1].suser == Some(uid));
            assert(suser_exists(rows, uid));
        }
        if suser_exists(rows, uid) {
            let w = choose|i: int| 0 <= i < rows.len() && rows[i].suser == Some(uid);
            assert(w >= 1);
            assert(sub[w - 1] == rows[w]);
            assert(suser_exists(sub, uid));
            let k = suser_index(sub, uid);
            assert(rows[k + 1] == sub[k]);
            assert forall|i: int| 0 <= i < suser_index(rows, uid) implies rows[i].suser
                != Some(uid) by {
                if i >= 1 {
                    assert(sub[i - 1] == rows[i]);
                }
            }
        }
    }
}

/// Placing `x` at the first position whose element it precedes is exactly
/// `sorted_insert`.
proof fn lemma_sorted_insert_at(x: Section, s: Seq<Section>, j: int)
    requires
        0 <= j <= s.len(),
        forall|k: int| 0 <= k < j ==> !sec_lt(x, s[k]),
        j < s.len() ==> sec_lt(x, s[j]),
    ensures
        sorted_insert(x, s) =~= s.insert(j, x),
    decreases s.len(),
{
    if s.len() == 0 {
        assert(sorted_insert(x, s) =~= s.insert(0, x));
    } else if sec_lt(x, s[0]) {
        assert(j == 0);
        assert(seq![x] + s =~= s.insert(0, x));
    } else {
        assert(j >= 1);
        let sub = s.drop_first();
        assert(forall|k: int| 0 <= k < j - 1 ==> sub[k] == s[k + 1]);
        lemma_sorted_insert_at(x, sub, j - 1);
        assert(seq![s[0]] + sub.insert(j - 1, x) =~= s.insert(j, x));
    }
}

/// `sorted_insert` into a non-descending sequence is non-descending.
proof fn lemma_sorted_insert_sorted(x: Section, s: Seq<Section>)
    requires
        sec_sorted(s),
    ensures
        sec_sorted(sorted_insert(x, s)),
        sorted_insert(x, s).len() == s.len() + 1,
    decreases s.len(),
{
    if s.len() == 0 {
    } else if sec_lt(x, s[0]) {
        let r = seq![x] + s;
        assert forall|i: int, j: int| 0 <= i < j < r.len() implies !sec_lt(r[j], r[i]) by {
            if i >= 1 {
                assert(!sec_lt(s[j - 1], s[i - 1]));
            } else {
                if j >= 2 {
                    assert(!sec_lt(s[j - 1], s[0]));
                }
            }
        }
    } else {
        let sub = s.drop_first();
        assert(forall|k: int| 0 <= k < sub.len() ==> sub[k] == s[k + 1]);
        lemma_sorted_insert_sorted(x, sub);
        let rsub = sorted_insert(x, sub);
        let r = seq![s[0]] + rsub;
        lemma_sorted_insert_elems(x, sub);
        assert forall|i: int, j: int| 0 <= i < j < r.len() implies !sec_lt(r[j], r[i]) by {
            if i == 0 {
                let e = rsub[j - 1];
                assert(e == x || sub.contains(e));
                if sub.contains(e) {
                    let w = choose|k: int| 0 <= k < sub.len() && sub[k] == e;
                    assert(!sec_lt(s[w + 1], s[0]));
                }
            } else {
                assert(!sec_lt(rsub[j - 1], rsub[i - 1]));
            }
        }
    }
}

/// The elements of `sorted_insert(x, s)` are `x` and those of `s`.
proof fn lemma_sorted_insert_elems(x: Section, s: Seq<Section>)
    ensures
        sorted_insert(x, s).len() == s.len() + 1,
        forall|i: int|
            0 <= i < sorted_insert(x, s).len()
                ==> sorted_insert(x, s)[i] == x || s.contains(#[trigger] sorted_insert(x, s)[i]),
    decreases s.len(),
{
    if s.len() == 0 {
    } else if sec_lt(x, s[0]) {
    } else {
        let sub = s.drop_first();
        lemma_sorted_insert_elems(x, sub);
        let r = seq![s[0]] + sorted_insert(x, sub);
        assert forall|i: int| 0 <= i < r.len() implies r[i] == x || s.contains(#[trigger] r[i]) by {
            if i == 0 {
                assert(s[0] == r[0]);
                assert(s.contains(s[0]));
            } else {
                let e = sorted_insert(x, sub)[i - 1];
                if sub.contains(e) {
                    let w = choose|k: int| 0 <= k < sub.len() && sub[k] == e;
                    assert(s[w + 1] == e);
                    assert(s.contains(e));
                }
            }
        }
    }
}

/// What `sort_secs` gives is non-descending in the listing order.
pub proof fn lemma_sort_secs_sorted(s: Seq<Section>)
    ensures
        sec_sorted(sort_secs(s)),
        sort_secs(s).len() == s.len(),
    decreases s.len(),
{
    if s.len() > 0 {
        lemma_sort_secs_sorted(s.drop_last());
        lemma_sorted_insert_sorted(s.last(), sort_secs(s.drop_last()));
    }
}

/// `sort_secs` keeps exactly the elements of its input, multiplicity and
/// all: the sorted listing is a permutation.
pub proof fn lemma_sort_secs_permutes(s: Seq<Section>)
    ensures
        sort_secs(s).to_multiset() == s.to_multiset(),
    decreases s.len(),
{
    broadcast use vstd::seq_lib::group_to_multiset_ensures;

    if s.len() > 0 {
        lemma_sort_secs_permutes(s.drop_last());
        lemma_sorted_insert_multiset(s.last(), sort_secs(s.drop_last()));
        assert(s.drop_last().push(s.last()) =~= s);
    }
}

/// `sorted_insert` adds exactly one occurrence of `x`.
proof fn lemma_sorted_insert_multiset(x: Section, s: Seq<Section>)
    ensures
        sorted_insert(x, s).to_multiset() == s.to_multiset().insert(x),
    decreases s.len(),
{
    broadcast use vstd::seq_lib::group_to_multiset_ensures;

    if s.len() == 0 {
        assert(sorted_insert(x, s) =~= Seq::empty().push(x));
    } else if sec_lt(x, s[0]) {
        lemma_push_front_multiset(x, s);
    } else {
        let sub = s.drop_first();
        lemma_sorted_insert_multiset(x, sub);
        lemma_push_front_multiset(s[0], sorted_insert(x, sub));
        lemma_push_front_multiset(s[0], sub);
        assert(seq![s[0]] + sub =~= s);
        assert(sub.to_multiset().insert(x).insert(s[0]) =~= sub.to_multiset().insert(
            s[0],
        ).insert(x));
    }
}

/// Prepending one element inserts it into the multiset.
proof fn lemma_push_front_multiset(x: Section, s: Seq<Section>)
    ensures
        (seq![x] + s).to_multiset() == s.to_multiset().insert(x),
    decreases s.len(),
{
    broadcast use vstd::seq_lib::group_to_multiset_ensures;

    if s.len() == 0 {
        assert(seq![x] + s =~= Seq::empty().push(x));
    } else {
        lemma_push_front_multiset(x, s.drop_last());
        assert((seq![x] + s.drop_last()).push(s.last()) =~= seq![x] + s);
        assert(s.drop_last().push(s.last()) =~= s);
        assert(s.drop_last().to_multiset().insert(x).insert(s.last())
            =~= s.drop_last().to_multiset().insert(s.last()).insert(x));
    }
}

/// A section holds no more articles than the table has rows.
pub proof fn lemma_sec_articles_len(s: Seq<Article>, sid: u64)
    ensures
        sec_articles(s, sid).len() <= s.len(),
    decreases s.len(),
{
    if s.len() > 0 {
        lemma_sec_articles_len(s.drop_last(), sid);
    }
}

/// Replacing a row by one with the same id keeps the table well-formed.
proof fn lemma_wf_sec_update(s0: SectionStore, s1: SectionStore, k: int, x: Section)
    requires
        wf_sections(s0),
        0 <= k < s0.rows@.len(),
        s1.rows@ == s0.rows@.update(k, x),
        x.id == s0.rows@[k].id,
        s1.next_id == s0.next_id,
    ensures
        wf_sections(s1),
{
    let rs = s1.rows@;
    let os = s0.rows@;
    assert forall|p: int| 0 <= p < rs.len() implies (#[trigger] rs[p]).id < s1.next_id by {
        assert(os[p].id < s0.next_id);
    }
    assert forall|p: int, q: int| 0 <= p < q < rs.len() implies rs[p].id != rs[q].id by {
        assert(os[p].id != os[q].id);
    }
}

impl SectionStore {
    /// An empty section table.
    pub fn new() -> (r: SectionStore)
        ensures
            wf_sections(r),
            r.rows@.len() == 0,
            r.next_id == 1,
    {
        SectionStore { rows: Vec::new(), next_id: 1 }
    }
}

impl SectionNew {
    /// Inserts a new section with these `title` and `description`; the
    /// store assigns a fresh id, and the section starts as a forum
    /// (`stype == 0`) with no owner and weight zero. The call fails, with
    /// the fixed message and the store unchanged, exactly when the id
    /// counter is exhausted.
    pub fn create(&self, store: &mut SectionStore) -> (r: Result<Section, String>)
        requires
            wf_sections(*old(store)),
        ensures
            wf_sections(*final(store)),
            r is Ok <==> old(store).next_id < u64::MAX,
            r matches Ok(s) ==> {
                &&& s.title == self.title
                &&& s.description == self.description
                &&& s.stype == 0
                &&& s.suser is None
                &&& s.weight == 0
                &&& s.id == old(store).next_id
                &&& forall|i: int|
                    0 <= i < old(store).rows@.len()
                        ==> (#[trigger] old(store).rows@[i]).id != s.id
                &&& final(store).rows@ == old(store).rows@.push(s)
                &&& final(store).next_id == old(store).next_id + 1
            },
            r matches Err(m) ==> *final(store) == *old(store) && m@ == "Insert section error."@,
    {
        if store.next_id == u64::MAX {
            return Err("Insert section error.".to_owned());
        }
        let section = Section {
            id: store.next_id,
            title: self.title.clone(),
            description: self.description.clone(),
            stype: 0,
            suser: None,
            weight: 0,
        };
        let copy = section.clone();
        store.rows.push(section);
        store.next_id = store.next_id + 1;
        Ok(copy)
    }
}

impl SectionEdit {
    /// Overwrites `title` and `description` of the row whose id is
    /// `self.id`; the row keeps its `stype`, `suser` and `weight`. Fails,
    /// with the fixed message and the store unchanged, exactly when no row
    /// has that id.
    pub fn update(&self, store: &mut SectionStore) -> (r: Result<Section, String>)
        requires
            wf_sections(*old(store)),
        ensures
            wf_sections(*final(store)),
            r is Ok <==> section_exists(old(store).rows@, self.id),
            r matches Ok(s) ==> {
                let k = section_index(old(store).rows@, self.id);
                &&& s.id == self.id
                &&& s.title == self.title
                &&& s.description == self.description
                &&& s.stype == old(store).rows@[k].stype
                &&& s.suser == old(store).rows@[k].suser
                &&& s.weight == old(store).rows@[k].weight
                &&& final(store).rows@ == old(store).rows@.update(k, s)
                &&& final(store).next_id == old(store).next_id
            },
            r matches Err(m) ==> *final(store) == *old(store) && m@ == "Update section error."@,
    {
        let n = store.rows.len();
        let mut i: usize = 0;
        while i < n
            invariant
                wf_sections(*old(store)),
                *store == *old(store),
                n == store.rows@.len(),
                0 <= i <= n,
                forall|j: int| 0 <= j < i ==> store.rows@[j].id != self.id,
            decreases n - i,
        {
            if store.rows[i].id == self.id {
                proof {
                    assert(section_exists(old(store).rows@, self.id));
                    lemma_section_index(old(store).rows@, self.id);
                    assert(section_index(old(store).rows@, self.id) == i);
                }
                let row = &store.rows[i];
                let section = Section {
                    id: self.id,
                    title: self.title.clone(),
                    description: self.description.clone(),
                    stype: row.stype,
                    suser: row.suser,
                    weight: row.weight,
                };
                let copy = section.clone();
                store.rows.set(i, section);
                proof {
                    lemma_wf_sec_update(*old(store), *store, i as int, section);
                }
                return Ok(copy);
            }
            i = i + 1;
        }
        proof {
            assert(!section_exists(store.rows@, self.id));
        }
        Err("Update section error.".to_owned())
    }
}

impl UpdateSectionWeight {
    /// Sets the weight of the row whose id is `self.id`, leaving every
    /// other field as it was. Fails, with the fixed message and the store
    /// unchanged, exactly when no row has that id.
    pub fn update(&self, store: &mut SectionStore) -> (r: Result<Section, String>)
        requires
            wf_sections(*old(store)),
        ensures
            wf_sections(*final(store)),
            r is Ok <==> section_exists(old(store).rows@, self.id),
            r matches Ok(s) ==> {
                let k = section_index(old(store).rows@, self.id);
                &&& s == Section { weight: self.weight, ..old(store).rows@[k] }
                &&& final(store).rows@ == old(store).rows@.update(k, s)
                &&& final(store).next_id == old(store).next_id
            },
            r matches Err(m) ==> *final(store) == *old(store) && m@
                == "Update section weight error."@,
    {
        let n = store.rows.len();
        let mut i: usize = 0;
        while i < n
            invariant
                wf_sections(*old(store)),
                *store == *old(store),
                n == store.rows@.len(),
                0 <= i <= n,
                forall|j: int| 0 <= j < i ==> store.rows@[j].id != self.id,
            decreases n - i,
        {
            if store.rows[i].id == self.id {
                proof {
                    assert(section_exists(old(store).rows@, self.id));
                    lemma_section_index(old(store).rows@, self.id);
                    assert(section_index(old(store).rows@, self.id) == i);
                }
                let row = &store.rows[i];
                let section = Section {
                    id: row.id,
                    title: row.title.clone(),
                    description: row.description.clone(),
                    stype: row.stype,
                    suser: row.suser,
                    weight: self.weight,
                };
                let copy = section.clone();
                store.rows.set(i, section);
                proof {
                    lemma_wf_sec_update(*old(store), *store, i as int, section);
                }
                return Ok(copy);
            }
            i = i + 1;
        }
        proof {
            assert(!section_exists(store.rows@, self.id));
        }
        Err("Update section weight error.".to_owned())
    }
}

impl Section {
    /// Looks a section up by id. Returns the matching row, or fails with
    /// the fixed message exactly when no row has that id.
    pub fn get_by_id(store: &SectionStore, id: u64) -> (r: Result<Section, String>)
        requires
            wf_sections(*store),
        ensures
            r is Ok <==> section_exists(store.rows@, id),
            r matches Ok(s) ==> s == store.rows@[section_index(store.rows@, id)],
            r matches Err(m) ==> m@ == "get section error."@,
    {
        let n = store.rows.len();
        let mut i: usize = 0;
        while i < n
            invariant
                n == store.rows@.len(),
                0 <= i <= n,
                forall|j: int| 0 <= j < i ==> store.rows@[j].id != id,
            decreases n - i,
        {
            if store.rows[i].id == id {
                proof {
                    assert(section_exists(store.rows@, id));
                    lemma_section_index(store.rows@, id);
                }
                return Ok(store.rows[i].clone());
            }
            i = i + 1;
        }
        proof {
            assert(!section_exists(store.rows@, id));
        }
        Err("get section error.".to_owned())
    }

    /// Looks a section up by owning user: the first row whose `suser` is
    /// `Some(uid)`. Fails with the fixed message exactly when no row is
    /// owned by that user.
    pub fn get_by_suser(store: &SectionStore, uid: u64) -> (r: Result<Section, String>)
        requires
            wf_sections(*store),
        ensures
            r is Ok <==> suser_exists(store.rows@, uid),
            r matches Ok(s) ==> s == store.rows@[suser_index(store.rows@, uid)],
            r matches Err(m) ==> m@ == "get section error."@,
    {
        let n = store.rows.len();
        let mut i: usize = 0;
        while i < n
            invariant
                n == store.rows@.len(),
                0 <= i <= n,
                forall|j: int| 0 <= j < i ==> store.rows@[j].suser != Some(uid),
            decreases n - i,
        {
            let hit = match store.rows[i].suser {
                Some(u) => u == uid,
                None => false,
            };
            if hit {
                proof {
                    assert(suser_exists(store.rows@, uid));
                    lemma_suser_index(store.rows@, uid);
                    assert(suser_index(store.rows@, uid) == i);
                }
                return Ok(store.rows[i].clone());
            }
            i = i + 1;
        }
        proof {
            assert(!suser_exists(store.rows@, uid));
        }
        Err("get section error.".to_owned())
    }

    /// The forum-type sections (not blogs), ordered by weight ascending,
    /// ties by id: exactly `sort_secs(forum_only(rows))`.
    pub fn forum_sections(store: &SectionStore) -> (r: Vec<Section>)
        ensures
            r@ == sort_secs(forum_only(store.rows@)),
    {
        let n = store.rows.len();
        let mut fil: Vec<Section> = Vec::new();
        let mut i: usize = 0;
        while i < n
            invariant
                n == store.rows@.len(),
                0 <= i <= n,
                fil@ == forum_only(store.rows@.subrange(0, i as int)),
            decreases n - i,
        {
            proof {
                let pre = store.rows@.subrange(0, i as int);
                let cur = store.rows@.subrange(0, i + 1 as int);
                assert(cur.drop_last() =~= pre);
                assert(cur.last() == store.rows@[i as int]);
            }
            if store.rows[i].stype == 0 {
                fil.push(store.rows[i].clone());
            }
            i = i + 1;
        }
        proof {
            assert(store.rows@.subrange(0, n as int) =~= store.rows@);
        }
        let m = fil.len();
        let mut out: Vec<Section> = Vec::new();
        let mut k: usize = 0;
        while k < m
            invariant
                m == fil@.len(),
                0 <= k <= m,
                out@ == sort_secs(fil@.subrange(0, k as int)),
            decreases m - k,
        {
            proof {
                let pre = fil@.subrange(0, k as int);
                let cur = fil@.subrange(0, k + 1 as int);
                assert(cur.drop_last() =~= pre);
                assert(cur.last() == fil@[k as int]);
            }
            let x = fil[k].clone();
            let len = out.len();
            let mut j: usize = 0;
            while j < len
                invariant
                    len == out@.len(),
                    0 <= j <= len,
                    x == fil@[k as int],
                    forall|q: int| 0 <= q < j ==> !sec_lt(x, out@[q]),
                ensures
                    0 <= j <= len,
                    len == out@.len(),
                    forall|q: int| 0 <= q < j ==> !sec_lt(x, out@[q]),
                    j < len ==> sec_lt(x, out@[j as int]),
                decreases len - j,
            {
                let o = &out[j];
                let before = x.weight < o.weight || (x.weight == o.weight && x.id < o.id);
                if before {
                    break ;
                }
                j = j + 1;
            }
            proof {
                lemma_sorted_insert_at(x, out@, j as int);
            }
            out.insert(j, x);
            k = k + 1;
        }
        proof {
            assert(fil@.subrange(0, m as int) =~= fil@);
        }
        out
    }

    /// How many articles belong to section `section_id`.
    pub fn get_articles_count_belong_to_this(astore: &ArticleStore, section_id: u64) -> (r: usize)
        ensures
            r == sec_articles(astore.rows@, section_id).len(),
    {
        let fil = crate::model::Article::all_by_section(astore, section_id);
        fil.len()
    }

    /// One page of the articles of section `section_id`, newest first.
    /// `current_page` is 1-indexed, as the query parameter is; a value of
    /// zero reads as the first page. The page is `NUMBER_ARTICLE_PER_PAGE`
    /// rows wide.
    pub fn get_articles_paging_belong_to_this(
        astore: &ArticleStore,
        section_id: u64,
        current_page: u64,
    ) -> (r: Vec<Article>)
        requires
            wf_articles(*astore),
        ensures
            r@ == page_of(
                desc(sec_articles(astore.rows@, section_id)),
                if current_page == 0 { 0int } else { current_page - 1 },
                NUMBER_ARTICLE_PER_PAGE as int,
            ),
    {
        let page0: u64 = if current_page == 0 {
            0
        } else {
            current_page - 1
        };
        let page_idx: usize = if page0 > (usize::MAX as u64) {
            usize::MAX
        } else {
            page0 as usize
        };
        let r = crate::model::Article::paging_by_section(
            astore,
            section_id,
            page_idx,
            NUMBER_ARTICLE_PER_PAGE,
        );
        proof {
            if page0 > usize::MAX as u64 {
                vstd::std_specs::vec::axiom_spec_len(&astore.rows);
                lemma_sec_articles_len(astore.rows@, section_id);
                let s = desc(sec_articles(astore.rows@, section_id));
                assert(s.len() <= usize::MAX);
                assert(page_of(s, page_idx as int, NUMBER_ARTICLE_PER_PAGE as int) =~= page_of(
                    s,
                    page0 as int,
                    NUMBER_ARTICLE_PER_PAGE as int,
                ));
            }
        }
        r
    }
}

} // verus!
