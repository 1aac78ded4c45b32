//! Entity records of the forum core: articles, sections, the acting user,
//! and the narrow write records (create / edit / delete variants) that the
//! repository operations take.
//!
//! Identifiers are plain unsigned integers assigned by the store; creation
//! times are a logical clock, also assigned by the store, so that "newer"
//! is exactly "later inserted". A section's `weight` is a manual sort key
//! held in fixed-point form: `WEIGHT_SCALE` units stand for one whole unit,
//! so a form value of `"5.0"` is stored as `5 * WEIGHT_SCALE`.

use vstd::prelude::*;

verus! {

/// Fixed-point scale of a section weight: one whole unit of weight.
pub const WEIGHT_SCALE: i64 = 1_000_000;

/// The role threshold from which a user counts as an administrator.
pub const ADMIN_ROLE: u32 = 9;

/// A section of type `stype == SECTION_TYPE_BLOG` is a personal blog.
pub const SECTION_TYPE_BLOG: u32 = 1;

/// A content item belonging to exactly one section.
#[derive(Debug)]
pub struct Article {
    pub id: u64,
    pub section_id: u64,
    pub title: String,
    pub content: String,
    /// Logical creation stamp, assigned by the store; strictly larger for
    /// later-inserted articles, and used for the default (descending) order.
    pub created_time: u64,
}

/// Fields of a new article; the store assigns `id` and `created_time`.
pub struct ArticleCreate {
    pub section_id: u64,
    pub title: String,
    pub content: String,
}

/// Replacement fields of an existing article. The row keeps its
/// `section_id` and `created_time`; `title` and `content` are overwritten.
pub struct ArticleEdit {
    pub id: u64,
    pub title: String,
    pub content: String,
}

/// Names the article to remove.
pub struct ArticleDelete {
    pub id: u64,
}

/// A forum sub-board, or, when `stype` marks it a blog, one user's blog.
#[derive(Debug)]
pub struct Section {
    pub id: u64,
    pub title: String,
    pub description: String,
    /// `SECTION_TYPE_BLOG` means a personal blog; any other value a forum.
    pub stype: u32,
    /// The owning user, present when the section is a personal blog.
    pub suser: Option<u64>,
    /// Manual sort key of forum sections, in `WEIGHT_SCALE` fixed point.
    pub weight: i64,
}

/// Fields of a new section; the store assigns `id`, and the new section
/// starts as a forum (`stype == 0`) with no owner and weight zero.
pub struct SectionNew {
    pub title: String,
    pub description: String,
}

/// Replacement `title` and `description` of an existing section.
pub struct SectionEdit {
    pub id: u64,
    pub title: String,
    pub description: String,
}

/// A single-field write: the new weight of one section, used by the bulk
/// rearrange operation.
pub struct UpdateSectionWeight {
    pub id: u64,
    pub weight: i64,
}

/// The authenticated user a request acts as.
#[derive(Debug)]
pub struct User {
    pub id: u64,
    /// Privilege level; `ADMIN_ROLE` and above is an administrator.
    pub role: u32,
}

impl Clone for Article {
    fn clone(&self) -> (r: Self)
        ensures
            r == *self,
    {
        Article {
            id: self.id,
            section_id: self.section_id,
            title: self.title.clone(),
            content: self.content.clone(),
            created_time: self.created_time,
        }
    }
}

impl Clone for Section {
    fn clone(&self) -> (r: Self)
        ensures
            r == *self,
    {
        Section {
            id: self.id,
            title: self.title.clone(),
            description: self.description.clone(),
            stype: self.stype,
            suser: self.suser,
            weight: self.weight,
        }
    }
}

impl Clone for User {
    fn clone(&self) -> (r: Self)
        ensures
            r == *self,
    {
        User { id: self.id, role: self.role }
    }
}

} // verus!
