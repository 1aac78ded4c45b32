//! Core of a small forum/blog web application: sections (forums or
//! personal blogs) hold articles; an in-memory repository gives each
//! entity its create / update / delete / lookup / paging operations, and
//! page handlers turn request parameters plus a repository into a rendered
//! view, a redirect, or an error outcome, behind an admin-only permission
//! gate. Every operation carries a contract that pins its result down, and
//! `laws` states the guarantees that span several operations.

pub mod article;
pub mod handlers;
pub mod laws;
pub mod model;
pub mod parse;
pub mod section;
