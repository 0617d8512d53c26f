//! The record, the input of a write, and the error taxonomy.

use vstd::prelude::*;
use vstd::string::*;

verus! {

/// A stored record. `id` is the 128-bit value of the record's UUID;
/// `created_at` counts microseconds since the Unix epoch, in UTC.
#[derive(Clone, Debug, PartialEq, Eq)]
pub struct Post {
    pub id: u128,
    pub title: String,
    pub content: String,
    pub created_at: i64,
}

/// The mathematical value of a [`Post`].
pub struct PostView {
    pub id: u128,
    pub title: Seq<char>,
    pub content: Seq<char>,
    pub created_at: i64,
}

impl View for Post {
    type V = PostView;

    open spec fn view(&self) -> PostView {
        PostView {
            id: self.id,
            title: self.title@,
            content: self.content@,
            created_at: self.created_at,
        }
    }
}

/// The value of every record of a sequence.
pub open spec fn posts_view(ps: Seq<Post>) -> Seq<PostView> {
    ps.map_values(|p: Post| p@)
}

/// What a caller hands in to create or update a record.
#[derive(Clone, Debug, PartialEq, Eq)]
pub struct PostDto {
    pub title: String,
    pub content: String,
}

/// The single error taxonomy that callers see. Cache problems never appear
/// here: they are absorbed as misses or ignored.
#[derive(Clone, Debug, PartialEq, Eq)]
pub enum PostError {
    /// No record has the requested identifier.
    NotFound,
    /// Caller-supplied data breaks a business rule (an empty title).
    InvalidInput,
    /// The store could not complete the operation; the text says why.
    StoreFailure(String),
}

pub open spec fn error_message(e: PostError) -> Seq<char> {
    match e {
        PostError::NotFound => "post not found"@,
        PostError::InvalidInput => "invalid input"@,
        PostError::StoreFailure(detail) => "database error: "@ + detail@,
    }
}

pub open spec fn error_status(e: PostError) -> u16 {
    match e {
        PostError::NotFound => 404,
        PostError::InvalidInput => 400,
        PostError::StoreFailure(_) => 500,
    }
}

impl PostError {
    /// The human-readable text of the error.
    pub fn message(&self) -> (r: String)
        ensures
            r@ == error_message(*self),
    {
        match self {
            PostError::NotFound => String::from_str("post not found"),
            PostError::InvalidInput => String::from_str("invalid input"),
            PostError::StoreFailure(detail) => {
                let r = String::from_str("database error: ");
                r.concat(detail.as_str())
            },
        }
    }

    /// The HTTP status under which the error is reported.
    pub fn http_status(&self) -> (r: u16)
        ensures
            r == error_status(*self),
    {
        match self {
            PostError::NotFound => 404,
            PostError::InvalidInput => 400,
            PostError::StoreFailure(_) => 500,
        }
    }

    /// Maps a failure reported by the relational store: a missing row is
    /// `NotFound`, anything else a `StoreFailure` with the store's text.
    pub fn from_store(row_not_found: bool, detail: String) -> (r: PostError)
        ensures
            row_not_found ==> r == PostError::NotFound,
            !row_not_found ==> r == PostError::StoreFailure(detail),
    {
        if row_not_found {
            PostError::NotFound
        } else {
            PostError::StoreFailure(detail)
        }
    }
}

} // verus!
