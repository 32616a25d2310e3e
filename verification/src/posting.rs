//! Job postings.
use vstd::prelude::*;

use crate::text::{clone_opt_text, opt_text};

verus! {

/// A job posting as a board reports it.
#[derive(Debug, PartialEq, Eq)]
pub struct JobPosting {
    pub id: String,
    /// The board that the posting came from.
    pub source: String,
    pub external_id: Option<String>,
    pub url: String,
    pub title: String,
    pub company: String,
    pub location: Option<String>,
    pub description: Option<String>,
    /// When the posting was read, in milliseconds since the epoch.
    pub captured_at: i64,
    /// When the posting was published, in milliseconds since the epoch.
    pub posted_at: Option<i64>,
}

/// [`JobPosting`] as values.
#[verifier::ext_equal]
pub struct PostingView {
    pub id: Seq<char>,
    pub source: Seq<char>,
    pub external_id: Option<Seq<char>>,
    pub url: Seq<char>,
    pub title: Seq<char>,
    pub company: Seq<char>,
    pub location: Option<Seq<char>>,
    pub description: Option<Seq<char>>,
    pub captured_at: i64,
    pub posted_at: Option<i64>,
}

impl View for JobPosting {
    type V = PostingView;

    open spec fn view(&self) -> PostingView {
        PostingView {
            id: self.id@,
            source: self.source@,
            external_id: opt_text(self.external_id),
            url: self.url@,
            title: self.title@,
            company: self.company@,
            location: opt_text(self.location),
            description: opt_text(self.description),
            captured_at: self.captured_at,
            posted_at: self.posted_at,
        }
    }
}

impl Clone for JobPosting {
    fn clone(&self) -> (r: Self)
        ensures
            r@ == self@,
    {
        JobPosting {
            id: self.id.clone(),
            source: self.source.clone(),
            external_id: clone_opt_text(&self.external_id),
            url: self.url.clone(),
            title: self.title.clone(),
            company: self.company.clone(),
            location: clone_opt_text(&self.location),
            description: clone_opt_text(&self.description),
            captured_at: self.captured_at,
            posted_at: self.posted_at,
        }
    }
}

/// The postings of a list as values.
pub open spec fn postings_view(v: Seq<JobPosting>) -> Seq<PostingView> {
    Seq::new(v.len(), |i: int| v[i]@)
}

/// What is said of a value of [`JobPosting`] is said of its own fields, each by its name.
pub proof fn posting_shows_its_own_fields(x: &JobPosting)
    ensures
        x@.id == x.id@,
        x@.source == x.source@,
        x@.external_id == opt_text(x.external_id),
        x@.url == x.url@,
        x@.title == x.title@,
        x@.company == x.company@,
        x@.location == opt_text(x.location),
        x@.description == opt_text(x.description),
        x@.captured_at == x.captured_at,
        x@.posted_at == x.posted_at,
{
}

} // verus!
