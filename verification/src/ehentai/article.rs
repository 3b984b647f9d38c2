//! Article metadata and comments as plain data: what the search-result and
//! gallery pages say about an article, stripped of any document handles.

use vstd::prelude::*;
use crate::ehentai::tag::TagMap;
use crate::explorer::ehentai::EhArticleKind;

verus! {

/// What a search result row reveals about an article before it is loaded.
#[derive(Debug)]
pub struct DraftMeta {
    pub kind: EhArticleKind,
    pub thumb: String,
    pub posted: String,
    pub path: String,
    pub title: String,
    pub tags: TagMap,
    pub uploader: String,
    pub length: usize,
}

/// The voting block attached to a non-uploader comment.
#[derive(Debug)]
pub struct Vote {
    pub score: i64,
    pub voters: Vec<(String, i64)>,
    pub omitted: usize,
}

/// One comment under an article. The vote block is absent on the uploader's
/// own comment.
#[derive(Debug)]
pub struct Comment {
    pub posted: String,
    pub edited: Option<String>,
    pub vote: Option<Vote>,
    pub writer: String,
    pub content: String,
}

impl Comment {
    /// The comment's score, absent on an uploader comment.
    pub open spec fn spec_score(self) -> Option<i64> {
        match self.vote {
            Some(v) => Some(v.score),
            None => None,
        }
    }

    /// How many voters were omitted from the listing, absent on an uploader
    /// comment.
    pub open spec fn spec_omitted_voter(self) -> Option<usize> {
        match self.vote {
            Some(v) => Some(v.omitted),
            None => None,
        }
    }

    pub fn score(&self) -> (s: Option<i64>)
        ensures
            s == self.spec_score(),
    {
        match &self.vote {
            Some(v) => Some(v.score),
            None => None,
        }
    }

    /// The listed voters with the score each contributed, absent on an
    /// uploader comment.
    pub fn voters(&self) -> (r: Option<&Vec<(String, i64)>>)
        ensures
            (r matches Some(_)) <==> (self.vote matches Some(_)),
            r matches Some(vs) ==> (self.vote matches Some(v) && vs@ == v.voters@),
    {
        match &self.vote {
            Some(v) => Some(&v.voters),
            None => None,
        }
    }

    pub fn omitted_voter(&self) -> (n: Option<usize>)
        ensures
            n == self.spec_omitted_voter(),
    {
        match &self.vote {
            Some(v) => Some(v.omitted),
            None => None,
        }
    }
}

} // verus!
