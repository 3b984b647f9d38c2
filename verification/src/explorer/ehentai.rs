//! Gallery classification data for the e-hentai explorer: article kinds,
//! and the per-category tag lists attached to an article.

use vstd::prelude::*;
use vstd::string::*;
use crate::text::{find, find_char, lemma_find_char, str_eq};

verus! {

/// The gallery categories the site distinguishes.
#[derive(Clone, Copy, Debug, PartialEq, Eq, Structural)]
pub enum EhArticleKind {
    Doujinshi,
    Manga,
    ArtistCG,
    GameCG,
    Western,
    NonH,
    ImageSet,
    Cosplay,
    AsianPorn,
    Misc,
}

/// A tag string did not have the `category:value` shape, or named an
/// unknown category.
#[derive(Debug)]
pub struct ParseTagError();

/// Position of a tag category among the lists of [`EhTags`], or `-1` for an
/// unknown category.
pub open spec fn cat_index(cat: Seq<char>) -> int {
    if cat == "language"@ {
        0
    } else if cat == "group"@ {
        1
    } else if cat == "parody"@ {
        2
    } else if cat == "character"@ {
        3
    } else if cat == "artist"@ {
        4
    } else if cat == "male"@ {
        5
    } else if cat == "female"@ {
        6
    } else if cat == "misc"@ {
        7
    } else {
        -1
    }
}

/// The tags of one article, one list per category, in the order the page
/// gave them.
pub struct EhTags {
    pub language: Vec<String>,
    pub group: Vec<String>,
    pub parody: Vec<String>,
    pub character: Vec<String>,
    pub artist: Vec<String>,
    pub male: Vec<String>,
    pub female: Vec<String>,
    pub misc: Vec<String>,
}

impl EhTags {
    /// All eight lists, in the order of [`cat_index`].
    pub open spec fn views(self) -> Seq<Seq<Seq<char>>> {
        seq![
            self.language.deep_view(),
            self.group.deep_view(),
            self.parody.deep_view(),
            self.character.deep_view(),
            self.artist.deep_view(),
            self.male.deep_view(),
            self.female.deep_view(),
            self.misc.deep_view(),
        ]
    }

    pub fn new() -> (tags: EhTags)
        ensures
            forall|c: int| 0 <= c < 8 ==> #[trigger] tags.views()[c] == Seq::<Seq<char>>::empty(),
    {
        let tags = EhTags {
            language: Vec::new(),
            group: Vec::new(),
            parody: Vec::new(),
            character: Vec::new(),
            artist: Vec::new(),
            male: Vec::new(),
            female: Vec::new(),
            misc: Vec::new(),
        };
        assert(forall|c: int|
            0 <= c < 8 ==> #[trigger] tags.views()[c] =~= Seq::<Seq<char>>::empty());
        tags
    }

    pub fn language(&self) -> (r: &Vec<String>)
        ensures
            r.deep_view() == self.views()[0],
    {
        &self.language
    }

    pub fn group(&self) -> (r: &Vec<String>)
        ensures
            r.deep_view() == self.views()[1],
    {
        &self.group
    }

    pub fn parody(&self) -> (r: &Vec<String>)
        ensures
            r.deep_view() == self.views()[2],
    {
        &self.parody
    }

    pub fn artist(&self) -> (r: &Vec<String>)
        ensures
            r.deep_view() == self.views()[4],
    {
        &self.artist
    }

    pub fn male(&self) -> (r: &Vec<String>)
        ensures
            r.deep_view() == self.views()[5],
    {
        &self.male
    }

    pub fn female(&self) -> (r: &Vec<String>)
        ensures
            r.deep_view() == self.views()[6],
    {
        &self.female
    }

    pub fn misc(&self) -> (r: &Vec<String>)
        ensures
            r.deep_view() == self.views()[7],
    {
        &self.misc
    }

    /// Record one colon-separated tag such as `female:yuri`: the text before
    /// the first colon names the category, the rest is appended to that
    /// category's list. A tag without a colon, or with an unknown category,
    /// is rejected and leaves the lists unchanged.
    pub fn add(&mut self, tag: &str) -> (r: Result<(), ParseTagError>)
        ensures
            ({
                let colon = find_char(tag@, ':');
                let ci = cat_index(tag@.take(colon));
                let value = tag@.skip(colon + 1);
                &&& (r matches Ok(_)) <==> (colon < tag@.len() && ci >= 0)
                &&& r matches Ok(_) ==> final(self).views() == old(self).views().update(
                    ci,
                    old(self).views()[ci].push(value),
                )
                &&& r matches Err(_) ==> final(self).views() == old(self).views()
            }),
    {
        proof {
            lemma_find_char(tag@, ':');
        }
        let colon = find(tag, ':');
        if colon == tag.unicode_len() {
            return Err(ParseTagError());
        }
        let cat = tag.substring_char(0, colon);
        let value = tag.substring_char(colon + 1, tag.unicode_len());
        proof {
            assert(cat@ =~= tag@.take(find_char(tag@, ':')));
            assert(value@ =~= tag@.skip(find_char(tag@, ':') + 1));
        }
        let owned = value.to_owned();
        if str_eq(cat, "language") {
            self.language.push(owned);
        } else if str_eq(cat, "group") {
            self.group.push(owned);
        } else if str_eq(cat, "parody") {
            self.parody.push(owned);
        } else if str_eq(cat, "character") {
            self.character.push(owned);
        } else if str_eq(cat, "artist") {
            self.artist.push(owned);
        } else if str_eq(cat, "male") {
            self.male.push(owned);
        } else if str_eq(cat, "female") {
            self.female.push(owned);
        } else if str_eq(cat, "misc") {
            self.misc.push(owned);
        } else {
            return Err(ParseTagError());
        }
        proof {
            let colon = find_char(tag@, ':');
            let ci = cat_index(tag@.take(colon));
            assert(self.views() =~~= old(self).views().update(
                ci,
                old(self).views()[ci].push(tag@.skip(colon + 1)),
            ));
        }
        Ok(())
    }
}

/// What a search result row reveals about an article before it is loaded.
pub struct EhArticlePreloaded {
    /// Path to the article after the domain name.
    pub path: String,
    pub kind: EhArticleKind,
    pub title: String,
    pub uploader: String,
    pub pages: usize,
    pub brief_tags: EhTags,
}

/// A fully loaded article.
pub struct EhArticle {
    pub kind: EhArticleKind,
    pub title: String,
    pub original_title: String,
    pub uploader: String,
    pub tags: EhTags,
}

} // verus!
