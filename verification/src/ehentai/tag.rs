//! The e-hentai tag taxonomy: tag namespaces, `namespace:value` tags, and a
//! per-namespace tag collection.

use vstd::prelude::*;
use vstd::string::*;
use crate::text::{find, find_char, lemma_find_char, str_eq};

verus! {

/// A tag with the wrong format or an unknown namespace was given.
#[derive(Debug)]
pub struct ParseTagError();

/// The tag namespaces the site distinguishes.
#[derive(Clone, Copy, Debug, PartialEq, Eq, Structural)]
pub enum TagKind {
    Reclass,
    Language,
    Group,
    Parody,
    Character,
    Artist,
    Male,
    Female,
    Misc,
}

/// Which namespace a name (or one of its documented aliases) denotes.
pub open spec fn parse_kind(s: Seq<char>) -> Option<TagKind> {
    if s == "reclass"@ || s == "r"@ {
        Some(TagKind::Reclass)
    } else if s == "language"@ || s == "lang"@ {
        Some(TagKind::Language)
    } else if s == "group"@ || s == "creator"@ || s == "circle"@ || s == "g"@ {
        Some(TagKind::Group)
    } else if s == "parody"@ || s == "series"@ || s == "p"@ {
        Some(TagKind::Parody)
    } else if s == "character"@ || s == "char"@ || s == "c"@ {
        Some(TagKind::Character)
    } else if s == "artist"@ || s == "a"@ {
        Some(TagKind::Artist)
    } else if s == "male"@ || s == "m"@ {
        Some(TagKind::Male)
    } else if s == "female"@ || s == "f"@ {
        Some(TagKind::Female)
    } else if s == "misc"@ || s == ""@ {
        Some(TagKind::Misc)
    } else {
        None
    }
}

/// The full name of a namespace.
pub open spec fn kind_name(k: TagKind) -> Seq<char> {
    match k {
        TagKind::Reclass => "reclass"@,
        TagKind::Language => "language"@,
        TagKind::Group => "group"@,
        TagKind::Parody => "parody"@,
        TagKind::Character => "character"@,
        TagKind::Artist => "artist"@,
        TagKind::Male => "male"@,
        TagKind::Female => "female"@,
        TagKind::Misc => "misc"@,
    }
}

/// The short name of a namespace, as used in compact search queries.
pub open spec fn kind_short_name(k: TagKind) -> Seq<char> {
    match k {
        TagKind::Reclass => "r"@,
        TagKind::Language => "lang"@,
        TagKind::Group => "g"@,
        TagKind::Parody => "p"@,
        TagKind::Character => "c"@,
        TagKind::Artist => "a"@,
        TagKind::Male => "m"@,
        TagKind::Female => "f"@,
        TagKind::Misc => "misc"@,
    }
}

impl TagKind {
    /// Parse a namespace name or alias.
    pub fn from_str(s: &str) -> (r: Result<TagKind, ParseTagError>)
        ensures
            (r matches Ok(_)) <==> (parse_kind(s@) matches Some(_)),
            r matches Ok(k) ==> parse_kind(s@) == Some(k),
    {
        if str_eq(s, "reclass") || str_eq(s, "r") {
            Ok(TagKind::Reclass)
        } else if str_eq(s, "language") || str_eq(s, "lang") {
            Ok(TagKind::Language)
        } else if str_eq(s, "group") || str_eq(s, "creator") || str_eq(s, "circle") || str_eq(
            s,
            "g",
        ) {
            Ok(TagKind::Group)
        } else if str_eq(s, "parody") || str_eq(s, "series") || str_eq(s, "p") {
            Ok(TagKind::Parody)
        } else if str_eq(s, "character") || str_eq(s, "char") || str_eq(s, "c") {
            Ok(TagKind::Character)
        } else if str_eq(s, "artist") || str_eq(s, "a") {
            Ok(TagKind::Artist)
        } else if str_eq(s, "male") || str_eq(s, "m") {
            Ok(TagKind::Male)
        } else if str_eq(s, "female") || str_eq(s, "f") {
            Ok(TagKind::Female)
        } else if str_eq(s, "misc") || str_eq(s, "") {
            Ok(TagKind::Misc)
        } else {
            Err(ParseTagError())
        }
    }

    /// The full namespace name.
    pub fn name(&self) -> (r: &str)
        ensures
            r@ == kind_name(*self),
    {
        match self {
            TagKind::Reclass => "reclass",
            TagKind::Language => "language",
            TagKind::Group => "group",
            TagKind::Parody => "parody",
            TagKind::Character => "character",
            TagKind::Artist => "artist",
            TagKind::Male => "male",
            TagKind::Female => "female",
            TagKind::Misc => "misc",
        }
    }

    /// The short namespace name.
    pub fn short_name(&self) -> (r: &str)
        ensures
            r@ == kind_short_name(*self),
    {
        match self {
            TagKind::Reclass => "r",
            TagKind::Language => "lang",
            TagKind::Group => "g",
            TagKind::Parody => "p",
            TagKind::Character => "c",
            TagKind::Artist => "a",
            TagKind::Male => "m",
            TagKind::Female => "f",
            TagKind::Misc => "misc",
        }
    }
}

/// A namespaced tag: `female:yuri` is `Tag(TagKind::Female, "yuri")`.
#[derive(Debug)]
pub struct Tag(pub TagKind, pub String);

/// What a `namespace:value` string parses to: the text before the first
/// colon names the namespace, the rest is the value. No colon, or an
/// unknown namespace, is a format error.
pub open spec fn parse_tag(s: Seq<char>) -> Option<(TagKind, Seq<char>)> {
    let colon = find_char(s, ':');
    if colon < s.len() {
        match parse_kind(s.take(colon)) {
            Some(k) => Some((k, s.skip(colon + 1))),
            None => None,
        }
    } else {
        None
    }
}

impl Tag {
    /// Parse a `namespace:value` string.
    pub fn from_str(s: &str) -> (r: Result<Tag, ParseTagError>)
        ensures
            (r matches Ok(_)) <==> (parse_tag(s@) matches Some(_)),
            r matches Ok(t) ==> parse_tag(s@) == Some((t.0, t.1@)),
    {
        proof {
            lemma_find_char(s@, ':');
        }
        let colon = find(s, ':');
        if colon == s.unicode_len() {
            return Err(ParseTagError());
        }
        let cat = s.substring_char(0, colon);
        proof {
            assert(cat@ =~= s@.take(find_char(s@, ':')));
        }
        match TagKind::from_str(cat) {
            Ok(k) => {
                let value = s.substring_char(colon + 1, s.unicode_len()).to_owned();
                proof {
                    assert(value@ =~= s@.skip(find_char(s@, ':') + 1));
                }
                Ok(Tag(k, value))
            },
            Err(e) => Err(e),
        }
    }

    /// The tag written back as `namespace:value`.
    pub fn text(&self) -> (r: String)
        ensures
            r@ == kind_name(self.0) + ":"@ + self.1@,
    {
        let mut r = self.0.name().to_owned();
        r.append(":");
        r.append(self.1.as_str());
        r
    }
}

/// The tag values attached to one article, one list per namespace, in the
/// order the page gave them.
#[derive(Debug)]
pub struct TagMap {
    pub language: Vec<String>,
    pub group: Vec<String>,
    pub parody: Vec<String>,
    pub character: Vec<String>,
    pub artist: Vec<String>,
    pub male: Vec<String>,
    pub female: Vec<String>,
    pub reclass: Vec<String>,
    pub misc: Vec<String>,
}

/// The values a tag list holds for one namespace after reading a sequence
/// of tags, in order.
pub open spec fn kind_tags(tags: Seq<Tag>, k: TagKind) -> Seq<Seq<char>>
    decreases tags.len(),
{
    if tags.len() == 0 {
        Seq::empty()
    } else if tags.last().0 == k {
        kind_tags(tags.drop_last(), k).push(tags.last().1@)
    } else {
        kind_tags(tags.drop_last(), k)
    }
}

proof fn lemma_kind_tags_take_succ(tags: Seq<Tag>, i: int, k: TagKind)
    requires
        0 <= i < tags.len(),
    ensures
        kind_tags(tags.take(i + 1), k) == if tags[i].0 == k {
            kind_tags(tags.take(i), k).push(tags[i].1@)
        } else {
            kind_tags(tags.take(i), k)
        },
{
    let t = tags.take(i + 1);
    assert(t.drop_last() =~= tags.take(i));
    assert(t.last() == tags[i]);
}

impl TagMap {
    /// The values stored under one namespace.
    pub open spec fn kind_list(self, k: TagKind) -> Seq<Seq<char>> {
        match k {
            TagKind::Reclass => self.reclass.deep_view(),
            TagKind::Language => self.language.deep_view(),
            TagKind::Group => self.group.deep_view(),
            TagKind::Parody => self.parody.deep_view(),
            TagKind::Character => self.character.deep_view(),
            TagKind::Artist => self.artist.deep_view(),
            TagKind::Male => self.male.deep_view(),
            TagKind::Female => self.female.deep_view(),
            TagKind::Misc => self.misc.deep_view(),
        }
    }

    pub fn new() -> (m: TagMap)
        ensures
            forall|k: TagKind| #[trigger] m.kind_list(k) == Seq::<Seq<char>>::empty(),
    {
        let m = TagMap {
            language: Vec::new(),
            group: Vec::new(),
            parody: Vec::new(),
            character: Vec::new(),
            artist: Vec::new(),
            male: Vec::new(),
            female: Vec::new(),
            reclass: Vec::new(),
            misc: Vec::new(),
        };
        assert forall|k: TagKind| #[trigger] m.kind_list(k) == Seq::<Seq<char>>::empty() by {
            assert(m.kind_list(k) =~= Seq::<Seq<char>>::empty());
        }
        m
    }

    /// Append a tag's value to its namespace's list.
    pub fn add(&mut self, tag: Tag)
        ensures
            final(self).kind_list(tag.0) == old(self).kind_list(tag.0).push(tag.1@),
            forall|k: TagKind| k != tag.0 ==> #[trigger] final(self).kind_list(k) == old(
                self,
            ).kind_list(k),
    {
        let Tag(kind, value) = tag;
        let ghost v = value@;
        match kind {
            TagKind::Reclass => self.reclass.push(value),
            TagKind::Language => self.language.push(value),
            TagKind::Group => self.group.push(value),
            TagKind::Parody => self.parody.push(value),
            TagKind::Character => self.character.push(value),
            TagKind::Artist => self.artist.push(value),
            TagKind::Male => self.male.push(value),
            TagKind::Female => self.female.push(value),
            TagKind::Misc => self.misc.push(value),
        }
        proof {
            assert(self.kind_list(kind) =~= old(self).kind_list(kind).push(v));
            assert forall|k: TagKind| k != kind implies #[trigger] self.kind_list(k) == old(
                self,
            ).kind_list(k) by {
                assert(self.kind_list(k) =~= old(self).kind_list(k));
            }
        }
    }

    /// Whether a tag's value is already stored under its namespace.
    #[verifier::loop_isolation(false)]
    pub fn has(&mut self, tag: &Tag) -> (r: bool)
        ensures
            *final(self) == *old(self),
            r == old(self).kind_list(tag.0).contains(tag.1@),
    {
        let list: &Vec<String> = match tag.0 {
            TagKind::Reclass => &self.reclass,
            TagKind::Language => &self.language,
            TagKind::Group => &self.group,
            TagKind::Parody => &self.parody,
            TagKind::Character => &self.character,
            TagKind::Artist => &self.artist,
            TagKind::Male => &self.male,
            TagKind::Female => &self.female,
            TagKind::Misc => &self.misc,
        };
        let n = list.len();
        let mut i: usize = 0;
        while i < n
            invariant
                i <= n,
                forall|j: int| 0 <= j < i ==> list.deep_view()[j] != tag.1@,
            decreases n - i,
        {
            if str_eq(list[i].as_str(), tag.1.as_str()) {
                assert(list.deep_view()[i as int] == tag.1@);
                return true;
            }
            i = i + 1;
        }
        assert(!list.deep_view().contains(tag.1@));
        false
    }

    /// Collect a whole list of tags into a fresh map, in order.
    #[verifier::loop_isolation(false)]
    pub fn from_tags(tags: &Vec<Tag>) -> (m: TagMap)
        ensures
            forall|k: TagKind| #[trigger] m.kind_list(k) == kind_tags(tags@, k),
    {
        let mut m = TagMap::new();
        let n = tags.len();
        let mut i: usize = 0;
        while i < n
            invariant
                i <= n,
                forall|k: TagKind| #[trigger] m.kind_list(k) == kind_tags(tags@.take(i as int), k),
            decreases n - i,
        {
            let t = &tags[i];
            let tag = Tag(t.0, t.1.clone());
            m.add(tag);
            proof {
                assert forall|k: TagKind| #[trigger] m.kind_list(k) == kind_tags(
                    tags@.take(i + 1),
                    k,
                ) by {
                    lemma_kind_tags_take_succ(tags@, i as int, k);
                }
            }
            i = i + 1;
        }
        assert(tags@.take(n as int) =~= tags@);
        m
    }
}

impl core::default::Default for TagMap {
    /// An empty map.
    fn default() -> (m: TagMap)
        ensures
            forall|k: TagKind| #[trigger] m.kind_list(k) == Seq::<Seq<char>>::empty(),
    {
        TagMap::new()
    }
}

} // verus!
