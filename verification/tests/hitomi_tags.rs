use detour::hitomi::tag::{ArticleKind, Tag, TagKind, TagMap};

#[test]
fn article_kind_parses_display_names() {
    assert!(matches!(
        ArticleKind::from_str("Doujinshi"),
        Ok(ArticleKind::Doujinshi)
    ));
    assert!(matches!(ArticleKind::from_str("Manga"), Ok(ArticleKind::Manga)));
    assert!(matches!(
        ArticleKind::from_str("Artist CG"),
        Ok(ArticleKind::ArtistCG)
    ));
    assert!(matches!(ArticleKind::from_str("Game CG"), Ok(ArticleKind::GameCG)));
    assert!(ArticleKind::from_str("Western").is_err());
    assert_eq!(ArticleKind::ArtistCG.name(), "Artist CG");
}

#[test]
fn hitomi_kind_parses_names_and_aliases() {
    assert!(matches!(TagKind::from_str("male"), Ok(TagKind::Male)));
    assert!(matches!(TagKind::from_str("m"), Ok(TagKind::Male)));
    assert!(matches!(TagKind::from_str("female"), Ok(TagKind::Female)));
    assert!(matches!(TagKind::from_str("f"), Ok(TagKind::Female)));
    assert!(matches!(TagKind::from_str("misc"), Ok(TagKind::Misc)));
    assert!(matches!(TagKind::from_str(""), Ok(TagKind::Misc)));
    assert!(TagKind::from_str("language").is_err());
}

#[test]
fn misc_kind_prints_as_nothing() {
    assert_eq!(TagKind::Male.name(), "male");
    assert_eq!(TagKind::Male.short_name(), "m");
    assert_eq!(TagKind::Misc.name(), "");
    assert_eq!(TagKind::Misc.short_name(), "");
}

#[test]
fn bare_tag_falls_under_misc() {
    let t = Tag::from_str("full color").unwrap();
    assert!(matches!(t.0, TagKind::Misc));
    assert_eq!(t.1, "full color");
    let t = Tag::from_str("female:glasses").unwrap();
    assert!(matches!(t.0, TagKind::Female));
    assert_eq!(t.1, "glasses");
    assert!(Tag::from_str("bogus:value").is_err());
}

#[test]
fn hitomi_tag_text_round_trips() {
    assert_eq!(Tag::from_str("male:muscle").unwrap().text(), "male:muscle");
    assert_eq!(Tag::from_str("full color").unwrap().text(), "full color");
}

#[test]
fn hitomi_map_stores_by_namespace() {
    let mut map = TagMap::new();
    map.add(Tag(TagKind::Misc, String::from("full color")));
    map.add(Tag(TagKind::Male, String::from("muscle")));
    assert_eq!(map.misc, vec!["full color"]);
    assert_eq!(map.male, vec!["muscle"]);
    assert!(map.female.is_empty());
    assert!(map.has(&Tag(TagKind::Misc, String::from("full color"))));
    assert!(!map.has(&Tag(TagKind::Female, String::from("muscle"))));
}

#[test]
fn hitomi_map_from_tags_keeps_order() {
    let tags = vec![
        Tag(TagKind::Misc, String::from("b")),
        Tag(TagKind::Misc, String::from("a")),
        Tag(TagKind::Female, String::from("x")),
    ];
    let map = TagMap::from_tags(&tags);
    assert_eq!(map.misc, vec!["b", "a"]);
    assert_eq!(map.female, vec!["x"]);
    assert!(map.male.is_empty());
}

#[test]
fn hitomi_default_map_is_empty() {
    let map = TagMap::default();
    assert!(map.male.is_empty());
    assert!(map.misc.is_empty());
}
