use detour::ehentai::article::{Comment, DraftMeta, Vote};
use detour::ehentai::tag::TagMap;
use detour::explorer::ehentai::{EhArticle, EhArticlePreloaded, EhArticleKind, EhTags};

fn voted_comment() -> Comment {
    Comment {
        posted: String::from("01 January 2020, 00:00"),
        edited: None,
        vote: Some(Vote {
            score: 42,
            voters: vec![
                (String::from("alice"), 40),
                (String::from("bob"), 2),
            ],
            omitted: 3,
        }),
        writer: String::from("carol"),
        content: String::from("nice"),
    }
}

fn uploader_comment() -> Comment {
    Comment {
        posted: String::from("02 January 2020, 00:00"),
        edited: Some(String::from("03 January 2020, 00:00")),
        vote: None,
        writer: String::from("uploader"),
        content: String::from("release notes"),
    }
}

#[test]
fn comment_score_comes_from_vote() {
    assert_eq!(voted_comment().score(), Some(42));
    assert_eq!(uploader_comment().score(), None);
}

#[test]
fn comment_voters_come_from_vote() {
    let c = voted_comment();
    let voters = c.voters().unwrap();
    assert_eq!(voters.len(), 2);
    assert_eq!(voters[0], (String::from("alice"), 40));
    assert_eq!(voters[1], (String::from("bob"), 2));
    assert!(uploader_comment().voters().is_none());
}

#[test]
fn comment_omitted_voter_comes_from_vote() {
    assert_eq!(voted_comment().omitted_voter(), Some(3));
    assert_eq!(uploader_comment().omitted_voter(), None);
}

#[test]
fn draft_meta_is_plain_data() {
    let meta = DraftMeta {
        kind: EhArticleKind::Doujinshi,
        thumb: String::from("https://example.invalid/t.jpg"),
        posted: String::from("2020-01-01"),
        path: String::from("/g/1556174/cfe385099d/"),
        title: String::from("title"),
        tags: TagMap::new(),
        uploader: String::from("someone"),
        length: 20,
    };
    assert_eq!(meta.path, "/g/1556174/cfe385099d/");
    assert_eq!(meta.length, 20);
    assert!(matches!(meta.kind, EhArticleKind::Doujinshi));
}

#[test]
fn eh_tags_add_sorts_by_category() {
    let mut tags = EhTags::new();
    tags.add("female:yuri").unwrap();
    tags.add("language:korean").unwrap();
    tags.add("female:glasses").unwrap();
    tags.add("artist:someone").unwrap();
    assert_eq!(tags.female(), &vec!["yuri", "glasses"]);
    assert_eq!(tags.language(), &vec!["korean"]);
    assert_eq!(tags.artist(), &vec!["someone"]);
    assert!(tags.male().is_empty());
    assert!(tags.group().is_empty());
    assert!(tags.parody().is_empty());
    assert!(tags.misc().is_empty());
}

#[test]
fn eh_tags_add_rejects_bad_tags() {
    let mut tags = EhTags::new();
    assert!(tags.add("no colon").is_err());
    assert!(tags.add("reclass:doujinshi").is_err());
    assert!(tags.female().is_empty());
}

#[test]
fn explorer_articles_are_plain_data() {
    let mut tags = EhTags::new();
    tags.add("language:korean").unwrap();
    let preloaded = EhArticlePreloaded {
        path: String::from("/g/1335995/ba04527f3d/"),
        kind: EhArticleKind::Manga,
        title: String::from("some title"),
        uploader: String::from("someone"),
        pages: 30,
        brief_tags: tags,
    };
    assert_eq!(preloaded.pages, 30);
    assert_eq!(preloaded.brief_tags.language(), &vec!["korean"]);
    let article = EhArticle {
        kind: EhArticleKind::Manga,
        title: String::from("some title"),
        original_title: String::from("the original title"),
        uploader: String::from("someone"),
        tags: EhTags::new(),
    };
    assert!(matches!(article.kind, EhArticleKind::Manga));
    assert!(article.tags.female().is_empty());
}
