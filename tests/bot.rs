use magpie_twitter_bot::bot::{
    compose_filename, photo_ref, Attachments, Bot, Error, ImageRef, Includes, Invariant, Media,
    MediaKind, Page, Progress, Timestamp, Tweet, TweetRef,
};
use magpie_twitter_bot::feed::{FeedWalker, FetchRequest};
use std::collections::HashSet;

const NANOS: i128 = 1_000_000_000;

fn at(seconds: i128) -> Timestamp {
    Timestamp { unix_nanos: seconds * NANOS, offset_seconds: 0 }
}

fn photo(key: &str, url: &str) -> Media {
    Media { media_key: key.to_string(), kind: MediaKind::Photo, url: Some(url.to_string()) }
}

fn tweet(id: u64, author: u64, keys: Option<Vec<&str>>) -> Tweet {
    Tweet {
        id,
        author_id: Some(author),
        created_at: Some(at(1_669_890_030)),
        attachments: keys.map(|k| Attachments {
            media_keys: Some(k.into_iter().map(|s| s.to_string()).collect()),
        }),
    }
}

fn page(tweets: Vec<Tweet>, media: Vec<Media>, next: Option<&str>) -> Page {
    Page {
        data: Some(tweets),
        includes: Some(Includes { media: Some(media) }),
        next_token: next.map(|s| s.to_string()),
    }
}

fn terminal_page() -> Page {
    Page { data: None, includes: None, next_token: None }
}

/// Processes a page, answering name lookups from `names`; counts lookups.
fn enrich(bot: &mut Bot, p: &Page, names: &[(u64, &str)], lookups: &mut Vec<u64>) -> Result<Vec<ImageRef>, Error> {
    loop {
        match bot.process_page(p)? {
            Progress::Done(refs) => return Ok(refs),
            Progress::NeedUsername(a) => {
                lookups.push(a);
                let name = names.iter().find(|(id, _)| *id == a).map(|(_, n)| n.to_string());
                bot.record_username(a, name)?;
            }
        }
    }
}

fn two_page_feed() -> (Page, Page) {
    let first = page(
        vec![
            tweet(1, 10, Some(vec!["m1"])),
            tweet(2, 11, None),
            tweet(3, 10, Some(vec!["m3"])),
        ],
        vec![
            photo("m1", "https://pbs.twimg.com/media/one.jpg"),
            photo("m3", "https://pbs.twimg.com/media/three.png"),
        ],
        Some("cursor-1"),
    );
    let second = page(
        vec![tweet(4, 12, Some(vec!["m4"]))],
        vec![photo("m4", "https://pbs.twimg.com/media/four.jpg")],
        None,
    );
    (first, second)
}

#[test]
fn two_page_feed_yields_three_images() {
    let (first, second) = two_page_feed();
    let mut bot = Bot::new();
    let names = [(10, "alice"), (11, "bob"), (12, "carol")];
    let mut lookups = Vec::new();
    let mut refs = enrich(&mut bot, &first, &names, &mut lookups).unwrap();
    refs.extend(enrich(&mut bot, &second, &names, &mut lookups).unwrap());
    assert_eq!(refs.len(), 3);
    assert_eq!(refs[0].internal_filename, "one.jpg");
    assert_eq!(refs[0].tweet.username, "alice");
    assert_eq!(refs[0].tweet.id, 1);
    assert_eq!(refs[0].url, "https://pbs.twimg.com/media/one.jpg");
    assert_eq!(refs[1].internal_filename, "three.png");
    assert_eq!(refs[1].tweet.id, 3);
    assert_eq!(refs[2].internal_filename, "four.jpg");
    assert_eq!(refs[2].tweet.username, "carol");
    assert_eq!(lookups, vec![10, 11, 12]);
}

#[test]
fn cached_author_is_looked_up_once() {
    let p = page(
        vec![tweet(1, 7, None), tweet(2, 7, None), tweet(3, 8, None), tweet(4, 7, None)],
        vec![],
        None,
    );
    let mut bot = Bot::new();
    let mut lookups = Vec::new();
    enrich(&mut bot, &p, &[(7, "x"), (8, "y")], &mut lookups).unwrap();
    enrich(&mut bot, &p, &[(7, "x"), (8, "y")], &mut lookups).unwrap();
    assert_eq!(lookups, vec![7, 8]);
}

#[test]
fn cached_name_keeps_its_first_value() {
    let mut bot = Bot::new();
    assert_eq!(bot.record_username(5, Some("first".to_string())).unwrap(), "first");
    assert_eq!(bot.record_username(5, Some("second".to_string())).unwrap(), "first");
}

#[test]
fn missing_username_is_an_invariant_error() {
    let mut bot = Bot::new();
    assert_eq!(
        bot.record_username(5, None),
        Err(Error::TwitterApiInvariant(Invariant::Username))
    );
}

#[test]
fn unresolved_media_key_is_skipped() {
    let p = page(
        vec![tweet(1, 1, Some(vec!["gone", "m2", "video"]))],
        vec![
            photo("m2", "https://pbs.twimg.com/media/two.jpg"),
            Media {
                media_key: "video".to_string(),
                kind: MediaKind::Video,
                url: Some("https://video.twimg.com/v.mp4".to_string()),
            },
        ],
        None,
    );
    let mut bot = Bot::new();
    let refs = enrich(&mut bot, &p, &[(1, "a")], &mut Vec::new()).unwrap();
    assert_eq!(refs.len(), 1);
    assert_eq!(refs[0].internal_filename, "two.jpg");
}

#[test]
fn last_side_table_entry_wins() {
    let p = page(
        vec![tweet(1, 1, Some(vec!["k"]))],
        vec![photo("k", "https://x.test/a/old.jpg"), photo("k", "https://x.test/b/new.jpg")],
        None,
    );
    let mut bot = Bot::new();
    let refs = enrich(&mut bot, &p, &[(1, "a")], &mut Vec::new()).unwrap();
    assert_eq!(refs[0].internal_filename, "new.jpg");
}

#[test]
fn terminal_page_without_cursor_is_empty() {
    let bot = Bot::new();
    match bot.process_page(&terminal_page()) {
        Ok(Progress::Done(refs)) => assert!(refs.is_empty()),
        _ => panic!("expected an empty result"),
    }
}

#[test]
fn missing_fields_are_invariant_errors() {
    let mut bot = Bot::new();
    bot.record_username(1, Some("a".to_string())).unwrap();
    let check = |p: Page, expected: Invariant| {
        assert_eq!(
            bot.process_page(&p).err(),
            Some(Error::TwitterApiInvariant(expected))
        );
    };
    check(
        Page { data: None, includes: None, next_token: Some("c".to_string()) },
        Invariant::TerminalPageCursor,
    );
    check(
        Page { data: Some(vec![]), includes: None, next_token: None },
        Invariant::Includes,
    );
    check(
        Page { data: Some(vec![]), includes: Some(Includes { media: None }), next_token: None },
        Invariant::IncludesMedia,
    );
    let mut no_author = tweet(1, 1, None);
    no_author.author_id = None;
    check(page(vec![no_author], vec![], None), Invariant::AuthorId);
    let mut no_time = tweet(1, 1, None);
    no_time.created_at = None;
    check(page(vec![no_time], vec![], None), Invariant::CreatedAt);
    let mut no_keys = tweet(1, 1, None);
    no_keys.attachments = Some(Attachments { media_keys: None });
    check(page(vec![no_keys], vec![], None), Invariant::MediaKeys);
    let no_url = Media { media_key: "k".to_string(), kind: MediaKind::Photo, url: None };
    check(page(vec![tweet(1, 1, Some(vec!["k"]))], vec![no_url], None), Invariant::MediaUrl);
    check(
        page(vec![tweet(1, 1, Some(vec!["k"]))], vec![photo("k", "mailto:someone@x.test")], None),
        Invariant::UrlPathSegments,
    );
}

#[test]
fn invariant_error_fails_the_whole_page() {
    let mut broken = tweet(2, 1, None);
    broken.created_at = None;
    let p = page(
        vec![tweet(1, 1, Some(vec!["k"])), broken],
        vec![photo("k", "https://x.test/a.jpg")],
        None,
    );
    let mut bot = Bot::new();
    bot.record_username(1, Some("a".to_string())).unwrap();
    assert_eq!(
        bot.process_page(&p).err(),
        Some(Error::TwitterApiInvariant(Invariant::CreatedAt))
    );
}

#[test]
fn photo_ref_takes_the_last_segment() {
    let t = TweetRef { created_at: at(0), username: "u".to_string(), id: 9 };
    let url = "https://x.test/a/b.jpg".to_string();
    let r = photo_ref(&t, &url, Some(vec!["a".to_string(), "b.jpg".to_string()])).unwrap();
    assert_eq!(r.internal_filename, "b.jpg");
    assert_eq!(r.url, url);
    assert_eq!(photo_ref(&t, &url, Some(vec![])).err(), Some(Invariant::UrlNoSegments));
    assert_eq!(photo_ref(&t, &url, None).err(), Some(Invariant::UrlPathSegments));
}

#[test]
fn invariant_descriptions() {
    assert_eq!(Invariant::AuthorId.description(), "author id in tweet");
    assert_eq!(Invariant::UrlPathSegments.description(), "media url has valid path segments");
}

#[test]
fn filename_joins_time_author_id_and_name() {
    let r = ImageRef {
        tweet: TweetRef { created_at: at(1_669_890_030), username: "alice".to_string(), id: 42 },
        internal_filename: "abc.jpg".to_string(),
        url: "https://x.test/abc.jpg".to_string(),
    };
    assert_eq!(
        r.filename().unwrap(),
        "2022-12-01T10:20:30.000000000Z alice 42 abc.jpg"
    );
    let shifted = ImageRef {
        tweet: TweetRef {
            created_at: Timestamp { unix_nanos: 879_350_106 * NANOS, offset_seconds: -21_600 },
            username: "b".to_string(),
            id: 1,
        },
        internal_filename: "x.png".to_string(),
        url: String::new(),
    };
    assert_eq!(shifted.filename().unwrap(), "1997-11-12T09:55:06.000000000-06:00 b 1 x.png");
}

#[test]
fn filename_without_iso_text_is_none() {
    let far = ImageRef {
        tweet: TweetRef { created_at: at(400_000_000_000), username: "a".to_string(), id: 1 },
        internal_filename: "x".to_string(),
        url: String::new(),
    };
    assert!(far.filename().is_none());
}

#[test]
fn compose_filename_is_exact() {
    assert_eq!(compose_filename("T", "user", 0, "f.jpg"), "T user 0 f.jpg");
}

#[test]
fn ten_thousand_distinct_items_get_distinct_names() {
    let mut seen = HashSet::new();
    let mut x: u64 = 0x2545_f491_4f6c_dd1d;
    let mut items = HashSet::new();
    while items.len() < 10_000 {
        x = x.wrapping_mul(6364136223846793005).wrapping_add(1442695040888963407);
        let seconds = 1_200_000_000 + (x >> 40) as i128 % 400_000_000;
        let user = format!("user_{}", (x >> 20) % 50);
        let id = x % 1_000_000;
        let name = format!("img{}.jpg", (x >> 8) % 7);
        if !items.insert((seconds, user.clone(), id, name.clone())) {
            continue;
        }
        let r = ImageRef {
            tweet: TweetRef { created_at: at(seconds), username: user, id },
            internal_filename: name,
            url: String::new(),
        };
        assert!(seen.insert(r.filename().unwrap()));
    }
    assert_eq!(seen.len(), 10_000);
}

#[test]
fn walker_follows_cursors_in_order() {
    let bot = Bot::new();
    let mut w: FeedWalker = bot.fetch_liked_tweets();
    assert!(matches!(w.next_request(), Some(FetchRequest::CurrentUser)));
    w.on_current_user(Some(77)).unwrap();
    assert!(matches!(w.next_request(), Some(FetchRequest::FirstPage(77))));
    let (first, _) = two_page_feed();
    w.on_page(first).unwrap();
    match w.next_request() {
        Some(FetchRequest::NextPage(u, c)) => {
            assert_eq!(u, 77);
            assert_eq!(c, "cursor-1");
        }
        _ => panic!("expected the next page"),
    }
    w.on_page(page(vec![tweet(9, 1, None)], vec![], Some("cursor-2"))).unwrap();
    match w.next_request() {
        Some(FetchRequest::NextPage(u, c)) => {
            assert_eq!(u, 77);
            assert_eq!(c, "cursor-2");
        }
        _ => panic!("expected the next page"),
    }
    w.on_page(terminal_page()).unwrap();
    assert!(w.is_finished());
    assert!(w.next_request().is_none());
    let pages = w.into_pages();
    assert_eq!(pages.len(), 3);
    assert_eq!(pages[0].data.as_ref().unwrap().len(), 3);
    assert!(pages[2].data.is_none());
}

#[test]
fn walker_fails_on_missing_user() {
    let mut w = FeedWalker::new();
    assert_eq!(
        w.on_current_user(None),
        Err(Error::TwitterApiInvariant(Invariant::LoggedInUser))
    );
    assert!(w.next_request().is_none());
}

#[test]
fn walker_fails_on_cursor_without_data() {
    let mut w = FeedWalker::new();
    w.on_current_user(Some(1)).unwrap();
    let bad = Page { data: None, includes: None, next_token: Some("c".to_string()) };
    assert_eq!(
        w.on_page(bad),
        Err(Error::TwitterApiInvariant(Invariant::TerminalPageCursor))
    );
    assert!(w.next_request().is_none());
    assert!(!w.is_finished());
    assert!(w.into_pages().is_empty());
}

#[test]
fn walker_stops_after_transport_error() {
    let mut w = FeedWalker::new();
    w.on_current_user(Some(1)).unwrap();
    w.on_error();
    assert!(w.next_request().is_none());
    assert!(w.on_page(terminal_page()).is_ok());
    assert!(w.into_pages().is_empty());
}
