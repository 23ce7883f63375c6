use std::collections::HashMap;
use vstd::prelude::*;
use crate::oauth2_callback::opt_view;
use crate::feed::{FeedWalker, WalkView};
use crate::text::{decimal, decimal_string, lemma_decimal_injective, lemma_decimal_no_space};

verus! {

broadcast use vstd::std_specs::hash::group_hash_axioms;

/// The instant an item was created: nanoseconds since the unix epoch, and
/// the UTC offset (in seconds) it was reported at.
#[derive(Clone, Copy, Debug, PartialEq, Eq, Structural)]
pub struct Timestamp {
    pub unix_nanos: i128,
    pub offset_seconds: i32,
}

/// The ISO-8601 text of an instant at an offset, or `None` where it has none.
pub uninterp spec fn iso8601_of(unix_nanos: int, offset_seconds: int) -> Option<Seq<char>>;

/// Relies on `time::OffsetDateTime::format` with `Iso8601::DEFAULT`: the
/// instant, shifted to its offset, rendered as ISO-8601 text; the result
/// depends on the arguments alone.
#[verifier::external_body]
fn format_iso8601(unix_nanos: i128, offset_seconds: i32) -> (r: Option<String>)
    ensures
        opt_view(r) == iso8601_of(unix_nanos as int, offset_seconds as int),
{
    let offset = time::UtcOffset::from_whole_seconds(offset_seconds).ok()?;
    let at = time::OffsetDateTime::from_unix_timestamp_nanos(unix_nanos).ok()?;
    let at = at.checked_to_offset(offset)?;
    at.format(&time::format_description::well_known::Iso8601::DEFAULT).ok()
}

/// The item an image was attached to.
pub struct TweetRef {
    pub created_at: Timestamp,
    pub username: String,
    pub id: u64,
}

/// An image to download: the item it came with, the last path segment of
/// its URL, and the URL.
pub struct ImageRef {
    pub tweet: TweetRef,
    pub internal_filename: String,
    pub url: String,
}

pub ghost struct ImageRefView {
    pub created_at: Timestamp,
    pub username: Seq<char>,
    pub id: u64,
    pub internal_filename: Seq<char>,
    pub url: Seq<char>,
}

impl View for ImageRef {
    type V = ImageRefView;

    open spec fn view(&self) -> ImageRefView {
        ImageRefView {
            created_at: self.tweet.created_at,
            username: self.tweet.username@,
            id: self.tweet.id,
            internal_filename: self.internal_filename@,
            url: self.url@,
        }
    }
}

pub open spec fn refs_view(refs: Seq<ImageRef>) -> Seq<ImageRefView> {
    refs.map_values(|r: ImageRef| r@)
}

/// The on-disk name of an image: creation time, author, item id and internal
/// filename, separated by single spaces.
pub open spec fn filename_of(
    created_at: Seq<char>,
    username: Seq<char>,
    id: u64,
    internal_filename: Seq<char>,
) -> Seq<char> {
    created_at + " "@ + username + " "@ + decimal(id as nat) + " "@ + internal_filename
}

/// Joins the parts of an image's on-disk name.
pub fn compose_filename(created_at: &str, username: &str, id: u64, internal_filename: &str) -> (r:
    String)
    ensures
        r@ == filename_of(created_at@, username@, id, internal_filename@),
{
    let mut name = String::from_str(created_at);
    name.append(" ");
    name.append(username);
    name.append(" ");
    let digits = decimal_string(id);
    name.append(digits.as_str());
    name.append(" ");
    name.append(internal_filename);
    name
}

impl ImageRef {
    /// The on-disk name of the image, or `None` where its creation time has
    /// no ISO-8601 text.
    pub fn filename(&self) -> (r: Option<String>)
        ensures
            opt_view(r) == (match iso8601_of(
                self.tweet.created_at.unix_nanos as int,
                self.tweet.created_at.offset_seconds as int,
            ) {
                Some(t) => Some(
                    filename_of(t, self.tweet.username@, self.tweet.id, self.internal_filename@),
                ),
                None => None,
            }),
    {
        match format_iso8601(self.tweet.created_at.unix_nanos, self.tweet.created_at.offset_seconds) {
            Some(created_at) => Some(
                compose_filename(
                    created_at.as_str(),
                    self.tweet.username.as_str(),
                    self.tweet.id,
                    self.internal_filename.as_str(),
                ),
            ),
            None => None,
        }
    }
}

/// Author display names resolved during one walk of the feed. An entry,
/// once set, keeps its value.
pub struct UsernameCache {
    names: HashMap<u64, String>,
}

impl View for UsernameCache {
    type V = Map<u64, Seq<char>>;

    closed spec fn view(&self) -> Map<u64, Seq<char>> {
        self.names@.map_values(|s: String| s@)
    }
}

impl UsernameCache {
    pub fn new() -> (r: UsernameCache)
        ensures
            r@ == Map::<u64, Seq<char>>::empty(),
    {
        let r = UsernameCache { names: HashMap::new() };
        proof {
            assert(r@ =~= Map::<u64, Seq<char>>::empty());
        }
        r
    }

    /// The cached name of an author.
    pub fn get(&self, author_id: u64) -> (r: Option<String>)
        ensures
            opt_view(r) == (if self@.contains_key(author_id) {
                Some(self@[author_id])
            } else {
                None
            }),
    {
        match self.names.get(&author_id) {
            Some(name) => Some(name.clone()),
            None => None,
        }
    }

    /// Records an author's name unless one is cached already, and returns
    /// the name the cache now holds for that author.
    pub fn insert(&mut self, author_id: u64, username: String) -> (r: String)
        ensures
            old(self)@.contains_key(author_id) ==> final(self)@ == old(self)@,
            !old(self)@.contains_key(author_id) ==> final(self)@ == old(self)@.insert(
                author_id,
                username@,
            ),
            final(self)@.contains_key(author_id),
            r@ == final(self)@[author_id],
    {
        match self.names.get(&author_id) {
            Some(name) => name.clone(),
            None => {
                let value = username.clone();
                self.names.insert(author_id, username);
                proof {
                    assert(self@ =~= old(self)@.insert(author_id, value@));
                }
                value
            },
        }
    }
}

/// The path segments of a URL, or `None` where it has none.
pub uninterp spec fn url_path_segments_of(url: Seq<char>) -> Option<Seq<Seq<char>>>;

/// Relies on `url::Url::parse` and `Url::path_segments`: the URL's path
/// split at each `/`, or `None` where the URL does not parse or cannot be a
/// base.
#[verifier::external_body]
fn url_path_segments(url: &str) -> (r: Option<Vec<String>>)
    ensures
        match r {
            Some(v) => url_path_segments_of(url@) == Some(v@.map_values(|s: String| s@)),
            None => url_path_segments_of(url@) is None,
        },
{
    let parsed = url::Url::parse(url).ok()?;
    let segments = parsed.path_segments()?;
    Some(segments.map(|s| s.to_string()).collect())
}

/// A field the provider guarantees for the requests made, found missing.
#[derive(Clone, Copy, Debug, PartialEq, Eq, Structural)]
pub enum Invariant {
    LoggedInUser,
    Includes,
    IncludesMedia,
    AuthorId,
    Username,
    CreatedAt,
    MediaKeys,
    MediaUrl,
    UrlPathSegments,
    UrlNoSegments,
    TerminalPageCursor,
}

/// What the provider was expected to give.
pub open spec fn description_of(i: Invariant) -> Seq<char> {
    match i {
        Invariant::LoggedInUser => "logged in user to exist"@,
        Invariant::Includes => "includes in response"@,
        Invariant::IncludesMedia => "media in includes"@,
        Invariant::AuthorId => "author id in tweet"@,
        Invariant::Username => "username in response"@,
        Invariant::CreatedAt => "created_at in tweet"@,
        Invariant::MediaKeys => "media_keys in attachments"@,
        Invariant::MediaUrl => "url in media"@,
        Invariant::UrlPathSegments => "media url has valid path segments"@,
        Invariant::UrlNoSegments => "media url has no path segments"@,
        Invariant::TerminalPageCursor => "page without data to have no next cursor"@,
    }
}

impl Invariant {
    /// What was expected of the response.
    pub fn description(&self) -> (r: &'static str)
        ensures
            r@ == description_of(*self),
    {
        match self {
            Invariant::LoggedInUser => "logged in user to exist",
            Invariant::Includes => "includes in response",
            Invariant::IncludesMedia => "media in includes",
            Invariant::AuthorId => "author id in tweet",
            Invariant::Username => "username in response",
            Invariant::CreatedAt => "created_at in tweet",
            Invariant::MediaKeys => "media_keys in attachments",
            Invariant::MediaUrl => "url in media",
            Invariant::UrlPathSegments => "media url has valid path segments",
            Invariant::UrlNoSegments => "media url has no path segments",
            Invariant::TerminalPageCursor => "page without data to have no next cursor",
        }
    }
}

#[derive(Clone, Copy, Debug, PartialEq, Eq, Structural)]
pub enum Error {
    /// The API violated an expected invariant.
    TwitterApiInvariant(Invariant),
}

#[derive(Clone, Copy, Debug, PartialEq, Eq, Structural)]
pub enum MediaKind {
    AnimatedGif,
    Photo,
    Video,
}

/// An entry of a page's side table of attached media.
pub struct Media {
    pub media_key: String,
    pub kind: MediaKind,
    pub url: Option<String>,
}

pub struct Attachments {
    pub media_keys: Option<Vec<String>>,
}

/// A liked item.
pub struct Tweet {
    pub id: u64,
    pub author_id: Option<u64>,
    pub created_at: Option<Timestamp>,
    pub attachments: Option<Attachments>,
}

/// The side tables that come with a page.
pub struct Includes {
    pub media: Option<Vec<Media>>,
}

/// One page of the liked-items feed, with the cursor of the next page.
pub struct Page {
    pub data: Option<Vec<Tweet>>,
    pub includes: Option<Includes>,
    pub next_token: Option<String>,
}

/// The entry of the side table for a media key; where several share the
/// key, the last one.
pub open spec fn media_for_key(media: Seq<Media>, key: Seq<char>) -> Option<Media>
    decreases media.len(),
{
    if media.len() == 0 {
        None
    } else if media.last().media_key@ == key {
        Some(media.last())
    } else {
        media_for_key(media.drop_last(), key)
    }
}

/// The image reference, if any, that one attached media key yields: keys
/// without an entry and media other than photos yield none.
pub open spec fn key_refs(
    item: ImageRefView,
    key: Seq<char>,
    media: Seq<Media>,
) -> Result<Seq<ImageRefView>, Invariant> {
    match media_for_key(media, key) {
        None => Ok(Seq::empty()),
        Some(m) => if m.kind != MediaKind::Photo {
            Ok(Seq::empty())
        } else {
            match m.url {
                None => Err(Invariant::MediaUrl),
                Some(u) => match url_path_segments_of(u@) {
                    None => Err(Invariant::UrlPathSegments),
                    Some(segments) => if segments.len() == 0 {
                        Err(Invariant::UrlNoSegments)
                    } else {
                        Ok(
                            seq![ImageRefView { internal_filename: segments.last(), url: u@, ..item }],
                        )
                    },
                },
            }
        },
    }
}

/// The image references of an item's media keys, in order; the first
/// broken invariant fails them all.
pub open spec fn keys_refs(item: ImageRefView, keys: Seq<String>, media: Seq<Media>) -> Result<
    Seq<ImageRefView>,
    Invariant,
>
    decreases keys.len(),
{
    if keys.len() == 0 {
        Ok(Seq::empty())
    } else {
        match keys_refs(item, keys.drop_last(), media) {
            Err(e) => Err(e),
            Ok(refs) => match key_refs(item, keys.last()@, media) {
                Err(e) => Err(e),
                Ok(more) => Ok(refs + more),
            },
        }
    }
}

/// Why the processing of a page stopped short.
pub ghost enum Stop {
    NeedUsername(u64),
    Broken(Invariant),
}

/// The image references of one item, given the names cached so far.
pub open spec fn tweet_refs(tweet: Tweet, media: Seq<Media>, names: Map<u64, Seq<char>>) -> Result<
    Seq<ImageRefView>,
    Stop,
> {
    match tweet.author_id {
        None => Err(Stop::Broken(Invariant::AuthorId)),
        Some(author) => if !names.contains_key(author) {
            Err(Stop::NeedUsername(author))
        } else {
            match tweet.created_at {
                None => Err(Stop::Broken(Invariant::CreatedAt)),
                Some(created_at) => {
                    let item = ImageRefView {
                        created_at,
                        username: names[author],
                        id: tweet.id,
                        internal_filename: Seq::empty(),
                        url: Seq::empty(),
                    };
                    match tweet.attachments {
                        None => Ok(Seq::empty()),
                        Some(a) => match a.media_keys {
                            None => Err(Stop::Broken(Invariant::MediaKeys)),
                            Some(keys) => match keys_refs(item, keys@, media) {
                                Ok(refs) => Ok(refs),
                                Err(e) => Err(Stop::Broken(e)),
                            },
                        },
                    }
                },
            }
        },
    }
}

/// The image references of a run of items, in order.
pub open spec fn tweets_refs(
    tweets: Seq<Tweet>,
    media: Seq<Media>,
    names: Map<u64, Seq<char>>,
) -> Result<Seq<ImageRefView>, Stop>
    decreases tweets.len(),
{
    if tweets.len() == 0 {
        Ok(Seq::empty())
    } else {
        match tweets_refs(tweets.drop_last(), media, names) {
            Err(e) => Err(e),
            Ok(refs) => match tweet_refs(tweets.last(), media, names) {
                Err(e) => Err(e),
                Ok(more) => Ok(refs + more),
            },
        }
    }
}

/// How far the processing of a page got.
pub enum Progress {
    /// An author's name is needed that is not cached yet.
    NeedUsername(u64),
    /// All image references of the page.
    Done(Vec<ImageRef>),
}

pub ghost enum ProgressView {
    NeedUsername(u64),
    Done(Seq<ImageRefView>),
}

impl View for Progress {
    type V = ProgressView;

    open spec fn view(&self) -> ProgressView {
        match self {
            Progress::NeedUsername(a) => ProgressView::NeedUsername(*a),
            Progress::Done(refs) => ProgressView::Done(refs_view(refs@)),
        }
    }
}

/// What processing a page yields, given the names cached so far.
pub open spec fn page_progress(page: Page, names: Map<u64, Seq<char>>) -> Result<
    ProgressView,
    Invariant,
> {
    match page.data {
        None => if page.next_token is Some {
            Err(Invariant::TerminalPageCursor)
        } else {
            Ok(ProgressView::Done(Seq::empty()))
        },
        Some(tweets) => match page.includes {
            None => Err(Invariant::Includes),
            Some(includes) => match includes.media {
                None => Err(Invariant::IncludesMedia),
                Some(media) => match tweets_refs(tweets@, media@, names) {
                    Ok(refs) => Ok(ProgressView::Done(refs)),
                    Err(Stop::NeedUsername(a)) => Ok(ProgressView::NeedUsername(a)),
                    Err(Stop::Broken(i)) => Err(i),
                },
            },
        },
    }
}

/// The index of the side-table entry for a media key.
fn find_media(media: &Vec<Media>, key: &String) -> (r: Option<usize>)
    ensures
        match r {
            Some(j) => j < media@.len() && media_for_key(media@, key@) == Some(media@[j as int]),
            None => media_for_key(media@, key@) is None,
        },
{
    let mut j: usize = media.len();
    proof {
        assert(media@.subrange(0, j as int) =~= media@);
    }
    while j > 0
        invariant
            j <= media@.len(),
            media_for_key(media@, key@) == media_for_key(media@.subrange(0, j as int), key@),
        decreases j,
    {
        proof {
            assert(media@.subrange(0, j as int).drop_last() =~= media@.subrange(0, j - 1));
        }
        if media[j - 1].media_key == *key {
            return Some(j - 1);
        }
        j = j - 1;
    }
    None
}

/// The image reference for a photo's URL, given the URL's path segments.
pub fn photo_ref(
    tweet: &TweetRef,
    url: &String,
    segments: Option<Vec<String>>,
) -> (r: Result<ImageRef, Invariant>)
    ensures
        match segments {
            None => r == Err::<ImageRef, Invariant>(Invariant::UrlPathSegments),
            Some(v) => if v@.len() == 0 {
                r == Err::<ImageRef, Invariant>(Invariant::UrlNoSegments)
            } else {
                r matches Ok(x) && x@ == ImageRefView {
                    created_at: tweet.created_at,
                    username: tweet.username@,
                    id: tweet.id,
                    internal_filename: v@.last()@,
                    url: url@,
                }
            },
        },
{
    match segments {
        None => Err(Invariant::UrlPathSegments),
        Some(v) => {
            if v.len() == 0 {
                Err(Invariant::UrlNoSegments)
            } else {
                Ok(
                    ImageRef {
                        tweet: TweetRef {
                            created_at: tweet.created_at,
                            username: tweet.username.clone(),
                            id: tweet.id,
                        },
                        internal_filename: v[v.len() - 1].clone(),
                        url: url.clone(),
                    },
                )
            }
        },
    }
}

pub open spec fn item_of(tweet: TweetRef) -> ImageRefView {
    ImageRefView {
        created_at: tweet.created_at,
        username: tweet.username@,
        id: tweet.id,
        internal_filename: Seq::empty(),
        url: Seq::empty(),
    }
}

/// An error met on a prefix of the keys is the error of all of them.
proof fn lemma_keys_refs_prefix_err(item: ImageRefView, keys: Seq<String>, media: Seq<Media>, n: int)
    requires
        0 <= n <= keys.len(),
        keys_refs(item, keys.subrange(0, n), media) is Err,
    ensures
        keys_refs(item, keys, media) == keys_refs(item, keys.subrange(0, n), media),
    decreases keys.len() - n,
{
    if n < keys.len() {
        assert(keys.subrange(0, n + 1).drop_last() =~= keys.subrange(0, n));
        lemma_keys_refs_prefix_err(item, keys, media, n + 1);
    } else {
        assert(keys.subrange(0, n) =~= keys);
    }
}

/// Appends the image references of an item's media keys.
fn push_key_refs(
    tweet: &TweetRef,
    keys: &Vec<String>,
    media: &Vec<Media>,
    refs: &mut Vec<ImageRef>,
) -> (r: Result<(), Invariant>)
    ensures
        match keys_refs(item_of(*tweet), keys@, media@) {
            Ok(more) => r is Ok && refs_view(final(refs)@) == refs_view(old(refs)@) + more,
            Err(e) => r == Err::<(), Invariant>(e),
        },
{
    let ghost item = item_of(*tweet);
    let ghost start = refs_view(refs@);
    let ghost mut acc: Seq<ImageRefView> = Seq::empty();
    proof {
        assert(keys@.subrange(0, 0) =~= Seq::<String>::empty());
        assert(start + acc =~= start);
    }
    let mut k: usize = 0;
    while k < keys.len()
        invariant
            k <= keys@.len(),
            keys_refs(item, keys@.subrange(0, k as int), media@) == Ok::<
                Seq<ImageRefView>,
                Invariant,
            >(acc),
            refs_view(refs@) == start + acc,
            start == refs_view(old(refs)@),
            item == item_of(*tweet),
        decreases keys.len() - k,
    {
        let ghost acc_before = acc;
        proof {
            assert(keys@.subrange(0, k + 1).drop_last() =~= keys@.subrange(0, k as int));
            assert(keys@.subrange(0, k + 1).last() == keys@[k as int]);
        }
        match find_media(media, &keys[k]) {
            None => {},
            Some(j) => {
                let m = &media[j];
                if m.kind == MediaKind::Photo {
                    match &m.url {
                        None => {
                            proof {
                                assert(key_refs(item, keys@[k as int]@, media@) == Err::<
                                    Seq<ImageRefView>,
                                    Invariant,
                                >(Invariant::MediaUrl));
                                lemma_keys_refs_prefix_err(item, keys@, media@, k + 1);
                            }
                            return Err(Invariant::MediaUrl);
                        },
                        Some(u) => {
                            let segments = url_path_segments(u.as_str());
                            match photo_ref(tweet, u, segments) {
                                Err(e) => {
                                    proof {
                                        lemma_keys_refs_prefix_err(item, keys@, media@, k + 1);
                                    }
                                    return Err(e);
                                },
                                Ok(x) => {
                                    let ghost before = refs@;
                                    refs.push(x);
                                    proof {
                                        assert(refs_view(refs@) =~= refs_view(before).push(x@));
                                        acc = acc + seq![x@];
                                        assert(refs_view(refs@) =~= start + acc);
                                    }
                                },
                            }
                        },
                    }
                }
            },
        }
        proof {
            let more = key_refs(item, keys@[k as int]@, media@)->Ok_0;
            assert(key_refs(item, keys@[k as int]@, media@) is Ok);
            assert(acc =~= acc_before + more);
        }
        k = k + 1;
    }
    proof {
        assert(keys@.subrange(0, keys@.len() as int) =~= keys@);
    }
    Ok(())
}

/// A stop met on a prefix of the items is the stop of all of them.
proof fn lemma_tweets_refs_prefix_err(
    tweets: Seq<Tweet>,
    media: Seq<Media>,
    names: Map<u64, Seq<char>>,
    n: int,
)
    requires
        0 <= n <= tweets.len(),
        tweets_refs(tweets.subrange(0, n), media, names) is Err,
    ensures
        tweets_refs(tweets, media, names) == tweets_refs(tweets.subrange(0, n), media, names),
    decreases tweets.len() - n,
{
    if n < tweets.len() {
        assert(tweets.subrange(0, n + 1).drop_last() =~= tweets.subrange(0, n));
        lemma_tweets_refs_prefix_err(tweets, media, names, n + 1);
    } else {
        assert(tweets.subrange(0, n) =~= tweets);
    }
}

/// Appends the image references of one item; `Ok(Some(author))` where the
/// author's name is not cached yet.
fn push_tweet_refs(
    tweet: &Tweet,
    media: &Vec<Media>,
    cache: &UsernameCache,
    refs: &mut Vec<ImageRef>,
) -> (r: Result<Option<u64>, Invariant>)
    ensures
        match tweet_refs(*tweet, media@, cache@) {
            Ok(more) => r == Ok::<Option<u64>, Invariant>(None) && refs_view(final(refs)@)
                == refs_view(old(refs)@) + more,
            Err(Stop::NeedUsername(a)) => r == Ok::<Option<u64>, Invariant>(Some(a)),
            Err(Stop::Broken(e)) => r == Err::<Option<u64>, Invariant>(e),
        },
{
    let author = match tweet.author_id {
        None => {
            return Err(Invariant::AuthorId);
        },
        Some(a) => a,
    };
    let username = match cache.get(author) {
        None => {
            return Ok(Some(author));
        },
        Some(name) => name,
    };
    let created_at = match tweet.created_at {
        None => {
            return Err(Invariant::CreatedAt);
        },
        Some(c) => c,
    };
    let tweet_ref = TweetRef { created_at, username, id: tweet.id };
    match &tweet.attachments {
        None => {
            proof {
                assert(refs_view(refs@) + Seq::<ImageRefView>::empty() =~= refs_view(refs@));
            }
            Ok(None)
        },
        Some(a) => match &a.media_keys {
            None => Err(Invariant::MediaKeys),
            Some(keys) => match push_key_refs(&tweet_ref, keys, media, refs) {
                Ok(()) => Ok(None),
                Err(e) => Err(e),
            },
        },
    }
}

/// The image references of a page whose side table is at hand.
fn page_refs(
    tweets: &Vec<Tweet>,
    media: &Vec<Media>,
    cache: &UsernameCache,
) -> (r: Result<Progress, Invariant>)
    ensures
        match tweets_refs(tweets@, media@, cache@) {
            Ok(refs) => r matches Ok(p) && p@ == ProgressView::Done(refs),
            Err(Stop::NeedUsername(a)) => r matches Ok(p) && p@ == ProgressView::NeedUsername(a),
            Err(Stop::Broken(e)) => r == Err::<Progress, Invariant>(e),
        },
{
    let mut refs: Vec<ImageRef> = Vec::new();
    let mut i: usize = 0;
    proof {
        assert(tweets@.subrange(0, 0) =~= Seq::<Tweet>::empty());
        assert(refs_view(refs@) =~= Seq::<ImageRefView>::empty());
    }
    while i < tweets.len()
        invariant
            i <= tweets@.len(),
            tweets_refs(tweets@.subrange(0, i as int), media@, cache@) == Ok::<
                Seq<ImageRefView>,
                Stop,
            >(refs_view(refs@)),
        decreases tweets.len() - i,
    {
        proof {
            assert(tweets@.subrange(0, i + 1).drop_last() =~= tweets@.subrange(0, i as int));
            assert(tweets@.subrange(0, i + 1).last() == tweets@[i as int]);
        }
        match push_tweet_refs(&tweets[i], media, cache, &mut refs) {
            Ok(None) => {},
            Ok(Some(author)) => {
                proof {
                    lemma_tweets_refs_prefix_err(tweets@, media@, cache@, i + 1);
                }
                return Ok(Progress::NeedUsername(author));
            },
            Err(e) => {
                proof {
                    lemma_tweets_refs_prefix_err(tweets@, media@, cache@, i + 1);
                }
                return Err(e);
            },
        }
        i = i + 1;
    }
    proof {
        assert(tweets@.subrange(0, tweets@.len() as int) =~= tweets@);
    }
    Ok(Progress::Done(refs))
}

/// Resolves liked items into image references, keeping the names of the
/// authors met during one walk of the feed.
pub struct Bot {
    username_cache: UsernameCache,
}

impl Bot {
    pub fn new() -> (r: Bot)
        ensures
            r.usernames() == Map::<u64, Seq<char>>::empty(),
    {
        Bot { username_cache: UsernameCache::new() }
    }

    /// The author names cached so far.
    pub closed spec fn usernames(&self) -> Map<u64, Seq<char>> {
        self.username_cache@
    }

    /// The image references of a page, or the first author whose name has
    /// to be looked up before the page can be processed. A missing field
    /// that the provider guarantees fails the whole page.
    pub fn process_page(&self, page: &Page) -> (r: Result<Progress, Error>)
        ensures
            match page_progress(*page, self.usernames()) {
                Ok(p) => r matches Ok(x) && x@ == p,
                Err(i) => r == Err::<Progress, Error>(Error::TwitterApiInvariant(i)),
            },
    {
        match &page.data {
            None => {
                if page.next_token.is_some() {
                    Err(Error::TwitterApiInvariant(Invariant::TerminalPageCursor))
                } else {
                    let refs: Vec<ImageRef> = Vec::new();
                    proof {
                        assert(refs_view(refs@) =~= Seq::<ImageRefView>::empty());
                    }
                    Ok(Progress::Done(refs))
                }
            },
            Some(tweets) => match &page.includes {
                None => Err(Error::TwitterApiInvariant(Invariant::Includes)),
                Some(includes) => match &includes.media {
                    None => Err(Error::TwitterApiInvariant(Invariant::IncludesMedia)),
                    Some(media) => match page_refs(tweets, media, &self.username_cache) {
                        Ok(p) => Ok(p),
                        Err(i) => Err(Error::TwitterApiInvariant(i)),
                    },
                },
            },
        }
    }

    /// A fresh walk of the liked-items feed; every walk asks the provider
    /// anew.
    pub fn fetch_liked_tweets(&self) -> (r: FeedWalker)
        ensures
            r.wf(),
            r.state() == WalkView::Start,
            r.pages().len() == 0,
    {
        FeedWalker::new()
    }

    /// Records the answer to a lookup of an author's name: a missing answer
    /// is a broken invariant; otherwise the name is cached, unless one is
    /// already, and the cached name is returned.
    pub fn record_username(&mut self, author_id: u64, username: Option<String>) -> (r: Result<
        String,
        Error,
    >)
        ensures
            match username {
                None => r == Err::<String, Error>(Error::TwitterApiInvariant(Invariant::Username))
                    && final(self).usernames() == old(self).usernames(),
                Some(name) => {
                    &&& final(self).usernames() == (if old(self).usernames().contains_key(
                        author_id,
                    ) {
                        old(self).usernames()
                    } else {
                        old(self).usernames().insert(author_id, name@)
                    })
                    &&& r matches Ok(cached) && cached@ == final(self).usernames()[author_id]
                },
            },
    {
        match username {
            None => Err(Error::TwitterApiInvariant(Invariant::Username)),
            Some(name) => Ok(self.username_cache.insert(author_id, name)),
        }
    }
}

/// Processing items asks to look up only authors whose names are not cached.
proof fn lemma_tweets_need_uncached(tweets: Seq<Tweet>, media: Seq<Media>, names: Map<u64, Seq<char>>)
    ensures
        tweets_refs(tweets, media, names) matches Err(Stop::NeedUsername(a)) ==> !names.contains_key(
            a,
        ),
    decreases tweets.len(),
{
    if tweets.len() > 0 {
        lemma_tweets_need_uncached(tweets.drop_last(), media, names);
    }
}

/// Once an author's name is cached, processing a page never asks to look that
/// author up again: within a walk each author costs at most one lookup.
pub proof fn lemma_cached_author_not_looked_up(page: Page, names: Map<u64, Seq<char>>, author: u64)
    requires
        names.contains_key(author),
    ensures
        page_progress(page, names) != Ok::<ProgressView, Invariant>(
            ProgressView::NeedUsername(author),
        ),
{
    if let Some(tweets) = page.data {
        if let Some(includes) = page.includes {
            if let Some(media) = includes.media {
                lemma_tweets_need_uncached(tweets@, media@, names);
            }
        }
    }
}

/// Where neither part holds a space, a text joined from two parts at a space
/// gives the parts back.
proof fn lemma_split_at_space(x1: Seq<char>, r1: Seq<char>, x2: Seq<char>, r2: Seq<char>)
    requires
        !x1.contains(' '),
        !x2.contains(' '),
        x1 + " "@ + r1 == x2 + " "@ + r2,
    ensures
        x1 == x2,
        r1 == r2,
{
    reveal_strlit(" ");
    let s = x1 + " "@ + r1;
    if x1.len() < x2.len() {
        assert(s[x1.len() as int] == ' ');
        assert(x2[x1.len() as int] == ' ');
        assert(false);
    } else if x2.len() < x1.len() {
        assert(s[x2.len() as int] == ' ');
        assert(x1[x2.len() as int] == ' ');
        assert(false);
    }
    assert(x1 =~= s.subrange(0, x1.len() as int));
    assert(x2 =~= s.subrange(0, x1.len() as int));
    assert(r1 =~= s.subrange(x1.len() as int + 1, s.len() as int));
    assert(r2 =~= s.subrange(x1.len() as int + 1, s.len() as int));
}

/// Distinct images get distinct on-disk names: the name determines its
/// creation time text, author, item id and internal filename, where the
/// creation time text and the author hold no space.
pub proof fn lemma_filename_injective(
    created_at1: Seq<char>,
    username1: Seq<char>,
    id1: u64,
    internal1: Seq<char>,
    created_at2: Seq<char>,
    username2: Seq<char>,
    id2: u64,
    internal2: Seq<char>,
)
    requires
        !created_at1.contains(' '),
        !created_at2.contains(' '),
        !username1.contains(' '),
        !username2.contains(' '),
        filename_of(created_at1, username1, id1, internal1) == filename_of(
            created_at2,
            username2,
            id2,
            internal2,
        ),
    ensures
        created_at1 == created_at2,
        username1 == username2,
        id1 == id2,
        internal1 == internal2,
{
    let sp = " "@;
    let d1 = decimal(id1 as nat);
    let d2 = decimal(id2 as nat);
    lemma_decimal_no_space(id1 as nat);
    lemma_decimal_no_space(id2 as nat);
    let tail1 = username1 + sp + (d1 + sp + internal1);
    let tail2 = username2 + sp + (d2 + sp + internal2);
    assert(filename_of(created_at1, username1, id1, internal1) =~= created_at1 + sp + tail1);
    assert(filename_of(created_at2, username2, id2, internal2) =~= created_at2 + sp + tail2);
    lemma_split_at_space(created_at1, tail1, created_at2, tail2);
    lemma_split_at_space(username1, d1 + sp + internal1, username2, d2 + sp + internal2);
    lemma_split_at_space(d1, internal1, d2, internal2);
    lemma_decimal_injective(id1 as nat, id2 as nat);
}

} // verus!
