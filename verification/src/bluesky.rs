//! Content model of the feed and the cursor-based pagination walker.
//!
//! Posts arrive already decoded into plain values: the caller turns raw API
//! records into [`Post`] values and feeds them, page by page, to [`FetchRun`],
//! which owns every decision of the fetch loop — filtering, limit accounting,
//! retry backoff and checkpoint advancement — while the caller only performs
//! the requests and sleeps it asks for.

use vstd::prelude::*;
use crate::backoff::{MAX_RETRIES, spec_backoff_wait_ms, next_wait_ms, should_give_up};
use crate::text::{contains_seq, contains_substring, str_eq};

verus! {

/// A moderation label attached to a post.
#[derive(Debug, Clone)]
pub struct Label {
    pub src: String,
    pub uri: String,
    pub val: String,
    pub created_at: String,
}

/// The author of a post.
#[derive(Debug, Clone)]
pub struct Author {
    pub did: String,
    pub handle: String,
    pub display_name: Option<String>,
}

/// Content-addressed reference to a binary blob.
#[derive(Debug, Clone)]
pub struct BlobRef {
    pub link: String,
}

/// Width and height declared for an image.
#[derive(Debug, Clone)]
pub struct AspectRatio {
    pub width: u32,
    pub height: u32,
}

/// The blob metadata of one image: its reference, MIME type and byte size.
#[derive(Debug, Clone)]
pub struct BlobView {
    pub type_: String,
    pub ref_: BlobRef,
    pub mime_type: String,
    pub size: u64,
}

/// One image attachment of a post.
#[derive(Debug, Clone)]
pub struct Image {
    pub alt: Option<String>,
    pub fullsize: String,
    pub thumb: String,
    pub aspect_ratio: Option<AspectRatio>,
    pub image: BlobView,
}

/// An external-link card embedded in a post.
#[derive(Debug, Clone)]
pub struct External {
    pub uri: String,
    pub title: String,
    pub description: String,
}

/// A post's embedded content, discriminated by its declared type string.
/// Anything that is neither an image gallery nor an external link keeps only
/// that type string.
#[derive(Debug, Clone)]
pub enum Embed {
    Images { embed_type: String, images: Vec<Image> },
    External { embed_type: String, external: External },
    Other { embed_type: String },
}

/// The structured record of a post.
#[derive(Debug, Clone)]
pub struct Record {
    pub record_type: String,
    pub text: Option<String>,
    pub embed: Option<Embed>,
    pub created_at: String,
}

/// One post of the feed, fully decoded into plain values.
#[derive(Debug, Clone)]
pub struct Post {
    pub uri: String,
    pub cid: String,
    pub author: Author,
    pub record: Record,
    pub indexed_at: String,
    pub labels: Option<Vec<Label>>,
}

/// A label value that marks content as restricted.
pub open spec fn spec_restricted_label(v: Seq<char>) -> bool {
    ||| v == "porn"@
    ||| v == "sexual"@
    ||| v == "nudity"@
    ||| v == "graphic-media"@
    ||| v == "self-harm"@
    ||| v == "sensitive"@
    ||| v == "content-warning"@
}

/// The post carries at least one label from the recognized restricted set.
pub open spec fn spec_has_nsfw_labels(p: Post) -> bool {
    match p.labels {
        Option::Some(labels) => exists|i: int|
            0 <= i < labels@.len() && spec_restricted_label(labels@[i].val@),
        Option::None => false,
    }
}

fn is_restricted_label(v: &str) -> (r: bool)
    ensures
        r == spec_restricted_label(v@),
{
    str_eq(v, "porn") || str_eq(v, "sexual") || str_eq(v, "nudity") || str_eq(v, "graphic-media")
        || str_eq(v, "self-harm") || str_eq(v, "sensitive") || str_eq(v, "content-warning")
}

impl Post {
    /// Whether any of the post's moderation labels falls in the recognized
    /// restricted set.
    pub fn has_nsfw_labels(&self) -> (r: bool)
        ensures
            r == spec_has_nsfw_labels(*self),
    {
        match &self.labels {
            Option::Some(labels) => {
                let n = labels.len();
                let mut i: usize = 0;
                while i < n
                    invariant
                        n == labels@.len(),
                        i <= n,
                        forall|j: int| 0 <= j < i ==> !spec_restricted_label(labels@[j].val@),
                        self.labels == Option::Some(*labels),
                    decreases n - i,
                {
                    if is_restricted_label(labels[i].val.as_str()) {
                        proof {
                            let wi = i as int;
                            assert(self.labels->Some_0@ == labels@);
                            assert(0 <= wi < self.labels->Some_0@.len()
                                && spec_restricted_label(self.labels->Some_0@[wi].val@));
                            assert(spec_has_nsfw_labels(*self));
                        }
                        return true;
                    }
                    i += 1;
                }
                false
            },
            Option::None => false,
        }
    }
}

/// The declared type string of an embed, whatever its variant.
pub open spec fn embed_type_of(e: Embed) -> Seq<char> {
    match e {
        Embed::Images { embed_type, .. } => embed_type@,
        Embed::External { embed_type, .. } => embed_type@,
        Embed::Other { embed_type } => embed_type@,
    }
}

/// The post quotes another post: its embed's declared type names a record
/// rather than directly attached media.
pub open spec fn spec_is_quote_post(p: Post) -> bool {
    match p.record.embed {
        Option::Some(e) => contains_seq(embed_type_of(e), "record"@),
        Option::None => false,
    }
}

/// The image attachments of a post; empty unless the embed is an image
/// gallery.
pub open spec fn spec_post_images(p: Post) -> Seq<Image> {
    match p.record.embed {
        Option::Some(Embed::Images { images, .. }) => images@,
        _ => Seq::empty(),
    }
}

/// The post directly carries at least one image attachment.
pub open spec fn spec_has_image_attachment(p: Post) -> bool {
    spec_post_images(p).len() > 0
}

impl Post {
    /// Whether the post's embed declares a quoted record.
    pub fn is_quote_post(&self) -> (r: bool)
        ensures
            r == spec_is_quote_post(*self),
    {
        match &self.record.embed {
            Option::Some(e) => {
                let t: &String = match e {
                    Embed::Images { embed_type, .. } => embed_type,
                    Embed::External { embed_type, .. } => embed_type,
                    Embed::Other { embed_type } => embed_type,
                };
                contains_substring(t.as_str(), "record")
            },
            Option::None => false,
        }
    }

    /// How many image attachments the post carries.
    pub fn image_count(&self) -> (r: usize)
        ensures
            r == spec_post_images(*self).len(),
    {
        match &self.record.embed {
            Option::Some(Embed::Images { images, .. }) => images.len(),
            _ => 0,
        }
    }
}

/// Which feed a fetch run walks.
#[derive(Debug, Clone, Copy)]
pub enum FetchMode {
    /// The actor's liked posts; every returned item counts.
    Likes,
    /// An author's own feed; reposts, quote posts and imageless posts are
    /// filtered out before counting.
    AuthorFeed,
}

/// One item of a returned page: the post, and whether the feed marked it as
/// a repost of another post.
#[derive(Debug, Clone)]
pub struct FeedItem {
    pub post: Post,
    pub is_repost: bool,
}

/// What the caller observed for the page request it was asked to make.
#[derive(Debug)]
pub enum FetchEvent {
    /// The endpoint answered with a rate-limit signal.
    RateLimited,
    /// The endpoint answered with any other non-success status.
    Failure { status: u16, body: String },
    /// The page body could not be decoded.
    DecodeError { detail: String },
    /// A decoded page: its items in feed order, and the continuation cursor,
    /// if the endpoint returned one.
    Page { items: Vec<FeedItem>, cursor: Option<String> },
}

/// Why a fetch run failed.
#[derive(Debug)]
pub enum FetchError {
    /// Rate limited and the retry budget is exhausted.
    RateLimitExhausted { retries: u64 },
    /// A non-success, non-rate-limit response.
    Http { status: u16, body: String },
    /// The page body did not decode; the detail keeps the raw material.
    Decode { detail: String },
}

/// What the caller must do next after reporting an event.
#[derive(Debug)]
pub enum FetchDirective {
    /// Sleep for the given backoff and repeat the same page request.
    Retry { wait_ms: u64 },
    /// The page was accepted: persist this cursor, then request the next
    /// page.
    Advance { save_cursor: String },
    /// The run is complete: clear the checkpoint and collect the posts.
    Complete,
    /// The run failed; no further requests.
    Abort { error: FetchError },
}

/// The parameters of the next page request.
#[derive(Debug)]
pub struct PageRequest {
    pub cursor: Option<String>,
    pub page_size: usize,
    pub delay_ms: u64,
}

/// Whether an item of a page counts toward the caller's limit.
pub open spec fn spec_item_counts(mode: FetchMode, it: FeedItem) -> bool {
    match mode {
        FetchMode::Likes => true,
        FetchMode::AuthorFeed => !it.is_repost && !spec_is_quote_post(it.post)
            && spec_has_image_attachment(it.post),
    }
}

/// The posts of a page that count, in feed order.
pub open spec fn selected_posts(mode: FetchMode, items: Seq<FeedItem>) -> Seq<Post>
    decreases items.len(),
{
    if items.len() == 0 {
        Seq::empty()
    } else {
        let rest = selected_posts(mode, items.drop_last());
        if spec_item_counts(mode, items.last()) {
            rest.push(items.last().post)
        } else {
            rest
        }
    }
}

/// `s` cut to at most `cap` elements; everything when `cap` is not a
/// shortening bound.
pub open spec fn take_capped(s: Seq<Post>, cap: int) -> Seq<Post> {
    if 0 <= cap < s.len() {
        s.take(cap)
    } else {
        s
    }
}

proof fn lemma_selected_take_step(mode: FetchMode, items: Seq<FeedItem>, j: int)
    requires
        0 <= j < items.len(),
    ensures
        selected_posts(mode, items.take(j + 1)) == if spec_item_counts(mode, items[j]) {
            selected_posts(mode, items.take(j)).push(items[j].post)
        } else {
            selected_posts(mode, items.take(j))
        },
{
    let t1 = items.take(j + 1);
    assert(t1.drop_last() =~= items.take(j));
    assert(t1.last() == items[j]);
}

proof fn lemma_selected_split(mode: FetchMode, items: Seq<FeedItem>, j: int)
    requires
        0 <= j <= items.len(),
    ensures
        selected_posts(mode, items) == selected_posts(mode, items.take(j)) + selected_posts(
            mode,
            items.skip(j),
        ),
    decreases items.len(),
{
    if j == items.len() {
        assert(items.take(j) =~= items);
        assert(items.skip(j) =~= Seq::<FeedItem>::empty());
        assert(selected_posts(mode, items) + selected_posts(mode, items.skip(j)) =~= selected_posts(
            mode,
            items,
        ));
    } else {
        let dl = items.drop_last();
        lemma_selected_split(mode, dl, j);
        assert(dl.take(j) =~= items.take(j));
        assert(dl.skip(j) =~= items.skip(j).drop_last());
        assert(items.skip(j).last() == items.last());
        if spec_item_counts(mode, items.last()) {
            assert(selected_posts(mode, items.take(j)) + selected_posts(mode, dl.skip(j)).push(
                items.last().post,
            ) =~= (selected_posts(mode, items.take(j)) + selected_posts(mode, dl.skip(j))).push(
                items.last().post,
            ));
        }
    }
}

/// The paginated fetch walker: all the decisions of the fetch loop, driven
/// page by page through [`FetchRun::on_event`] by a caller that performs the
/// actual requests and sleeps.
pub struct FetchRun {
    /// Which endpoint and filter policy this run uses.
    pub mode: FetchMode,
    /// Stop after accepting this many posts; zero means unbounded.
    pub limit: usize,
    /// Proactive delay between consecutive requests, in milliseconds.
    pub delay_ms: u64,
    /// The posts accepted so far, in feed order.
    pub posts: Vec<Post>,
    /// The cursor to attach to the next request.
    pub cursor: Option<String>,
    /// Consecutive rate-limit retries for the current page.
    pub retry_count: u64,
    /// Whether any request of this run was already issued.
    pub sent_any: bool,
    /// The run reached its natural or limit-bounded end.
    pub completed: bool,
    /// The run failed fatally.
    pub aborted: bool,
}

impl FetchRun {
    /// The run still accepts events.
    pub open spec fn live(self) -> bool {
        !self.completed && !self.aborted
    }

    /// Internal consistency: the retry budget is respected and a bounded run
    /// never holds more posts than its limit, nor reaches it without
    /// completing.
    pub open spec fn wf(self) -> bool {
        &&& self.retry_count <= MAX_RETRIES
        &&& (self.limit > 0 && self.live() ==> self.posts@.len() < self.limit)
        &&& (self.limit > 0 ==> self.posts@.len() <= self.limit)
    }

    /// Start a fetch run, optionally resuming from a saved cursor.
    pub fn new(mode: FetchMode, limit: usize, delay_ms: u64, start_cursor: Option<String>) -> (r:
        FetchRun)
        ensures
            r.wf(),
            r.mode == mode,
            r.limit == limit,
            r.delay_ms == delay_ms,
            r.posts@ == Seq::<Post>::empty(),
            r.cursor == start_cursor,
            r.retry_count == 0,
            !r.sent_any,
            r.live(),
    {
        FetchRun {
            mode,
            limit,
            delay_ms,
            posts: Vec::new(),
            cursor: start_cursor,
            retry_count: 0,
            sent_any: false,
            completed: false,
            aborted: false,
        }
    }

    /// The page size of the next request: the default page bound, or the
    /// remaining part of the limit when that is smaller.
    pub open spec fn spec_page_size(limit: int, have: int) -> int {
        if limit == 0 {
            100
        } else if limit - have < 100 {
            limit - have
        } else {
            100
        }
    }

    /// The request the caller must issue next: current cursor, bounded page
    /// size, and the proactive delay to honour before every request after
    /// the first.
    pub fn next_request(&self) -> (r: PageRequest)
        requires
            self.wf(),
            self.live(),
        ensures
            r.cursor == self.cursor,
            r.page_size == Self::spec_page_size(self.limit as int, self.posts@.len() as int),
            r.delay_ms == if self.sent_any {
                self.delay_ms
            } else {
                0
            },
    {
        let have = self.posts.len();
        let page_size = if self.limit == 0 {
            100
        } else if self.limit - have < 100 {
            self.limit - have
        } else {
            100
        };
        let cursor = match &self.cursor {
            Option::Some(c) => Option::Some(c.clone()),
            Option::None => Option::None,
        };
        let delay_ms = if self.sent_any {
            self.delay_ms
        } else {
            0
        };
        PageRequest { cursor, page_size, delay_ms }
    }

    /// Feed the outcome of the requested page back into the walker.
    ///
    /// A rate-limit signal consumes one retry and asks for a backoff, until
    /// the budget is exhausted; any other non-success outcome aborts the run;
    /// an accepted page contributes exactly its counting posts, in order,
    /// cut off at the limit, and the run completes on an empty page, on a
    /// reached limit, or on a missing cursor.
    ///
    /// A page that satisfies the limit mid-page completes the run without
    /// advancing the stored cursor: a later, larger run re-requests that
    /// page from the previous checkpoint, so no item is ever skipped on
    /// resume.
    pub fn on_event(&mut self, ev: FetchEvent) -> (d: FetchDirective)
        requires
            old(self).wf(),
            old(self).live(),
        ensures
            final(self).wf(),
            final(self).mode == old(self).mode,
            final(self).limit == old(self).limit,
            final(self).delay_ms == old(self).delay_ms,
            final(self).sent_any,
            match ev {
                FetchEvent::RateLimited => {
                    &&& final(self).posts == old(self).posts
                    &&& final(self).cursor == old(self).cursor
                    &&& !final(self).completed
                    &&& (old(self).retry_count < MAX_RETRIES ==> {
                        &&& final(self).retry_count == old(self).retry_count + 1
                        &&& final(self).live()
                        &&& (d matches FetchDirective::Retry { wait_ms } && wait_ms
                            == spec_backoff_wait_ms(
                            (old(self).retry_count + 1) as u64,
                        ))
                    })
                    &&& (old(self).retry_count >= MAX_RETRIES ==> {
                        &&& final(self).aborted
                        &&& (d matches FetchDirective::Abort { error } && error
                            matches FetchError::RateLimitExhausted { retries } && retries
                            == MAX_RETRIES)
                    })
                },
                FetchEvent::Failure { status, body } => {
                    &&& final(self).posts == old(self).posts
                    &&& final(self).aborted
                    &&& (d matches FetchDirective::Abort { error } && error
                        matches FetchError::Http { status: s, body: b } && s == status && b == body)
                },
                FetchEvent::DecodeError { detail } => {
                    &&& final(self).posts == old(self).posts
                    &&& final(self).aborted
                    &&& (d matches FetchDirective::Abort { error } && error
                        matches FetchError::Decode { detail: t } && t == detail)
                },
                FetchEvent::Page { items, cursor } => {
                    let sel = selected_posts(old(self).mode, items@);
                    let cap = if old(self).limit == 0 {
                        sel.len() as int
                    } else {
                        old(self).limit - old(self).posts@.len()
                    };
                    &&& final(self).posts@ == old(self).posts@ + take_capped(sel, cap)
                    &&& final(self).retry_count == 0
                    &&& !final(self).aborted
                    &&& (final(self).completed <==> (items@.len() == 0 || (old(self).limit > 0
                        && sel.len() >= cap) || cursor is None))
                    &&& (final(self).completed <==> d is Complete)
                    &&& (d is Complete ==> final(self).cursor == old(self).cursor)
                    &&& (!(d is Complete) ==> (d matches FetchDirective::Advance { save_cursor }
                        && cursor == Option::Some(save_cursor) && final(self).cursor == cursor))
                },
            },
    {
        self.sent_any = true;
        match ev {
            FetchEvent::RateLimited => {
                if should_give_up(self.retry_count + 1) {
                    self.aborted = true;
                    FetchDirective::Abort {
                        error: FetchError::RateLimitExhausted { retries: MAX_RETRIES },
                    }
                } else {
                    self.retry_count = self.retry_count + 1;
                    let wait_ms = next_wait_ms(self.retry_count);
                    FetchDirective::Retry { wait_ms }
                }
            },
            FetchEvent::Failure { status, body } => {
                self.aborted = true;
                FetchDirective::Abort { error: FetchError::Http { status, body } }
            },
            FetchEvent::DecodeError { detail } => {
                self.aborted = true;
                FetchDirective::Abort { error: FetchError::Decode { detail } }
            },
            FetchEvent::Page { items, cursor } => self.on_page(items, cursor),
        }
    }

    #[verifier::loop_isolation(false)]
    fn on_page(&mut self, items: Vec<FeedItem>, cursor: Option<String>) -> (d: FetchDirective)
        requires
            old(self).wf(),
            old(self).live(),
        ensures
            final(self).wf(),
            final(self).mode == old(self).mode,
            final(self).limit == old(self).limit,
            final(self).delay_ms == old(self).delay_ms,
            final(self).sent_any == old(self).sent_any,
            ({
                let sel = selected_posts(old(self).mode, items@);
                let cap = if old(self).limit == 0 {
                    sel.len() as int
                } else {
                    old(self).limit - old(self).posts@.len()
                };
                &&& final(self).posts@ == old(self).posts@ + take_capped(sel, cap)
                &&& final(self).retry_count == 0
                &&& !final(self).aborted
                &&& (final(self).completed <==> (items@.len() == 0 || (old(self).limit > 0
                    && sel.len() >= cap) || cursor is None))
                &&& (final(self).completed <==> d is Complete)
                &&& (d is Complete ==> final(self).cursor == old(self).cursor)
                &&& (!(d is Complete) ==> (d matches FetchDirective::Advance { save_cursor }
                    && cursor == Option::Some(save_cursor) && final(self).cursor == cursor))
            }),
    {
        self.retry_count = 0;
        let ghost mode = self.mode;
        let ghost orig = items@;
        let ghost old_posts = self.posts@;
        let ghost sel = selected_posts(mode, orig);
        if items.len() == 0 {
            self.completed = true;
            proof {
                assert(take_capped(sel, if self.limit == 0 {
                    sel.len() as int
                } else {
                    self.limit - old_posts.len()
                }) =~= sel);
                assert(old_posts + sel =~= old_posts);
            }
            return FetchDirective::Complete;
        }
        let mut items = items;
        let mut j: usize = 0;
        while items.len() > 0
            invariant
                j + items@.len() == orig.len(),
                orig.len() <= usize::MAX,
                items@ =~= orig.skip(j as int),
                !self.completed,
                !self.aborted,
                self.posts@ == old_posts + selected_posts(mode, orig.take(j as int)),
                self.limit == old(self).limit,
                self.mode == old(self).mode,
                mode == self.mode,
                sel == selected_posts(mode, orig),
                self.delay_ms == old(self).delay_ms,
                self.sent_any == old(self).sent_any,
                self.cursor == old(self).cursor,
                self.retry_count == 0,
                self.completed == old(self).completed,
                self.aborted == old(self).aborted,
                old(self).limit > 0 ==> old_posts.len() < old(self).limit,
                self.limit > 0 ==> self.posts@.len() < self.limit,
            decreases items@.len(),
        {
            let it = items.remove(0);
            proof {
                assert(orig[j as int] == it);
                lemma_selected_take_step(mode, orig, j as int);
                assert(items@ =~= orig.skip(j as int + 1));
            }
            let counts = match self.mode {
                FetchMode::Likes => true,
                FetchMode::AuthorFeed => {
                    !it.is_repost && !it.post.is_quote_post() && it.post.image_count() > 0
                },
            };
            if counts {
                self.posts.push(it.post);
                if self.limit > 0 && self.posts.len() >= self.limit {
                    self.completed = true;
                    proof {
                        let jj = j as int + 1;
                        lemma_selected_split(mode, orig, jj);
                        let pre = selected_posts(mode, orig.take(jj));
                        let cap = self.limit - old_posts.len();
                        assert(self.posts@ =~= old_posts + pre);
                        assert(pre.len() == cap);
                        assert(sel.len() >= cap);
                        if cap < sel.len() {
                            assert(sel.take(cap) =~= pre);
                        } else {
                            assert(sel =~= pre);
                        }
                        assert(take_capped(sel, cap) == pre);
                    }
                    return FetchDirective::Complete;
                }
            }
            j += 1;
        }
        proof {
            assert(orig.take(j as int) =~= orig);
            let cap = if self.limit == 0 {
                sel.len() as int
            } else {
                self.limit - old_posts.len()
            };
            assert(take_capped(sel, cap) =~= sel);
        }
        match cursor {
            Option::None => {
                self.completed = true;
                FetchDirective::Complete
            },
            Option::Some(c) => {
                self.cursor = Option::Some(c.clone());
                FetchDirective::Advance { save_cursor: c }
            },
        }
    }

    /// Hand out the accepted posts of a completed run.
    pub fn into_posts(self) -> (r: Vec<Post>)
        requires
            self.completed,
        ensures
            r == self.posts,
    {
        self.posts
    }
}

/// The blob-fetch endpoint URL for a stored binary, derived from its owner's
/// DID and its content identifier.
pub fn get_image_url(did: &str, cid: &str) -> (r: String)
    ensures
        r@ == "https://bsky.social/xrpc/com.atproto.sync.getBlob?did="@ + did@ + "&cid="@ + cid@,
{
    let mut s = String::from_str("https://bsky.social/xrpc/com.atproto.sync.getBlob?did=");
    s.append(did);
    s.append("&cid=");
    s.append(cid);
    s
}

} // verus!
