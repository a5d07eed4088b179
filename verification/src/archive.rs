//! The idempotent archive step.
//!
//! [`Archiver::archive_posts`] filters the fetched posts by the
//! content-warning policy and starts an [`ArchiveRun`]: a state machine that
//! walks the retained posts sequentially, upserts each post's metadata,
//! skips every image whose blob identifier is already recorded, and asks its
//! caller to download the rest one at a time.  The caller performs each
//! download and file write and reports the outcome; all counting, dedup and
//! naming decisions stay here.

use vstd::prelude::*;
use crate::bluesky::{Embed, Image, Post, spec_has_nsfw_labels, spec_post_images};
use crate::database::{ArchivedImage, ArchivedImageV, ArchivedPost, ArchivedPostV, Database};
use crate::text::{
    sanitized, sanitize_timestamp, spec_digits, spec_prefix, str_eq, prefix_chars, u64_to_string,
};

verus! {

/// Relies on chrono's `Utc::now` and `to_rfc3339`: the current wall-clock
/// time as RFC 3339 text, so nothing is promised of the value.
#[verifier::external_body]
fn now_rfc3339() -> (r: String) {
    chrono::Utc::now().to_rfc3339()
}

/// Aggregate counts of one archive run.
#[derive(Debug, Clone, Copy)]
pub struct ArchiveStats {
    /// Images fetched and recorded by this run.
    pub downloaded: usize,
    /// Images whose blob identifier was already recorded.
    pub skipped: usize,
    /// Posts or images that failed and were passed over.
    pub failed: usize,
}

/// The file extension derived from a declared MIME type; unrecognized types
/// fall back to a generic binary extension.
pub open spec fn spec_extension(mime: Seq<char>) -> Seq<char> {
    if mime == "image/jpeg"@ {
        "jpg"@
    } else if mime == "image/png"@ {
        "png"@
    } else if mime == "image/gif"@ {
        "gif"@
    } else if mime == "image/webp"@ {
        "webp"@
    } else {
        "bin"@
    }
}

fn extension_for(mime: &str) -> (r: &'static str)
    ensures
        r@ == spec_extension(mime@),
{
    if str_eq(mime, "image/jpeg") {
        "jpg"
    } else if str_eq(mime, "image/png") {
        "png"
    } else if str_eq(mime, "image/gif") {
        "gif"
    } else if str_eq(mime, "image/webp") {
        "webp"
    } else {
        "bin"
    }
}

/// The deterministic file name of one image: author handle, sanitized
/// creation timestamp, a fixed-length prefix of the post's content
/// identifier, and the image's position in the post, with an extension from
/// the declared MIME type.
pub open spec fn spec_filename_parts(
    handle: Seq<char>,
    created_at: Seq<char>,
    cid: Seq<char>,
    idx: int,
    mime: Seq<char>,
) -> Seq<char> {
    handle + "_"@ + sanitized(created_at) + "_"@ + spec_prefix(cid, 8) + "_"@ + spec_digits(idx)
        + "."@ + spec_extension(mime)
}

/// The file name for image number `idx` of post `p`.
pub open spec fn spec_image_filename(p: Post, idx: int) -> Seq<char> {
    spec_filename_parts(
        p.author.handle@,
        p.record.created_at@,
        p.cid@,
        idx,
        spec_post_images(p)[idx].image.mime_type@,
    )
}

/// Compute an image's file name.  The result depends on the arguments
/// alone, so archiving the same post position twice names the same file.
pub fn image_filename(handle: &str, created_at: &str, cid: &str, idx: u64, mime: &str) -> (r:
    String)
    ensures
        r@ == spec_filename_parts(handle@, created_at@, cid@, idx as int, mime@),
{
    let mut s = String::from_str(handle);
    s.append("_");
    let ts = sanitize_timestamp(created_at);
    s.append(ts.as_str());
    s.append("_");
    let pre = prefix_chars(cid, 8);
    s.append(pre.as_str());
    s.append("_");
    let digits = u64_to_string(idx);
    s.append(digits.as_str());
    s.append(".");
    s.append(extension_for(mime));
    s
}

/// The destination directory of a post's images: the base output directory,
/// a restricted-content subdirectory when the post carries a recognized
/// label, then a per-author subdirectory named by handle.
pub open spec fn spec_dir_path(base: Seq<char>, nsfw: bool, handle: Seq<char>) -> Seq<char> {
    base + "/"@ + (if nsfw {
        "nsfw/"@
    } else {
        Seq::<char>::empty()
    }) + handle
}

/// Build the destination directory path for a post's images.
pub fn archive_dir_path(base: &str, nsfw: bool, handle: &str) -> (r: String)
    ensures
        r@ == spec_dir_path(base@, nsfw, handle@),
{
    let mut s = String::from_str(base);
    s.append("/");
    if nsfw {
        s.append("nsfw/");
    } else {
        proof {
            assert(s@ + Seq::<char>::empty() =~= s@);
        }
    }
    s.append(handle);
    s
}

/// The attachment count stored in a post's metadata record, clamped to the
/// record field's machine range.
pub open spec fn spec_clamped_count(p: Post) -> int {
    if spec_post_images(p).len() > i32::MAX {
        i32::MAX as int
    } else {
        spec_post_images(p).len() as int
    }
}

/// The alt text stored for an image: absent when the attachment carries
/// none, or only an empty one.
pub open spec fn spec_alt_text(img: Image) -> Option<Seq<char>> {
    match img.alt {
        Option::Some(t) => if t@.len() == 0 {
            Option::None
        } else {
            Option::Some(t@)
        },
        Option::None => Option::None,
    }
}

/// The metadata record handed to the store for post `p` carries the post's
/// own values in every field but the archive timestamp: URI, content
/// identifier, author identity, text, attachment count and the
/// content-warning flag.
pub open spec fn spec_post_entry_matches(v: ArchivedPostV, p: Post) -> bool {
    &&& v.uri == p.uri@
    &&& v.cid == p.cid@
    &&& v.author_did == p.author.did@
    &&& v.author_handle == p.author.handle@
    &&& v.post_text == (match p.record.text {
        Option::Some(t) => Option::Some(t@),
        Option::None => Option::None::<Seq<char>>,
    })
    &&& v.image_count == spec_clamped_count(p)
    &&& v.post_created_at == p.record.created_at@
    &&& v.has_content_warning == spec_has_nsfw_labels(p)
}

/// The record handed to the store for image `idx` of post `p` carries the
/// blob identifier, the deterministic file name, the declared MIME type,
/// the reported byte count, the normalized alt text and the owning post's
/// URI, in every field but the download timestamp.
pub open spec fn spec_image_entry_matches(v: ArchivedImageV, p: Post, idx: int, size: int) -> bool {
    &&& v.id == 0
    &&& v.post_uri == p.uri@
    &&& v.blob_cid == spec_post_images(p)[idx].image.ref_.link@
    &&& v.filename == spec_image_filename(p, idx)
    &&& v.mime_type == spec_post_images(p)[idx].image.mime_type@
    &&& v.size == size
    &&& v.alt_text == spec_alt_text(spec_post_images(p)[idx])
}

/// The posts an archive run retains: all of them, or only those carrying a
/// recognized restricted label when `nsfw_only` is set, in input order.
pub open spec fn spec_retained(posts: Seq<Post>, nsfw_only: bool) -> Seq<Post>
    decreases posts.len(),
{
    if posts.len() == 0 {
        Seq::empty()
    } else {
        let rest = spec_retained(posts.drop_last(), nsfw_only);
        if !nsfw_only || spec_has_nsfw_labels(posts.last()) {
            rest.push(posts.last())
        } else {
            rest
        }
    }
}

/// The content-warning policy: with `nsfw_only` set, a post without a
/// recognized label contributes nothing, while the same post carrying one
/// is retained; without the flag every post is retained.
pub proof fn lemma_nsfw_filter_policy(p: Post)
    ensures
        !spec_has_nsfw_labels(p) ==> spec_retained(seq![p], true) == Seq::<Post>::empty(),
        spec_has_nsfw_labels(p) ==> spec_retained(seq![p], true) == seq![p],
        spec_retained(seq![p], false) == seq![p],
{
    let s = seq![p];
    assert(spec_retained(Seq::<Post>::empty(), true) == Seq::<Post>::empty());
    assert(spec_retained(Seq::<Post>::empty(), false) == Seq::<Post>::empty());
    assert(s.drop_last() =~= Seq::<Post>::empty());
    assert(s.last() == p);
    assert(Seq::<Post>::empty().push(p) =~= s);
}

/// Without the restricted-only flag, every post is retained, in order.
pub proof fn lemma_retained_all_when_unrestricted(posts: Seq<Post>)
    ensures
        spec_retained(posts, false) == posts,
    decreases posts.len(),
{
    if posts.len() > 0 {
        lemma_retained_all_when_unrestricted(posts.drop_last());
        assert(posts.drop_last().push(posts.last()) =~= posts);
    }
}

/// Everything retained under the restricted-only policy carries a
/// recognized label.
pub proof fn lemma_retained_all_nsfw(posts: Seq<Post>)
    ensures
        forall|i: int|
            0 <= i < spec_retained(posts, true).len() ==> spec_has_nsfw_labels(
                #[trigger] spec_retained(posts, true)[i],
            ),
    decreases posts.len(),
{
    if posts.len() > 0 {
        let dl = posts.drop_last();
        lemma_retained_all_nsfw(dl);
        let r = spec_retained(posts, true);
        let rd = spec_retained(dl, true);
        if spec_has_nsfw_labels(posts.last()) {
            assert forall|i: int| 0 <= i < r.len() implies spec_has_nsfw_labels(r[i]) by {
                if i < rd.len() {
                    assert(r[i] == rd[i]);
                } else {
                    assert(r[i] == posts.last());
                }
            }
        } else {
            assert(r == rd);
        }
    }
}

proof fn lemma_retained_take_step(posts: Seq<Post>, nsfw_only: bool, j: int)
    requires
        0 <= j < posts.len(),
    ensures
        spec_retained(posts.take(j + 1), nsfw_only) == if !nsfw_only || spec_has_nsfw_labels(
            posts[j],
        ) {
            spec_retained(posts.take(j), nsfw_only).push(posts[j])
        } else {
            spec_retained(posts.take(j), nsfw_only)
        },
{
    let t1 = posts.take(j + 1);
    assert(t1.drop_last() =~= posts.take(j));
    assert(t1.last() == posts[j]);
}

/// The work units of one post: its entry plus one per image attachment.
pub open spec fn spec_units_of(p: Post) -> int {
    1 + spec_post_images(p).len() as int
}

/// The work units of the first `k` posts.
pub open spec fn spec_units_upto(posts: Seq<Post>, k: int) -> int
    decreases k,
{
    if k <= 0 {
        0
    } else {
        spec_units_upto(posts, k - 1) + spec_units_of(posts[k - 1])
    }
}

/// The work units of a whole input.
pub open spec fn spec_units_total(posts: Seq<Post>) -> int {
    spec_units_upto(posts, posts.len() as int)
}

/// The image attachments among the first `k` posts.
pub open spec fn spec_images_upto(posts: Seq<Post>, k: int) -> int
    decreases k,
{
    if k <= 0 {
        0
    } else {
        spec_images_upto(posts, k - 1) + spec_post_images(posts[k - 1]).len() as int
    }
}

proof fn lemma_images_upto_zero(posts: Seq<Post>, k: int)
    requires
        0 <= k <= posts.len(),
        forall|i: int| 0 <= i < posts.len() ==> spec_post_images(#[trigger] posts[i]).len() == 0,
    ensures
        spec_images_upto(posts, k) == 0,
    decreases k,
{
    if k > 0 {
        lemma_images_upto_zero(posts, k - 1);
    }
}

proof fn lemma_units_upto_nonneg(posts: Seq<Post>, k: int)
    ensures
        k >= 0 ==> spec_units_upto(posts, k) >= 0,
    decreases k,
{
    if k > 0 {
        lemma_units_upto_nonneg(posts, k - 1);
    }
}

proof fn lemma_units_upto_mono(posts: Seq<Post>, a: int, b: int)
    requires
        0 <= a <= b,
    ensures
        spec_units_upto(posts, a) <= spec_units_upto(posts, b),
    decreases b,
{
    if a < b {
        lemma_units_upto_mono(posts, a, b - 1);
    }
}

proof fn lemma_units_upto_prefix(s: Seq<Post>, t: Seq<Post>, k: int)
    requires
        forall|j: int| 0 <= j < k ==> s[j] == t[j],
    ensures
        spec_units_upto(s, k) == spec_units_upto(t, k),
    decreases k,
{
    if k > 0 {
        lemma_units_upto_prefix(s, t, k - 1);
    }
}

proof fn lemma_units_total_push(s: Seq<Post>, p: Post)
    ensures
        spec_units_total(s.push(p)) == spec_units_total(s) + spec_units_of(p),
{
    let t = s.push(p);
    assert(spec_units_upto(t, t.len() as int) == spec_units_upto(t, s.len() as int)
        + spec_units_of(p));
    lemma_units_upto_prefix(t, s, s.len() as int);
}

proof fn lemma_retained_units_le(posts: Seq<Post>, nsfw_only: bool)
    ensures
        0 <= spec_units_total(spec_retained(posts, nsfw_only)) <= spec_units_total(posts),
    decreases posts.len(),
{
    if posts.len() == 0 {
        assert(spec_units_total(Seq::<Post>::empty()) == 0);
    } else {
        let dl = posts.drop_last();
        lemma_retained_units_le(dl, nsfw_only);
        assert(dl.push(posts.last()) =~= posts);
        lemma_units_total_push(dl, posts.last());
        if !nsfw_only || spec_has_nsfw_labels(posts.last()) {
            lemma_units_total_push(spec_retained(dl, nsfw_only), posts.last());
        }
    }
}

/// What a run asks its caller to do next.
#[derive(Debug)]
pub enum StepResult {
    /// One unit of work was handled internally; call again.
    Progress,
    /// Fetch this blob and write it under `dir_path/file_name`, creating
    /// the directory if needed, then report the outcome.
    NeedDownload { did: String, blob_cid: String, dir_path: String, file_name: String },
    /// Every post was processed.
    Finished,
}

/// The caller's report on a requested download.
#[derive(Debug)]
pub enum DownloadOutcome {
    /// The blob was fetched and its file written, `size` bytes.
    Saved { size: u64 },
    /// The download or the file write failed; no file remains.
    Failed,
}

/// An archive run in progress.
pub struct ArchiveRun {
    /// The dedup store; this run is its only writer.
    pub db: Database,
    /// Base directory that image files go under.
    pub output_dir: String,
    /// The retained posts, in input order.
    pub posts: Vec<Post>,
    /// Index of the post being processed.
    pub post_idx: usize,
    /// The current post's metadata record was upserted.
    pub entered: bool,
    /// Index of the image of the current post being considered.
    pub image_idx: usize,
    /// A download was requested and its outcome not yet reported.
    pub awaiting: bool,
    /// Counts so far.
    pub stats: ArchiveStats,
}

impl ArchiveRun {
    /// The post currently being processed.
    pub open spec fn current_post(self) -> Post {
        self.posts@[self.post_idx as int]
    }

    /// The blob identifier of the image currently being considered.
    pub open spec fn current_blob(self) -> Seq<char> {
        spec_post_images(self.current_post())[self.image_idx as int].image.ref_.link@
    }

    /// Every post was processed.
    pub open spec fn at_end(self) -> bool {
        self.post_idx == self.posts@.len()
    }

    /// Total of the three counters.
    pub open spec fn stats_sum(self) -> int {
        self.stats.downloaded + self.stats.skipped + self.stats.failed
    }

    /// Work units consumed so far.
    pub open spec fn consumed(self) -> int {
        spec_units_upto(self.posts@, self.post_idx as int) + if self.entered {
            1 + self.image_idx
        } else {
            0
        }
    }

    /// Image attachments considered so far: those of the finished posts,
    /// plus the current post's images already decided on.
    pub open spec fn images_consumed(self) -> int {
        spec_images_upto(self.posts@, self.post_idx as int) + if self.entered {
            self.image_idx as int
        } else {
            0
        }
    }

    /// Internal consistency of the run.
    pub open spec fn wf(self) -> bool {
        &&& self.db.wf()
        &&& self.post_idx <= self.posts@.len()
        &&& (self.entered ==> self.post_idx < self.posts@.len() && self.image_idx
            <= spec_post_images(self.current_post()).len())
        &&& (!self.entered ==> self.image_idx == 0 && !self.awaiting)
        &&& (self.awaiting ==> self.entered && self.image_idx < spec_post_images(
            self.current_post(),
        ).len() && !self.db.images_seen().contains(self.current_blob()))
        &&& self.stats_sum() <= self.consumed()
        &&& self.stats.downloaded + self.stats.skipped <= self.images_consumed()
        &&& self.stats.downloaded <= self.db.images_written().dom().len()
        &&& spec_units_total(self.posts@) < usize::MAX
    }

    proof fn lemma_consumed_le_total(self)
        requires
            self.post_idx <= self.posts@.len(),
            self.entered ==> self.post_idx < self.posts@.len() && self.image_idx
                <= spec_post_images(self.current_post()).len(),
        ensures
            self.consumed() <= spec_units_total(self.posts@),
    {
        if self.entered {
            assert(spec_units_upto(self.posts@, self.post_idx + 1) == spec_units_upto(
                self.posts@,
                self.post_idx as int,
            ) + spec_units_of(self.current_post()));
            lemma_units_upto_mono(self.posts@, self.post_idx + 1, self.posts@.len() as int);
        } else {
            lemma_units_upto_mono(self.posts@, self.post_idx as int, self.posts@.len() as int);
        }
    }

    /// The run's counts so far.
    pub fn stats(&self) -> (r: ArchiveStats)
        ensures
            r == self.stats,
    {
        self.stats
    }

    /// Whether every post was processed.
    pub fn is_finished(&self) -> (r: bool)
        requires
            self.wf(),
        ensures
            r == self.at_end(),
    {
        self.post_idx == self.posts.len()
    }

    /// Borrow the dedup store, for inspection after a run.
    pub fn db(&self) -> (r: &Database)
        ensures
            r == &self.db,
    {
        &self.db
    }
}

fn nth_image(p: &Post, i: usize) -> (r: &Image)
    requires
        i < spec_post_images(*p).len(),
    ensures
        *r == spec_post_images(*p)[i as int],
{
    match &p.record.embed {
        Option::Some(Embed::Images { images, .. }) => &images[i],
        _ => {
            proof {
                assert(false);
            }
            vstd::pervasive::unreached()
        },
    }
}

impl ArchiveRun {
    /// Advance the run by one unit of work.
    ///
    /// At a post boundary this upserts the post's metadata record — counting
    /// the post as failed and passing over its images when the store
    /// refuses the write.  Inside a post it skips an image whose blob
    /// identifier is already recorded, and otherwise asks the caller to
    /// download it under its deterministic file name.  A post with no image
    /// attachments contributes nothing beyond its metadata record: no
    /// download is requested and neither `downloaded` nor `skipped` moves.
    #[verifier::loop_isolation(false)]
    pub fn process_next(&mut self) -> (r: StepResult)
        requires
            old(self).wf(),
            !old(self).awaiting,
        ensures
            final(self).wf(),
            final(self).posts == old(self).posts,
            final(self).output_dir == old(self).output_dir,
            old(self).at_end() ==> r is Finished && *final(self) == *old(self),
            (!old(self).at_end() && !old(self).entered) ==> {
                let p = old(self).current_post();
                &&& r is Progress
                &&& final(self).stats.downloaded == old(self).stats.downloaded
                &&& final(self).stats.skipped == old(self).stats.skipped
                &&& final(self).db.images_seen() == old(self).db.images_seen()
                &&& final(self).db.images_written() == old(self).db.images_written()
                &&& !final(self).awaiting
                &&& ((final(self).db.posts_seen() == old(self).db.posts_seen().insert(p.uri@)
                    && final(self).db.posts_written() == old(self).db.posts_written().insert(
                    p.uri@,
                    final(self).db.posts_written()[p.uri@],
                ) && spec_post_entry_matches(final(self).db.posts_written()[p.uri@], p) && final(self).entered && final(self).post_idx == old(self).post_idx && final(self).image_idx
                    == 0 && final(self).stats.failed == old(self).stats.failed) || (final(self).db.posts_seen() == old(self).db.posts_seen() && final(self).db.posts_written()
                    == old(self).db.posts_written() && final(self).post_idx == old(self).post_idx
                    + 1 && !final(self).entered && final(self).stats.failed == old(self).stats.failed + 1))
            },
            (!old(self).at_end() && old(self).entered && old(self).image_idx == spec_post_images(
                old(self).current_post(),
            ).len()) ==> {
                &&& r is Progress
                &&& final(self).stats == old(self).stats
                &&& final(self).db.posts_seen() == old(self).db.posts_seen()
                &&& final(self).db.images_seen() == old(self).db.images_seen()
                &&& final(self).db.posts_written() == old(self).db.posts_written()
                &&& final(self).db.images_written() == old(self).db.images_written()
                &&& final(self).post_idx == old(self).post_idx + 1
                &&& !final(self).entered
                &&& !final(self).awaiting
            },
            (!old(self).at_end() && old(self).entered && old(self).image_idx < spec_post_images(
                old(self).current_post(),
            ).len()) ==> {
                let blob = old(self).current_blob();
                &&& (old(self).db.images_seen().contains(blob) ==> {
                    &&& r is Progress
                    &&& final(self).stats.skipped == old(self).stats.skipped + 1
                    &&& final(self).stats.downloaded == old(self).stats.downloaded
                    &&& final(self).stats.failed == old(self).stats.failed
                    &&& final(self).db.posts_seen() == old(self).db.posts_seen()
                    &&& final(self).db.images_seen() == old(self).db.images_seen()
                    &&& final(self).db.posts_written() == old(self).db.posts_written()
                    &&& final(self).db.images_written() == old(self).db.images_written()
                    &&& final(self).image_idx == old(self).image_idx + 1
                    &&& final(self).post_idx == old(self).post_idx
                    &&& final(self).entered
                    &&& !final(self).awaiting
                })
                &&& (!old(self).db.images_seen().contains(blob) ==> {
                    &&& (r matches StepResult::NeedDownload { did, blob_cid, dir_path, file_name }
                        && did@ == old(self).current_post().author.did@ && blob_cid@ == blob
                        && dir_path@ == spec_dir_path(
                        old(self).output_dir@,
                        spec_has_nsfw_labels(old(self).current_post()),
                        old(self).current_post().author.handle@,
                    ) && file_name@ == spec_image_filename(
                        old(self).current_post(),
                        old(self).image_idx as int,
                    ))
                    &&& final(self).stats == old(self).stats
                    &&& final(self).db.posts_seen() == old(self).db.posts_seen()
                    &&& final(self).db.images_seen() == old(self).db.images_seen()
                    &&& final(self).db.posts_written() == old(self).db.posts_written()
                    &&& final(self).db.images_written() == old(self).db.images_written()
                    &&& final(self).image_idx == old(self).image_idx
                    &&& final(self).post_idx == old(self).post_idx
                    &&& final(self).awaiting
                })
            },
    {
        let n = self.posts.len();
        if self.post_idx >= n {
            return StepResult::Finished;
        }
        if !self.entered {
            let count = self.posts[self.post_idx].image_count();
            let ic: i32 = if count > i32::MAX as usize {
                i32::MAX
            } else {
                count as i32
            };
            let nsfw = self.posts[self.post_idx].has_nsfw_labels();
            let archived_at = now_rfc3339();
            let p = &self.posts[self.post_idx];
            let rec = ArchivedPost {
                uri: p.uri.clone(),
                cid: p.cid.clone(),
                author_did: p.author.did.clone(),
                author_handle: p.author.handle.clone(),
                post_text: match &p.record.text {
                    Option::Some(t) => Option::Some(t.clone()),
                    Option::None => Option::None,
                },
                image_count: ic,
                archived_at,
                post_created_at: p.record.created_at.clone(),
                has_content_warning: nsfw,
            };
            let saved = self.db.save_post(&rec);
            proof {
                assert(spec_units_upto(self.posts@, self.post_idx + 1) == spec_units_upto(
                    self.posts@,
                    self.post_idx as int,
                ) + spec_units_of(self.current_post()));
                assert(spec_images_upto(self.posts@, self.post_idx + 1) == spec_images_upto(
                    self.posts@,
                    self.post_idx as int,
                ) + spec_post_images(self.current_post()).len());
                self.lemma_consumed_le_total();
            }
            match saved {
                Ok(_) => {
                    proof {
                        assert(spec_post_entry_matches(rec@, self.current_post()));
                    }
                    self.entered = true;
                    self.image_idx = 0;
                },
                Err(_) => {
                    self.stats.failed = self.stats.failed + 1;
                    self.post_idx = self.post_idx + 1;
                },
            }
            proof {
                self.lemma_consumed_le_total();
            }
            return StepResult::Progress;
        }
        let image_count = self.posts[self.post_idx].image_count();
        if self.image_idx >= image_count {
            proof {
                assert(spec_units_upto(self.posts@, self.post_idx + 1) == spec_units_upto(
                    self.posts@,
                    self.post_idx as int,
                ) + spec_units_of(self.current_post()));
                assert(spec_images_upto(self.posts@, self.post_idx + 1) == spec_images_upto(
                    self.posts@,
                    self.post_idx as int,
                ) + spec_post_images(self.current_post()).len());
            }
            self.post_idx = self.post_idx + 1;
            self.entered = false;
            self.image_idx = 0;
            return StepResult::Progress;
        }
        let img = nth_image(&self.posts[self.post_idx], self.image_idx);
        let blob_cid = img.image.ref_.link.clone();
        if self.db.is_image_archived(blob_cid.as_str()) {
            proof {
                self.lemma_consumed_le_total();
            }
            self.stats.skipped = self.stats.skipped + 1;
            self.image_idx = self.image_idx + 1;
            return StepResult::Progress;
        }
        let p = &self.posts[self.post_idx];
        let nsfw = p.has_nsfw_labels();
        let dir_path = archive_dir_path(
            self.output_dir.as_str(),
            nsfw,
            p.author.handle.as_str(),
        );
        let file_name = image_filename(
            p.author.handle.as_str(),
            p.record.created_at.as_str(),
            p.cid.as_str(),
            self.image_idx as u64,
            img.image.mime_type.as_str(),
        );
        let did = p.author.did.clone();
        self.awaiting = true;
        StepResult::NeedDownload { did, blob_cid, dir_path, file_name }
    }

    /// Record the outcome of the download this run asked for.
    ///
    /// A saved blob is recorded under its identifier and counted as
    /// downloaded — or as failed if the store refuses the record.  A failed
    /// download is counted as failed and the run moves on: one bad image
    /// never aborts the rest of the post or the run.
    pub fn on_download(&mut self, outcome: DownloadOutcome)
        requires
            old(self).wf(),
            old(self).awaiting,
            outcome matches DownloadOutcome::Saved { size } ==> size <= i64::MAX,
        ensures
            final(self).wf(),
            final(self).posts == old(self).posts,
            final(self).output_dir == old(self).output_dir,
            !final(self).awaiting,
            final(self).entered,
            final(self).image_idx == old(self).image_idx + 1,
            final(self).post_idx == old(self).post_idx,
            final(self).db.posts_seen() == old(self).db.posts_seen(),
            final(self).db.posts_written() == old(self).db.posts_written(),
            match outcome {
                DownloadOutcome::Saved { size } => (final(self).db.images_seen() == old(self).db.images_seen().insert(old(self).current_blob())
                    && final(self).db.images_written() == old(self).db.images_written().insert(
                        old(self).current_blob(),
                        final(self).db.images_written()[old(self).current_blob()],
                    )
                    && spec_image_entry_matches(
                        final(self).db.images_written()[old(self).current_blob()],
                        old(self).current_post(),
                        old(self).image_idx as int,
                        size as int,
                    )
                    && final(self).stats.downloaded == old(self).stats.downloaded + 1
                    && final(self).stats.skipped == old(self).stats.skipped
                    && final(self).stats.failed == old(self).stats.failed)
                    || (final(self).db.images_seen() == old(self).db.images_seen()
                    && final(self).db.images_written() == old(self).db.images_written()
                    && final(self).stats.failed == old(self).stats.failed + 1
                    && final(self).stats.downloaded == old(self).stats.downloaded
                    && final(self).stats.skipped == old(self).stats.skipped),
                DownloadOutcome::Failed => final(self).db.images_seen() == old(self).db.images_seen()
                    && final(self).db.images_written() == old(self).db.images_written()
                    && final(self).stats.failed == old(self).stats.failed + 1
                    && final(self).stats.downloaded == old(self).stats.downloaded
                    && final(self).stats.skipped == old(self).stats.skipped,
            },
    {
        proof {
            self.lemma_consumed_le_total();
        }
        self.awaiting = false;
        match outcome {
            DownloadOutcome::Saved { size } => {
                let img = nth_image(&self.posts[self.post_idx], self.image_idx);
                let p = &self.posts[self.post_idx];
                let file_name = image_filename(
                    p.author.handle.as_str(),
                    p.record.created_at.as_str(),
                    p.cid.as_str(),
                    self.image_idx as u64,
                    img.image.mime_type.as_str(),
                );
                let alt_text = match &img.alt {
                    Option::Some(t) => {
                        if t.as_str().unicode_len() == 0 {
                            Option::None
                        } else {
                            Option::Some(t.clone())
                        }
                    },
                    Option::None => Option::None,
                };
                let rec = ArchivedImage {
                    id: 0,
                    post_uri: p.uri.clone(),
                    blob_cid: img.image.ref_.link.clone(),
                    filename: file_name,
                    mime_type: img.image.mime_type.clone(),
                    size: size as i64,
                    alt_text,
                    downloaded_at: now_rfc3339(),
                };
                let ghost pre_dom = self.db.images_written().dom();
                proof {
                    self.db.lemma_written_within_seen();
                    assert(!pre_dom.contains(rec.blob_cid@));
                }
                match self.db.save_image(&rec) {
                    Ok(_) => {
                        proof {
                            assert(spec_image_entry_matches(
                                rec@,
                                self.current_post(),
                                self.image_idx as int,
                                size as int,
                            ));
                            assert(self.db.images_written().dom() =~= pre_dom.insert(
                                rec.blob_cid@,
                            ));
                            assert(self.db.images_written().dom().len() == pre_dom.len() + 1);
                        }
                        self.stats.downloaded = self.stats.downloaded + 1;
                    },
                    Err(_) => {
                        self.stats.failed = self.stats.failed + 1;
                    },
                }
            },
            DownloadOutcome::Failed => {
                self.stats.failed = self.stats.failed + 1;
            },
        }
        proof {
            lemma_units_upto_nonneg(self.posts@, self.post_idx as int);
            self.lemma_consumed_le_total();
        }
        self.image_idx = self.image_idx + 1;
    }
}

/// Whole-run form of the zero-attachment law: in every state of a run whose
/// retained posts all lack image attachments, nothing has been counted as
/// downloaded or skipped — such posts contribute only their metadata
/// records, and no download is ever requested for them.
pub proof fn lemma_zero_attachment_run(r: ArchiveRun)
    requires
        r.wf(),
        forall|i: int|
            0 <= i < r.posts@.len() ==> spec_post_images(#[trigger] r.posts@[i]).len() == 0,
    ensures
        r.stats.downloaded == 0,
        r.stats.skipped == 0,
{
    lemma_images_upto_zero(r.posts@, r.post_idx as int);
    if r.entered {
        assert(spec_post_images(r.posts@[r.post_idx as int]).len() == 0);
    }
}

/// Whole-run form of the dedup law: every successful download of a run is
/// matched by a record under a distinct blob identifier, so within one run
/// no blob is ever downloaded and recorded twice.
pub proof fn lemma_downloads_distinct(r: ArchiveRun)
    requires
        r.wf(),
    ensures
        r.stats.downloaded <= r.db.images_written().dom().len(),
{
}

/// Consumes a bounded sequence of posts, filters by content-warning policy,
/// and archives every unseen image.
pub struct Archiver {
    /// The dedup store this archiver writes to.
    pub db: Database,
    /// Base directory that image files go under.
    pub output_dir: String,
}

impl Archiver {
    /// Pair a dedup store with an output directory.
    pub fn new(db: Database, output_dir: String) -> (a: Archiver)
        ensures
            a.db == db,
            a.output_dir == output_dir,
    {
        Archiver { db, output_dir }
    }

    /// Filter the input by the content-warning policy and start the run.
    ///
    /// The returned run holds exactly the retained posts, in input order,
    /// with every counter at zero.
    #[verifier::loop_isolation(false)]
    pub fn archive_posts(self, posts: Vec<Post>, nsfw_only: bool) -> (run: ArchiveRun)
        requires
            self.db.wf(),
            spec_units_total(posts@) < usize::MAX,
        ensures
            run.wf(),
            run.posts@ == spec_retained(posts@, nsfw_only),
            run.post_idx == 0,
            !run.entered,
            !run.awaiting,
            run.stats.downloaded == 0,
            run.stats.skipped == 0,
            run.stats.failed == 0,
            run.db.posts_seen() == self.db.posts_seen(),
            run.db.images_seen() == self.db.images_seen(),
            run.output_dir == self.output_dir,
    {
        let ghost orig = posts@;
        let mut remaining = posts;
        let n = remaining.len();
        proof {
            assert(orig.len() == n);
        }
        let mut kept: Vec<Post> = Vec::new();
        let mut j: usize = 0;
        proof {
            assert(kept@ =~= spec_retained(orig.take(0), nsfw_only));
        }
        while remaining.len() > 0
            invariant
                j + remaining@.len() == orig.len(),
                orig.len() <= usize::MAX,
                remaining@ =~= orig.skip(j as int),
                kept@ == spec_retained(orig.take(j as int), nsfw_only),
            decreases remaining@.len(),
        {
            let p = remaining.remove(0);
            proof {
                assert(orig[j as int] == p);
                lemma_retained_take_step(orig, nsfw_only, j as int);
                assert(remaining@ =~= orig.skip(j as int + 1));
            }
            let keep = !nsfw_only || p.has_nsfw_labels();
            if keep {
                kept.push(p);
            }
            j += 1;
        }
        proof {
            assert(orig.take(j as int) =~= orig);
            lemma_retained_units_le(orig, nsfw_only);
        }
        ArchiveRun {
            db: self.db,
            output_dir: self.output_dir,
            posts: kept,
            post_idx: 0,
            entered: false,
            image_idx: 0,
            awaiting: false,
            stats: ArchiveStats { downloaded: 0, skipped: 0, failed: 0 },
        }
    }
}

} // verus!
