//! Identifier-keyed dedup store.
//!
//! The store answers "has this post / this blob been seen" and records both
//! kinds of identifier.  Verified state lives in an in-memory mirror: the
//! two key columns, loaded once when the store opens, and a log of the full
//! records written this run.  Every write goes through a row builder whose
//! contract pins each parameter handed to the embedded SQL engine, so the
//! durable row and the verified model say the same thing.  The store has a
//! single writer per run, so the mirror and the durable tables stay in
//! step.

use vstd::prelude::*;
use crate::text::{spec_digits, str_eq, u64_to_string};

verus! {

/// Connection handle of the embedded SQL engine.
#[verifier::external_type_specification]
#[verifier::external_body]
pub struct ExConnection(rusqlite::Connection);

/// Error type of the embedded SQL engine.
#[verifier::external_type_specification]
#[verifier::external_body]
pub struct ExRusqliteError(rusqlite::Error);

/// Relies on `rusqlite::Connection::open`: opens, creating it if missing,
/// the database file at `path`.
#[verifier::external_body]
fn open_connection(path: &str) -> (r: Result<rusqlite::Connection, rusqlite::Error>) {
    rusqlite::Connection::open(path)
}

/// Relies on `rusqlite::Connection::execute`: runs one SQL statement with
/// the given text parameters, `None` binding NULL.
#[verifier::external_body]
fn db_execute(conn: &rusqlite::Connection, sql: &str, args: &Vec<Option<String>>) -> (r: Result<
    (),
    rusqlite::Error,
>) {
    match conn.execute(sql, rusqlite::params_from_iter(args.iter())) {
        Ok(_) => Ok(()),
        Err(e) => Err(e),
    }
}

/// Relies on `rusqlite::Statement::query_map`: runs a query and collects the
/// first column of every row as text.
#[verifier::external_body]
fn db_query_strings(conn: &rusqlite::Connection, sql: &str) -> (r: Result<
    Vec<String>,
    rusqlite::Error,
>) {
    let mut stmt = conn.prepare(sql)?;
    let rows = stmt.query_map([], |row| row.get::<_, String>(0))?;
    let mut out = Vec::new();
    for row in rows {
        out.push(row?);
    }
    Ok(out)
}

/// Relies on the SQL engine error's display form to describe a failure.
#[verifier::external_body]
fn describe_db_error(e: &rusqlite::Error) -> (r: String) {
    format!("{}", e)
}

/// Persisted projection of a processed post, upserted on every processing
/// and keyed by URI.
#[derive(Debug, Clone)]
pub struct ArchivedPost {
    pub uri: String,
    pub cid: String,
    pub author_did: String,
    pub author_handle: String,
    pub post_text: Option<String>,
    pub image_count: i32,
    pub archived_at: String,
    pub post_created_at: String,
    pub has_content_warning: bool,
}

/// Persisted projection of a downloaded image, created once per distinct
/// blob identifier.
#[derive(Debug, Clone)]
pub struct ArchivedImage {
    pub id: i64,
    pub post_uri: String,
    pub blob_cid: String,
    pub filename: String,
    pub mime_type: String,
    pub size: i64,
    pub alt_text: Option<String>,
    pub downloaded_at: String,
}

/// A failure of the dedup store, carrying the engine's description.
#[derive(Debug)]
pub struct DbError {
    pub message: String,
}

/// Mathematical view of an [`ArchivedPost`]: every field as a plain value.
pub struct ArchivedPostV {
    pub uri: Seq<char>,
    pub cid: Seq<char>,
    pub author_did: Seq<char>,
    pub author_handle: Seq<char>,
    pub post_text: Option<Seq<char>>,
    pub image_count: int,
    pub archived_at: Seq<char>,
    pub post_created_at: Seq<char>,
    pub has_content_warning: bool,
}

impl View for ArchivedPost {
    type V = ArchivedPostV;

    open spec fn view(&self) -> ArchivedPostV {
        ArchivedPostV {
            uri: self.uri@,
            cid: self.cid@,
            author_did: self.author_did@,
            author_handle: self.author_handle@,
            post_text: match self.post_text {
                Option::Some(t) => Option::Some(t@),
                Option::None => Option::None,
            },
            image_count: self.image_count as int,
            archived_at: self.archived_at@,
            post_created_at: self.post_created_at@,
            has_content_warning: self.has_content_warning,
        }
    }
}

/// Mathematical view of an [`ArchivedImage`]: every field as a plain value.
pub struct ArchivedImageV {
    pub id: int,
    pub post_uri: Seq<char>,
    pub blob_cid: Seq<char>,
    pub filename: Seq<char>,
    pub mime_type: Seq<char>,
    pub size: int,
    pub alt_text: Option<Seq<char>>,
    pub downloaded_at: Seq<char>,
}

impl View for ArchivedImage {
    type V = ArchivedImageV;

    open spec fn view(&self) -> ArchivedImageV {
        ArchivedImageV {
            id: self.id as int,
            post_uri: self.post_uri@,
            blob_cid: self.blob_cid@,
            filename: self.filename@,
            mime_type: self.mime_type@,
            size: self.size as int,
            alt_text: match self.alt_text {
                Option::Some(t) => Option::Some(t@),
                Option::None => Option::None,
            },
            downloaded_at: self.downloaded_at@,
        }
    }
}

/// The views of a sequence of strings.
pub open spec fn views_of(v: Seq<String>) -> Seq<Seq<char>> {
    v.map_values(|s: String| s@)
}

fn vec_contains_str(v: &Vec<String>, x: &str) -> (r: bool)
    ensures
        r == views_of(v@).contains(x@),
{
    let n = v.len();
    let mut i: usize = 0;
    while i < n
        invariant
            n == v@.len(),
            i <= n,
            forall|j: int| 0 <= j < i ==> v@[j]@ != x@,
        decreases n - i,
    {
        if str_eq(v[i].as_str(), x) {
            proof {
                assert(views_of(v@)[i as int] == x@);
            }
            return true;
        }
        i += 1;
    }
    proof {
        assert forall|j: int| 0 <= j < views_of(v@).len() implies views_of(v@)[j] != x@ by {
            assert(views_of(v@)[j] == v@[j]@);
        }
    }
    false
}

proof fn lemma_views_push(v: Seq<String>, x: String)
    ensures
        views_of(v.push(x)) =~= views_of(v).push(x@),
{
}

proof fn lemma_to_set_push(s: Seq<Seq<char>>, x: Seq<char>)
    ensures
        s.push(x).to_set() =~= s.to_set().insert(x),
{
    assert forall|a: Seq<char>| s.push(x).to_set().contains(a) implies s.to_set().insert(
        x,
    ).contains(a) by {
        let i = choose|i: int| 0 <= i < s.push(x).len() && s.push(x)[i] == a;
        if i < s.len() {
            assert(s[i] == a);
        }
    }
    assert forall|a: Seq<char>| s.to_set().insert(x).contains(a) implies s.push(x).to_set().contains(
        a,
    ) by {
        if a == x {
            assert(s.push(x)[s.len() as int] == a);
        } else {
            let i = choose|i: int| 0 <= i < s.len() && s[i] == a;
            assert(s.push(x)[i] == a);
        }
    }
}

proof fn lemma_no_dup_push(s: Seq<Seq<char>>, x: Seq<char>)
    requires
        s.no_duplicates(),
        !s.contains(x),
    ensures
        s.push(x).no_duplicates(),
{
    let t = s.push(x);
    assert forall|i: int, j: int| 0 <= i < t.len() && 0 <= j < t.len() && i != j implies t[i]
        != t[j] by {
        if i < s.len() && j < s.len() {
            assert(s[i] == t[i] && s[j] == t[j]);
        } else if i < s.len() {
            assert(t[j] == x && t[i] == s[i]);
        } else {
            assert(t[i] == x && t[j] == s[j]);
        }
    }
}

fn dedup_strings(v: Vec<String>) -> (r: Vec<String>)
    ensures
        views_of(r@).no_duplicates(),
        views_of(r@).to_set() == views_of(v@).to_set(),
{
    let n = v.len();
    let mut out: Vec<String> = Vec::new();
    let mut i: usize = 0;
    proof {
        assert(views_of(out@).to_set() =~= views_of(v@.take(0)).to_set());
    }
    while i < n
        invariant
            n == v@.len(),
            i <= n,
            views_of(out@).no_duplicates(),
            views_of(out@).to_set() == views_of(v@.take(i as int)).to_set(),
        decreases n - i,
    {
        let ghost pre_out = out@;
        let s = v[i].clone();
        let dup = vec_contains_str(&out, s.as_str());
        if !dup {
            out.push(s);
        }
        proof {
            let tv = views_of(v@.take(i as int));
            let tv1 = views_of(v@.take(i + 1));
            assert(v@.take(i + 1) =~= v@.take(i as int).push(v@[i as int]));
            lemma_views_push(v@.take(i as int), v@[i as int]);
            assert(tv1 =~= tv.push(v@[i as int]@));
            lemma_to_set_push(tv, v@[i as int]@);
            if !dup {
                lemma_views_push(pre_out, v@[i as int]);
                assert(views_of(out@) =~= views_of(pre_out).push(v@[i as int]@));
                lemma_to_set_push(views_of(pre_out), v@[i as int]@);
                lemma_no_dup_push(views_of(pre_out), v@[i as int]@);
                assert(views_of(out@).to_set() =~= tv1.to_set());
            } else {
                assert(views_of(pre_out).to_set().contains(v@[i as int]@));
                assert(views_of(out@).to_set() =~= tv1.to_set());
            }
        }
        i += 1;
    }
    proof {
        assert(v@.take(n as int) =~= v@);
    }
    out
}

fn opt_text(t: &Option<String>) -> (r: Option<String>)
    ensures
        match t {
            Option::Some(s) => r matches Option::Some(x) && x@ == s@,
            Option::None => r is None,
        },
{
    match t {
        Option::Some(s) => Option::Some(s.clone()),
        Option::None => Option::None,
    }
}

/// The parameter row handed to the engine for a post upsert, in column
/// order: uri, cid, author did, author handle, text, image count,
/// archive timestamp, creation timestamp, content-warning flag.
fn post_row(post: &ArchivedPost) -> (r: Vec<Option<String>>)
    requires
        post.image_count >= 0,
    ensures
        r@.len() == 9,
        (r@[0] matches Option::Some(s) && s@ == post.uri@),
        (r@[1] matches Option::Some(s) && s@ == post.cid@),
        (r@[2] matches Option::Some(s) && s@ == post.author_did@),
        (r@[3] matches Option::Some(s) && s@ == post.author_handle@),
        (match post.post_text {
            Option::Some(t) => r@[4] matches Option::Some(s) && s@ == t@,
            Option::None => r@[4] is None,
        }),
        (r@[5] matches Option::Some(s) && s@ == spec_digits(post.image_count as int)),
        (r@[6] matches Option::Some(s) && s@ == post.archived_at@),
        (r@[7] matches Option::Some(s) && s@ == post.post_created_at@),
        (r@[8] matches Option::Some(s) && s@ == (if post.has_content_warning {
            "1"@
        } else {
            "0"@
        })),
{
    let mut r: Vec<Option<String>> = Vec::new();
    r.push(Option::Some(post.uri.clone()));
    r.push(Option::Some(post.cid.clone()));
    r.push(Option::Some(post.author_did.clone()));
    r.push(Option::Some(post.author_handle.clone()));
    r.push(opt_text(&post.post_text));
    r.push(Option::Some(u64_to_string(post.image_count as u64)));
    r.push(Option::Some(post.archived_at.clone()));
    r.push(Option::Some(post.post_created_at.clone()));
    r.push(
        Option::Some(
            String::from_str(
                if post.has_content_warning {
                    "1"
                } else {
                    "0"
                },
            ),
        ),
    );
    r
}

/// The parameter row handed to the engine for an image record, in column
/// order: post uri, blob identifier, file name, MIME type, byte size,
/// alt text, download timestamp.
fn image_row(image: &ArchivedImage) -> (r: Vec<Option<String>>)
    requires
        image.size >= 0,
    ensures
        r@.len() == 7,
        (r@[0] matches Option::Some(s) && s@ == image.post_uri@),
        (r@[1] matches Option::Some(s) && s@ == image.blob_cid@),
        (r@[2] matches Option::Some(s) && s@ == image.filename@),
        (r@[3] matches Option::Some(s) && s@ == image.mime_type@),
        (r@[4] matches Option::Some(s) && s@ == spec_digits(image.size as int)),
        (match image.alt_text {
            Option::Some(t) => r@[5] matches Option::Some(s) && s@ == t@,
            Option::None => r@[5] is None,
        }),
        (r@[6] matches Option::Some(s) && s@ == image.downloaded_at@),
{
    let mut r: Vec<Option<String>> = Vec::new();
    r.push(Option::Some(image.post_uri.clone()));
    r.push(Option::Some(image.blob_cid.clone()));
    r.push(Option::Some(image.filename.clone()));
    r.push(Option::Some(image.mime_type.clone()));
    r.push(Option::Some(u64_to_string(image.size as u64)));
    r.push(opt_text(&image.alt_text));
    r.push(Option::Some(image.downloaded_at.clone()));
    r
}

/// The dedup store: the engine connection, the verified mirror of the two
/// key columns, and the log of the records this run handed to the engine.
pub struct Database {
    conn: rusqlite::Connection,
    post_uris: Vec<String>,
    image_cids: Vec<String>,
    posts_log: Ghost<Map<Seq<char>, ArchivedPostV>>,
    images_log: Ghost<Map<Seq<char>, ArchivedImageV>>,
}

impl Database {
    /// The set of post URIs recorded so far.
    pub closed spec fn posts_seen(&self) -> Set<Seq<char>> {
        views_of(self.post_uris@).to_set()
    }

    /// The set of blob identifiers recorded so far.
    pub closed spec fn images_seen(&self) -> Set<Seq<char>> {
        views_of(self.image_cids@).to_set()
    }

    /// The post records this run handed to the engine, by URI.  The engine
    /// keeps the last row written per key, so an entry here is the stored
    /// row's content (rows from earlier runs are known by key only, through
    /// [`Database::posts_seen`]).
    pub closed spec fn posts_written(&self) -> Map<Seq<char>, ArchivedPostV> {
        self.posts_log@
    }

    /// The image records this run handed to the engine, by blob identifier.
    pub closed spec fn images_written(&self) -> Map<Seq<char>, ArchivedImageV> {
        self.images_log@
    }

    /// The mirror holds each key once, and every record written this run
    /// is keyed among the seen identifiers.
    pub closed spec fn wf(&self) -> bool {
        &&& views_of(self.post_uris@).no_duplicates()
        &&& views_of(self.image_cids@).no_duplicates()
        &&& self.posts_log@.dom().subset_of(self.posts_seen())
        &&& self.images_log@.dom().subset_of(self.images_seen())
        &&& self.posts_log@.dom().finite()
        &&& self.images_log@.dom().finite()
    }

    /// What the well-formed store guarantees of its written-record log:
    /// finitely many entries, each keyed by a seen identifier.
    pub proof fn lemma_written_within_seen(&self)
        requires
            self.wf(),
        ensures
            self.posts_written().dom().finite(),
            self.images_written().dom().finite(),
            self.posts_written().dom().subset_of(self.posts_seen()),
            self.images_written().dom().subset_of(self.images_seen()),
    {
    }

    /// Build the store state from the key columns the engine handed back:
    /// the seen sets are exactly the loaded identifiers, and nothing has
    /// been written yet this run.
    fn from_loaded(conn: rusqlite::Connection, uris: Vec<String>, cids: Vec<String>) -> (db:
        Database)
        ensures
            db.wf(),
            db.posts_seen() == views_of(uris@).to_set(),
            db.images_seen() == views_of(cids@).to_set(),
            db.posts_written() == Map::<Seq<char>, ArchivedPostV>::empty(),
            db.images_written() == Map::<Seq<char>, ArchivedImageV>::empty(),
    {
        let post_uris = dedup_strings(uris);
        let image_cids = dedup_strings(cids);
        let db = Database {
            conn,
            post_uris,
            image_cids,
            posts_log: Ghost(Map::empty()),
            images_log: Ghost(Map::empty()),
        };
        proof {
            assert(db.posts_log@.dom() =~= Set::<Seq<char>>::empty());
            assert(db.images_log@.dom() =~= Set::<Seq<char>>::empty());
        }
        db
    }

    /// Open the store at `path`, create its tables if missing, and load the
    /// already-recorded identifiers into the mirror.
    pub fn new(path: &str) -> (r: Result<Database, DbError>)
        ensures
            r matches Ok(db) ==> db.wf() && db.posts_written() == Map::<
                Seq<char>,
                ArchivedPostV,
            >::empty() && db.images_written() == Map::<Seq<char>, ArchivedImageV>::empty(),
    {
        let conn = match open_connection(path) {
            Ok(c) => c,
            Err(e) => return Err(DbError { message: describe_db_error(&e) }),
        };
        let no_args: Vec<Option<String>> = Vec::new();
        let create_posts =
            "CREATE TABLE IF NOT EXISTS archived_posts (\
             uri TEXT PRIMARY KEY, \
             cid TEXT NOT NULL, \
             author_did TEXT NOT NULL, \
             author_handle TEXT NOT NULL, \
             post_text TEXT, \
             image_count INTEGER NOT NULL, \
             archived_at TEXT NOT NULL, \
             post_created_at TEXT NOT NULL, \
             has_content_warning INTEGER NOT NULL DEFAULT 0)";
        if let Err(e) = db_execute(&conn, create_posts, &no_args) {
            return Err(DbError { message: describe_db_error(&e) });
        }
        let create_images =
            "CREATE TABLE IF NOT EXISTS archived_images (\
             id INTEGER PRIMARY KEY AUTOINCREMENT, \
             post_uri TEXT NOT NULL, \
             blob_cid TEXT NOT NULL UNIQUE, \
             filename TEXT NOT NULL, \
             mime_type TEXT NOT NULL, \
             size INTEGER NOT NULL, \
             alt_text TEXT, \
             downloaded_at TEXT NOT NULL, \
             FOREIGN KEY (post_uri) REFERENCES archived_posts(uri))";
        if let Err(e) = db_execute(&conn, create_images, &no_args) {
            return Err(DbError { message: describe_db_error(&e) });
        }
        if let Err(e) = db_execute(
            &conn,
            "CREATE INDEX IF NOT EXISTS idx_post_uri ON archived_images(post_uri)",
            &no_args,
        ) {
            return Err(DbError { message: describe_db_error(&e) });
        }
        if let Err(e) = db_execute(
            &conn,
            "CREATE INDEX IF NOT EXISTS idx_blob_cid ON archived_images(blob_cid)",
            &no_args,
        ) {
            return Err(DbError { message: describe_db_error(&e) });
        }
        let uris = match db_query_strings(&conn, "SELECT uri FROM archived_posts") {
            Ok(v) => v,
            Err(e) => return Err(DbError { message: describe_db_error(&e) }),
        };
        let cids = match db_query_strings(&conn, "SELECT blob_cid FROM archived_images") {
            Ok(v) => v,
            Err(e) => return Err(DbError { message: describe_db_error(&e) }),
        };
        Ok(Self::from_loaded(conn, uris, cids))
    }

    /// Whether a post with this URI was already recorded.
    pub fn is_post_archived(&self, uri: &str) -> (r: bool)
        requires
            self.wf(),
        ensures
            r == self.posts_seen().contains(uri@),
    {
        vec_contains_str(&self.post_uris, uri)
    }

    /// Whether this blob identifier was already recorded.
    pub fn is_image_archived(&self, blob_cid: &str) -> (r: bool)
        requires
            self.wf(),
        ensures
            r == self.images_seen().contains(blob_cid@),
    {
        vec_contains_str(&self.image_cids, blob_cid)
    }

    /// Record a processed post, overwriting any prior record with the same
    /// URI: afterwards the row keyed by the post's URI holds exactly this
    /// record's values.  On an engine failure nothing is recorded.
    pub fn save_post(&mut self, post: &ArchivedPost) -> (r: Result<(), DbError>)
        requires
            old(self).wf(),
            post.image_count >= 0,
        ensures
            final(self).wf(),
            final(self).images_seen() == old(self).images_seen(),
            final(self).images_written() == old(self).images_written(),
            r is Ok ==> final(self).posts_seen() == old(self).posts_seen().insert(post.uri@)
                && final(self).posts_written() == old(self).posts_written().insert(
                post.uri@,
                post@,
            ),
            r is Err ==> final(self).posts_seen() == old(self).posts_seen() && final(self).posts_written() == old(self).posts_written(),
    {
        let args = post_row(post);
        let sql =
            "INSERT OR REPLACE INTO archived_posts \
             (uri, cid, author_did, author_handle, post_text, image_count, \
              archived_at, post_created_at, has_content_warning) \
             VALUES (?1, ?2, ?3, ?4, ?5, ?6, ?7, ?8, ?9)";
        match db_execute(&self.conn, sql, &args) {
            Ok(_) => {
                let ghost pre = self.post_uris@;
                if !vec_contains_str(&self.post_uris, post.uri.as_str()) {
                    self.post_uris.push(post.uri.clone());
                    proof {
                        lemma_views_push(pre, post.uri);
                        assert(views_of(self.post_uris@) =~= views_of(pre).push(post.uri@));
                        lemma_to_set_push(views_of(pre), post.uri@);
                        lemma_no_dup_push(views_of(pre), post.uri@);
                    }
                } else {
                    proof {
                        assert(self.posts_seen() =~= old(self).posts_seen().insert(post.uri@));
                    }
                }
                self.posts_log = Ghost(self.posts_log@.insert(post.uri@, post@));
                proof {
                    assert(self.posts_log@.dom() =~= old(self).posts_log@.dom().insert(post.uri@));
                    assert(self.posts_log@.dom().subset_of(self.posts_seen()));
                }
                Ok(())
            },
            Err(e) => Err(DbError { message: describe_db_error(&e) }),
        }
    }

    /// Record a downloaded image under its blob identifier: afterwards the
    /// row keyed by that identifier holds exactly this record's values.
    /// Recording the same identifier again overwrites the row and leaves
    /// the set of seen identifiers unchanged.  On an engine failure nothing
    /// is recorded.
    pub fn save_image(&mut self, image: &ArchivedImage) -> (r: Result<(), DbError>)
        requires
            old(self).wf(),
            image.size >= 0,
        ensures
            final(self).wf(),
            final(self).posts_seen() == old(self).posts_seen(),
            final(self).posts_written() == old(self).posts_written(),
            r is Ok ==> final(self).images_seen() == old(self).images_seen().insert(
                image.blob_cid@,
            ) && final(self).images_written() == old(self).images_written().insert(
                image.blob_cid@,
                image@,
            ),
            r is Err ==> final(self).images_seen() == old(self).images_seen() && final(self).images_written() == old(self).images_written(),
    {
        let args = image_row(image);
        let sql =
            "INSERT OR REPLACE INTO archived_images \
             (post_uri, blob_cid, filename, mime_type, size, alt_text, downloaded_at) \
             VALUES (?1, ?2, ?3, ?4, ?5, ?6, ?7)";
        match db_execute(&self.conn, sql, &args) {
            Ok(_) => {
                let ghost pre = self.image_cids@;
                if !vec_contains_str(&self.image_cids, image.blob_cid.as_str()) {
                    self.image_cids.push(image.blob_cid.clone());
                    proof {
                        lemma_views_push(pre, image.blob_cid);
                        assert(views_of(self.image_cids@) =~= views_of(pre).push(image.blob_cid@));
                        lemma_to_set_push(views_of(pre), image.blob_cid@);
                        lemma_no_dup_push(views_of(pre), image.blob_cid@);
                    }
                } else {
                    proof {
                        assert(self.images_seen() =~= old(self).images_seen().insert(
                            image.blob_cid@,
                        ));
                    }
                }
                self.images_log = Ghost(self.images_log@.insert(image.blob_cid@, image@));
                proof {
                    assert(self.images_log@.dom() =~= old(self).images_log@.dom().insert(
                        image.blob_cid@,
                    ));
                    assert(self.images_log@.dom().subset_of(self.images_seen()));
                }
                Ok(())
            },
            Err(e) => Err(DbError { message: describe_db_error(&e) }),
        }
    }

    /// How many distinct posts and how many distinct images are recorded.
    pub fn get_stats(&self) -> (r: (usize, usize))
        requires
            self.wf(),
        ensures
            r.0 == self.posts_seen().len(),
            r.1 == self.images_seen().len(),
    {
        proof {
            views_of(self.post_uris@).unique_seq_to_set();
            views_of(self.image_cids@).unique_seq_to_set();
        }
        (self.post_uris.len(), self.image_cids.len())
    }
}

} // verus!
