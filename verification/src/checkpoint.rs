//! Checkpoint codec for the pagination cursor.
//!
//! A run persists its cursor in a small plain-text file, one file per fetch
//! target.  The library owns the file-name derivation and the content codec;
//! the caller owns the actual reads and writes.  Saving writes the raw cursor
//! token; loading trims surrounding whitespace; clearing removes the file, so
//! a later load sees no cursor at all.

use vstd::prelude::*;

verus! {

/// The whitespace characters the loader strips from a stored cursor.
pub open spec fn is_space(c: char) -> bool {
    c == ' ' || c == '\n' || c == '\t' || c == '\r'
}

/// `s` without its leading whitespace.
pub open spec fn trim_start(s: Seq<char>) -> Seq<char>
    decreases s.len(),
{
    if s.len() > 0 && is_space(s[0]) {
        trim_start(s.drop_first())
    } else {
        s
    }
}

/// `s` without its trailing whitespace.
pub open spec fn trim_end(s: Seq<char>) -> Seq<char>
    decreases s.len(),
{
    if s.len() > 0 && is_space(s.last()) {
        trim_end(s.drop_last())
    } else {
        s
    }
}

/// `s` without leading or trailing whitespace.
pub open spec fn trimmed(s: Seq<char>) -> Seq<char> {
    trim_end(trim_start(s))
}

proof fn lemma_trim_start_subrange(s: Seq<char>, k: int)
    requires
        0 <= k <= s.len(),
        forall|j: int| 0 <= j < k ==> is_space(s[j]),
        k < s.len() ==> !is_space(s[k]),
    ensures
        trim_start(s) == s.subrange(k, s.len() as int),
    decreases k,
{
    if k == 0 {
        assert(s.subrange(0, s.len() as int) =~= s);
    } else {
        let t = s.drop_first();
        assert(forall|j: int| 0 <= j < k - 1 ==> s[j + 1] == t[j] && is_space(t[j]));
        lemma_trim_start_subrange(t, k - 1);
        assert(t.subrange(k - 1, t.len() as int) =~= s.subrange(k, s.len() as int));
    }
}

proof fn lemma_trim_end_subrange(s: Seq<char>, k: int)
    requires
        0 <= k <= s.len(),
        forall|j: int| s.len() - k <= j < s.len() ==> is_space(s[j]),
        k < s.len() ==> !is_space(s[s.len() - k - 1]),
    ensures
        trim_end(s) == s.subrange(0, s.len() - k),
    decreases k,
{
    if k == 0 {
        assert(s.subrange(0, s.len() as int) =~= s);
    } else {
        let t = s.drop_last();
        lemma_trim_end_subrange(t, k - 1);
        assert(t.subrange(0, t.len() - (k - 1)) =~= s.subrange(0, s.len() - k));
    }
}

fn scan_leading_spaces(s: &str) -> (a: usize)
    ensures
        a <= s@.len(),
        forall|j: int| 0 <= j < a ==> is_space(s@[j]),
        a < s@.len() ==> !is_space(s@[a as int]),
{
    let len = s.unicode_len();
    let mut a: usize = 0;
    while a < len
        invariant
            len == s@.len(),
            a <= len,
            forall|j: int| 0 <= j < a ==> is_space(s@[j]),
        decreases len - a,
    {
        let c = s.get_char(a);
        if !(c == ' ' || c == '\n' || c == '\t' || c == '\r') {
            return a;
        }
        a += 1;
    }
    a
}

fn scan_trailing_spaces(s: &str, a: usize) -> (b: usize)
    requires
        a <= s@.len(),
    ensures
        a <= b <= s@.len(),
        forall|j: int| b <= j < s@.len() ==> is_space(s@[j]),
        a < b ==> !is_space(s@[b - 1]),
{
    let len = s.unicode_len();
    let mut b: usize = len;
    while b > a
        invariant
            len == s@.len(),
            a <= b <= len,
            forall|j: int| b <= j < len ==> is_space(s@[j]),
        decreases b,
    {
        let c = s.get_char(b - 1);
        if !(c == ' ' || c == '\n' || c == '\t' || c == '\r') {
            return b;
        }
        b -= 1;
    }
    b
}

/// Strip leading and trailing whitespace from a stored cursor token.
pub fn trim_whitespace(s: &str) -> (r: String)
    ensures
        r@ == trimmed(s@),
{
    let a = scan_leading_spaces(s);
    let b = scan_trailing_spaces(s, a);
    proof {
        lemma_trim_start_subrange(s@, a as int);
        let t = s@.subrange(a as int, s@.len() as int);
        assert(forall|j: int| 0 <= j < t.len() ==> t[j] == s@[a + j]);
        lemma_trim_end_subrange(t, s@.len() - b);
        assert(t.subrange(0, t.len() - (s@.len() - b)) =~= s@.subrange(a as int, b as int));
    }
    let piece = s.substring_char(a, b);
    String::from_str(piece)
}

/// What a load of the checkpoint file yields: `None` when the file is
/// absent (never saved, or cleared), otherwise the stored token trimmed.
pub open spec fn spec_load_checkpoint(file: Option<Seq<char>>) -> Option<Seq<char>> {
    match file {
        Option::None => Option::None,
        Option::Some(s) => Option::Some(trimmed(s)),
    }
}

/// Interpret the checkpoint file's contents, `None` standing for an absent
/// file.
pub fn load_checkpoint(contents: Option<&str>) -> (r: Option<String>)
    ensures
        match contents {
            Option::None => r is None,
            Option::Some(s) => r matches Option::Some(c) && c@ == trimmed(s@),
        },
{
    match contents {
        Option::None => Option::None,
        Option::Some(s) => Option::Some(trim_whitespace(s)),
    }
}

/// Saving cursor `c` then loading yields exactly `c`, and clearing then
/// loading yields no cursor, provided the token carries no surrounding
/// whitespace of its own.
pub proof fn lemma_checkpoint_round_trip(c: Seq<char>)
    requires
        trimmed(c) == c,
    ensures
        spec_load_checkpoint(Option::Some(c)) == Option::Some(c),
        spec_load_checkpoint(Option::None) is None,
{
}

/// The checkpoint file name for a fetch target: likes runs share one file,
/// and each author-feed target gets a file of its own.
pub fn checkpoint_file_name(target_actor: Option<&str>) -> (r: String)
    ensures
        match target_actor {
            Option::None => r@ == ".cursor"@,
            Option::Some(actor) => r@ == ".cursor_"@ + actor@,
        },
{
    match target_actor {
        Option::None => String::from_str(".cursor"),
        Option::Some(actor) => {
            let mut s = String::from_str(".cursor_");
            s.append(actor);
            s
        },
    }
}

} // verus!
