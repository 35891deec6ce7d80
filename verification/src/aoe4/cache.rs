//! Answers of the site that are kept on disk.

use crate::json::{self, Doc, Fields, Json};
use crate::path;
use crate::text;
use vstd::prelude::*;

verus! {

/// The directory for what is kept: the one that is set, or one below the home directory.
pub fn kb_dir(set: Option<&str>, home: Option<&str>) -> (r: String)
    ensures
        r@ == match (set, home) {
            (Some(dir), _) => dir@,
            (None, Some(h)) => path::below(h@, ".aoe4world-mcp"@),
            (None, None) => "/tmp/.aoe4world-mcp"@,
        },
{
    match set {
        Some(dir) => dir.to_owned(),
        None => match home {
            Some(h) => path::join(h, ".aoe4world-mcp"),
            None => "/tmp/.aoe4world-mcp".to_owned(),
        },
    }
}

/// How long an answer is fresh, in seconds: searches change fast, games slower, the rest slowest.
pub open spec fn freshness(p: Seq<char>) -> u64 {
    if text::mentions(p, "/search?"@) {
        60
    } else if text::mentions(p, "/games"@) {
        120
    } else {
        300
    }
}

/// How long an answer is fresh, in seconds.
pub fn cache_ttl(path: &str) -> (r: u64)
    ensures
        r == freshness(path@),
{
    if text::contains(path, "/search?") {
        60
    } else if text::contains(path, "/games") {
        120
    } else {
        300
    }
}

/// The hash before the first byte.
pub const HASH_START: u64 = 0xcbf2_9ce4_8422_2325;

/// What the hash is multiplied with after each byte.
pub const HASH_PRIME: u64 = 0x0000_0100_0000_01b3;

/// The FNV-1a hash of the first `n` bytes.
pub open spec fn hash(bytes: Seq<u8>, n: nat) -> u64
    decreases n,
{
    if n == 0 {
        HASH_START
    } else {
        (hash(bytes, (n - 1) as nat) ^ (bytes[n - 1] as u64)).wrapping_mul(HASH_PRIME)
    }
}

/// `s` with every other character than ASCII letters and digits replaced.
pub open spec fn masked(s: Seq<char>) -> Seq<char> {
    s.map_values(
        |c: char|
            if text::is_plain(c) {
                c
            } else {
                '_'
            },
    )
}

/// How much of the path a file's name shows.
pub const SHOWN: usize = 40;

/// The start of a path as a file's name shows it.
pub open spec fn shown(p: Seq<char>) -> Seq<char> {
    if p.len() < SHOWN {
        masked(p)
    } else {
        masked(p).take(SHOWN as int)
    }
}

/// The name of the file that keeps the answer to a path.
pub open spec fn key(p: Seq<char>) -> Seq<char> {
    let bytes = vstd::utf8::encode_utf8(p);
    shown(p) + "-"@ + json::hex_padded(hash(bytes, bytes.len()) as nat, 16) + ".json"@
}

/// The last `width` hexadecimal digits of `n`.
fn hex_text(n: u64, width: usize) -> (r: String)
    ensures
        r@ == json::hex_padded(n as nat, width as nat),
    decreases width,
{
    if width == 0 {
        return String::new();
    }
    let mut out = hex_text(n / 16, width - 1);
    let d: u8 = (n % 16) as u8;
    let c: char = if d < 10 {
        (48 + d) as char
    } else {
        (87 + d) as char
    };
    out.push(c);
    out
}

/// The name of the file that keeps the answer to a path: what can be shown of the path, and a
/// hash of all of it.
pub fn cache_key(path: &str) -> (r: String)
    ensures
        r@ == key(path@),
{
    let bytes = path.as_bytes();
    let mut h: u64 = HASH_START;
    let mut i: usize = 0;
    while i < bytes.len()
        invariant
            i <= bytes@.len(),
            h == hash(bytes@, i as nat),
        decreases bytes@.len() - i,
    {
        h = (h ^ (bytes[i] as u64)).wrapping_mul(HASH_PRIME);
        i = i + 1;
    }
    let cs = text::chars(path);
    let n: usize = if cs.len() < SHOWN {
        cs.len()
    } else {
        SHOWN
    };
    let mut safe = String::new();
    let mut k: usize = 0;
    while k < n
        invariant
            k <= n <= cs@.len(),
            cs@ == path@,
            safe@ == masked(path@).take(k as int),
        decreases n - k,
    {
        let c: char = if text::plain(cs[k]) {
            cs[k]
        } else {
            '_'
        };
        safe.push(c);
        assert(safe@ =~= masked(path@).take(k + 1));
        k = k + 1;
    }
    assert(safe@ =~= shown(path@));
    text::cat4(safe.as_str(), "-", hex_text(h, 16).as_str(), ".json")
}

/// The file that keeps the answer to a path.
pub fn cache_file(dir: &str, path: &str) -> (r: String)
    ensures
        r@ == path::below(path::below(dir@, "cache"@), key(path@)),
{
    let below = path::join(dir, "cache");
    path::join(below.as_str(), cache_key(path).as_str())
}

/// Whether `c` may stand in the name of a kept file.
pub open spec fn allowed(c: char) -> bool {
    text::is_plain(c) || c == '_' || c == '-' || c == '.'
}

proof fn lemma_hex_padded(n: nat, width: nat)
    ensures
        json::hex_padded(n, width).len() == width,
        forall|i: int| 0 <= i < width ==> text::is_plain(#[trigger] json::hex_padded(n, width)[i]),
    decreases width,
{
    if width > 0 {
        lemma_hex_padded(n / 16, (width - 1) as nat);
        let d = (n % 16) as int;
        assert(0 <= d < 16);
        if d < 10 {
            assert((48 + d) as u8 as char >= '0');
        } else {
            assert((87 + d) as u8 as char >= 'a');
        }
    }
}

/// The name of a kept file holds only letters, digits, underscores, hyphens and full stops, and
/// at most sixty-two of them: it names no other directory, whatever the path is.
pub proof fn lemma_key_is_a_name(p: Seq<char>)
    ensures
        key(p).len() <= 62,
        forall|i: int| 0 <= i < key(p).len() ==> allowed(#[trigger] key(p)[i]),
{
    reveal_strlit("-");
    reveal_strlit(".json");
    let bytes = vstd::utf8::encode_utf8(p);
    let h = json::hex_padded(hash(bytes, bytes.len()) as nat, 16);
    lemma_hex_padded(hash(bytes, bytes.len()) as nat, 16);
    let s = shown(p);
    assert(forall|i: int| 0 <= i < s.len() ==> allowed(#[trigger] s[i]));
    assert forall|i: int| 0 <= i < key(p).len() implies allowed(#[trigger] key(p)[i]) by {
        if i < s.len() {
            assert(key(p)[i] == s[i]);
        } else if i < s.len() + 1 {
            assert(key(p)[i] == "-"@[0]);
        } else if i < s.len() + 17 {
            assert(key(p)[i] == h[i - s.len() - 1]);
        } else {
            assert(key(p)[i] == ".json"@[i - s.len() - 17]);
        }
    }
}

/// An answer with the time at which it came.
pub open spec fn record_doc(now: u64, body: Doc) -> Doc {
    Doc::Object(json::fields().push(("fetched_at"@, Doc::Unsigned(now))).push(("body"@, body)))
}

/// An answer with the time at which it came.
pub fn cache_record(now: u64, body: &Json) -> (r: Json)
    ensures
        r@ == record_doc(now, body@),
{
    Fields::new().with("fetched_at", Json::Unsigned(now)).with("body", body.duplicate()).build()
}

/// The age and the body of a kept answer.
pub open spec fn entry_doc(record: Doc, now: u64) -> Option<(u64, Doc)> {
    match (record.natural_at("fetched_at"@), record.field("body"@)) {
        (Some(at), Some(body)) => Some(
            (
                if at <= now {
                    (now - at) as u64
                } else {
                    0
                },
                body,
            ),
        ),
        _ => None,
    }
}

/// The age and the body of a kept answer.
pub fn cache_entry<'a>(record: &'a Json, now: u64) -> (r: Option<(u64, &'a Json)>)
    ensures
        match r {
            Some((age, body)) => entry_doc(record@, now) == Some((age, body@)),
            None => entry_doc(record@, now) is None,
        },
{
    match (record.natural_at("fetched_at"), record.get("body")) {
        (Some(at), Some(body)) => Some((now.saturating_sub(at), body)),
        _ => None,
    }
}

/// What was kept is read back: the same body, and as its age the time that has passed.
pub proof fn lemma_kept_answer(then: u64, now: u64, body: Doc)
    ensures
        entry_doc(record_doc(then, body), now) == Some(
            (
                if then <= now {
                    (now - then) as u64
                } else {
                    0
                },
                body,
            ),
        ),
{
    reveal_strlit("fetched_at");
    reveal_strlit("body");
    assert("fetched_at"@.len() != "body"@.len());
    let ms = record_doc(then, body)->Object_0;
    assert(ms.len() == 2);
    assert(json::member_from(ms, "fetched_at"@, 0) == Some(Doc::Unsigned(then)));
    assert(json::member_from(ms, "body"@, 0) == json::member_from(ms, "body"@, 1));
}

/// Whether a kept answer is told without asking the site.
pub fn is_fresh(age: u64, path: &str) -> (r: bool)
    ensures
        r == (age < freshness(path@)),
{
    age < cache_ttl(path)
}

/// The answer after the site was asked: what it said, or else what was kept, however old.
pub fn answer(fetched: Result<Json, String>, kept: Option<Json>) -> (r: Result<Json, String>)
    ensures
        match (fetched, kept) {
            (Ok(body), _) => r == Ok::<Json, String>(body),
            (Err(_), Some(body)) => r == Ok::<Json, String>(body),
            (Err(why), None) => r == Err::<Json, String>(why),
        },
{
    match fetched {
        Ok(body) => Ok(body),
        Err(why) => match kept {
            Some(body) => Ok(body),
            None => Err(why),
        },
    }
}

/// How long an answer stays fresh: a search a minute, games two minutes, and the rest five.
pub proof fn lemma_freshness(p: Seq<char>)
    ensures
        text::mentions(p, "/search?"@) ==> freshness(p) == 60,
        !text::mentions(p, "/search?"@) && text::mentions(p, "/games"@) ==> freshness(p) == 120,
        !text::mentions(p, "/search?"@) && !text::mentions(p, "/games"@) ==> freshness(p) == 300,
{
}

/// The hash of one more byte mixes it into that of the others, and that of nothing is where they all
/// begin.
pub proof fn lemma_hash_takes_in(bytes: Seq<u8>, b: u8)
    ensures
        hash(bytes.push(b), bytes.len() + 1) == (hash(bytes, bytes.len()) ^ (
        b as u64)).wrapping_mul(0x100_0000_01b3),
        hash(Seq::empty(), 0) == 0xcbf2_9ce4_8422_2325,
{
    lemma_hash_of_first(bytes, b, bytes.len());
}

proof fn lemma_hash_of_first(bytes: Seq<u8>, b: u8, n: nat)
    requires
        n <= bytes.len(),
    ensures
        hash(bytes.push(b), n) == hash(bytes, n),
    decreases n,
{
    if n > 0 {
        lemma_hash_of_first(bytes, b, (n - 1) as nat);
        assert(bytes.push(b)[n - 1] == bytes[n - 1]);
    }
}

/// What is shown of a path in the name of its file is its start, of forty characters at most, in
/// which letters and digits stay and all else is an underscore.
pub proof fn lemma_shown(p: Seq<char>, i: int)
    ensures
        shown(p).len() <= 40,
        shown(p).len() <= p.len(),
        shown(p).len() == 40 || shown(p).len() == p.len(),
        0 <= i < shown(p).len() ==> {
            &&& text::is_plain(p[i]) ==> shown(p)[i] == p[i]
            &&& !text::is_plain(p[i]) ==> shown(p)[i] == '_'
        },
{
}

/// A new answer goes before a kept one; a kept one stands in where there is no new one; and the
/// request fails only where there is neither.
pub proof fn lemma_answer(
    fetched: Result<Json, String>,
    kept: Option<Json>,
    r: Result<Json, String>,
)
    requires
        call_ensures(answer, (fetched, kept), r),
    ensures
        fetched is Ok ==> r == fetched,
        fetched is Err && kept is Some ==> r == Ok::<Json, String>(kept->0),
        r is Err <==> fetched is Err && kept is None,
        r is Err ==> r == fetched,
{
}

/// An answer is fresh up to a time, and not from then on; and a search is fresh no longer than games
/// are, nor these than the rest.
pub proof fn lemma_is_fresh(age: u64, path: &str, r: bool)
    requires
        call_ensures(is_fresh, (age, path), r),
    ensures
        age < 60 ==> r,
        age >= 300 ==> !r,
        text::mentions(path@, "/search?"@) ==> (r <==> age < 60),
        !text::mentions(path@, "/search?"@) && text::mentions(path@, "/games"@) ==> (r <==> age
            < 120),
        !text::mentions(path@, "/search?"@) && !text::mentions(path@, "/games"@) ==> (r <==> age
            < 300),
{
}

/// What is kept stands in the directory that is set, else in the home directory, else in a temporary
/// one.
pub proof fn lemma_kb_dir(set: Option<&str>, home: Option<&str>, r: String)
    requires
        call_ensures(kb_dir, (set, home), r),
    ensures
        set matches Some(d) ==> r@ == d@,
        set is None ==> (home matches Some(h) ==> r@ == path::below(h@, ".aoe4world-mcp"@)),
        set is None && home is None ==> r@ == "/tmp/.aoe4world-mcp"@,
{
}

}
