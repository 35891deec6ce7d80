//! How a script is offered, and how it is given its arguments.

use crate::alphabet;
use crate::json::{self, Doc, Fields, Json};
use crate::order;
use crate::text;
use vstd::prelude::*;

verus! {

/// A script that is offered as a tool.
#[derive(Debug)]
pub struct ScriptEntry {
    pub id: String,
    pub file: String,
    pub description: String,
    pub parameters: Json,
}

/// The tool that a script is. It is not always at hand: the model asks for it.
#[derive(Debug)]
pub struct ScriptSpec {
    pub name: String,
    pub description: String,
    pub parameters: Json,
    pub always_loaded: bool,
    pub is_script: bool,
}

/// The schema of a script that gives none: it takes a text.
pub open spec fn plain_parameters() -> Doc {
    let stdin = Doc::Object(json::fields().push(("type"@, Doc::Text("string"@))));
    Doc::Object(
        json::fields().push(("type"@, Doc::Text("object"@))).push(
            ("properties"@, Doc::Object(json::fields().push(("stdin"@, stdin)))),
        ),
    )
}

impl ScriptEntry {
    /// A script of which nothing else is known.
    pub fn overlay(id: String, file: String) -> (r: ScriptEntry)
        ensures
            r.id == id,
            r.file == file,
            r.description@ == ""@,
            r.parameters@ == plain_parameters(),
    {
        let stdin = Fields::new().with("type", json::string("string")).build();
        let properties = Fields::new().with("stdin", stdin).build();
        ScriptEntry {
            id,
            file,
            description: "".to_owned(),
            parameters: Fields::new().with("type", json::string("object")).with(
                "properties",
                properties,
            ).build(),
        }
    }
}

/// The tool that a script is.
pub fn entry_to_spec(entry: &ScriptEntry) -> (r: ScriptSpec)
    ensures
        r.name@ == entry.id@,
        r.description@ == entry.description@,
        r.parameters@ == entry.parameters@,
        !r.always_loaded,
        r.is_script,
{
    ScriptSpec {
        name: entry.id.clone(),
        description: entry.description.clone(),
        parameters: entry.parameters.duplicate(),
        always_loaded: false,
        is_script: true,
    }
}

/// An argument as it is put on the command line; nothing for one that is not set, and for the
/// text that a script is given as its input.
pub open spec fn flag(key: Seq<char>, value: Doc) -> Option<Seq<char>> {
    if key == "stdin"@ {
        None
    } else {
        match value {
            Doc::Null => None,
            Doc::Bool(b) => if b {
                Some("--"@ + key)
            } else {
                None
            },
            Doc::Text(t) => Some("--"@ + key + "="@ + t),
            _ => Some("--"@ + key + "="@ + json::rendered(value)),
        }
    }
}

/// A name as a word.
pub open spec fn word(name: Seq<char>) -> Seq<u32> {
    name.map_values(|c: char| c as u32)
}

/// The names of arguments as words.
pub open spec fn key_words(ms: Seq<(Seq<char>, Doc)>) -> Seq<Seq<u32>> {
    ms.map_values(|m: (Seq<char>, Doc)| word(m.0))
}

/// The arguments in the order of their names.
pub open spec fn sorted(ms: Seq<(Seq<char>, Doc)>) -> Seq<(Seq<char>, Doc)> {
    alphabet::alphabetical(key_words(ms)).map_values(|p: int| ms[p])
}

/// The first `n` arguments on the command line.
pub open spec fn flags_of(ms: Seq<(Seq<char>, Doc)>, n: nat) -> Seq<Seq<char>>
    decreases n,
{
    if n == 0 {
        Seq::empty()
    } else {
        let before = flags_of(ms, (n - 1) as nat);
        match flag(ms[n - 1].0, ms[n - 1].1) {
            Some(f) => before.push(f),
            None => before,
        }
    }
}

/// The arguments on the command line, in the order of their names.
pub open spec fn flags(args: Doc) -> Seq<Seq<char>> {
    match args.object() {
        Some(ms) => flags_of(sorted(ms), ms.len()),
        None => Seq::empty(),
    }
}

proof fn lemma_letter(c: char, d: char)
    requires
        c as u32 == d as u32,
    ensures
        c == d,
{
    assert(c as int <= 0x10ffff);
    assert(d as int <= 0x10ffff);
}

/// The words of two names are the same only where the names are.
proof fn lemma_word(a: Seq<char>, b: Seq<char>)
    ensures
        word(a) == word(b) ==> a == b,
{
    if word(a) == word(b) {
        assert(word(a).len() == a.len());
        assert(word(b).len() == b.len());
        assert forall|i: int| 0 <= i < a.len() implies a[i] == b[i] by {
            assert(word(a)[i] == word(b)[i]);
            lemma_letter(a[i], b[i]);
        }
        assert(a =~= b);
    }
}

/// Whether the names go up.
pub open spec fn names_go_up(ms: Seq<(Seq<char>, Doc)>) -> bool {
    forall|a: int, b: int|
        0 <= a < b < ms.len() ==> alphabet::precedes(
            word((#[trigger] ms[a]).0),
            word((#[trigger] ms[b]).0),
        )
}

/// Whether no name occurs twice.
pub open spec fn names_differ(ms: Seq<(Seq<char>, Doc)>) -> bool {
    forall|a: int, b: int|
        0 <= a < b < ms.len() ==> (#[trigger] ms[a]).0 != (#[trigger] ms[b]).0
}

/// Whether two lists hold the same arguments.
pub open spec fn alike(a: Seq<(Seq<char>, Doc)>, b: Seq<(Seq<char>, Doc)>) -> bool {
    &&& a.len() == b.len()
    &&& forall|i: int| 0 <= i < a.len() ==> b.contains(#[trigger] a[i])
    &&& forall|i: int| 0 <= i < b.len() ==> a.contains(#[trigger] b[i])
}

proof fn lemma_sorted(ms: Seq<(Seq<char>, Doc)>)
    requires
        names_differ(ms),
    ensures
        names_go_up(sorted(ms)),
        alike(ms, sorted(ms)),
{
    let ws = key_words(ms);
    let o = alphabet::alphabetical(ws);
    alphabet::lemma_alphabetical(ws);
    let s = sorted(ms);
    assert forall|a: int, b: int| 0 <= a < b < s.len() implies alphabet::precedes(
        word((#[trigger] s[a]).0),
        word((#[trigger] s[b]).0),
    ) by {
        assert(ws[o[a]] == word(ms[o[a]].0));
        assert(ws[o[b]] == word(ms[o[b]].0));
        lemma_word(ms[o[a]].0, ms[o[b]].0);
        assert(o[a] != o[b]);
    }
    assert forall|i: int| 0 <= i < ms.len() implies s.contains(#[trigger] ms[i]) by {
        assert(o.contains(i));
        let p = o.index_of(i);
        assert(s[p] == ms[i]);
    }
    assert forall|i: int| 0 <= i < s.len() implies ms.contains(#[trigger] s[i]) by {
        assert(s[i] == ms[o[i]]);
    }
}

/// Lists of the same arguments whose names go up are the same.
proof fn lemma_one_order(a: Seq<(Seq<char>, Doc)>, b: Seq<(Seq<char>, Doc)>)
    requires
        names_go_up(a),
        names_go_up(b),
        alike(a, b),
    ensures
        a == b,
    decreases a.len(),
{
    if a.len() == 0 {
        assert(a =~= b);
    } else {
        let n = a.len() - 1;
        let x = a[n];
        let y = b[n];
        assert(b.contains(x));
        let p = b.index_of(x);
        assert(a.contains(y));
        let q = a.index_of(y);
        if p < n && q < n {
            alphabet::lemma_total(word(x.0), word(y.0));
            assert(alphabet::precedes(word(b[p].0), word(b[n].0)));
            assert(alphabet::precedes(word(a[q].0), word(a[n].0)));
        }
        assert(x == y);
        let c = a.drop_last();
        let d = b.drop_last();
        alphabet::lemma_total(word(x.0), word(x.0));
        assert forall|i: int| 0 <= i < c.len() implies d.contains(#[trigger] c[i]) by {
            assert(b.contains(a[i]));
            let k = b.index_of(a[i]);
            assert(alphabet::precedes(word(a[i].0), word(a[n].0)));
            assert(k != n);
            assert(d[k] == c[i]);
        }
        assert forall|i: int| 0 <= i < d.len() implies c.contains(#[trigger] d[i]) by {
            assert(a.contains(b[i]));
            let k = a.index_of(b[i]);
            assert(alphabet::precedes(word(b[i].0), word(b[n].0)));
            assert(k != n);
            assert(c[k] == d[i]);
        }
        lemma_one_order(c, d);
        assert(a =~= c.push(x));
        assert(b =~= d.push(y));
    }
}

/// The command line does not depend on the order in which the arguments are given.
pub proof fn lemma_flags_do_not_depend_on_order(
    a: Seq<(Seq<char>, Doc)>,
    b: Seq<(Seq<char>, Doc)>,
)
    requires
        names_differ(a),
        names_differ(b),
        alike(a, b),
    ensures
        flags(Doc::Object(a)) == flags(Doc::Object(b)),
{
    lemma_sorted(a);
    lemma_sorted(b);
    let x = sorted(a);
    let y = sorted(b);
    assert forall|i: int| 0 <= i < x.len() implies y.contains(#[trigger] x[i]) by {
        let k = a.index_of(x[i]);
        assert(a[k] == x[i]);
        let j = b.index_of(a[k]);
        assert(b[j] == x[i]);
    }
    assert forall|i: int| 0 <= i < y.len() implies x.contains(#[trigger] y[i]) by {
        let k = b.index_of(y[i]);
        assert(b[k] == y[i]);
        let j = a.index_of(b[k]);
        assert(a[j] == y[i]);
    }
    lemma_one_order(x, y);
}

fn flag_of(key: &str, value: &Json) -> (r: Option<String>)
    ensures
        text::opt(r) == flag(key@, value@),
{
    if text::same(key, "stdin") {
        return None;
    }
    match value {
        Json::Null => None,
        Json::Bool(b) => {
            if *b {
                Some(text::cat2("--", key))
            } else {
                None
            }
        },
        Json::Text(t) => Some(text::cat4("--", key, "=", t.as_str())),
        _ => Some(text::cat4("--", key, "=", value.to_text().as_str())),
    }
}

fn word_of(name: &str) -> (r: Vec<u32>)
    ensures
        r@ == word(name@),
{
    let cs = text::chars(name);
    let mut out: Vec<u32> = Vec::new();
    let mut i: usize = 0;
    while i < cs.len()
        invariant
            i <= cs@.len(),
            cs@ == name@,
            out@.len() == i,
            forall|k: int| 0 <= k < i ==> (#[trigger] out@[k]) == name@[k] as u32,
        decreases cs@.len() - i,
    {
        out.push(cs[i] as u32);
        i = i + 1;
    }
    assert(out@ =~= word(name@));
    out
}

/// The arguments on the command line, in the order of their names.
pub fn argv_flags(args: &Json) -> (r: Vec<String>)
    ensures
        text::views(r@) == flags(args@),
{
    let mut out: Vec<String> = Vec::new();
    assert(text::views(out@) =~= Seq::<Seq<char>>::empty());
    if let Some(ms) = args.as_object() {
        let ghost all = json::members(ms@);
        let mut words: Vec<Vec<u32>> = Vec::new();
        let mut i: usize = 0;
        while i < ms.len()
            invariant
                i <= ms@.len(),
                all == json::members(ms@),
                words@.len() == i,
                forall|k: int| 0 <= k < i ==> (#[trigger] words@[k])@ == key_words(all)[k],
            decreases ms@.len() - i,
        {
            assert(all[i as int] == (ms@[i as int].0@, ms@[i as int].1@));
            words.push(word_of(ms[i].0.as_str()));
            i = i + 1;
        }
        assert(alphabet::word_list(words@) =~= key_words(all));
        let places = alphabet::order_words(&words);
        let ghost o = order::places(places@);
        proof {
            assert(sorted(all) == o.map_values(|p: int| all[p]));
        }
        let mut k: usize = 0;
        while k < places.len()
            invariant
                k <= places@.len(),
                places@.len() == ms@.len(),
                all == json::members(ms@),
                o == order::places(places@),
                sorted(all) == o.map_values(|p: int| all[p]),
                forall|j: int| 0 <= j < places@.len() ==> (#[trigger] places@[j]) < ms@.len(),
                text::views(out@) == flags_of(sorted(all), k as nat),
            decreases places@.len() - k,
        {
            let p: usize = places[k];
            assert(o[k as int] == p);
            assert(sorted(all)[k as int] == all[p as int]);
            assert(all[p as int] == (ms@[p as int].0@, ms@[p as int].1@));
            if let Some(f) = flag_of(ms[p].0.as_str(), &ms[p].1) {
                proof {
                    text::lemma_views_push(out@, f);
                }
                out.push(f);
            }
            k = k + 1;
        }
    }
    out
}

/// What is handed to a script of an argument: nothing of its input, of nothing and of what is not
/// so; the name alone of what is so; and the name with its value of everything else.
pub proof fn lemma_flag(key: Seq<char>, value: Doc)
    ensures
        flag("stdin"@, value) is None,
        flag(key, Doc::Null) is None,
        flag(key, Doc::Bool(false)) is None,
        key != "stdin"@ ==> flag(key, Doc::Bool(true)) == Some("--"@ + key),
        key != "stdin"@ ==> (value matches Doc::Text(t) ==> flag(key, value) == Some(
            "--"@ + key + "="@ + t,
        )),
        key != "stdin"@ && !(value is Null) && !(value is Bool) && !(value is Text) ==> flag(
            key,
            value,
        ) == Some("--"@ + key + "="@ + json::rendered(value)),
{
}

/// Every argument that can be handed over is, and nothing else.
pub proof fn lemma_flags_of(ms: Seq<(Seq<char>, Doc)>, n: nat, f: Seq<char>)
    requires
        n <= ms.len(),
    ensures
        flags_of(ms, n).contains(f) <==> exists|i: int|
            0 <= i < n && flag((#[trigger] ms[i]).0, ms[i].1) == Some(f),
    decreases n,
{
    if n > 0 {
        let before = flags_of(ms, (n - 1) as nat);
        let now = flags_of(ms, n);
        lemma_flags_of(ms, (n - 1) as nat, f);
        match flag(ms[n - 1].0, ms[n - 1].1) {
            Some(g) => {
                assert(now == before.push(g));
                assert(now[before.len() as int] == g);
                if before.contains(f) {
                    let i = before.index_of(f);
                    assert(now[i] == f);
                }
                if now.contains(f) {
                    let i = now.index_of(f);
                    if i < before.len() {
                        assert(before[i] == f);
                    }
                }
            },
            None => {},
        }
    }
}

}
