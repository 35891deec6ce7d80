//! Several pictures in one call.

use crate::json::{self, Doc, Fields, Json};
use crate::text;
use vstd::prelude::*;

verus! {

/// The trimmed texts among the first `n` values that are not empty.
pub open spec fn filled(list: Seq<Doc>, n: nat) -> Seq<Seq<char>>
    decreases n,
{
    if n == 0 {
        Seq::empty()
    } else {
        let before = filled(list, (n - 1) as nat);
        match list[n - 1].text() {
            Some(t) => if text::trimmed(t).len() > 0 {
                before.push(text::trimmed(t))
            } else {
                before
            },
            None => before,
        }
    }
}

/// The pictures that a call names in a list.
pub open spec fn targets(args: Doc) -> Seq<Seq<char>> {
    let list = args.array_or_none("images"@);
    filled(list, list.len())
}

/// The pictures that a call names in a list, if it names any there.
pub fn batch_targets(args: &Json) -> (r: Option<Vec<String>>)
    ensures
        match r {
            Some(v) => text::views(v@) == targets(args@) && targets(args@).len() > 0,
            None => targets(args@).len() == 0,
        },
{
    let list = match args.array_at("images") {
        Some(v) => v,
        None => {
            return None;
        },
    };
    let mut out: Vec<String> = Vec::new();
    assert(text::views(out@) =~= Seq::<Seq<char>>::empty());
    let mut i: usize = 0;
    while i < list.len()
        invariant
            i <= list@.len(),
            text::views(out@) == filled(json::docs(list@), i as nat),
        decreases list@.len() - i,
    {
        assert(json::docs(list@)[i as int] == list@[i as int]@);
        match list[i].as_str() {
            Some(t) => {
                let item = text::trim(t);
                if !item.as_str().is_empty() {
                    proof {
                        text::lemma_views_push(out@, item);
                    }
                    out.push(item);
                }
            },
            None => {},
        }
        i = i + 1;
    }
    assert(text::views(out@).len() == out@.len());
    if out.len() == 0 {
        None
    } else {
        Some(out)
    }
}

/// How many pictures are looked at side by side.
pub const VISION_BATCH_CONCURRENCY: usize = 4;

/// The call for one picture of several.
pub open spec fn single_call(target: Seq<char>, prompt: Option<Doc>) -> Doc {
    let image = json::fields().push(("image"@, Doc::Text(target)));
    Doc::Object(
        match prompt {
            Some(p) => image.push(("prompt"@, p)),
            None => image,
        },
    )
}

/// The call for one picture of several: the prompt goes with each.
pub fn single_args(target: &str, prompt: Option<&Json>) -> (r: Json)
    ensures
        r@ == single_call(
            target@,
            match prompt {
                Some(p) => Some(p@),
                None => None,
            },
        ),
{
    let image = Fields::new().with("image", json::string(target));
    match prompt {
        Some(p) => image.with("prompt", p.duplicate()).build(),
        None => image.build(),
    }
}

/// What is told of one picture of several.
pub open spec fn section(index: nat, target: Seq<char>, result: Result<Seq<char>, Seq<char>>) -> Seq<
    char,
> {
    "[Image "@ + text::decimal(index + 1) + "] "@ + target + match result {
        Ok(analysis) => "\n"@ + text::trimmed(analysis),
        Err(why) => "\nERROR: "@ + why,
    }
}

/// The result of one picture.
pub open spec fn result_view(r: Result<String, String>) -> Result<Seq<char>, Seq<char>> {
    match r {
        Ok(s) => Ok(s@),
        Err(s) => Err(s@),
    }
}

/// What is told of each picture, in order.
pub open spec fn sections(
    targets: Seq<Seq<char>>,
    results: Seq<Result<String, String>>,
) -> Seq<Seq<char>> {
    Seq::new(
        targets.len(),
        |i: int| section(i as nat, targets[i], result_view(results[i])),
    )
}

/// What is told of several pictures: each has a section of its own, in their order, and a picture
/// that cannot be looked at says so in its section alone.
pub fn run_vision_batch(targets: &Vec<String>, results: &Vec<Result<String, String>>) -> (r: String)
    requires
        targets@.len() == results@.len(),
    ensures
        r@ == text::joined(sections(text::views(targets@), results@), "\n\n"@),
{
    let ghost ts = text::views(targets@);
    let ghost all = sections(ts, results@);
    let mut out: Vec<String> = Vec::new();
    let mut i: usize = 0;
    assert(text::views(out@) =~= all.take(0));
    while i < targets.len()
        invariant
            i <= targets@.len(),
            targets@.len() == results@.len(),
            ts == text::views(targets@),
            all == sections(ts, results@),
            text::views(out@) == all.take(i as int),
        decreases targets@.len() - i,
    {
        let mut s = text::cat4(
            "[Image ",
            text::decimal_text(i as u128 + 1).as_str(),
            "] ",
            targets[i].as_str(),
        );
        let tail = match &results[i] {
            Ok(analysis) => text::cat2("\n", text::trim(analysis.as_str()).as_str()),
            Err(why) => text::cat2("\nERROR: ", why.as_str()),
        };
        s.append(tail.as_str());
        proof {
            text::lemma_views_push(out@, s);
            assert(s@ == all[i as int]);
            assert(all.take(i + 1) =~= all.take(i as int).push(all[i as int]));
        }
        out.push(s);
        i = i + 1;
    }
    assert(all.take(all.len() as int) =~= all);
    text::join(&out, "\n\n")
}

/// What is told of one picture does not depend on the others: it stays the same whatever comes
/// of them.
pub proof fn lemma_sections_are_separate(
    targets: Seq<Seq<char>>,
    results: Seq<Result<String, String>>,
    others: Seq<Result<String, String>>,
    i: int,
)
    requires
        0 <= i < targets.len(),
        results.len() == targets.len(),
        others.len() == targets.len(),
        results[i] == others[i],
    ensures
        sections(targets, results)[i] == sections(targets, others)[i],
        sections(targets, results).len() == targets.len(),
{
}

/// What is looked at is every text of the list that holds more than white space, without the white
/// space around it.
pub proof fn lemma_filled(list: Seq<Doc>, n: nat, target: Seq<char>)
    requires
        n <= list.len(),
    ensures
        filled(list, n).contains(target) <==> target.len() > 0 && exists|i: int|
            0 <= i < n && (#[trigger] list[i] matches Doc::Text(t) && text::trimmed(t) == target),
    decreases n,
{
    if n > 0 {
        let before = filled(list, (n - 1) as nat);
        let now = filled(list, n);
        lemma_filled(list, (n - 1) as nat, target);
        match list[n - 1].text() {
            Some(t) => {
                assert(list[n - 1] == Doc::Text(t));
                if text::trimmed(t).len() > 0 {
                    assert(now == before.push(text::trimmed(t)));
                    assert(now[before.len() as int] == text::trimmed(t));
                    if before.contains(target) {
                        let i = before.index_of(target);
                        assert(now[i] == target);
                    }
                    if now.contains(target) {
                        let i = now.index_of(target);
                        if i < before.len() {
                            assert(before[i] == target);
                        }
                    }
                }
            },
            None => {},
        }
    }
}

/// Each picture is asked about alone, and with the prompt of all of them.
pub proof fn lemma_single_call(target: Seq<char>, prompt: Option<Doc>)
    ensures
        single_call(target, prompt).field("image"@) == Some(Doc::Text(target)),
        single_call(target, prompt).field("prompt"@) == prompt,
        single_call(target, prompt).field("images"@) is None,
{
    reveal_strlit("image");
    reveal_strlit("prompt");
    reveal_strlit("images");
    assert("image"@.len() == 5);
    assert("prompt"@.len() == 6 && "prompt"@[0] == 'p');
    assert("images"@.len() == 6 && "images"@[0] == 'i');
    let ms = single_call(target, prompt)->Object_0;
    json::lemma_field(ms, "image"@, 0);
    if prompt is Some {
        json::lemma_field(ms, "prompt"@, 1);
    } else {
        json::lemma_no_field(single_call(target, prompt), "prompt"@);
    }
    json::lemma_no_field(single_call(target, prompt), "images"@);
}

/// A picture's section names the picture by its number, counted from one, and holds what was said of
/// it, or why nothing was.
pub proof fn lemma_section(index: nat, target: Seq<char>, said: Seq<char>)
    ensures
        text::begins(
            section(index, target, Ok(said)),
            "[Image "@ + text::decimal(index + 1) + "] "@ + target,
        ),
        text::begins(
            section(index, target, Err(said)),
            "[Image "@ + text::decimal(index + 1) + "] "@ + target,
        ),
        text::finishes(section(index, target, Ok(said)), "\n"@ + text::trimmed(said)),
        text::finishes(section(index, target, Err(said)), "\nERROR: "@ + said),
{
    let head = "[Image "@ + text::decimal(index + 1) + "] "@ + target;
    let good = section(index, target, Ok(said));
    let bad = section(index, target, Err(said));
    assert(good.subrange(0, head.len() as int) =~= head);
    assert(bad.subrange(0, head.len() as int) =~= head);
    let a = "\n"@ + text::trimmed(said);
    let b = "\nERROR: "@ + said;
    let i = good.len() - a.len();
    let j = bad.len() - b.len();
    assert(good.subrange(i, i + a.len()) =~= a);
    assert(bad.subrange(j, j + b.len()) =~= b);
}

}
