//! Paths as texts.

use crate::text;
use vstd::prelude::*;

verus! {

/// `rel` below `base`. An absolute `rel` stands for itself.
pub open spec fn below(base: Seq<char>, rel: Seq<char>) -> Seq<char> {
    if rel.len() > 0 && rel[0] == '/' {
        rel
    } else if base.len() == 0 || base.last() == '/' {
        base + rel
    } else {
        base + "/"@ + rel
    }
}

/// `rel` below `base`.
pub fn join(base: &str, rel: &str) -> (r: String)
    ensures
        r@ == below(base@, rel@),
{
    let b = text::chars(base);
    let c = text::chars(rel);
    if c.len() > 0 && c[0] == '/' {
        rel.to_owned()
    } else if b.len() == 0 || b[b.len() - 1] == '/' {
        text::cat2(base, rel)
    } else {
        text::cat3(base, "/", rel)
    }
}

/// A path that begins at the root is itself below every directory; another stands behind the
/// directory, with exactly one slash between them where the directory has a name.
pub proof fn lemma_below(base: Seq<char>, rel: Seq<char>)
    ensures
        rel.len() > 0 && rel[0] == '/' ==> below(base, rel) == rel,
        !(rel.len() > 0 && rel[0] == '/') ==> {
            &&& below(base, rel).len() >= base.len() + rel.len()
            &&& below(base, rel).take(base.len() as int) == base
            &&& below(base, rel).skip(below(base, rel).len() - rel.len()) == rel
            &&& base.len() > 0 && base.last() != '/' ==> below(base, rel) == base.push('/') + rel
            &&& base.len() == 0 || base.last() == '/' ==> below(base, rel) == base + rel
        },
{
    reveal_strlit("/");
    if !(rel.len() > 0 && rel[0] == '/') {
        let b = below(base, rel);
        assert(b.take(base.len() as int) =~= base);
        assert(b.skip(b.len() - rel.len()) =~= rel);
        if base.len() > 0 && base.last() != '/' {
            assert(b =~= base.push('/') + rel);
        }
    }
}

}
