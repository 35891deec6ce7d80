//! Putting items in order by a word, letter by letter.

use crate::order;
use vstd::prelude::*;

verus! {

/// Whether the word `a` comes before the word `b`: it has the lesser letter where they first
/// differ, or it ends where `b` goes on.
pub open spec fn precedes(a: Seq<u32>, b: Seq<u32>) -> bool
    decreases a.len(),
{
    if b.len() == 0 {
        false
    } else if a.len() == 0 {
        true
    } else if a[0] != b[0] {
        a[0] < b[0]
    } else {
        precedes(a.skip(1), b.skip(1))
    }
}

/// Of two words that differ exactly one comes before the other.
pub proof fn lemma_total(a: Seq<u32>, b: Seq<u32>)
    ensures
        !(precedes(a, b) && precedes(b, a)),
        a != b ==> precedes(a, b) || precedes(b, a),
        !precedes(a, a),
    decreases a.len(),
{
    if a.len() > 0 {
        lemma_total(a.skip(1), a.skip(1));
    }
    if a.len() > 0 && b.len() > 0 && a[0] == b[0] {
        lemma_total(a.skip(1), b.skip(1));
        if a.skip(1) == b.skip(1) {
            assert forall|i: int| 0 <= i < a.len() implies a.len() == b.len() && a[i] == b[i] by {
                assert(a.skip(1).len() == b.skip(1).len());
                if i > 0 {
                    assert(a.skip(1)[i - 1] == b.skip(1)[i - 1]);
                }
            }
            assert(a.skip(1).len() == b.skip(1).len());
            assert(a =~= b);
        }
    } else if a.len() == 0 && b.len() == 0 {
        assert(a =~= b);
    }
}

/// A word comes before all that come after a word that it comes before.
pub proof fn lemma_transitive(a: Seq<u32>, b: Seq<u32>, c: Seq<u32>)
    requires
        precedes(a, b),
        precedes(b, c),
    ensures
        precedes(a, c),
    decreases a.len(),
{
    if a.len() > 0 && a[0] == b[0] && b[0] == c[0] {
        lemma_transitive(a.skip(1), b.skip(1), c.skip(1));
    }
}

/// How many of the first `n` words come before the word `w`.
pub open spec fn before_it(words: Seq<Seq<u32>>, w: Seq<u32>, n: nat) -> int
    decreases n,
{
    if n == 0 {
        0
    } else {
        before_it(words, w, (n - 1) as nat) + if precedes(words[n - 1], w) {
            1int
        } else {
            0int
        }
    }
}

/// How many words come before each word.
pub open spec fn ranks(words: Seq<Seq<u32>>) -> Seq<int> {
    Seq::new(words.len(), |i: int| before_it(words, words[i], words.len()))
}

/// The places of the words, in the words' order.
pub open spec fn alphabetical(words: Seq<Seq<u32>>) -> Seq<int> {
    order::ascending(ranks(words))
}

proof fn lemma_before_it(words: Seq<Seq<u32>>, a: Seq<u32>, b: Seq<u32>, n: nat)
    requires
        n <= words.len(),
        precedes(a, b),
    ensures
        before_it(words, a, n) <= before_it(words, b, n),
        (exists|j: int| 0 <= j < n && #[trigger] words[j] == a) ==> before_it(words, a, n)
            < before_it(words, b, n),
    decreases n,
{
    if n > 0 {
        lemma_before_it(words, a, b, (n - 1) as nat);
        let w = words[n - 1];
        if precedes(w, a) {
            lemma_transitive(w, a, b);
        }
        lemma_total(a, a);
    }
}

/// Each word's place stands exactly once in the words' order; a word that comes before another
/// stands before it, and words that are alike stand as they stood.
pub proof fn lemma_alphabetical(words: Seq<Seq<u32>>)
    ensures
        order::names_all(alphabetical(words), words.len() as int),
        forall|a: int, b: int|
            0 <= a < b < words.len() ==> {
                ||| precedes(
                    words[#[trigger] alphabetical(words)[a]],
                    words[#[trigger] alphabetical(words)[b]],
                )
                ||| words[alphabetical(words)[a]] == words[alphabetical(words)[b]]
                    && alphabetical(words)[a] < alphabetical(words)[b]
            },
{
    let keys = ranks(words);
    let o = alphabetical(words);
    order::lemma_ascending(keys);
    assert forall|a: int, b: int| 0 <= a < b < words.len() implies {
        ||| precedes(words[#[trigger] o[a]], words[#[trigger] o[b]])
        ||| words[o[a]] == words[o[b]] && o[a] < o[b]
    } by {
        let x = o[a];
        let y = o[b];
        lemma_total(words[x], words[y]);
        if precedes(words[y], words[x]) {
            lemma_before_it(words, words[y], words[x], words.len());
            assert(keys[y] < keys[x]);
        }
    }
}

/// Whether the word `a` comes before the word `b`.
fn comes_before(a: &Vec<u32>, b: &Vec<u32>) -> (r: bool)
    ensures
        r == precedes(a@, b@),
{
    let mut i: usize = 0;
    assert(a@.skip(0) =~= a@);
    assert(b@.skip(0) =~= b@);
    while i < a.len() && i < b.len() && a[i] == b[i]
        invariant
            i <= a@.len(),
            i <= b@.len(),
            precedes(a@, b@) == precedes(a@.skip(i as int), b@.skip(i as int)),
        decreases a@.len() - i,
    {
        assert(a@.skip(i as int).skip(1) =~= a@.skip(i + 1));
        assert(b@.skip(i as int).skip(1) =~= b@.skip(i + 1));
        i = i + 1;
    }
    if i >= b.len() {
        false
    } else if i >= a.len() {
        true
    } else {
        a[i] < b[i]
    }
}

/// Words apart from how they are kept.
pub open spec fn word_list(words: Seq<Vec<u32>>) -> Seq<Seq<u32>> {
    words.map_values(|w: Vec<u32>| w@)
}

/// The places of the words, in the words' order.
pub fn order_words(words: &Vec<Vec<u32>>) -> (r: Vec<usize>)
    ensures
        order::places(r@) == alphabetical(word_list(words@)),
        r@.len() == words@.len(),
        forall|i: int| 0 <= i < r@.len() ==> (#[trigger] r@[i]) < words@.len(),
{
    let ghost ws = word_list(words@);
    let mut keys: Vec<i128> = Vec::new();
    let mut i: usize = 0;
    while i < words.len()
        invariant
            i <= words@.len(),
            ws == word_list(words@),
            keys@.len() == i,
            forall|j: int| 0 <= j < i ==> (#[trigger] keys@[j]) == ranks(ws)[j],
        decreases words@.len() - i,
    {
        let mut count: i128 = 0;
        let mut k: usize = 0;
        while k < words.len()
            invariant
                k <= words.len(),
                i < words@.len(),
                ws == word_list(words@),
                0 <= count <= k,
                count == before_it(ws, ws[i as int], k as nat),
            decreases words@.len() - k,
        {
            assert(ws[k as int] == words@[k as int]@);
            if comes_before(&words[k], &words[i]) {
                count = count + 1;
            }
            k = k + 1;
        }
        keys.push(count);
        i = i + 1;
    }
    assert(order::key_values(keys@) =~= ranks(ws));
    order::order_ascending(&keys)
}

}
