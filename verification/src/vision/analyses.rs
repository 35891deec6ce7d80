//! What was said of pictures in the current turn.

use crate::text;
use vstd::prelude::*;

verus! {

/// One answer: the picture by its digest, the question, and what was said.
#[derive(Debug)]
struct Analysis {
    digest: String,
    prompt: String,
    said: String,
}

/// What the first `n` answers say; of two to one question, the later one.
spec fn told(entries: Seq<Analysis>, n: nat) -> Map<(Seq<char>, Seq<char>), Seq<char>>
    decreases n,
{
    if n == 0 {
        Map::empty()
    } else {
        let last = entries[n - 1];
        told(entries, (n - 1) as nat).insert((last.digest@, last.prompt@), last.said@)
    }
}

/// The answers of a turn, by picture and question, so that no question is put twice.
#[derive(Debug)]
pub struct Analyses {
    entries: Vec<Analysis>,
}

impl View for Analyses {
    type V = Map<(Seq<char>, Seq<char>), Seq<char>>;

    closed spec fn view(&self) -> Map<(Seq<char>, Seq<char>), Seq<char>> {
        told(self.entries@, self.entries@.len())
    }
}

proof fn lemma_told_extends(entries: Seq<Analysis>, more: Analysis, n: nat)
    requires
        n <= entries.len(),
    ensures
        told(entries.push(more), n) == told(entries, n),
    decreases n,
{
    if n > 0 {
        lemma_told_extends(entries, more, (n - 1) as nat);
    }
}

impl Analyses {
    /// No answers yet.
    pub fn new() -> (r: Analyses)
        ensures
            r@ == Map::<(Seq<char>, Seq<char>), Seq<char>>::empty(),
    {
        Analyses { entries: Vec::new() }
    }

    /// What was said of a picture when this was asked.
    pub fn recall(&self, digest: &str, prompt: &str) -> (r: Option<String>)
        ensures
            match r {
                Some(said) => self@.contains_key((digest@, prompt@)) && self@[(digest@, prompt@)]
                    == said@,
                None => !self@.contains_key((digest@, prompt@)),
            },
    {
        let ghost key = (digest@, prompt@);
        let mut n: usize = self.entries.len();
        while n > 0
            invariant
                key == (digest@, prompt@),
                n <= self.entries@.len(),
                self@.contains_key(key) == told(self.entries@, n as nat).contains_key(key),
                self@.contains_key(key) ==> self@[key] == told(self.entries@, n as nat)[key],
            decreases n,
        {
            let entry = &self.entries[n - 1];
            if text::same(entry.digest.as_str(), digest) && text::same(entry.prompt.as_str(), prompt) {
                return Some(entry.said.clone());
            }
            n = n - 1;
        }
        None
    }

    /// Keeps what was said.
    pub fn keep(&mut self, digest: &str, prompt: &str, said: &str)
        ensures
            final(self)@ == old(self)@.insert((digest@, prompt@), said@),
    {
        let entry = Analysis {
            digest: digest.to_owned(),
            prompt: prompt.to_owned(),
            said: said.to_owned(),
        };
        proof {
            lemma_told_extends(self.entries@, entry, self.entries@.len());
        }
        self.entries.push(entry);
    }
}

/// An answer that is kept is found again, and no other question's answer changes.
pub proof fn lemma_kept_is_recalled(
    before: Analyses,
    after: Analyses,
    digest: Seq<char>,
    prompt: Seq<char>,
    said: Seq<char>,
)
    requires
        after@ == before@.insert((digest, prompt), said),
    ensures
        after@.contains_key((digest, prompt)),
        after@[(digest, prompt)] == said,
        forall|d: Seq<char>, p: Seq<char>|
            (d, p) != (digest, prompt) ==> (#[trigger] after@.contains_key((d, p))
                == before@.contains_key((d, p))) && (before@.contains_key((d, p)) ==> after@[(d, p)]
                == before@[(d, p)]),
{
}

}
