//! Noticing that the directories of scripts have changed.

use crate::alphabet;
use crate::order;
use vstd::prelude::*;

verus! {

/// A file in a directory: its path, and what is known of it, as bytes.
#[derive(Debug)]
pub struct CatalogFile {
    pub path: Vec<u8>,
    pub metadata: Vec<u8>,
}

/// A directory: its path, and the files in it where it can be read.
#[derive(Debug)]
pub struct CatalogRoot {
    pub path: Vec<u8>,
    pub files: Option<Vec<CatalogFile>>,
}

/// A path as a word.
pub open spec fn word(path: Seq<u8>) -> Seq<u32> {
    path.map_values(|b: u8| b as u32)
}

/// The paths of files as words.
pub open spec fn path_words(files: Seq<CatalogFile>) -> Seq<Seq<u32>> {
    files.map_values(|f: CatalogFile| word(f.path@))
}

/// The first `n` files, in the order that `places` gives, as bytes.
pub open spec fn file_bytes(files: Seq<CatalogFile>, places: Seq<int>, n: nat) -> Seq<u8>
    decreases n,
{
    if n == 0 {
        Seq::empty()
    } else {
        let f = files[places[n - 1]];
        file_bytes(files, places, (n - 1) as nat) + f.path@ + f.metadata@
    }
}

/// A directory as bytes: its path, and behind it each file in the order of their paths, or a zero
/// where it cannot be read.
pub open spec fn root_bytes(root: CatalogRoot) -> Seq<u8> {
    match root.files {
        Some(files) => root.path@ + file_bytes(
            files@,
            alphabet::alphabetical(path_words(files@)),
            files@.len(),
        ),
        None => root.path@.push(0),
    }
}

/// The first `n` directories as bytes.
pub open spec fn catalog_bytes(roots: Seq<CatalogRoot>, n: nat) -> Seq<u8>
    decreases n,
{
    if n == 0 {
        Seq::empty()
    } else {
        catalog_bytes(roots, (n - 1) as nat) + root_bytes(roots[n - 1])
    }
}

/// The BLAKE3 hash of bytes.
pub uninterp spec fn blake3_hash(bytes: Seq<u8>) -> Seq<u8>;

/// `blake3::hash`: the hash of the bytes, which depends on them alone.
#[verifier::external_body]
fn hash(bytes: &[u8]) -> (r: [u8; 32])
    ensures
        r@ == blake3_hash(bytes@),
{
    *blake3::hash(bytes).as_bytes()
}

fn append_bytes(out: &mut Vec<u8>, bytes: &Vec<u8>)
    ensures
        final(out)@ == old(out)@ + bytes@,
{
    let ghost before = out@;
    let mut i: usize = 0;
    assert(out@ =~= before + bytes@.take(0));
    while i < bytes.len()
        invariant
            i <= bytes@.len(),
            out@ == before + bytes@.take(i as int),
        decreases bytes@.len() - i,
    {
        out.push(bytes[i]);
        assert(bytes@.take(i + 1) =~= bytes@.take(i as int).push(bytes@[i as int]));
        assert(out@ =~= before + bytes@.take(i + 1));
        i = i + 1;
    }
    assert(bytes@.take(bytes@.len() as int) =~= bytes@);
}

fn word_of(path: &Vec<u8>) -> (r: Vec<u32>)
    ensures
        r@ == word(path@),
{
    let mut out: Vec<u32> = Vec::new();
    let mut i: usize = 0;
    while i < path.len()
        invariant
            i <= path@.len(),
            out@.len() == i,
            forall|k: int| 0 <= k < i ==> (#[trigger] out@[k]) == path@[k] as u32,
        decreases path@.len() - i,
    {
        out.push(path[i] as u32);
        i = i + 1;
    }
    assert(out@ =~= word(path@));
    out
}

fn append_files(out: &mut Vec<u8>, files: &Vec<CatalogFile>)
    ensures
        final(out)@ == old(out)@ + file_bytes(
            files@,
            alphabet::alphabetical(path_words(files@)),
            files@.len(),
        ),
{
    let ghost before = out@;
    let mut words: Vec<Vec<u32>> = Vec::new();
    let mut i: usize = 0;
    while i < files.len()
        invariant
            i <= files@.len(),
            words@.len() == i,
            out@ == before,
            forall|k: int| 0 <= k < i ==> (#[trigger] words@[k])@ == path_words(files@)[k],
        decreases files@.len() - i,
    {
        words.push(word_of(&files[i].path));
        i = i + 1;
    }
    assert(alphabet::word_list(words@) =~= path_words(files@));
    let places = alphabet::order_words(&words);
    let ghost o = order::places(places@);
    let mut k: usize = 0;
    assert(out@ =~= before + file_bytes(files@, o, 0));
    while k < places.len()
        invariant
            k <= places@.len(),
            places@.len() == files@.len(),
            o == order::places(places@),
            forall|j: int| 0 <= j < places@.len() ==> (#[trigger] places@[j]) < files@.len(),
            out@ == before + file_bytes(files@, o, k as nat),
        decreases places@.len() - k,
    {
        let p: usize = places[k];
        assert(o[k as int] == p);
        append_bytes(out, &files[p].path);
        append_bytes(out, &files[p].metadata);
        assert(out@ =~= before + file_bytes(files@, o, (k + 1) as nat));
        k = k + 1;
    }
}

/// The directories as bytes.
pub fn catalog_content(roots: &Vec<CatalogRoot>) -> (r: Vec<u8>)
    ensures
        r@ == catalog_bytes(roots@, roots@.len()),
{
    let mut out: Vec<u8> = Vec::new();
    let mut i: usize = 0;
    while i < roots.len()
        invariant
            i <= roots@.len(),
            out@ == catalog_bytes(roots@, i as nat),
        decreases roots@.len() - i,
    {
        let ghost before = out@;
        append_bytes(&mut out, &roots[i].path);
        match &roots[i].files {
            Some(files) => {
                append_files(&mut out, files);
            },
            None => {
                out.push(0);
            },
        }
        assert(out@ =~= before + root_bytes(roots@[i as int]));
        i = i + 1;
    }
    out
}

/// The fingerprint of the directories.
pub fn catalog_fingerprint(roots: &Vec<CatalogRoot>) -> (r: [u8; 32])
    ensures
        r@ == blake3_hash(catalog_bytes(roots@, roots@.len())),
{
    let content = catalog_content(roots);
    hash(content.as_slice())
}

/// Whether two fingerprints are the same.
fn same_fingerprint(a: &[u8; 32], b: &[u8; 32]) -> (r: bool)
    ensures
        r == (a@ == b@),
{
    let mut i: usize = 0;
    while i < 32
        invariant
            i <= 32,
            forall|k: int| 0 <= k < i ==> a@[k] == b@[k],
        decreases 32 - i,
    {
        if a[i] != b[i] {
            assert(a@[i as int] != b@[i as int]);
            return false;
        }
        i = i + 1;
    }
    assert(a@ =~= b@);
    true
}

/// What is to be done to find out what the directories hold.
#[derive(Debug)]
pub enum RefreshStep {
    /// Take the directories' fingerprint, for this scan.
    Look,
    /// Scan the directories, and take their fingerprint again.
    Scan { before: [u8; 32] },
    /// Nothing: they are as they were.
    Unchanged,
    /// Take over what the scan has found, and this fingerprint.
    Found { fingerprint: [u8; 32] },
    /// Give up: they do not stay as they are.
    GiveUp,
}

/// How often the directories are scanned at most.
pub const SCANS: u8 = 3;

/// The looking for what the directories hold: the fingerprint that is known, how many scans are
/// left, and what is to be done.
#[derive(Debug)]
pub struct ScriptRefresh {
    pub current: Option<[u8; 32]>,
    pub left: u8,
    pub step: RefreshStep,
}

/// What is said where the directories do not stay as they are.
pub const KEPT_CHANGING: &'static str = "script directories kept changing while they were being scanned";

/// Whether the fingerprint is the one that is known.
pub open spec fn is_known(current: Option<[u8; 32]>, now: [u8; 32]) -> bool {
    current matches Some(c) && c@ == now@
}

/// What is to be done behind a look at the directories or a scan of them.
pub open spec fn after(r: ScriptRefresh, now: [u8; 32], next: ScriptRefresh) -> bool {
    &&& next.current == r.current
    &&& match r.step {
        RefreshStep::Look => next.left == r.left && if is_known(r.current, now) {
            next.step is Unchanged
        } else {
            next.step == (RefreshStep::Scan { before: now })
        },
        RefreshStep::Scan { before } => if before@ == now@ {
            next.left == r.left && next.step == (RefreshStep::Found { fingerprint: now })
        } else if r.left > 1 {
            next.left == r.left - 1 && next.step is Look
        } else {
            next.left == 0 && next.step is GiveUp
        },
        _ => next == r,
    }
}

impl ScriptRefresh {
    /// Begins to look.
    pub fn prepare_script_refresh(current: Option<[u8; 32]>) -> (r: ScriptRefresh)
        ensures
            r.current == current,
            r.left == SCANS,
            r.step is Look,
    {
        ScriptRefresh { current, left: SCANS, step: RefreshStep::Look }
    }

    /// Goes on with the fingerprint that was taken.
    pub fn step(self, now: [u8; 32]) -> (r: ScriptRefresh)
        ensures
            after(self, now, r),
    {
        match self.step {
            RefreshStep::Look => {
                let known = match &self.current {
                    Some(c) => same_fingerprint(c, &now),
                    None => false,
                };
                if known {
                    ScriptRefresh { step: RefreshStep::Unchanged, ..self }
                } else {
                    ScriptRefresh { step: RefreshStep::Scan { before: now }, ..self }
                }
            },
            RefreshStep::Scan { before } => {
                if same_fingerprint(&before, &now) {
                    ScriptRefresh { step: RefreshStep::Found { fingerprint: now }, ..self }
                } else if self.left > 1 {
                    ScriptRefresh { step: RefreshStep::Look, left: self.left - 1, ..self }
                } else {
                    ScriptRefresh { step: RefreshStep::GiveUp, left: 0, ..self }
                }
            },
            _ => self,
        }
    }
}

/// How much is left to do: every step that is not the last makes it less.
pub open spec fn work_left(r: ScriptRefresh) -> int {
    match r.step {
        RefreshStep::Look => 2 * r.left + 1,
        RefreshStep::Scan { .. } => 2 * r.left,
        _ => 0,
    }
}

/// The looking ends: each step leaves less to be done, and there are at most three scans.
pub proof fn lemma_refresh_ends(r: ScriptRefresh, now: [u8; 32], next: ScriptRefresh)
    requires
        after(r, now, next),
        r.left >= 1,
        r.step is Look || r.step is Scan,
    ensures
        work_left(next) < work_left(r),
        next.step is Look ==> next.left >= 1,
        next.step is Scan ==> next.left >= 1,
{
}

/// What is taken over was found while the directories did not change: the fingerprint before the
/// scan is the one behind it, and it was not known.
pub proof fn lemma_found_is_stable(
    look: ScriptRefresh,
    before: [u8; 32],
    scan: ScriptRefresh,
    behind: [u8; 32],
    found: ScriptRefresh,
)
    requires
        look.step is Look,
        after(look, before, scan),
        scan.step is Scan,
        after(scan, behind, found),
        found.step is Found,
    ensures
        found.step == (RefreshStep::Found { fingerprint: behind }),
        before@ == behind@,
        !is_known(look.current, behind),
{
}

/// What is said where the tools could not be replaced, with the reason.
pub const NOT_REPLACED: &'static str = "failed to replace Nonoka script tools";

/// The scripts that are in use, by the fingerprint of their directories.
#[derive(Debug)]
pub struct ScriptCatalog {
    pub fingerprint: Option<[u8; 32]>,
}

impl ScriptCatalog {
    /// Takes over what a scan has found, of which `replaced` says whether the tools could be
    /// replaced, and gives back why not. The fingerprint is taken over either way: directories
    /// that are no good are not worth another scan until they change.
    pub fn apply_script_refresh(
        &mut self,
        replaced: Result<(), String>,
        fingerprint: [u8; 32],
    ) -> (r: Option<String>)
        ensures
            final(self).fingerprint == Some(fingerprint),
            match replaced {
                Ok(_) => r is None,
                Err(why) => r == Some(why),
            },
    {
        self.fingerprint = Some(fingerprint);
        match replaced {
            Ok(_) => None,
            Err(why) => Some(why),
        }
    }
}

/// Directories whose fingerprint was taken over are not scanned again while they stay as they
/// are, whether or not their tools could be taken over.
pub proof fn lemma_taken_over_is_not_scanned(
    catalog: ScriptCatalog,
    fingerprint: [u8; 32],
    look: ScriptRefresh,
    next: ScriptRefresh,
)
    requires
        catalog.fingerprint == Some(fingerprint),
        look.current == catalog.fingerprint,
        look.step is Look,
        after(look, fingerprint, next),
    ensures
        next.step is Unchanged,
{
}

/// What is hashed of some directories and of more is what is hashed of the first and then of the
/// others.
pub proof fn lemma_catalog_join(a: Seq<CatalogRoot>, b: Seq<CatalogRoot>)
    ensures
        catalog_bytes(a + b, (a + b).len()) == catalog_bytes(a, a.len()) + catalog_bytes(
            b,
            b.len(),
        ),
    decreases b.len(),
{
    if b.len() == 0 {
        assert(a + b =~= a);
        assert(catalog_bytes(b, 0) =~= Seq::empty());
    } else {
        lemma_catalog_join(a, b.drop_last());
        lemma_catalog_take(a + b, ((a + b).len() - 1) as nat);
        lemma_catalog_take(b, (b.len() - 1) as nat);
        assert((a + b).take((a + b).len() - 1) =~= a + b.drop_last());
        assert(b.take(b.len() - 1) =~= b.drop_last());
        assert(catalog_bytes(a + b, (a + b).len()) =~= catalog_bytes(a, a.len()) + catalog_bytes(
            b,
            b.len(),
        ));
    }
}

proof fn lemma_catalog_take(roots: Seq<CatalogRoot>, n: nat)
    requires
        n <= roots.len(),
    ensures
        catalog_bytes(roots, n) == catalog_bytes(roots.take(n as int), n),
    decreases n,
{
    if n > 0 {
        lemma_catalog_take(roots, (n - 1) as nat);
        lemma_catalog_take(roots.take(n as int), (n - 1) as nat);
        assert(roots.take(n as int).take(n - 1) =~= roots.take(n - 1));
    }
}

/// A directory that is not there is hashed otherwise than one that is empty.
pub proof fn lemma_missing_is_not_empty(a: CatalogRoot, b: CatalogRoot)
    requires
        a.path@ == b.path@,
        a.files is None,
        b.files matches Some(files) && files@.len() == 0,
    ensures
        root_bytes(a) != root_bytes(b),
{
    assert(root_bytes(a).len() == a.path@.len() + 1);
    assert(root_bytes(b).len() == b.path@.len());
}

/// What was found is remembered whether or not the tools could be replaced, and the reason is told
/// exactly where they could not.
pub proof fn lemma_taken_over(
    c: &mut ScriptCatalog,
    replaced: Result<(), String>,
    fingerprint: [u8; 32],
    r: Option<String>,
)
    requires
        call_ensures(ScriptCatalog::apply_script_refresh, (c, replaced, fingerprint), r),
    ensures
        final(c).fingerprint == Some(fingerprint),
        r is None <==> replaced is Ok,
        replaced matches Err(why) ==> r == Some(why),
{
}

/// The directories are scanned three times at most.
pub proof fn lemma_three_scans(current: Option<[u8; 32]>, r: ScriptRefresh)
    requires
        call_ensures(ScriptRefresh::prepare_script_refresh, (current,), r),
    ensures
        r.left == 3,
        r.step is Look,
        r.current == current,
{
}

}
