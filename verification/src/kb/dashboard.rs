//! The library as it is shown and kept up.

use super::search::KbError;
use crate::encoding;
use crate::json::{self, Doc, Fields, Items, Json};
use crate::path;
use crate::provider_config::EmbeddingConfig;
use crate::text;
use vstd::prelude::*;

verus! {

/// How a file stands to its vectors.
#[derive(Debug, Clone, Copy, PartialEq, Eq, Structural)]
pub enum IndexState {
    /// It has none.
    Unindexed,
    /// They are those of its contents.
    Fresh,
    /// They are those of earlier contents.
    Stale,
}

impl IndexState {
    /// The state's name.
    pub open spec fn name(self) -> Seq<char> {
        match self {
            IndexState::Unindexed => "unindexed"@,
            IndexState::Fresh => "fresh"@,
            IndexState::Stale => "stale"@,
        }
    }

    /// The state's name.
    pub fn label(self) -> (r: &'static str)
        ensures
            r@ == self.name(),
    {
        match self {
            IndexState::Unindexed => "unindexed",
            IndexState::Fresh => "fresh",
            IndexState::Stale => "stale",
        }
    }
}

/// How the library is set up.
#[derive(Debug)]
pub struct KnowledgeBasePluginConfig {
    pub enabled: bool,
    pub upload_tool_enabled: bool,
    pub embedding_enabled: bool,
    pub embedding_provider_id: String,
    pub embedding_model: String,
    pub max_file_size_kb: u64,
    pub max_search_results: u64,
    pub allowed_extensions: Vec<String>,
    pub allowed_filenames: Vec<String>,
}

/// The library: how it and the making of vectors are set up, and where its parts lie.
#[derive(Debug)]
pub struct KnowledgeBase {
    pub config: KnowledgeBasePluginConfig,
    pub embedding: EmbeddingConfig,
    pub root: String,
    pub files_dir: String,
    pub meta_db: String,
    pub semantic_db: String,
}

/// A file of the library. The times are numbers as they are shown.
#[derive(Debug)]
pub struct FileRow {
    pub name: String,
    pub size_bytes: i64,
    pub mtime: Json,
    pub sha256: String,
    pub updated_at: Json,
}

/// How many vectors were made of one state of a file.
#[derive(Debug)]
pub struct ChunkRow {
    pub file_name: String,
    pub sha256: String,
    pub count: i64,
}

/// The bytes of the first `n` files.
pub open spec fn size_of_files(files: Seq<FileRow>, n: nat) -> int
    decreases n,
{
    if n == 0 {
        0
    } else {
        size_of_files(files, (n - 1) as nat) + files[n - 1].size_bytes
    }
}

/// The vectors in the first `n` rows.
pub open spec fn all_chunks(rows: Seq<ChunkRow>, n: nat) -> int
    decreases n,
{
    if n == 0 {
        0
    } else {
        all_chunks(rows, (n - 1) as nat) + rows[n - 1].count
    }
}

/// The vectors of a file in the first `n` rows, and the state of the file that the last of them
/// was made of; nothing where there are none.
pub open spec fn chunks_of(rows: Seq<ChunkRow>, name: Seq<char>, n: nat) -> Option<(int, Seq<char>)>
    decreases n,
{
    if n == 0 {
        None
    } else {
        let before = chunks_of(rows, name, (n - 1) as nat);
        if rows[n - 1].file_name@ == name {
            Some(
                (
                    rows[n - 1].count + match before {
                        Some(b) => b.0,
                        None => 0,
                    },
                    rows[n - 1].sha256@,
                ),
            )
        } else {
            before
        }
    }
}

/// How a file stands to its vectors.
pub open spec fn index_state(file: FileRow, rows: Seq<ChunkRow>) -> IndexState {
    match chunks_of(rows, file.name@, rows.len()) {
        None => IndexState::Unindexed,
        Some((_, sha)) => if sha == file.sha256@ {
            IndexState::Fresh
        } else {
            IndexState::Stale
        },
    }
}

/// How many vectors a file has.
pub open spec fn chunk_count(file: FileRow, rows: Seq<ChunkRow>) -> int {
    match chunks_of(rows, file.name@, rows.len()) {
        None => 0,
        Some((count, _)) => count,
    }
}

/// How many of the first `n` files are in a state.
pub open spec fn in_state(
    files: Seq<FileRow>,
    rows: Seq<ChunkRow>,
    state: IndexState,
    n: nat,
) -> nat
    decreases n,
{
    if n == 0 {
        0
    } else {
        in_state(files, rows, state, (n - 1) as nat) + if index_state(files[n - 1], rows) == state {
            1nat
        } else {
            0nat
        }
    }
}

/// Every file is in exactly one of the three states.
pub proof fn lemma_states_cover(files: Seq<FileRow>, rows: Seq<ChunkRow>, n: nat)
    ensures
        in_state(files, rows, IndexState::Unindexed, n) + in_state(
            files,
            rows,
            IndexState::Fresh,
            n,
        ) + in_state(files, rows, IndexState::Stale, n) == n,
    decreases n,
{
    if n > 0 {
        lemma_states_cover(files, rows, (n - 1) as nat);
    }
}

/// A file as it is shown.
pub open spec fn file_doc(file: FileRow, rows: Seq<ChunkRow>) -> Doc {
    Doc::Object(
        json::fields().push(("name"@, Doc::Text(file.name@))).push(
            ("size_bytes"@, json::number(file.size_bytes as int)),
        ).push(("mtime"@, file.mtime@)).push(("updated_at"@, file.updated_at@)).push(
            ("sha256"@, Doc::Text(file.sha256@)),
        ).push(("chunks"@, json::number(chunk_count(file, rows)))).push(
            ("index"@, Doc::Text(index_state(file, rows).name())),
        ).push(("builtin"@, Doc::Bool(text::begins(file.name@, "default-kb/"@)))),
    )
}

/// The files as they are shown.
pub open spec fn file_docs(files: Seq<FileRow>, rows: Seq<ChunkRow>) -> Seq<Doc> {
    files.map_values(|f: FileRow| file_doc(f, rows))
}

/// Texts as a JSON array.
pub open spec fn texts_doc(v: Seq<Seq<char>>) -> Doc {
    Doc::Array(v.map_values(|s: Seq<char>| Doc::Text(s)))
}

fn texts_json(v: &Vec<String>) -> (r: Json)
    ensures
        r@ == texts_doc(text::views(v@)),
{
    let ghost all = text::views(v@).map_values(|s: Seq<char>| Doc::Text(s));
    let mut items = Items::new();
    let mut i: usize = 0;
    assert(all.take(0) =~= json::items());
    while i < v.len()
        invariant
            i <= v@.len(),
            all == text::views(v@).map_values(|s: Seq<char>| Doc::Text(s)),
            items@ == all.take(i as int),
        decreases v@.len() - i,
    {
        items = items.with(json::string(v[i].as_str()));
        assert(all.take(i + 1) =~= all.take(i as int).push(all[i as int]));
        i = i + 1;
    }
    assert(all.take(all.len() as int) =~= all);
    items.build()
}

/// The library as it is shown.
pub open spec fn overview_doc(
    kb: KnowledgeBase,
    present: bool,
    files: Seq<FileRow>,
    rows: Seq<ChunkRow>,
    reindex: Doc,
) -> Doc {
    Doc::Object(
        json::fields().push(("ok"@, Doc::Bool(true))).push(
            ("enabled"@, Doc::Bool(kb.config.enabled)),
        ).push(("exists"@, Doc::Bool(present))).push(("root"@, Doc::Text(kb.root@))).push(
            ("files"@, Doc::Array(file_docs(files, rows))),
        ).push(("file_count"@, Doc::Unsigned(files.len() as u64))).push(
            ("total_size_bytes"@, json::number(size_of_files(files, files.len()))),
        ).push(("semantic_chunks"@, json::number(all_chunks(rows, rows.len())))).push(
            (
                "stale_files"@,
                Doc::Unsigned(in_state(files, rows, IndexState::Stale, files.len()) as u64),
            ),
        ).push(
            (
                "unindexed_files"@,
                Doc::Unsigned(in_state(files, rows, IndexState::Unindexed, files.len()) as u64),
            ),
        ).push(("embedding_enabled"@, Doc::Bool(kb.config.embedding_enabled))).push(
            ("embedding_provider_id"@, Doc::Text(kb.embedding.provider_id@)),
        ).push(("embedding_model"@, Doc::Text(kb.embedding.model@))).push(
            ("max_file_size_kb"@, Doc::Unsigned(kb.config.max_file_size_kb)),
        ).push(
            ("allowed_extensions"@, texts_doc(text::views(kb.config.allowed_extensions@))),
        ).push(
            ("allowed_filenames"@, texts_doc(text::views(kb.config.allowed_filenames@))),
        ).push(("reindex"@, reindex)),
    )
}

/// The library as it is shown: without files where there is none.
pub open spec fn shown_overview(
    kb: KnowledgeBase,
    present: bool,
    files: Seq<FileRow>,
    rows: Seq<ChunkRow>,
    reindex: Doc,
) -> Doc {
    if present {
        overview_doc(kb, true, files, rows, reindex)
    } else {
        overview_doc(kb, false, Seq::empty(), Seq::empty(), reindex)
    }
}

/// Whether sizes and counts can be added up.
pub open spec fn can_be_added(files: Seq<FileRow>, rows: Seq<ChunkRow>) -> bool {
    &&& forall|n: nat|
        n <= files.len() ==> i64::MIN <= #[trigger] size_of_files(files, n) <= i64::MAX
    &&& forall|i: int| 0 <= i < rows.len() ==> (#[trigger] rows[i]).count >= 0
    &&& all_chunks(rows, rows.len()) <= i64::MAX
}

proof fn lemma_chunks_grow(rows: Seq<ChunkRow>, i: nat, n: nat)
    requires
        i <= n <= rows.len(),
        forall|k: int| 0 <= k < rows.len() ==> (#[trigger] rows[k]).count >= 0,
    ensures
        0 <= all_chunks(rows, i) <= all_chunks(rows, n),
    decreases n,
{
    if i < n {
        lemma_chunks_grow(rows, i, (n - 1) as nat);
    } else if n > 0 {
        lemma_chunks_grow(rows, (n - 1) as nat, (n - 1) as nat);
    }
}

/// A file has no more vectors than there are.
proof fn lemma_chunks_of(rows: Seq<ChunkRow>, name: Seq<char>, n: nat)
    requires
        n <= rows.len(),
        forall|k: int| 0 <= k < rows.len() ==> (#[trigger] rows[k]).count >= 0,
    ensures
        chunks_of(rows, name, n) matches Some((count, _)) ==> 0 <= count <= all_chunks(rows, n),
        0 <= all_chunks(rows, n),
    decreases n,
{
    if n > 0 {
        lemma_chunks_of(rows, name, (n - 1) as nat);
    }
}

fn find_chunks(rows: &Vec<ChunkRow>, name: &str) -> (r: Option<(i64, usize)>)
    requires
        forall|k: int| 0 <= k < rows@.len() ==> (#[trigger] rows@[k]).count >= 0,
        all_chunks(rows@, rows@.len()) <= i64::MAX,
    ensures
        match r {
            Some((count, last)) => last < rows@.len() && chunks_of(rows@, name@, rows@.len())
                == Some((count as int, rows@[last as int].sha256@)),
            None => chunks_of(rows@, name@, rows@.len()) is None,
        },
{
    let mut found: Option<(i64, usize)> = None;
    let mut i: usize = 0;
    while i < rows.len()
        invariant
            i <= rows@.len(),
            forall|k: int| 0 <= k < rows@.len() ==> (#[trigger] rows@[k]).count >= 0,
            all_chunks(rows@, rows@.len()) <= i64::MAX,
            match found {
                Some((count, last)) => last < rows@.len() && chunks_of(rows@, name@, i as nat)
                    == Some((count as int, rows@[last as int].sha256@)),
                None => chunks_of(rows@, name@, i as nat) is None,
            },
        decreases rows@.len() - i,
    {
        if text::same(rows[i].file_name.as_str(), name) {
            let before: i64 = match found {
                Some((count, _)) => count,
                None => 0,
            };
            proof {
                lemma_chunks_of(rows@, name@, i as nat);
                lemma_chunks_grow(rows@, (i + 1) as nat, rows@.len());
            }
            found = Some((before + rows[i].count, i));
        }
        i = i + 1;
    }
    found
}

fn file_json(file: &FileRow, rows: &Vec<ChunkRow>) -> (r: (Json, IndexState))
    requires
        forall|k: int| 0 <= k < rows@.len() ==> (#[trigger] rows@[k]).count >= 0,
        all_chunks(rows@, rows@.len()) <= i64::MAX,
    ensures
        r.0@ == file_doc(*file, rows@),
        r.1 == index_state(*file, rows@),
{
    let (chunks, state): (i64, IndexState) = match find_chunks(rows, file.name.as_str()) {
        None => (0, IndexState::Unindexed),
        Some((count, last)) => {
            if text::same(rows[last].sha256.as_str(), file.sha256.as_str()) {
                (count, IndexState::Fresh)
            } else {
                (count, IndexState::Stale)
            }
        },
    };
    let shown = Fields::new().with("name", json::string(file.name.as_str())).with(
        "size_bytes",
        json::integer(file.size_bytes),
    ).with("mtime", file.mtime.duplicate()).with("updated_at", file.updated_at.duplicate()).with(
        "sha256",
        json::string(file.sha256.as_str()),
    ).with("chunks", json::integer(chunks)).with("index", json::string(state.label())).with(
        "builtin",
        Json::Bool(text::starts_with(file.name.as_str(), "default-kb/")),
    ).build();
    (shown, state)
}

/// What is shown of the rebuilding of vectors.
pub open spec fn reindex_doc(lock: Option<Option<u64>>, configured: bool) -> Doc {
    let age = match lock {
        Some(a) => a,
        None => None,
    };
    let stale = age matches Some(a) && a > 3600;
    Doc::Object(
        json::fields().push(("running"@, Doc::Bool(lock is Some && !stale))).push(
            ("stale_lock"@, Doc::Bool(stale)),
        ).push(
            (
                "lock_age_secs"@,
                match age {
                    Some(a) => Doc::Unsigned(a),
                    None => Doc::Null,
                },
            ),
        ).push(("configured"@, Doc::Bool(configured))),
    )
}

/// The line window of a text.
pub open spec fn window(lines: Seq<Seq<char>>, start: nat, most: nat) -> Seq<Seq<char>> {
    if start - 1 >= lines.len() {
        Seq::empty()
    } else if start - 1 + most >= lines.len() {
        lines.subrange(start - 1, lines.len() as int)
    } else {
        lines.subrange(start - 1, start - 1 + most)
    }
}

/// The first line that is shown.
pub open spec fn first_line(start: nat) -> nat {
    if start < 1 {
        1
    } else {
        start
    }
}

/// How many lines are shown at most.
pub open spec fn most_lines(max: nat) -> nat {
    if max < 1 {
        1
    } else if max > 5000 {
        5000
    } else {
        max
    }
}

/// The last line that is shown; the one before the first where none is.
pub open spec fn last_line(lines: Seq<Seq<char>>, start: nat, most: nat) -> nat {
    (start - 1 + window(lines, start, most).len()) as nat
}

/// A part of a file as it is shown.
pub open spec fn page_doc(name: Seq<char>, content: Seq<char>, start: nat, max: nat) -> Doc {
    let lines = text::line_list(content);
    let s = first_line(start);
    let m = most_lines(max);
    let end = last_line(lines, s, m);
    Doc::Object(
        json::fields().push(("ok"@, Doc::Bool(true))).push(("name"@, Doc::Text(name))).push(
            ("total_lines"@, Doc::Unsigned(lines.len() as u64)),
        ).push(("start"@, Doc::Unsigned(s as u64))).push(("end"@, Doc::Unsigned(end as u64))).push(
            ("text"@, Doc::Text(text::joined(window(lines, s, m), "\n"@))),
        ).push(("has_more"@, Doc::Bool(end < lines.len()))),
    )
}

/// Where more lines follow, the window that starts behind the last line shown goes on exactly
/// there, and where none follow, the window has reached the end: nothing is left out and nothing
/// is shown twice.
pub proof fn lemma_windows_join(lines: Seq<Seq<char>>, start: nat, most: nat)
    requires
        1 <= start <= lines.len() + 1,
        1 <= most,
    ensures
        ({
            let end = last_line(lines, start, most);
            &&& window(lines, start, most) == lines.subrange(start - 1, end as int)
            &&& end < lines.len() ==> window(lines, end + 1, most) == lines.subrange(
                end as int,
                last_line(lines, end + 1, most) as int,
            ) && last_line(lines, end + 1, most) > end
            &&& end <= lines.len()
        }),
{
    let end = last_line(lines, start, most);
    assert(window(lines, start, most) =~= lines.subrange(start - 1, end as int));
    if end < lines.len() {
        assert(window(lines, end + 1, most) =~= lines.subrange(
            end as int,
            last_line(lines, end + 1, most) as int,
        ));
    }
}

impl KnowledgeBase {
    /// The library below a directory.
    pub fn new(config: KnowledgeBasePluginConfig, embedding: EmbeddingConfig, root: &str) -> (r:
        KnowledgeBase)
        ensures
            r.config == config,
            r.embedding == embedding,
            r.root@ == root@,
            r.files_dir@ == path::below(root@, "files"@),
            r.meta_db@ == path::below(root@, "kb_meta.db"@),
            r.semantic_db@ == path::below(root@, "semantic_index.db"@),
    {
        KnowledgeBase {
            config,
            embedding,
            root: root.to_owned(),
            files_dir: path::join(root, "files"),
            meta_db: path::join(root, "kb_meta.db"),
            semantic_db: path::join(root, "semantic_index.db"),
        }
    }

    /// Where the library is.
    pub fn dashboard_root(&self) -> (r: &str)
        ensures
            r@ == self.root@,
    {
        self.root.as_str()
    }

    /// Whether there is a library: its directories and its list of files are there.
    pub fn readonly_available(
        &self,
        root_is_dir: bool,
        files_is_dir: bool,
        meta_is_file: bool,
    ) -> (r: bool)
        ensures
            r == (root_is_dir && files_is_dir && meta_is_file),
    {
        root_is_dir && files_is_dir && meta_is_file
    }

    /// The library as it is shown: its files, how each stands to its vectors, and the sums. Where
    /// there is no library, `present` is false and it is shown without files.
    pub fn dashboard_overview(
        &self,
        present: bool,
        files: &Vec<FileRow>,
        rows: &Vec<ChunkRow>,
        reindex: Json,
    ) -> (r: Json)
        requires
            present ==> can_be_added(files@, rows@),
        ensures
            r@ == shown_overview(*self, present, files@, rows@, reindex@),
    {
        let mut items = Items::new();
        let mut total_size: i64 = 0;
        let mut total_chunks: i64 = 0;
        let mut stale: u64 = 0;
        let mut unindexed: u64 = 0;
        let mut count: u64 = 0;
        let ghost mut fs: Seq<FileRow> = Seq::empty();
        let ghost mut cs: Seq<ChunkRow> = Seq::empty();
        assert(file_docs(fs, cs) =~= json::items());
        if present {
            let ghost all = file_docs(files@, rows@);
            assert(all.take(0) =~= json::items());
            let mut i: usize = 0;
            while i < files.len()
                invariant
                    i <= files@.len(),
                    can_be_added(files@, rows@),
                    all == file_docs(files@, rows@),
                    items@ == all.take(i as int),
                    total_size == size_of_files(files@, i as nat),
                    stale == in_state(files@, rows@, IndexState::Stale, i as nat),
                    unindexed == in_state(files@, rows@, IndexState::Unindexed, i as nat),
                    stale <= i,
                    unindexed <= i,
                decreases files@.len() - i,
            {
                let (shown, state) = file_json(&files[i], rows);
                assert(size_of_files(files@, (i + 1) as nat) <= i64::MAX);
                total_size = total_size + files[i].size_bytes;
                match state {
                    IndexState::Stale => {
                        stale = stale + 1;
                    },
                    IndexState::Unindexed => {
                        unindexed = unindexed + 1;
                    },
                    IndexState::Fresh => {},
                }
                items = items.with(shown);
                assert(all.take(i + 1) =~= all.take(i as int).push(all[i as int]));
                i = i + 1;
            }
            assert(all.take(all.len() as int) =~= all);
            let mut k: usize = 0;
            while k < rows.len()
                invariant
                    k <= rows@.len(),
                    can_be_added(files@, rows@),
                    total_chunks == all_chunks(rows@, k as nat),
                decreases rows@.len() - k,
            {
                proof {
                    lemma_chunks_grow(rows@, k as nat, k as nat);
                    lemma_chunks_grow(rows@, (k + 1) as nat, rows@.len());
                }
                total_chunks = total_chunks + rows[k].count;
                k = k + 1;
            }
            count = files.len() as u64;
            proof {
                fs = files@;
                cs = rows@;
            }
        }
        Fields::new().with("ok", Json::Bool(true)).with(
            "enabled",
            Json::Bool(self.config.enabled),
        ).with("exists", Json::Bool(present)).with("root", json::string(self.root.as_str())).with(
            "files",
            items.build(),
        ).with("file_count", Json::Unsigned(count)).with(
            "total_size_bytes",
            json::integer(total_size),
        ).with("semantic_chunks", json::integer(total_chunks)).with(
            "stale_files",
            Json::Unsigned(stale),
        ).with("unindexed_files", Json::Unsigned(unindexed)).with(
            "embedding_enabled",
            Json::Bool(self.config.embedding_enabled),
        ).with(
            "embedding_provider_id",
            json::string(self.embedding.provider_id.as_str()),
        ).with("embedding_model", json::string(self.embedding.model.as_str())).with(
            "max_file_size_kb",
            Json::Unsigned(self.config.max_file_size_kb),
        ).with("allowed_extensions", texts_json(&self.config.allowed_extensions)).with(
            "allowed_filenames",
            texts_json(&self.config.allowed_filenames),
        ).with("reindex", reindex).build()
    }

    /// Checks that a file can be shown.
    pub fn check_read(&self, available: bool, name: &str, is_file: bool) -> (r: Result<(), KbError>)
        ensures
            if !available {
                r matches Err(KbError::NotInitialized)
            } else if !is_file {
                r matches Err(KbError::NotFound { name: n }) && n@ == name@
            } else {
                r is Ok
            },
    {
        if !available {
            Err(KbError::NotInitialized)
        } else if !is_file {
            Err(KbError::NotFound { name: name.to_owned() })
        } else {
            Ok(())
        }
    }

    /// A part of a file as it is shown: so many lines from one line on.
    pub fn dashboard_read(
        &self,
        name: &str,
        content: &str,
        start_line: usize,
        max_lines: usize,
    ) -> (r: Json)
        ensures
            r@ == page_doc(name@, content@, start_line as nat, max_lines as nat),
    {
        let lines = text::lines(content);
        let ghost all = text::views(lines@);
        assert(all.len() == lines@.len());
        let total: usize = lines.len();
        let start: usize = if start_line < 1 {
            1
        } else {
            start_line
        };
        let most: usize = if max_lines < 1 {
            1
        } else if max_lines > 5000 {
            5000
        } else {
            max_lines
        };
        let mut shown: Vec<String> = Vec::new();
        let ghost w = window(all, start as nat, most as nat);
        let n: usize = if (start - 1) >= total {
            0
        } else if most >= total - (start - 1) {
            total - (start - 1)
        } else {
            most
        };
        assert(n == w.len());
        assert(text::views(shown@) =~= w.take(0));
        let mut i: usize = 0;
        while i < n
            invariant
                i <= n,
                n == w.len(),
                n > 0 ==> start - 1 + n <= lines.len(),
                1 <= start,
                all == text::views(lines@),
                w == window(all, start as nat, most as nat),
                n > 0 ==> w == all.subrange(start - 1, start - 1 + n),
                text::views(shown@) == w.take(i as int),
            decreases n - i,
        {
            let line = lines[start - 1 + i].clone();
            proof {
                text::lemma_views_push(shown@, line);
                assert(w[i as int] == all[start - 1 + i]);
                assert(w.take(i + 1) =~= w.take(i as int).push(w[i as int]));
            }
            shown.push(line);
            i = i + 1;
        }
        assert(w.take(w.len() as int) =~= w);
        let end: usize = if n == 0 {
            start - 1
        } else {
            start - 1 + n
        };
        Fields::new().with("ok", Json::Bool(true)).with("name", json::string(name)).with(
            "total_lines",
            Json::Unsigned(total as u64),
        ).with("start", Json::Unsigned(start as u64)).with("end", Json::Unsigned(end as u64)).with(
            "text",
            json::string(text::join(&shown, "\n").as_str()),
        ).with("has_more", Json::Bool(end < total)).build()
    }

    /// The name and the text under which a file could be taken in: the library is on, the name is
    /// one of the library's, and the contents are text. `name` is the name made regular, or why
    /// it cannot be.
    pub fn prepare_import(&self, name: Result<String, String>, bytes: Vec<u8>) -> (r: Result<
        (String, String),
        KbError,
    >)
        ensures
            if !self.config.enabled {
                r matches Err(KbError::Disabled)
            } else {
                match name {
                    Err(why) => r matches Err(KbError::Refused { why: w }) && w@ == why@,
                    Ok(n) => if vstd::utf8::valid_utf8(bytes@) {
                        r matches Ok((m, t)) && m@ == n@ && t@ == vstd::utf8::decode_utf8(bytes@)
                    } else {
                        r matches Err(KbError::NotText)
                    },
                }
            },
    {
        if !self.config.enabled {
            return Err(KbError::Disabled);
        }
        match name {
            Err(why) => Err(KbError::Refused { why }),
            Ok(n) => match encoding::decode(bytes) {
                Some(t) => Ok((n, t)),
                None => Err(KbError::NotText),
            },
        }
    }

    /// What comes of taking a file in: the name under which it is kept. `name` is the name made
    /// regular, or why it cannot be; `guard` says why what the file holds, or what kind it is of,
    /// keeps it out of the library, if it does; and `stored` is the name under which it was put
    /// there, or why it could not be. The first reason that there is against it decides.
    pub fn dashboard_import(
        &self,
        name: Result<String, String>,
        bytes: Vec<u8>,
        guard: Result<(), String>,
        stored: Result<String, String>,
    ) -> (r: Result<String, KbError>)
        ensures
            if !self.config.enabled {
                r matches Err(KbError::Disabled)
            } else if let Err(why) = name {
                r matches Err(KbError::Refused { why: w }) && w@ == why@
            } else if !vstd::utf8::valid_utf8(bytes@) {
                r matches Err(KbError::NotText)
            } else if let Err(why) = guard {
                r matches Err(KbError::Refused { why: w }) && w@ == why@
            } else {
                match stored {
                    Ok(kept) => r matches Ok(n) && n@ == kept@,
                    Err(why) => r matches Err(KbError::Refused { why: w }) && w@ == why@,
                }
            },
    {
        match self.prepare_import(name, bytes) {
            Err(e) => Err(e),
            Ok(_) => match guard {
                Err(why) => Err(KbError::Refused { why }),
                Ok(_) => match stored {
                    Ok(kept) => Ok(kept),
                    Err(why) => Err(KbError::Refused { why }),
                },
            },
        }
    }

    /// Where a file lies while it is taken in.
    pub fn staging_dir(&self) -> (r: String)
        ensures
            r@ == path::below(self.root@, ".incoming"@),
    {
        path::join(self.root.as_str(), ".incoming")
    }

    /// Checks that a file may be taken out: the library is on, and there is one.
    pub fn prepare_remove(&self, available: bool) -> (r: Result<(), KbError>)
        ensures
            if !self.config.enabled {
                r matches Err(KbError::Disabled)
            } else if !available {
                r matches Err(KbError::NotInitialized)
            } else {
                r is Ok
            },
    {
        if !self.config.enabled {
            Err(KbError::Disabled)
        } else if !available {
            Err(KbError::NotInitialized)
        } else {
            Ok(())
        }
    }

    /// What comes of taking a file out. `removed` says why it could not be, if it could not. The
    /// first reason that there is against it decides.
    pub fn dashboard_remove(&self, available: bool, removed: Result<(), String>) -> (r: Result<
        (),
        KbError,
    >)
        ensures
            if !self.config.enabled {
                r matches Err(KbError::Disabled)
            } else if !available {
                r matches Err(KbError::NotInitialized)
            } else {
                match removed {
                    Ok(_) => r is Ok,
                    Err(why) => r matches Err(KbError::Refused { why: w }) && w@ == why@,
                }
            },
    {
        match self.prepare_remove(available) {
            Err(e) => Err(e),
            Ok(_) => match removed {
                Ok(_) => Ok(()),
                Err(why) => Err(KbError::Refused { why }),
            },
        }
    }

    /// Where it stands that vectors are being rebuilt.
    pub fn lock_path(&self) -> (r: String)
        ensures
            r@ == path::below(self.root@, "embedding.lock"@),
    {
        path::join(self.root.as_str(), "embedding.lock")
    }

    /// What is shown of the rebuilding of vectors. `lock` is whether it is marked as running, and
    /// for how many seconds, where that is known; `provider` whether a model is set.
    pub fn dashboard_reindex_status(&self, lock: Option<Option<u64>>, provider: bool) -> (r: Json)
        ensures
            r@ == reindex_doc(lock, self.config.embedding_enabled && provider),
    {
        let age: Option<u64> = match lock {
            Some(a) => a,
            None => None,
        };
        let stale = match age {
            Some(a) => a > 3600,
            None => false,
        };
        let shown = match age {
            Some(a) => Json::Unsigned(a),
            None => Json::Null,
        };
        Fields::new().with("running", Json::Bool(lock.is_some() && !stale)).with(
            "stale_lock",
            Json::Bool(stale),
        ).with("lock_age_secs", shown).with(
            "configured",
            Json::Bool(self.config.embedding_enabled && provider),
        ).build()
    }

    /// What comes of the wish to rebuild the vectors, and whether that is begun. `provider` says
    /// whether a model is set, or why that is not known.
    pub fn dashboard_reindex(&self, provider: Result<bool, String>, status: &Json) -> (r: Result<
        (Json, bool),
        KbError,
    >)
        ensures
            if !self.config.enabled {
                r matches Err(KbError::Disabled)
            } else if !self.config.embedding_enabled {
                r matches Err(KbError::EmbeddingDisabled)
            } else {
                match provider {
                    Err(why) => r matches Err(KbError::Refused { why: w }) && w@ == why@,
                    Ok(false) => r matches Err(KbError::EmbeddingNotConfigured),
                    Ok(true) => if status@.truth_at("running"@) == Some(true) {
                        r matches Ok((v, begin)) && !begin && v@ == Doc::Object(
                            json::fields().push(("ok"@, Doc::Bool(true))).push(
                                ("started"@, Doc::Bool(false)),
                            ).push(("reason"@, Doc::Text("running"@))),
                        )
                    } else {
                        r matches Ok((v, begin)) && begin && v@ == Doc::Object(
                            json::fields().push(("ok"@, Doc::Bool(true))).push(
                                ("started"@, Doc::Bool(true)),
                            ),
                        )
                    },
                }
            },
    {
        if !self.config.enabled {
            return Err(KbError::Disabled);
        }
        if !self.config.embedding_enabled {
            return Err(KbError::EmbeddingDisabled);
        }
        match provider {
            Err(why) => {
                return Err(KbError::Refused { why });
            },
            Ok(set) => {
                if !set {
                    return Err(KbError::EmbeddingNotConfigured);
                }
            },
        }
        let running = match status.truth_at("running") {
            Some(b) => b,
            None => false,
        };
        if running {
            let v = Fields::new().with("ok", Json::Bool(true)).with(
                "started",
                Json::Bool(false),
            ).with("reason", json::string("running")).build();
            return Ok((v, false));
        }
        let v = Fields::new().with("ok", Json::Bool(true)).with("started", Json::Bool(true)).build();
        Ok((v, true))
    }

    /// Whether the mark that vectors are being rebuilt is taken away: only where it was left
    /// behind.
    pub fn dashboard_clear_stale_lock(&self, status: &Json) -> (r: bool)
        ensures
            r == (status@.truth_at("stale_lock"@) == Some(true)),
    {
        match status.truth_at("stale_lock") {
            Some(b) => b,
            None => false,
        }
    }

    /// What is told of the library in numbers. `total_size_kb` is a number as it is shown.
    pub fn stats(&self, files: u64, total_size_kb: Json, semantic_chunks: i64) -> (r: Json)
        ensures
            r@ == Doc::Object(
                json::fields().push(("ok"@, Doc::Bool(true))).push(
                    ("root"@, Doc::Text(self.root@)),
                ).push(("files_dir"@, Doc::Text(self.files_dir@))).push(
                    ("files"@, Doc::Unsigned(files)),
                ).push(("total_size_kb"@, total_size_kb@)).push(
                    ("semantic_chunks"@, json::number(semantic_chunks as int)),
                ).push(("embedding_enabled"@, Doc::Bool(self.config.embedding_enabled))).push(
                    ("embedding_provider_id"@, Doc::Text(self.config.embedding_provider_id@)),
                ).push(("embedding_model"@, Doc::Text(self.config.embedding_model@))),
            ),
    {
        Fields::new().with("ok", Json::Bool(true)).with("root", json::string(self.root.as_str())).with(
            "files_dir",
            json::string(self.files_dir.as_str()),
        ).with("files", Json::Unsigned(files)).with("total_size_kb", total_size_kb).with(
            "semantic_chunks",
            json::integer(semantic_chunks),
        ).with("embedding_enabled", Json::Bool(self.config.embedding_enabled)).with(
            "embedding_provider_id",
            json::string(self.config.embedding_provider_id.as_str()),
        ).with("embedding_model", json::string(self.config.embedding_model.as_str())).build()
    }
}

proof fn lemma_status_names()
    ensures
        "running"@ != "stale_lock"@,
{
    reveal_strlit("running");
    reveal_strlit("stale_lock");
    assert("running"@.len() != "stale_lock"@.len());
}

/// Vectors are never said to be being rebuilt where the mark of it was left behind, and a mark is
/// left behind where it is more than an hour old: after that a rebuilding can be begun again.
pub proof fn lemma_old_marks_do_not_block(age: u64, configured: bool)
    ensures
        ({
            let d = reindex_doc(Some(Some(age)), configured);
            &&& d.truth_at("stale_lock"@) == Some(age > 3600)
            &&& d.truth_at("running"@) == Some(age <= 3600)
        }),
{
    lemma_status_names();
    reveal_with_fuel(json::member_from, 3);
}

/// What a file's chunks are: none where no row is of it; the sum of its rows' counts; and of the
/// contents that its last row was made from.
pub proof fn lemma_chunks_named(file: FileRow, rows: Seq<ChunkRow>, row: ChunkRow)
    ensures
        index_state(file, rows) is Unindexed <==> forall|i: int|
            0 <= i < rows.len() ==> (#[trigger] rows[i]).file_name@ != file.name@,
        row.file_name@ == file.name@ ==> {
            &&& chunk_count(file, rows.push(row)) == chunk_count(file, rows) + row.count
            &&& index_state(file, rows.push(row)) is Fresh <==> row.sha256@ == file.sha256@
            &&& index_state(file, rows.push(row)) is Stale <==> row.sha256@ != file.sha256@
        },
        row.file_name@ != file.name@ ==> chunk_count(file, rows.push(row)) == chunk_count(file, rows)
            && index_state(file, rows.push(row)) == index_state(file, rows),
{
    lemma_chunks_none(rows, file.name@, rows.len());
    lemma_chunks_first(rows, row, file.name@, rows.len());
}

proof fn lemma_chunks_none(rows: Seq<ChunkRow>, name: Seq<char>, n: nat)
    requires
        n <= rows.len(),
    ensures
        chunks_of(rows, name, n) is None <==> forall|i: int|
            0 <= i < n ==> (#[trigger] rows[i]).file_name@ != name,
    decreases n,
{
    if n > 0 {
        lemma_chunks_none(rows, name, (n - 1) as nat);
    }
}

proof fn lemma_chunks_first(rows: Seq<ChunkRow>, row: ChunkRow, name: Seq<char>, n: nat)
    requires
        n <= rows.len(),
    ensures
        chunks_of(rows.push(row), name, n) == chunks_of(rows, name, n),
        all_chunks(rows.push(row), n) == all_chunks(rows, n),
    decreases n,
{
    if n > 0 {
        lemma_chunks_first(rows, row, name, (n - 1) as nat);
        assert(rows.push(row)[n - 1] == rows[n - 1]);
    }
}

/// One more file adds its size, and one to the files of its state; one more row adds its chunks.
pub proof fn lemma_totals_add(
    files: Seq<FileRow>,
    file: FileRow,
    rows: Seq<ChunkRow>,
    row: ChunkRow,
    state: IndexState,
)
    ensures
        size_of_files(files.push(file), files.len() + 1) == size_of_files(files, files.len())
            + file.size_bytes,
        all_chunks(rows.push(row), rows.len() + 1) == all_chunks(rows, rows.len()) + row.count,
        index_state(file, rows) == state ==> in_state(files.push(file), rows, state, files.len() + 1)
            == in_state(files, rows, state, files.len()) + 1,
        index_state(file, rows) != state ==> in_state(files.push(file), rows, state, files.len() + 1)
            == in_state(files, rows, state, files.len()),
{
    lemma_files_first(files, file, rows, state, files.len());
    lemma_chunks_first(rows, row, Seq::empty(), rows.len());
}

proof fn lemma_files_first(
    files: Seq<FileRow>,
    file: FileRow,
    rows: Seq<ChunkRow>,
    state: IndexState,
    n: nat,
)
    requires
        n <= files.len(),
    ensures
        size_of_files(files.push(file), n) == size_of_files(files, n),
        in_state(files.push(file), rows, state, n) == in_state(files, rows, state, n),
    decreases n,
{
    if n > 0 {
        lemma_files_first(files, file, rows, state, (n - 1) as nat);
        assert(files.push(file)[n - 1] == files[n - 1]);
    }
}

/// A window shows the lines from its start on, in their order, as many as it may and as there are.
pub proof fn lemma_window(lines: Seq<Seq<char>>, start: nat, most: nat, i: int)
    requires
        start >= 1,
    ensures
        window(lines, start, most).len() <= most,
        start - 1 + window(lines, start, most).len() <= lines.len() || window(
            lines,
            start,
            most,
        ).len() == 0,
        start - 1 + most <= lines.len() ==> window(lines, start, most).len() == most,
        start - 1 < lines.len() < start - 1 + most ==> window(lines, start, most).len()
            == lines.len() - (start - 1),
        0 <= i < window(lines, start, most).len() ==> window(lines, start, most)[i] == lines[start
            - 1 + i],
{
}

/// A page begins at the first line at least, and shows one line at least and 5000 at most.
pub proof fn lemma_page_bounds(start: nat, max: nat)
    ensures
        first_line(start) >= 1,
        start >= 1 ==> first_line(start) == start,
        1 <= most_lines(max) <= 5000,
        1 <= max <= 5000 ==> most_lines(max) == max,
        max > 5000 ==> most_lines(max) == 5000,
{
}

/// Indexing runs while there is a mark of it that is an hour old at most, or whose age is not known.
pub proof fn lemma_reindex(lock: Option<Option<u64>>, configured: bool)
    ensures
        reindex_doc(lock, configured).truth_at("running"@) == Some(
            match lock {
                None => false,
                Some(None) => true,
                Some(Some(age)) => age <= 3600,
            },
        ),
{
    let ms = reindex_doc(lock, configured)->Object_0;
    json::lemma_field(ms, "running"@, 0);
}

/// The library can be read where its directory, its files' directory and its list are there.
pub proof fn lemma_available(kb: &KnowledgeBase, root: bool, files: bool, meta: bool, r: bool)
    requires
        call_ensures(KnowledgeBase::readonly_available, (kb, root, files, meta), r),
    ensures
        r ==> root && files && meta,
        root && files && meta ==> r,
{
}

/// A file is read where the library is there and holds it.
pub proof fn lemma_check_read(
    kb: &KnowledgeBase,
    available: bool,
    name: &str,
    is_file: bool,
    r: Result<(), KbError>,
)
    requires
        call_ensures(KnowledgeBase::check_read, (kb, available, name, is_file), r),
    ensures
        r is Ok <==> available && is_file,
        !available ==> r matches Err(KbError::NotInitialized),
        available && !is_file ==> (r matches Err(KbError::NotFound { name: n }) && n@ == name@),
{
}

/// Nothing is taken in or away while the library is switched off.
pub proof fn lemma_switched_off(
    kb: &KnowledgeBase,
    name: Result<String, String>,
    bytes: Vec<u8>,
    guard: Result<(), String>,
    stored: Result<String, String>,
    available: bool,
    removed: Result<(), String>,
    taken: Result<String, KbError>,
    gone: Result<(), KbError>,
)
    requires
        call_ensures(KnowledgeBase::dashboard_import, (kb, name, bytes, guard, stored), taken),
        call_ensures(KnowledgeBase::dashboard_remove, (kb, available, removed), gone),
    ensures
        !kb.config.enabled ==> taken matches Err(KbError::Disabled),
        !kb.config.enabled ==> gone matches Err(KbError::Disabled),
        taken is Ok <==> kb.config.enabled && name is Ok && vstd::utf8::valid_utf8(bytes@)
            && guard is Ok && stored is Ok,
        taken matches Ok(n) ==> n@ == stored->Ok_0@,
        gone is Ok <==> kb.config.enabled && available && removed is Ok,
{
}

/// Indexing begins where it is switched on and set up and does not run yet, and only then.
pub proof fn lemma_reindex_begins(
    kb: &KnowledgeBase,
    provider: Result<bool, String>,
    status: &Json,
    r: Result<(Json, bool), KbError>,
)
    requires
        call_ensures(KnowledgeBase::dashboard_reindex, (kb, provider, status), r),
    ensures
        r is Ok <==> kb.config.enabled && kb.config.embedding_enabled && provider
            == Ok::<bool, String>(true),
        r matches Ok((v, begin)) ==> (begin <==> status@.truth_at("running"@) != Some(true)),
        r matches Ok((v, begin)) ==> v@.truth_at("started"@) == Some(begin),
{
    reveal_strlit("ok");
    reveal_strlit("started");
    assert("ok"@.len() == 2 && "started"@.len() == 7);
    match r {
        Ok((v, begin)) => {
            json::lemma_field(v@->Object_0, "started"@, 1);
        },
        Err(_) => {},
    }
}

/// A page says that more follows exactly where lines follow its last one, and holds the lines from
/// its start to its end.
pub proof fn lemma_page(
    kb: &KnowledgeBase,
    name: &str,
    content: &str,
    start: usize,
    max: usize,
    r: Json,
)
    requires
        call_ensures(KnowledgeBase::dashboard_read, (kb, name, content, start, max), r),
        text::line_list(content@).len() <= u64::MAX,
    ensures
        ({
            let lines = text::line_list(content@);
            let s = first_line(start as nat);
            let m = most_lines(max as nat);
            let end = s - 1 + window(lines, s, m).len();
            &&& r@.truth_at("has_more"@) == Some(end < lines.len())
            &&& r@.text_at("name"@) == Some(name@)
            &&& r@.text_at("text"@) == Some(text::joined(window(lines, s, m), "\n"@))
            &&& r@.natural_at("total_lines"@) == Some(lines.len() as u64)
            &&& r@.natural_at("start"@) == Some(s as u64)
        }),
{
    reveal_strlit("ok");
    reveal_strlit("name");
    reveal_strlit("total_lines");
    reveal_strlit("start");
    reveal_strlit("end");
    reveal_strlit("text");
    reveal_strlit("has_more");
    assert("ok"@.len() == 2 && "name"@.len() == 4 && "total_lines"@.len() == 11);
    assert("start"@.len() == 5 && "end"@.len() == 3 && "text"@.len() == 4 && "has_more"@.len() == 8);
    assert("name"@[0] == 'n' && "text"@[0] == 't');
    let ms = r@->Object_0;
    json::lemma_field(ms, "name"@, 1);
    json::lemma_field(ms, "total_lines"@, 2);
    json::lemma_field(ms, "start"@, 3);
    json::lemma_field(ms, "text"@, 5);
    json::lemma_field(ms, "has_more"@, 6);
}

/// What the overview says of a library: how many files it has and how large they are, how many chunks
/// there are, and how many files have none or old ones; and of one that is not there that all of this
/// is nothing.
pub proof fn lemma_overview(
    kb: &KnowledgeBase,
    present: bool,
    files: &Vec<FileRow>,
    rows: &Vec<ChunkRow>,
    reindex: Json,
    r: Json,
)
    requires
        call_ensures(KnowledgeBase::dashboard_overview, (kb, present, files, rows, reindex), r),
    ensures
        r@.truth_at("exists"@) == Some(present),
        r@.truth_at("enabled"@) == Some(kb.config.enabled),
        present ==> {
            &&& r@.natural_at("file_count"@) == Some(files@.len() as u64)
            &&& r@.field("total_size_bytes"@) == Some(
                json::number(size_of_files(files@, files@.len())),
            )
            &&& r@.field("semantic_chunks"@) == Some(json::number(all_chunks(rows@, rows@.len())))
            &&& r@.natural_at("stale_files"@) == Some(
                in_state(files@, rows@, IndexState::Stale, files@.len()) as u64,
            )
            &&& r@.natural_at("unindexed_files"@) == Some(
                in_state(files@, rows@, IndexState::Unindexed, files@.len()) as u64,
            )
        },
        !present ==> {
            &&& r@.natural_at("file_count"@) == Some(0u64)
            &&& r@.natural_at("stale_files"@) == Some(0u64)
            &&& r@.natural_at("unindexed_files"@) == Some(0u64)
            &&& r@.field("semantic_chunks"@) == Some(json::number(0))
        },
{
    reveal_strlit("ok");
    reveal_strlit("enabled");
    reveal_strlit("exists");
    reveal_strlit("root");
    reveal_strlit("files");
    reveal_strlit("file_count");
    reveal_strlit("total_size_bytes");
    reveal_strlit("semantic_chunks");
    reveal_strlit("stale_files");
    reveal_strlit("unindexed_files");
    assert("ok"@.len() == 2 && "enabled"@.len() == 7 && "exists"@.len() == 6 && "root"@.len() == 4);
    assert("files"@.len() == 5 && "file_count"@.len() == 10 && "total_size_bytes"@.len() == 16);
    assert("semantic_chunks"@.len() == 15 && "stale_files"@.len() == 11);
    assert("unindexed_files"@.len() == 15);
    assert("semantic_chunks"@[0] == 's' && "unindexed_files"@[0] == 'u');
    let ms = r@->Object_0;
    json::lemma_field(ms, "enabled"@, 1);
    json::lemma_field(ms, "exists"@, 2);
    json::lemma_field(ms, "file_count"@, 5);
    json::lemma_field(ms, "total_size_bytes"@, 6);
    json::lemma_field(ms, "semantic_chunks"@, 7);
    json::lemma_field(ms, "stale_files"@, 8);
    json::lemma_field(ms, "unindexed_files"@, 9);
}

/// What is said of a file: its name, its chunks, the state of them, and whether it came with the
/// program.
pub proof fn lemma_file_doc(file: FileRow, rows: Seq<ChunkRow>)
    ensures
        file_doc(file, rows).text_at("name"@) == Some(file.name@),
        file_doc(file, rows).text_at("index"@) == Some(index_state(file, rows).name()),
        file_doc(file, rows).field("chunks"@) == Some(json::number(chunk_count(file, rows))),
        file_doc(file, rows).truth_at("builtin"@) == Some(
            text::begins(file.name@, "default-kb/"@),
        ),
{
    reveal_strlit("name");
    reveal_strlit("size_bytes");
    reveal_strlit("mtime");
    reveal_strlit("updated_at");
    reveal_strlit("sha256");
    reveal_strlit("chunks");
    reveal_strlit("index");
    reveal_strlit("builtin");
    assert("name"@.len() == 4 && "size_bytes"@.len() == 10 && "mtime"@.len() == 5);
    assert("updated_at"@.len() == 10 && "sha256"@.len() == 6 && "chunks"@.len() == 6);
    assert("index"@.len() == 5 && "builtin"@.len() == 7);
    assert("mtime"@[0] == 'm' && "index"@[0] == 'i' && "sha256"@[0] == 's' && "chunks"@[0] == 'c');
    let ms = file_doc(file, rows)->Object_0;
    json::lemma_field(ms, "name"@, 0);
    json::lemma_field(ms, "chunks"@, 5);
    json::lemma_field(ms, "index"@, 6);
    json::lemma_field(ms, "builtin"@, 7);
}

}
