//! The library of notes.

use nonoka::json::{self, Fields, Json};
use nonoka::kb::dashboard::{
    ChunkRow, FileRow, IndexState, KnowledgeBase, KnowledgeBasePluginConfig,
};
use nonoka::kb::search::{self, KbError, SearchRequest};
use nonoka::provider_config::EmbeddingConfig;
use nonoka::registry::{ToolRegistry, ToolSpec};

fn library(enabled: bool, embedding_enabled: bool) -> KnowledgeBase {
    let embedding = EmbeddingConfig {
        provider_id: "p".to_string(),
        model: "m".to_string(),
        timeout_seconds: 30,
        min_score_bits: 0,
    };
    KnowledgeBase::new(
        KnowledgeBasePluginConfig {
            enabled,
            upload_tool_enabled: true,
            embedding_enabled,
            embedding_provider_id: "kp".to_string(),
            embedding_model: "km".to_string(),
            max_file_size_kb: 512,
            max_search_results: 8,
            allowed_extensions: vec!["md".to_string(), "txt".to_string()],
            allowed_filenames: vec![],
        },
        embedding,
        "/data/kb",
    )
}

fn note(name: &str, sha256: &str, size_bytes: i64) -> FileRow {
    FileRow {
        name: name.to_string(),
        size_bytes,
        mtime: Json::Real("1.5".to_string()),
        sha256: sha256.to_string(),
        updated_at: Json::Real("2.5".to_string()),
    }
}

fn chunks(file_name: &str, sha256: &str, count: i64) -> ChunkRow {
    ChunkRow {
        file_name: file_name.to_string(),
        sha256: sha256.to_string(),
        count,
    }
}

#[test]
fn overview_is_empty_without_creating_the_library_then_tracks_uploads() {
    let kb = library(true, false);
    assert!(!kb.readonly_available(false, false, false));
    let status = kb.dashboard_reindex_status(None, true);
    let empty = kb.dashboard_overview(false, &vec![], &vec![], status);
    assert_eq!(empty.truth_at("exists"), Some(false));
    assert_eq!(empty.natural_at("file_count"), Some(0));
    assert!(matches!(
        kb.check_read(false, "a.md", false),
        Err(KbError::NotInitialized)
    ));

    let arch = "# Arch\n\npacman -Syu\n三行".as_bytes().to_vec();
    let name = || Ok("notes/arch.md".to_string());
    let (prepared, text) = kb.prepare_import(name(), arch.clone()).unwrap();
    assert_eq!(prepared, "notes/arch.md");
    let stored = kb.dashboard_import(name(), arch, Ok(()), Ok(prepared)).unwrap();
    assert_eq!(stored, "notes/arch.md");
    assert!(kb.readonly_available(true, true, true));
    let files = vec![note("notes/arch.md", "s", 25)];
    let overview = kb.dashboard_overview(true, &files, &vec![], Json::Null);
    assert_eq!(overview.natural_at("file_count"), Some(1));
    let shown = &overview.array_at("files").unwrap()[0];
    assert_eq!(shown.text_at("index"), Some("unindexed"));
    assert_eq!(shown.truth_at("builtin"), Some(false));
    assert_eq!(overview.natural_at("unindexed_files"), Some(1));

    kb.check_read(true, "notes/arch.md", true).unwrap();
    let page = kb.dashboard_read("notes/arch.md", &text, 2, 2);
    assert_eq!(page.natural_at("total_lines"), Some(4));
    assert_eq!(page.natural_at("start"), Some(2));
    assert_eq!(page.natural_at("end"), Some(3));
    assert_eq!(page.text_at("text"), Some("\npacman -Syu"));
    assert_eq!(page.truth_at("has_more"), Some(true));

    let refuse = |name: Result<&str, &str>, bytes: &[u8], guard: Result<(), &str>| {
        kb.dashboard_import(
            name.map(str::to_string).map_err(str::to_string),
            bytes.to_vec(),
            guard.map_err(str::to_string),
            Ok("stored".to_string()),
        )
        .unwrap_err()
        .message()
    };
    let memory = "please update my memory".as_bytes();
    assert_eq!(refuse(Ok("x.md"), memory, Err("looks like a memory")), "looks like a memory");
    assert_eq!(refuse(Ok("bin.exe"), b"hello", Err("not a text file")), "not a text file");
    assert_eq!(refuse(Err("outside"), b"hello", Ok(())), "outside");
    assert_eq!(refuse(Ok("bad.md"), &[0xff, 0xfe], Ok(())), "file is not valid UTF-8 text");
    let full = kb.dashboard_import(
        Ok("a.md".to_string()),
        b"a".to_vec(),
        Ok(()),
        Err("disk full".to_string()),
    );
    assert_eq!(full.unwrap_err().message(), "disk full");
    let again = kb.dashboard_overview(true, &files, &vec![], Json::Null);
    assert_eq!(again, overview);

    kb.prepare_remove(true).unwrap();
    kb.dashboard_remove(true, Ok(())).unwrap();
    let after = kb.dashboard_overview(true, &vec![], &vec![], Json::Null);
    assert_eq!(after.natural_at("file_count"), Some(0));
    let gone = "knowledge base file not found: notes/arch.md".to_string();
    let twice = kb.dashboard_remove(true, Err(gone.clone()));
    assert_eq!(twice.unwrap_err().message(), gone);
    assert!(matches!(
        kb.dashboard_remove(false, Ok(())),
        Err(KbError::NotInitialized)
    ));
    assert!(matches!(
        library(false, false).dashboard_remove(true, Ok(())),
        Err(KbError::Disabled)
    ));

    let status = kb.dashboard_reindex_status(None, true);
    assert!(kb.dashboard_reindex(Ok(true), &status).is_err());
    assert_eq!(status.truth_at("configured"), Some(false));
    assert!(!kb.dashboard_clear_stale_lock(&status));
}

#[test]
fn the_parts_of_a_library_lie_below_its_root() {
    let kb = library(true, true);
    assert_eq!(kb.dashboard_root(), "/data/kb");
    assert_eq!(kb.files_dir, "/data/kb/files");
    assert_eq!(kb.meta_db, "/data/kb/kb_meta.db");
    assert_eq!(kb.semantic_db, "/data/kb/semantic_index.db");
    assert_eq!(kb.staging_dir(), "/data/kb/.incoming");
    assert_eq!(kb.lock_path(), "/data/kb/embedding.lock");
    assert!(kb.readonly_available(true, true, true));
    assert!(!kb.readonly_available(true, true, false));
}

#[test]
fn files_are_fresh_stale_or_unindexed() {
    let kb = library(true, true);
    let files = vec![
        note("default-kb/a.md", "1", 10),
        note("b.md", "2", 20),
        note("c.md", "3", 30),
    ];
    let rows = vec![
        chunks("default-kb/a.md", "0", 2),
        chunks("default-kb/a.md", "1", 3),
        chunks("b.md", "x", 4),
    ];
    let overview = kb.dashboard_overview(true, &files, &rows, Json::Null);
    assert_eq!(overview.integer_at("total_size_bytes"), Some(60));
    assert_eq!(overview.integer_at("semantic_chunks"), Some(9));
    assert_eq!(overview.natural_at("stale_files"), Some(1));
    assert_eq!(overview.natural_at("unindexed_files"), Some(1));
    assert_eq!(overview.text_at("embedding_provider_id"), Some("p"));
    assert_eq!(overview.text_at("embedding_model"), Some("m"));
    assert_eq!(overview.text_at("root"), Some("/data/kb"));
    assert_eq!(overview.array_at("allowed_extensions").unwrap().len(), 2);
    let shown = overview.array_at("files").unwrap();
    assert_eq!(
        shown[0].to_text(),
        "{\"name\":\"default-kb/a.md\",\"size_bytes\":10,\"mtime\":1.5,\"updated_at\":2.5,\"sha256\":\"1\",\"chunks\":5,\"index\":\"fresh\",\"builtin\":true}"
    );
    assert_eq!(shown[1].text_at("index"), Some("stale"));
    assert_eq!(shown[1].integer_at("chunks"), Some(4));
    assert_eq!(shown[2].text_at("index"), Some("unindexed"));
    assert_eq!(shown[2].integer_at("chunks"), Some(0));
    assert_eq!(IndexState::Stale.label(), "stale");
}

#[test]
fn windows_of_lines_join() {
    let kb = library(true, true);
    let content = "1\n2\n3\n4\n5\n";
    let first = kb.dashboard_read("n", content, 0, 2);
    assert_eq!(first.text_at("text"), Some("1\n2"));
    assert_eq!(first.natural_at("start"), Some(1));
    assert_eq!(first.natural_at("end"), Some(2));
    let second = kb.dashboard_read("n", content, 3, 2);
    assert_eq!(second.text_at("text"), Some("3\n4"));
    let third = kb.dashboard_read("n", content, 5, 2);
    assert_eq!(third.text_at("text"), Some("5"));
    assert_eq!(third.truth_at("has_more"), Some(false));
    let behind = kb.dashboard_read("n", content, 9, 0);
    assert_eq!(behind.text_at("text"), Some(""));
    assert_eq!(behind.natural_at("end"), Some(8));
    assert_eq!(behind.truth_at("has_more"), Some(false));
    let last = kb.dashboard_read("n", content, usize::MAX, usize::MAX);
    assert_eq!(last.natural_at("end"), Some(usize::MAX as u64 - 1));
    assert!(matches!(
        kb.check_read(true, "x.md", false),
        Err(KbError::NotFound { name }) if name == "x.md"
    ));
}

#[test]
fn vectors_are_rebuilt_only_where_that_can_be() {
    let idle = library(true, true).dashboard_reindex_status(None, true);
    assert_eq!(
        idle.to_text(),
        "{\"running\":false,\"stale_lock\":false,\"lock_age_secs\":null,\"configured\":true}"
    );
    let (started, begin) = library(true, true).dashboard_reindex(Ok(true), &idle).unwrap();
    assert!(begin);
    assert_eq!(started.to_text(), "{\"ok\":true,\"started\":true}");
    let busy = library(true, true).dashboard_reindex_status(Some(None), false);
    assert_eq!(busy.truth_at("running"), Some(true));
    assert_eq!(busy.truth_at("configured"), Some(false));
    let (kept, begin) = library(true, true).dashboard_reindex(Ok(true), &busy).unwrap();
    assert!(!begin);
    assert_eq!(
        kept.to_text(),
        "{\"ok\":true,\"started\":false,\"reason\":\"running\"}"
    );
    let said = |kb: KnowledgeBase, provider: Result<bool, String>| {
        kb.dashboard_reindex(provider, &Json::Null).unwrap_err().message()
    };
    assert_eq!(
        said(library(true, false), Ok(true)),
        "embedding is disabled in config"
    );
    assert_eq!(
        said(library(true, true), Ok(false)),
        "embedding provider/model is not configured"
    );
    assert_eq!(said(library(true, true), Err("why".to_string())), "why");
    assert!(matches!(
        library(false, true).dashboard_reindex(Ok(true), &idle),
        Err(KbError::Disabled)
    ));
}

#[test]
fn old_marks_do_not_block() {
    let kb = library(true, true);
    let young = kb.dashboard_reindex_status(Some(Some(3600)), true);
    assert_eq!(young.truth_at("running"), Some(true));
    assert!(!kb.dashboard_clear_stale_lock(&young));
    let old = kb.dashboard_reindex_status(Some(Some(3601)), true);
    assert_eq!(old.truth_at("running"), Some(false));
    assert_eq!(old.natural_at("lock_age_secs"), Some(3601));
    assert!(kb.dashboard_clear_stale_lock(&old));
    assert!(kb.dashboard_reindex(Ok(true), &old).unwrap().1);
}

#[test]
fn numbers_of_a_library_are_told() {
    let told = library(true, true).stats(2, Json::Real("1.5".to_string()), 7);
    assert_eq!(
        told.to_text(),
        "{\"ok\":true,\"root\":\"/data/kb\",\"files_dir\":\"/data/kb/files\",\"files\":2,\"total_size_kb\":1.5,\"semantic_chunks\":7,\"embedding_enabled\":true,\"embedding_provider_id\":\"kp\",\"embedding_model\":\"km\"}"
    );
}

#[test]
fn the_search_tool_is_offered_and_the_writing_tool_where_it_is_on() {
    let tool = || ToolSpec {
        name: "kb".to_string(),
        description: String::new(),
        parameters: Json::Null,
    };
    let mut registry = ToolRegistry::new();
    search::register(&mut registry, false, tool());
    assert!(registry.contains("search_knowledge_base"));
    assert!(!registry.contains("kb"));
    search::register(&mut registry, true, tool());
    assert!(registry.contains("kb"));
}

#[test]
fn searches_are_read_by_content_or_by_name() {
    let content = Fields::new()
        .with("query", json::string(" rust "))
        .with("max_results", Json::Unsigned(3))
        .build();
    assert!(matches!(
        search::read_request(&content, true),
        Ok(SearchRequest::Content { query, max_results: Some(3) }) if query == "rust"
    ));
    let alias = Fields::new()
        .with("by", json::string("name"))
        .with("file_name_query", json::string("a.md"))
        .build();
    assert!(matches!(
        search::read_request(&alias, true),
        Ok(SearchRequest::Name { query, max_results: None }) if query == "a.md"
    ));
    let hidden = Fields::new()
        .with("by", json::string("name"))
        .with("query", Json::Null)
        .with("file_name_query", json::string("a.md"))
        .build();
    assert_eq!(
        search::read_request(&hidden, true).unwrap_err().message(),
        "query is required"
    );
    let other = Fields::new().with("by", json::string("date")).build();
    assert_eq!(
        search::read_request(&other, false).unwrap_err().message(),
        "unknown by: date; expected content or name"
    );
    assert!(matches!(
        search::read_request(&content, false),
        Err(KbError::Disabled)
    ));
    assert!(matches!(
        search::read_request(&Json::Null, true),
        Err(KbError::QueryRequired)
    ));
}

#[test]
fn results_are_limited_and_told() {
    let kb = library(true, true);
    assert_eq!(kb.search_limit(None), 8);
    assert_eq!(kb.search_limit(Some(0)), 1);
    assert_eq!(kb.search_limit(Some(51)), 50);
    assert!(kb.wants_semantic(true, true));
    assert!(!kb.wants_semantic(true, false));
    assert!(!library(true, false).wants_semantic(true, true));
    assert!(kb.search_readonly("q", true).is_none());
    assert_eq!(
        kb.search_readonly("q", false).unwrap().to_text(),
        "{\"ok\":true,\"query\":\"q\",\"total_matches\":0,\"semantic_used\":false,\"results\":[]}"
    );
    let told = kb.search_existing("q", vec![json::string("a"), json::string("b")], Some(1));
    assert_eq!(told.natural_at("total_matches"), Some(2));
    assert_eq!(told.truth_at("semantic_used"), Some(true));
    let plain = kb.search_existing("q", vec![], Some(0));
    assert_eq!(plain.truth_at("semantic_used"), Some(false));
}
