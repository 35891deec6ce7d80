//! Searching the library.

use super::dashboard::KnowledgeBase;
use crate::json::{self, Doc, Fields, Items, Json};
use crate::registry::{self, Tool, ToolRegistry, ToolSpec};
use crate::text;
use vstd::prelude::*;

verus! {

/// Why the library does not do what it is asked for.
#[derive(Debug)]
pub enum KbError {
    /// The library is switched off.
    Disabled,
    /// There is no library yet.
    NotInitialized,
    /// There is no such file.
    NotFound { name: String },
    /// Nothing is searched for.
    QueryRequired,
    /// It is not known what is searched.
    UnknownBy { by: String },
    /// Vectors are switched off.
    EmbeddingDisabled,
    /// It is not set which model makes vectors.
    EmbeddingNotConfigured,
    /// A file is no text.
    NotText,
    /// Something else was wrong, for this reason.
    Refused { why: String },
}

impl KbError {
    /// What is said of it.
    pub open spec fn said(self) -> Seq<char> {
        match self {
            KbError::Disabled => "knowledge base plugin is disabled"@,
            KbError::NotInitialized => "knowledge base is not initialized"@,
            KbError::NotFound { name } => "knowledge base file not found: "@ + name@,
            KbError::QueryRequired => "query is required"@,
            KbError::UnknownBy { by } => "unknown by: "@ + by@ + "; expected content or name"@,
            KbError::EmbeddingDisabled => "embedding is disabled in config"@,
            KbError::EmbeddingNotConfigured => "embedding provider/model is not configured"@,
            KbError::NotText => "file is not valid UTF-8 text"@,
            KbError::Refused { why } => why@,
        }
    }

    /// What is said of it.
    pub fn message(&self) -> (r: String)
        ensures
            r@ == self.said(),
    {
        match self {
            KbError::Disabled => "knowledge base plugin is disabled".to_owned(),
            KbError::NotInitialized => "knowledge base is not initialized".to_owned(),
            KbError::NotFound { name } => text::cat2(
                "knowledge base file not found: ",
                name.as_str(),
            ),
            KbError::QueryRequired => "query is required".to_owned(),
            KbError::UnknownBy { by } => text::cat3(
                "unknown by: ",
                by.as_str(),
                "; expected content or name",
            ),
            KbError::EmbeddingDisabled => "embedding is disabled in config".to_owned(),
            KbError::EmbeddingNotConfigured => "embedding provider/model is not configured".to_owned(),
            KbError::NotText => "file is not valid UTF-8 text".to_owned(),
            KbError::Refused { why } => why.clone(),
        }
    }
}

/// What is said of the tool that searches.
pub const SEARCH_ABOUT: &'static str = "Search the local knowledge base. by=content (default) searches file contents and returns paths plus original snippets; by=name finds files by file name, directory, extension, or path fragment and returns relative paths. Use read_knowledge_base_file if snippets are insufficient. Mention paths only when useful or when the user asks.";

/// The tool that searches.
pub open spec fn search_tool() -> Tool {
    let query = Doc::Object(
        json::fields().push(("type"@, Doc::Text("string"@))).push(
            (
                "description"@,
                Doc::Text(
                    "Search keywords, user question, or (with by=name) a file name / directory / extension / path fragment."@,
                ),
            ),
        ),
    );
    let by = Doc::Object(
        json::fields().push(("type"@, Doc::Text("string"@))).push(
            (
                "enum"@,
                Doc::Array(
                    json::items().push(Doc::Text("content"@)).push(Doc::Text("name"@)),
                ),
            ),
        ).push(
            (
                "description"@,
                Doc::Text("content searches text, name searches paths. Defaults to content."@),
            ),
        ),
    );
    let most = Doc::Object(
        json::fields().push(("type"@, Doc::Text("integer"@))).push(
            ("description"@, Doc::Text("Optional result limit."@)),
        ),
    );
    Tool {
        name: "search_knowledge_base"@,
        description: SEARCH_ABOUT@,
        parameters: Doc::Object(
            json::fields().push(("type"@, Doc::Text("object"@))).push(
                (
                    "properties"@,
                    Doc::Object(
                        json::fields().push(("query"@, query)).push(("by"@, by)).push(
                            ("max_results"@, most),
                        ),
                    ),
                ),
            ).push(("required"@, Doc::Array(json::items().push(Doc::Text("query"@))))).push(
                ("additionalProperties"@, Doc::Bool(false)),
            ),
        ),
    }
}

/// Offers the tool that searches.
pub fn register_readonly(registry: &mut ToolRegistry)
    ensures
        final(registry)@ == registry::with_tool(old(registry)@, search_tool()),
{
    let query = Fields::new().with("type", json::string("string")).with(
        "description",
        json::string(
            "Search keywords, user question, or (with by=name) a file name / directory / extension / path fragment.",
        ),
    ).build();
    let ways = Items::new().with(json::string("content")).with(json::string("name")).build();
    let by = Fields::new().with("type", json::string("string")).with("enum", ways).with(
        "description",
        json::string("content searches text, name searches paths. Defaults to content."),
    ).build();
    let most = Fields::new().with("type", json::string("integer")).with(
        "description",
        json::string("Optional result limit."),
    ).build();
    let properties = Fields::new().with("query", query).with("by", by).with(
        "max_results",
        most,
    ).build();
    let parameters = Fields::new().with("type", json::string("object")).with(
        "properties",
        properties,
    ).with("required", Items::new().with(json::string("query")).build()).with(
        "additionalProperties",
        Json::Bool(false),
    ).build();
    registry.register(
        ToolSpec {
            name: "search_knowledge_base".to_owned(),
            description: SEARCH_ABOUT.to_owned(),
            parameters,
        },
    );
}

/// Offers the tool that searches, and the one that writes where that is switched on.
pub fn register(registry: &mut ToolRegistry, upload_tool_enabled: bool, kb_tool: ToolSpec)
    ensures
        ({
            let first = registry::with_tool(old(registry)@, search_tool());
            final(registry)@ == if upload_tool_enabled {
                registry::with_tool(first, kb_tool@)
            } else {
                first
            }
        }),
{
    register_readonly(registry);
    if upload_tool_enabled {
        registry.register(kb_tool);
    }
}

/// What is searched for.
#[derive(Debug)]
pub enum SearchRequest {
    /// This, in the files' contents.
    Content { query: String, max_results: Option<u64> },
    /// This, in the files' names.
    Name { query: String, max_results: Option<u64> },
}

/// What is searched for in the files' names: under either of two names.
pub open spec fn name_query(args: Doc) -> Seq<char> {
    text::trimmed(
        match args.field("query"@) {
            Some(d) => match d.text() {
                Some(t) => t,
                None => ""@,
            },
            None => args.text_or("file_name_query"@, ""@),
        },
    )
}

/// Whether `r` is what a call asks to be searched for.
pub open spec fn searched(args: Doc, enabled: bool, r: Result<SearchRequest, KbError>) -> bool {
    let by = args.text_or("by"@, "content"@);
    if by == "content"@ {
        let q = text::trimmed(args.text_or("query"@, ""@));
        if !enabled {
            r matches Err(KbError::Disabled)
        } else if q.len() == 0 {
            r matches Err(KbError::QueryRequired)
        } else {
            r matches Ok(SearchRequest::Content { query, max_results }) && query@ == q
                && max_results == args.natural_at("max_results"@)
        }
    } else if by == "name"@ {
        if !enabled {
            r matches Err(KbError::Disabled)
        } else if name_query(args).len() == 0 {
            r matches Err(KbError::QueryRequired)
        } else {
            r matches Ok(SearchRequest::Name { query, max_results }) && query@ == name_query(args)
                && max_results == args.natural_at("max_results"@)
        }
    } else {
        r matches Err(KbError::UnknownBy { by: b }) && b@ == by
    }
}

/// What a call asks to be searched for.
pub fn read_request(args: &Json, enabled: bool) -> (r: Result<SearchRequest, KbError>)
    ensures
        searched(args@, enabled, r),
{
    let by = args.text_or("by", "content");
    if text::same(by, "content") {
        if !enabled {
            return Err(KbError::Disabled);
        }
        let query = text::trim(args.text_or("query", ""));
        if query.as_str().is_empty() {
            return Err(KbError::QueryRequired);
        }
        Ok(SearchRequest::Content { query, max_results: args.natural_at("max_results") })
    } else if text::same(by, "name") {
        if !enabled {
            return Err(KbError::Disabled);
        }
        let given = match args.get("query") {
            Some(v) => match v.as_str() {
                Some(t) => t,
                None => "",
            },
            None => args.text_or("file_name_query", ""),
        };
        let query = text::trim(given);
        if query.as_str().is_empty() {
            return Err(KbError::QueryRequired);
        }
        Ok(SearchRequest::Name { query, max_results: args.natural_at("max_results") })
    } else {
        Err(KbError::UnknownBy { by: by.to_owned() })
    }
}

/// How many results there are at most: as many as asked for, or as set, but between one and
/// fifty.
pub open spec fn result_limit(asked: Option<u64>, set: u64) -> u64 {
    let n = match asked {
        Some(a) => a,
        None => set,
    };
    if n < 1 {
        1
    } else if n > 50 {
        50
    } else {
        n
    }
}

impl KnowledgeBase {
    /// How many results there are at most.
    pub fn search_limit(&self, max_results: Option<u64>) -> (r: u64)
        ensures
            r == result_limit(max_results, self.config.max_search_results),
            1 <= r <= 50,
    {
        let n: u64 = match max_results {
            Some(a) => a,
            None => self.config.max_search_results,
        };
        if n < 1 {
            1
        } else if n > 50 {
            50
        } else {
            n
        }
    }

    /// Whether vectors are searched too: they may be, they are switched on, and no word has led to
    /// a strong result.
    pub fn wants_semantic(&self, allowed: bool, strongest_is_weak: bool) -> (r: bool)
        ensures
            r == (allowed && self.config.embedding_enabled && strongest_is_weak),
    {
        allowed && self.config.embedding_enabled && strongest_is_weak
    }

    /// What comes of a search that changes nothing, where that is known before it is begun: where
    /// there is no library, nothing is found.
    pub fn search_readonly(&self, query: &str, available: bool) -> (r: Option<Json>)
        ensures
            if available {
                r is None
            } else {
                r matches Some(v) && v@ == search_doc(query@, false, Seq::empty())
            },
    {
        if available {
            None
        } else {
            Some(empty_reply(query))
        }
    }

    /// What comes of a search in a library: what was found, and whether vectors have led to any
    /// of it. `semantic` is how many results vectors led to, where they were searched.
    pub fn search_existing(&self, query: &str, results: Vec<Json>, semantic: Option<usize>) -> (r:
        Json)
        ensures
            r@ == search_doc(
                query@,
                (semantic matches Some(n) && n > 0),
                json::docs(results@),
            ),
    {
        let used = match semantic {
            Some(n) => n > 0,
            None => false,
        };
        search_reply(query, used, results)
    }
}

/// What comes of a search.
pub open spec fn search_doc(query: Seq<char>, semantic_used: bool, results: Seq<Doc>) -> Doc {
    Doc::Object(
        json::fields().push(("ok"@, Doc::Bool(true))).push(("query"@, Doc::Text(query))).push(
            ("total_matches"@, Doc::Unsigned(results.len() as u64)),
        ).push(("semantic_used"@, Doc::Bool(semantic_used))).push(
            ("results"@, Doc::Array(results)),
        ),
    )
}

/// What comes of a search.
fn search_reply(query: &str, semantic_used: bool, results: Vec<Json>) -> (r: Json)
    ensures
        r@ == search_doc(query@, semantic_used, json::docs(results@)),
{
    let count: u64 = results.len() as u64;
    let list = Json::Array(results);
    assert(list@->Array_0 =~= json::docs(results@));
    Fields::new().with("ok", Json::Bool(true)).with("query", json::string(query)).with(
        "total_matches",
        Json::Unsigned(count),
    ).with("semantic_used", Json::Bool(semantic_used)).with("results", list).build()
}

/// What comes of a search where there is no library.
fn empty_reply(query: &str) -> (r: Json)
    ensures
        r@ == search_doc(query@, false, Seq::empty()),
{
    let none: Vec<Json> = Vec::new();
    assert(json::docs(none@) =~= Seq::<Doc>::empty());
    search_reply(query, false, none)
}

/// Between one and fifty results are shown: as many as are asked for, or as are set where no number
/// is asked for.
pub proof fn lemma_result_limit(asked: Option<u64>, set: u64)
    ensures
        1 <= result_limit(asked, set) <= 50,
        asked matches Some(n) ==> (1 <= n <= 50 ==> result_limit(asked, set) == n),
        asked matches Some(n) ==> (n > 50 ==> result_limit(asked, set) == 50),
        asked is None && 1 <= set <= 50 ==> result_limit(asked, set) == set,
        asked is None && set > 50 ==> result_limit(asked, set) == 50,
{
}

/// A search that is made has something to look for, is made only where the library is switched on,
/// and looks in the names only where that is asked for.
pub proof fn lemma_searched(args: Doc, enabled: bool, r: Result<SearchRequest, KbError>)
    requires
        searched(args, enabled, r),
    ensures
        r is Ok ==> enabled,
        r matches Ok(SearchRequest::Content { query, max_results }) ==> query@.len() > 0 && query@
            == text::trimmed(args.text_or("query"@, ""@)) && args.text_at("by"@) != Some("name"@)
            && max_results == args.natural_at("max_results"@),
        r matches Ok(SearchRequest::Name { query, max_results }) ==> query@.len() > 0
            && args.text_at("by"@) == Some("name"@) && max_results == args.natural_at(
            "max_results"@,
        ),
        r matches Err(KbError::UnknownBy { by }) ==> args.text_at("by"@) == Some(by@),
        args.text_at("by"@) is None && enabled && text::trimmed(args.text_or("query"@, ""@)).len()
            > 0 ==> r matches Ok(SearchRequest::Content { .. }),
{
    reveal_strlit("content");
    reveal_strlit("name");
    assert("content"@.len() == 7);
    assert("name"@.len() == 4);
}

/// A file is looked for by what is asked in general, or, where nothing is, by what is asked of its
/// name.
pub proof fn lemma_name_query(args: Doc)
    ensures
        args.text_at("query"@) matches Some(q) ==> name_query(args) == text::trimmed(q),
        args.field("query"@) is None ==> name_query(args) == text::trimmed(
            args.text_or("file_name_query"@, ""@),
        ),
{
}

/// Meaning is searched where that is allowed and switched on and the words have found little.
pub proof fn lemma_wants_semantic(kb: &KnowledgeBase, allowed: bool, weak: bool, r: bool)
    requires
        call_ensures(KnowledgeBase::wants_semantic, (kb, allowed, weak), r),
    ensures
        r <==> allowed && weak && kb.config.embedding_enabled,
{
}

/// Without a library nothing is found; with one the search goes on.
pub proof fn lemma_search_readonly(kb: &KnowledgeBase, query: &str, available: bool, r: Option<Json>)
    requires
        call_ensures(KnowledgeBase::search_readonly, (kb, query, available), r),
    ensures
        r is None <==> available,
        r matches Some(v) ==> v@.array_at("results"@) == Some(Seq::<Doc>::empty()),
        r matches Some(v) ==> v@.truth_at("semantic_used"@) == Some(false),
{
    lemma_search_doc(query@, false, Seq::empty());
}

/// What a search says: what was looked for, how much was found and what, and whether the meaning has
/// helped, which it has where it has found something.
pub proof fn lemma_search_existing(
    kb: &KnowledgeBase,
    query: &str,
    results: Vec<Json>,
    semantic: Option<usize>,
    r: Json,
)
    requires
        call_ensures(KnowledgeBase::search_existing, (kb, query, results, semantic), r),
    ensures
        r@.text_at("query"@) == Some(query@),
        r@.natural_at("total_matches"@) == Some(results@.len() as u64),
        r@.array_at("results"@) == Some(json::docs(results@)),
        r@.truth_at("semantic_used"@) == Some(
            match semantic {
                Some(n) => n > 0,
                None => false,
            },
        ),
{
    lemma_search_doc(
        query@,
        match semantic {
            Some(n) => n > 0,
            None => false,
        },
        json::docs(results@),
    );
}

proof fn lemma_search_doc(query: Seq<char>, semantic_used: bool, results: Seq<Doc>)
    ensures
        ({
            let d = search_doc(query, semantic_used, results);
            &&& d.text_at("query"@) == Some(query)
            &&& d.natural_at("total_matches"@) == Some(results.len() as u64)
            &&& d.truth_at("semantic_used"@) == Some(semantic_used)
            &&& d.array_at("results"@) == Some(results)
        }),
{
    reveal_strlit("ok");
    reveal_strlit("query");
    reveal_strlit("total_matches");
    reveal_strlit("semantic_used");
    reveal_strlit("results");
    assert("ok"@.len() == 2 && "query"@.len() == 5 && "results"@.len() == 7);
    assert("total_matches"@.len() == 13 && "total_matches"@[0] == 't');
    assert("semantic_used"@.len() == 13 && "semantic_used"@[0] == 's');
    let ms = search_doc(query, semantic_used, results)->Object_0;
    json::lemma_field(ms, "query"@, 1);
    json::lemma_field(ms, "total_matches"@, 2);
    json::lemma_field(ms, "semantic_used"@, 3);
    json::lemma_field(ms, "results"@, 4);
}

}
