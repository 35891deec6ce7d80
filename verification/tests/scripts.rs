//! Scripts: their heads, their arguments and the watching of their directories.

use nonoka::json::{self, Fields, Items, Json};
use nonoka::scripts::header::{
    extract_description, extract_metadata, normalize_script_id, script_id, ArgvMode,
};
use nonoka::scripts::refresh::{
    catalog_content, catalog_fingerprint, CatalogFile, CatalogRoot, RefreshStep, ScriptCatalog, ScriptRefresh,
    KEPT_CHANGING,
};
use nonoka::scripts::run::{argv_flags, entry_to_spec, ScriptEntry};

fn parsed(text: &str) -> serde_json::Value {
    serde_json::from_str(text).unwrap()
}

#[test]
fn extracts_description_from_shebang_script() {
    let raw = "#!/bin/bash\n# description: Check system status\n\necho ok";
    assert_eq!(
        extract_description(raw),
        Some("Check system status".to_string())
    );
}

#[test]
fn extracts_chinese_description() {
    let raw = "#!/usr/bin/env python3\n# 功能介绍: 检查系统状态\n\nprint('ok')";
    assert_eq!(extract_description(raw), Some("检查系统状态".to_string()));
}

#[test]
fn extracts_bilingual_script_descriptions() {
    let raw = "#!/bin/bash\n# 描述：管理电池\n# Description: Manage the battery\n\necho ok";
    let metadata = extract_metadata(raw);
    assert_eq!(metadata.descriptions.zh, Some("管理电池".to_string()));
    assert_eq!(
        metadata.descriptions.en,
        Some("Manage the battery".to_string())
    );
    assert_eq!(
        extract_description(raw),
        Some("Manage the battery".to_string())
    );
}

#[test]
fn returns_none_when_no_description() {
    let raw = "#!/bin/bash\necho hello";
    assert_eq!(extract_description(raw), None);
}

#[test]
fn unknown_comment_lines_do_not_end_the_header() {
    let raw = "#!/usr/bin/env python3\n# -*- coding: utf-8 -*-\n# Copyright: nobody\n# 显示名称：小红书搜索\n# Description: Search notes\n\nimport sys";
    let metadata = extract_metadata(raw);
    assert_eq!(metadata.display_names.zh, Some("小红书搜索".to_string()));
    assert_eq!(metadata.descriptions.en, Some("Search notes".to_string()));
}

#[test]
fn header_ends_at_first_code_line() {
    let raw = "#!/bin/bash\n# Description: Real\nset -e\n# Description: Not header\n";
    assert_eq!(extract_description(raw), Some("Real".to_string()));
}

#[test]
fn parses_multiline_parameters_block_and_scalars() {
    let raw = "#!/usr/bin/env python3\n\
# Description: Lookup tool\n\
# Timeout: 60s\n\
# Group: research, shopping\n\
# Argv: flags\n\
# Parameters:\n\
# {\n\
#   \"type\": \"object\",\n\
#   \"properties\": {\"query\": {\"type\": \"string\"}},\n\
#   \"required\": [\"query\"]\n\
# }\n\
# Display name: Lookup\n\
import sys\n";
    let metadata = extract_metadata(raw);
    assert_eq!(metadata.timeout_seconds, Some(60));
    assert_eq!(metadata.groups, vec!["research", "shopping"]);
    assert_eq!(metadata.argv, Some(ArgvMode::Flags));
    let parameters = parsed(&metadata.parameters.expect("parameters block parsed"));
    assert_eq!(parameters["properties"]["query"]["type"], "string");
    assert_eq!(parameters["required"][0], "query");
    assert_eq!(metadata.display_names.en, Some("Lookup".to_string()));
}

#[test]
fn parses_inline_parameters() {
    let raw = "#!/bin/sh\n# Description: Inline\n# Parameters: {\"type\":\"object\",\"properties\":{\"n\":{\"type\":\"integer\"}}}\necho\n";
    let metadata = extract_metadata(raw);
    assert_eq!(
        parsed(&metadata.parameters.unwrap())["properties"]["n"]["type"],
        "integer"
    );
}

#[test]
fn accepts_double_slash_comments() {
    let raw = "#!/usr/bin/env node\n// Description: Node tool\n// Timeout: 30\nconsole.log(1)\n";
    let metadata = extract_metadata(raw);
    assert_eq!(metadata.descriptions.en, Some("Node tool".to_string()));
    assert_eq!(metadata.timeout_seconds, Some(30));
}

#[test]
fn full_width_colon_key_with_half_width_colon_in_value() {
    let raw = "#!/bin/bash\n# 描述：走 stdin: 喂 JSON\necho\n";
    let metadata = extract_metadata(raw);
    assert_eq!(
        metadata.descriptions.zh,
        Some("走 stdin: 喂 JSON".to_string())
    );
}

#[test]
fn normalizes_file_stems_into_tool_ids() {
    assert_eq!(
        normalize_script_id("battery-care"),
        Some("battery_care".to_string())
    );
    assert_eq!(
        normalize_script_id("xhs.search v2"),
        Some("xhs_search_v2".to_string())
    );
    assert_eq!(normalize_script_id("2048"), Some("script_2048".to_string()));
    assert_eq!(normalize_script_id("hello"), Some("hello".to_string()));
    assert_eq!(normalize_script_id("查天气"), None);
}

#[test]
fn header_id_overrides_file_stem_when_valid() {
    let good = extract_metadata("#!/bin/bash\n# Id: nice_name\n# Description: x\n");
    assert_eq!(
        script_id(&good.id, "weird-name"),
        Some("nice_name".to_string())
    );
    let bad = extract_metadata("#!/bin/bash\n# Id: bad-name\n# Description: x\n");
    assert_eq!(
        script_id(&bad.id, "other-name"),
        Some("other_name".to_string())
    );
    assert_eq!(script_id(&None, "2048"), Some("script_2048".to_string()));
}

#[test]
fn names_that_were_made_are_kept() {
    for stem in ["battery-care", "2048", "_x", "hello"] {
        let name = normalize_script_id(stem).unwrap();
        assert_eq!(normalize_script_id(&name), Some(name.clone()));
    }
    assert_eq!(normalize_script_id(""), None);
    assert_eq!(normalize_script_id("--"), None);
}

#[test]
fn braces_in_strings_do_not_close_parameters() {
    let raw = "# Parameters:\n# {\"a\": \"}\",\n# \"b\": \"\\\"}\"}\n# Id: x\n";
    let metadata = extract_metadata(raw);
    let value = parsed(&metadata.parameters.unwrap());
    assert_eq!(value["a"], "}");
    assert_eq!(value["b"], "\"}");
    assert_eq!(metadata.id, Some("x".to_string()));
}

#[test]
fn parameters_that_are_not_closed_are_dropped() {
    let metadata = extract_metadata("# Parameters: {\n# \"a\": 1\necho\n# }\n");
    assert_eq!(metadata.parameters, None);
}

#[test]
fn empty_and_unknown_values_say_nothing() {
    let metadata =
        extract_metadata("# Description:\n# Timeout: soon\n# Argv: maybe\n# Group: , ,\n");
    assert_eq!(metadata.descriptions.en, None);
    assert_eq!(metadata.timeout_seconds, None);
    assert_eq!(metadata.argv, None);
    assert_eq!(metadata.groups, Vec::<String>::new());
    assert_eq!(extract_metadata("# Argv: OFF\n").argv, Some(ArgvMode::Off));
}

#[test]
fn explicit_schema_defaults_to_lazy_loading() {
    let mut entry = ScriptEntry::overlay("search_game".to_string(), "search-game".to_string());
    entry.description = "Search game status".to_string();
    let query = Fields::new().with("type", json::string("string")).build();
    entry.parameters = Fields::new()
        .with("type", json::string("object"))
        .with("properties", Fields::new().with("query", query).build())
        .build();
    let spec = entry_to_spec(&entry);
    assert!(!spec.always_loaded);
    assert!(spec.is_script);
    assert_eq!(spec.name, "search_game");
    assert_eq!(spec.description, "Search game status");
    assert_eq!(spec.parameters, entry.parameters);
}

#[test]
fn generic_scripts_default_to_lazy_loading_too() {
    let mut entry = ScriptEntry::overlay("plain".to_string(), "plain".to_string());
    entry.description = "Plain".to_string();
    let spec = entry_to_spec(&entry);
    assert!(!spec.always_loaded);
    let stdin = spec.parameters.get("properties").unwrap().get("stdin").unwrap();
    assert_eq!(stdin.text_at("type"), Some("string"));
}

#[test]
fn argv_flags_expansion_is_deterministic_and_skips_stdin() {
    let tags = Items::new()
        .with(json::string("a"))
        .with(json::string("b"))
        .build();
    let flags = argv_flags(
        &Fields::new()
            .with("query", json::string("hello world"))
            .with("limit", json::integer(-5))
            .with("json", Json::Bool(true))
            .with("dry", Json::Bool(false))
            .with("nothing", Json::Null)
            .with("tags", tags)
            .with("stdin", json::string("raw"))
            .build(),
    );
    assert_eq!(
        flags,
        vec![
            "--json",
            "--limit=-5",
            "--query=hello world",
            "--tags=[\"a\",\"b\"]",
        ]
    );
}

#[test]
fn flags_do_not_depend_on_the_order_of_arguments() {
    let one = Fields::new()
        .with("b", json::string("2"))
        .with("a", json::string("1"))
        .with("ab", Json::Real("0.5".to_string()))
        .build();
    let two = Fields::new()
        .with("ab", Json::Real("0.5".to_string()))
        .with("a", json::string("1"))
        .with("b", json::string("2"))
        .build();
    assert_eq!(argv_flags(&one), vec!["--a=1", "--ab=0.5", "--b=2"]);
    assert_eq!(argv_flags(&one), argv_flags(&two));
    assert_eq!(argv_flags(&Json::Null), Vec::<String>::new());
}

fn file(path: &str, metadata: &[u8]) -> CatalogFile {
    CatalogFile {
        path: path.as_bytes().to_vec(),
        metadata: metadata.to_vec(),
    }
}

#[test]
fn catalogs_are_read_in_the_order_of_paths() {
    let roots = vec![
        CatalogRoot {
            path: b"/s".to_vec(),
            files: Some(vec![file("/s/b", &[2]), file("/s/a", &[1, 9])]),
        },
        CatalogRoot {
            path: b"/gone".to_vec(),
            files: None,
        },
    ];
    let mut expected = b"/s/s/a".to_vec();
    expected.extend([1, 9]);
    expected.extend(b"/s/b");
    expected.push(2);
    expected.extend(b"/gone");
    expected.push(0);
    assert_eq!(catalog_content(&roots), expected);
    assert_eq!(
        catalog_fingerprint(&roots),
        *blake3::hash(&expected).as_bytes()
    );
}

#[test]
fn the_fingerprint_is_the_blake3_hash() {
    let empty: [u8; 32] = [
        0xaf, 0x13, 0x49, 0xb9, 0xf5, 0xf9, 0xa1, 0xa6, 0xa0, 0x40, 0x4d, 0xea, 0x36, 0xdc, 0xc9,
        0x49, 0x9b, 0xcb, 0x25, 0xc9, 0xad, 0xc1, 0x12, 0xb7, 0xcc, 0x9a, 0x93, 0xca, 0xe4, 0x1f,
        0x32, 0x62,
    ];
    assert_eq!(catalog_fingerprint(&vec![]), empty);
}

#[test]
fn the_hash_of_the_parts_is_the_hash_of_the_whole() {
    let mut hasher = blake3::Hasher::new();
    hasher.update(b"/s");
    hasher.update(b"/s/a");
    hasher.update(&[1]);
    let roots = vec![CatalogRoot {
        path: b"/s".to_vec(),
        files: Some(vec![file("/s/a", &[1])]),
    }];
    assert_eq!(catalog_fingerprint(&roots), *hasher.finalize().as_bytes());
}

#[test]
fn an_unchanged_catalog_is_not_scanned() {
    let refresh = ScriptRefresh::prepare_script_refresh(Some([7; 32]));
    assert!(matches!(refresh.step, RefreshStep::Look));
    let refresh = refresh.step([7; 32]);
    assert!(matches!(refresh.step, RefreshStep::Unchanged));
    assert!(matches!(refresh.step([8; 32]).step, RefreshStep::Unchanged));
}

#[test]
fn a_stable_scan_is_taken_over() {
    let refresh = ScriptRefresh::prepare_script_refresh(None).step([1; 32]);
    assert!(matches!(refresh.step, RefreshStep::Scan { before } if before == [1; 32]));
    let refresh = refresh.step([1; 32]);
    assert!(matches!(refresh.step, RefreshStep::Found { fingerprint } if fingerprint == [1; 32]));
}

#[test]
fn a_catalog_that_keeps_changing_is_given_up_after_three_scans() {
    let mut refresh = ScriptRefresh::prepare_script_refresh(Some([0; 32]));
    let mut scans = 0;
    let mut now = 1u8;
    while !matches!(refresh.step, RefreshStep::GiveUp) {
        if matches!(refresh.step, RefreshStep::Scan { .. }) {
            scans += 1;
        }
        refresh = refresh.step([now; 32]);
        now += 1;
    }
    assert_eq!(scans, 3);
    assert_eq!(
        KEPT_CHANGING,
        "script directories kept changing while they were being scanned"
    );
}

#[test]
fn bad_directories_are_not_scanned_again() {
    let mut catalog = ScriptCatalog { fingerprint: None };
    let why = catalog.apply_script_refresh(Err("two tools of one name".to_string()), [5; 32]);
    assert_eq!(why.as_deref(), Some("two tools of one name"));
    let refresh = ScriptRefresh::prepare_script_refresh(catalog.fingerprint).step([5; 32]);
    assert!(matches!(refresh.step, RefreshStep::Unchanged));
    assert_eq!(catalog.apply_script_refresh(Ok(()), [6; 32]), None);
    let refresh = ScriptRefresh::prepare_script_refresh(catalog.fingerprint).step([5; 32]);
    assert!(matches!(refresh.step, RefreshStep::Scan { .. }));
}
