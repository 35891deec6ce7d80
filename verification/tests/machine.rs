//! The local agent, local models, microphones and pages.

use nonoka::claude_code::{
    after_turn, bridge_duplicate_tools, claude_code_args, mcp_bridge_config, transcript_path,
    transcripts_dir, ClaudeCodePluginConfig, ClaudeCodeRuntime, ClaudeTurn, RelayStep, ToolScopes,
    RELAY_ENVIRONMENT_NOTE, RELAY_NONOKA_TOOLS_NOTE,
};
use nonoka::embedding::{
    candidate_model_dirs, check_files, installed_local_models, model_place, read_model,
    resolve_local_model, LocalModel, ModelError, ModelManifest, ModelPlace, Pooling,
    DEFAULT_MAX_LENGTH, DEFAULT_MODEL_FILE, DEFAULT_TOKENIZER_FILE,
};
use nonoka::json::{self, Fields, Json};
use nonoka::voice::{
    choose_device, describe_device, list_input_devices, list_input_sources, DeviceChoice,
    InputSource,
};
use nonoka::web::{persona_scoped_config, PersonaScope};

fn texts(list: &[&str]) -> Vec<String> {
    list.iter().map(|s| s.to_string()).collect()
}

fn runtime(binary: &str, idle: u64) -> ClaudeCodeRuntime {
    ClaudeCodeRuntime::from_config(&ClaudeCodePluginConfig {
        binary: binary.to_string(),
        native_tools: "all".to_string(),
        nonoka_tools: "dev".to_string(),
        permission_mode: "bypassPermissions".to_string(),
        idle_timeout_seconds: idle,
        prefer_subscription: true,
    }, "agent")
}

fn turn(native_on: bool, nonoka_on: bool) -> ClaudeTurn {
    ClaudeTurn {
        provider: "p".to_string(),
        model: "opus".to_string(),
        effort: None,
        prompt: " ".to_string(),
        scopes: ToolScopes { native_on, nonoka_on },
        bridge: Some("{}".to_string()),
        resume: None,
        ephemeral: false,
    }
}

const STREAM: [&str; 9] = [
    "-p",
    "--verbose",
    "--output-format",
    "stream-json",
    "--input-format",
    "stream-json",
    "--include-partial-messages",
    "--model",
    "opus",
];

#[test]
fn the_agent_is_set_up() {
    let r = runtime("  ", 5);
    assert_eq!(r.binary, "agent");
    assert_eq!(r.idle_timeout_seconds, 30);
    assert_eq!(r.native_tools, "all");
    assert_eq!(r.nonoka_tools, "dev");
    assert!(r.prefer_subscription);
    let r = runtime(" /opt/agent ", 90);
    assert_eq!(r.binary, "/opt/agent");
    assert_eq!(r.idle_timeout_seconds, 90);
}

#[test]
fn the_agent_is_run_without_tools() {
    let mut expected = texts(&STREAM);
    expected.extend(texts(&["--tools", "", "--strict-mcp-config"]));
    assert_eq!(claude_code_args(&runtime("", 30), &turn(false, false)), expected);
}

#[test]
fn the_agent_is_run_with_everything() {
    let mut r = runtime("", 30);
    r.autocompact.insert("p\topus", 168_000);
    let mut t = turn(true, true);
    t.effort = Some("high".to_string());
    t.prompt = "Be kind".to_string();
    t.resume = Some("s1".to_string());
    t.ephemeral = true;
    let mut expected = texts(&STREAM);
    expected.extend(texts(&[
        "--autocompact",
        "168000",
        "--effort",
        "high",
        "--system-prompt",
        "Be kind",
        "--permission-mode",
        "bypassPermissions",
        "--strict-mcp-config",
        "--mcp-config",
        "{}",
        "--allowedTools",
        "mcp__nonoka",
        "--resume",
        "s1",
        "--no-session-persistence",
    ]));
    assert_eq!(claude_code_args(&r, &t), expected);
    t.bridge = None;
    assert!(!claude_code_args(&r, &t).contains(&"--mcp-config".to_string()));
}

#[test]
fn the_bridge_leaves_out_what_the_agent_has() {
    let passed = vec![
        ("HOME".to_string(), "/h".to_string()),
        ("NONOKA_SESSION".to_string(), "other".to_string()),
    ];
    let config = mcp_bridge_config(Some("s"), Some("/bin/nonoka"), "\"cli\"", true, &passed).unwrap();
    assert_eq!(
        config.to_text(),
        "{\"mcpServers\":{\"nonoka\":{\"command\":\"/bin/nonoka\",\"args\":[\"mcp-serve\"],\"env\":{\"NONOKA_SESSION\":\"other\",\"NONOKA_TURN_ORIGIN\":\"\\\"cli\\\"\",\"NONOKA_MCP_EXCLUDE\":\"run_command,web_search,web_fetch,glob,grep,todowrite\",\"HOME\":\"/h\"}}}}"
    );
    let config = mcp_bridge_config(Some("s"), Some("e"), "o", false, &vec![]).unwrap();
    assert!(!config.to_text().contains("EXCLUDE"));
    assert!(mcp_bridge_config(None, Some("e"), "o", false, &vec![]).is_none());
    assert!(mcp_bridge_config(Some("s"), None, "o", false, &vec![]).is_none());
    assert_eq!(
        bridge_duplicate_tools(),
        texts(&["run_command", "web_search", "web_fetch", "glob", "grep", "todowrite"])
    );
    assert!(RELAY_ENVIRONMENT_NOTE.starts_with("\n\n<relay-environment>\n"));
    assert!(RELAY_NONOKA_TOOLS_NOTE.ends_with("</relay-environment-tools>"));
}

#[test]
fn only_a_lost_session_is_run_again() {
    assert_eq!(after_turn(false, true, true), RelayStep::Answer);
    assert_eq!(after_turn(true, true, true), RelayStep::Afresh);
    assert_eq!(after_turn(true, false, true), RelayStep::Fail);
    assert_eq!(after_turn(true, true, false), RelayStep::Fail);
    assert_eq!(transcripts_dir("/h", "agent"), "/h/.agent/projects");
    assert_eq!(transcript_path("/h/p", "s"), "/h/p/s.jsonl");
}

fn manifest(id: &str, dims: usize) -> ModelManifest {
    ModelManifest {
        id: id.to_string(),
        display_name: String::new(),
        model_file: DEFAULT_MODEL_FILE.to_string(),
        tokenizer_file: DEFAULT_TOKENIZER_FILE.to_string(),
        dims,
        pooling: Pooling::Cls,
        normalize: true,
        max_length: DEFAULT_MAX_LENGTH,
        query_prefix: String::new(),
        min_score_bits: 0.35f32.to_bits(),
    }
}

fn model(id: &str, dir: &str) -> LocalModel {
    read_model(dir, "/about", manifest(id, 512)).unwrap()
}

#[test]
fn models_say_what_they_are() {
    let m = model("bge", "/m/bge");
    assert_eq!(m.model_path(), "/m/bge/model.onnx");
    assert_eq!(m.tokenizer_path(), "/m/bge/tokenizer.json");
    assert_eq!(m.model_id(), "local:bge");
    assert_eq!(
        read_model("/m", "/m/about", manifest("x", 0)).unwrap_err().message(),
        "/m/about: dims must be positive"
    );
    assert_eq!(
        read_model("/m", "/m/about", manifest(" ", 1)).unwrap_err().message(),
        "/m/about: id is empty"
    );
    assert!(check_files(model("a", "/m"), true, true).is_ok());
    assert_eq!(
        check_files(model("a", "/m"), false, false).unwrap_err().message(),
        "embedding model file is missing: /m/model.onnx"
    );
    assert_eq!(
        check_files(model("a", "/m"), true, false).unwrap_err().message(),
        "embedding model file is missing: /m/tokenizer.json"
    );
}

#[test]
fn models_are_looked_for_in_order() {
    assert!(matches!(model_place(" ", false), Err(ModelError::Unnamed)));
    assert_eq!(
        model_place("", true).unwrap_err().message(),
        "embedding.local_model is empty"
    );
    assert!(matches!(model_place(" a/b ", false), Ok(ModelPlace::Dir { dir }) if dir == "a/b"));
    assert!(matches!(model_place("a\\b", false), Ok(ModelPlace::Dir { .. })));
    assert!(matches!(model_place("bge", false), Ok(ModelPlace::Named { name }) if name == "bge"));
    assert!(matches!(model_place(" bge ", true), Ok(ModelPlace::Dir { dir }) if dir == "bge"));
    let bases = texts(&["/a", "/b", "/c"]);
    let nowhere = vec![false, false, false];
    assert_eq!(resolve_local_model("bge", true, &bases, &nowhere).unwrap(), "bge");
    assert_eq!(resolve_local_model("a/b", false, &bases, &nowhere).unwrap(), "a/b");
    assert!(matches!(
        resolve_local_model(" ", false, &bases, &nowhere),
        Err(ModelError::Unnamed)
    ));
    assert_eq!(
        resolve_local_model(" bge ", false, &bases, &vec![false, true, true]).unwrap(),
        "/b/bge"
    );
    let error = resolve_local_model(" bge ", false, &bases, &vec![false, false, false]).unwrap_err();
    assert_eq!(
        error.message(),
        "embedding model `bge` was not found; install it under /usr/share/nonoka/models or ~/.nonoka/models, or set NONOKA_EMBEDDING_MODELS_DIR (searched: /a, /b, /c)"
    );
    assert_eq!(
        candidate_model_dirs(Some("/set"), Some("/h"), Some("/src"), Some("/usr"), Some("/")),
        texts(&[
            "/set",
            "/h/models",
            "/src/assets/models",
            "/usr/share/nonoka/models",
            "/usr/share/nonoka/models",
            "/assets/models",
        ])
    );
    assert_eq!(
        candidate_model_dirs(None, None, None, None, None),
        texts(&["/usr/share/nonoka/models"])
    );
}

#[test]
fn each_model_is_listed_once() {
    let found = vec![model("a", "/1"), model("b", "/2"), model("a", "/3")];
    let kept = installed_local_models(found);
    assert_eq!(kept.len(), 2);
    assert_eq!(kept[0].dir, "/1");
    assert_eq!(kept[1].dir, "/2");
}

fn source(name: Json, description: Json) -> Json {
    Fields::new().with("name", name).with("description", description).build()
}

fn input(name: &str, label: &str) -> InputSource {
    InputSource {
        name: name.to_string(),
        label: label.to_string(),
    }
}

#[test]
fn microphones_are_listed_without_monitors() {
    let server = vec![
        source(json::string(" mic "), json::string(" fifine Microphone ")),
        source(json::string("out.monitor"), json::string("Monitor")),
        source(json::string("bare"), json::string("  ")),
        source(json::string("  "), json::string("none")),
        source(Json::Null, json::string("none")),
    ];
    assert_eq!(
        list_input_sources(&server, &vec![]),
        vec![input("mic", "fifine Microphone"), input("bare", "bare")]
    );
}

#[test]
fn sound_cards_stand_in_for_a_sound_server() {
    let devices = texts(&["hw:CARD=PCH,DEV=0", "lavrate", "surround51:CARD=PCH"]);
    assert_eq!(list_input_devices(&devices), texts(&["hw:CARD=PCH,DEV=0"]));
    assert_eq!(
        list_input_sources(&vec![], &devices),
        vec![input("hw:CARD=PCH,DEV=0", "hw:CARD=PCH,DEV=0")]
    );
}

#[test]
fn a_device_is_chosen_by_its_name() {
    let names = vec![None, Some("a".to_string()), Some("a".to_string())];
    assert_eq!(
        choose_device(&Some("a".to_string()), &names),
        DeviceChoice::Device(1)
    );
    assert_eq!(
        choose_device(&Some("b".to_string()), &names),
        DeviceChoice::Server
    );
    assert_eq!(choose_device(&None, &names), DeviceChoice::Usual);
    assert_eq!(
        describe_device(&None, &Some("mic".to_string()), 48000, 2, "F32"),
        "mic (48000Hz 2ch F32)"
    );
    assert_eq!(
        describe_device(&Some("src".to_string()), &None, 16000, 1, "I16"),
        "src (16000Hz 1ch I16)"
    );
    assert_eq!(describe_device(&None, &None, 1, 1, "U16"), "unknown (1Hz 1ch U16)");
}

#[test]
fn personas_are_flat_names() {
    assert!(matches!(
        persona_scoped_config("  ", "default"),
        Ok(PersonaScope::Current)
    ));
    assert!(matches!(
        persona_scoped_config(" nova ", "nova"),
        Ok(PersonaScope::Current)
    ));
    assert!(matches!(
        persona_scoped_config(" nova ", "default"),
        Ok(PersonaScope::Other { persona }) if persona == "nova"
    ));
    let long = "三".repeat(22);
    for name in [".", "..", "a/b", "a\\b", "a\0b", long.as_str()] {
        assert_eq!(
            persona_scoped_config(name, "default").unwrap_err(),
            "invalid persona name"
        );
    }
    assert!(persona_scoped_config(&"a".repeat(64), "default").is_ok());
}
