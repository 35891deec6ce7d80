//! Handing turns to a local agent that is run as a command.

use crate::json::{self, Doc, Fields, Items, Json};
use crate::path;
use crate::provider;
use crate::text;
use crate::textmap::TextMap;
use vstd::prelude::*;

verus! {

/// How the agent is set up.
#[derive(Debug)]
pub struct ClaudeCodePluginConfig {
    pub binary: String,
    pub native_tools: String,
    pub nonoka_tools: String,
    pub permission_mode: String,
    pub idle_timeout_seconds: u64,
    pub prefer_subscription: bool,
}

/// What is needed to run the agent. The sizes at which it sums up what was said are kept by
/// provider and model.
#[derive(Debug)]
pub struct ClaudeCodeRuntime {
    pub binary: String,
    pub native_tools: String,
    pub nonoka_tools: String,
    pub permission_mode: String,
    pub autocompact: TextMap<u64>,
    pub idle_timeout_seconds: u64,
    pub prefer_subscription: bool,
}

impl ClaudeCodeRuntime {
    /// What is needed to run the agent as it is set up: under its usual name, which is its
    /// vendor's, where none is set, and with at least half a minute of patience.
    pub fn from_config(plugin: &ClaudeCodePluginConfig, vendor: &str) -> (r: ClaudeCodeRuntime)
        ensures
            r.binary@ == if text::trimmed(plugin.binary@).len() == 0 {
                vendor@
            } else {
                text::trimmed(plugin.binary@)
            },
            r.native_tools@ == plugin.native_tools@,
            r.nonoka_tools@ == plugin.nonoka_tools@,
            r.permission_mode@ == plugin.permission_mode@,
            r.autocompact@ == Map::<Seq<char>, u64>::empty(),
            r.idle_timeout_seconds == if plugin.idle_timeout_seconds < 30 {
                30
            } else {
                plugin.idle_timeout_seconds
            },
            r.prefer_subscription == plugin.prefer_subscription,
    {
        let trimmed = text::trim(plugin.binary.as_str());
        let binary = if trimmed.as_str().is_empty() {
            vendor.to_owned()
        } else {
            trimmed
        };
        let idle: u64 = if plugin.idle_timeout_seconds < 30 {
            30
        } else {
            plugin.idle_timeout_seconds
        };
        ClaudeCodeRuntime {
            binary,
            native_tools: plugin.native_tools.clone(),
            nonoka_tools: plugin.nonoka_tools.clone(),
            permission_mode: plugin.permission_mode.clone(),
            autocompact: TextMap::new(),
            idle_timeout_seconds: idle,
            prefer_subscription: plugin.prefer_subscription,
        }
    }
}

/// Which tools the agent may use: its own, and those that it is offered.
#[derive(Debug, Clone, Copy, PartialEq, Eq, Structural)]
pub struct ToolScopes {
    pub native_on: bool,
    pub nonoka_on: bool,
}

/// Arguments with one more flag and its value, where there is one.
pub open spec fn with_flag(args: Seq<Seq<char>>, name: Seq<char>, value: Option<Seq<char>>) -> Seq<
    Seq<char>,
> {
    match value {
        Some(v) => args.push(name).push(v),
        None => args,
    }
}

/// How the agent is asked to take and give messages.
pub open spec fn stream_args() -> Seq<Seq<char>> {
    Seq::empty().push("-p"@).push("--verbose"@).push("--output-format"@).push("stream-json"@).push(
        "--input-format"@,
    ).push("stream-json"@).push("--include-partial-messages"@)
}

/// The size at which the agent sums up, for a provider and a model.
pub open spec fn window_text(runtime: ClaudeCodeRuntime, provider: Seq<char>, model: Seq<char>) -> Option<
    Seq<char>,
> {
    let key = provider + "\t"@ + model;
    if runtime.autocompact@.contains_key(key) {
        Some(text::decimal(runtime.autocompact@[key] as nat))
    } else {
        None
    }
}

/// The arguments that say which tools the agent may use. Tools that it is offered come through a
/// bridge, where there is one.
pub open spec fn tool_args(
    args: Seq<Seq<char>>,
    permission_mode: Seq<char>,
    scopes: ToolScopes,
    bridge: Option<Seq<char>>,
) -> Seq<Seq<char>> {
    let own = if scopes.native_on {
        args.push("--permission-mode"@).push(permission_mode)
    } else {
        args.push("--tools"@).push(""@)
    };
    let strict = own.push("--strict-mcp-config"@);
    match bridge {
        Some(b) => if scopes.nonoka_on {
            strict.push("--mcp-config"@).push(b).push("--allowedTools"@).push("mcp__nonoka"@)
        } else {
            strict
        },
        None => strict,
    }
}

/// A prompt, where it says anything.
pub open spec fn said_prompt(prompt: Seq<char>) -> Option<Seq<char>> {
    if text::trimmed(prompt).len() == 0 {
        None
    } else {
        Some(prompt)
    }
}

/// The arguments with which the agent is run.
pub open spec fn agent_args(
    runtime: ClaudeCodeRuntime,
    provider: Seq<char>,
    model: Seq<char>,
    effort: Option<Seq<char>>,
    prompt: Seq<char>,
    scopes: ToolScopes,
    bridge: Option<Seq<char>>,
    resume: Option<Seq<char>>,
    ephemeral: bool,
) -> Seq<Seq<char>> {
    let named = stream_args().push("--model"@).push(model);
    let sized = with_flag(named, "--autocompact"@, window_text(runtime, provider, model));
    let eager = with_flag(sized, "--effort"@, effort);
    let told = with_flag(eager, "--system-prompt"@, said_prompt(prompt));
    let armed = tool_args(told, runtime.permission_mode@, scopes, bridge);
    let resumed = with_flag(armed, "--resume"@, resume);
    if ephemeral {
        resumed.push("--no-session-persistence"@)
    } else {
        resumed
    }
}

fn add_flag(args: Vec<String>, name: &str, value: Option<&str>) -> (r: Vec<String>)
    ensures
        text::views(r@) == with_flag(text::views(args@), name@, text::opt_str(value)),
{
    match value {
        Some(v) => provider::with_text(provider::with_text(args, name), v),
        None => args,
    }
}

/// What a turn of the agent is about.
#[derive(Debug)]
pub struct ClaudeTurn {
    pub provider: String,
    pub model: String,
    pub effort: Option<String>,
    pub prompt: String,
    pub scopes: ToolScopes,
    pub bridge: Option<String>,
    pub resume: Option<String>,
    pub ephemeral: bool,
}

fn opt_view(s: &Option<String>) -> (r: Option<&str>)
    ensures
        text::opt_str(r) == text::opt(*s),
{
    match s {
        Some(t) => Some(t.as_str()),
        None => None,
    }
}

/// The arguments with which the agent is run for a turn.
pub fn claude_code_args(runtime: &ClaudeCodeRuntime, turn: &ClaudeTurn) -> (r: Vec<String>)
    ensures
        text::views(r@) == agent_args(
            *runtime,
            turn.provider@,
            turn.model@,
            text::opt(turn.effort),
            turn.prompt@,
            turn.scopes,
            text::opt(turn.bridge),
            text::opt(turn.resume),
            turn.ephemeral,
        ),
{
    let args = provider::with_text(provider::no_texts(), "-p");
    let args = provider::with_text(args, "--verbose");
    let args = provider::with_text(args, "--output-format");
    let args = provider::with_text(args, "stream-json");
    let args = provider::with_text(args, "--input-format");
    let args = provider::with_text(args, "stream-json");
    let args = provider::with_text(args, "--include-partial-messages");
    let args = provider::with_text(args, "--model");
    let args = provider::with_text(args, turn.model.as_str());
    let key = text::cat3(turn.provider.as_str(), "\t", turn.model.as_str());
    let window = match runtime.autocompact.get(key.as_str()) {
        Some(n) => Some(text::decimal_text(*n as u128)),
        None => None,
    };
    let args = add_flag(args, "--autocompact", opt_view(&window));
    let args = add_flag(args, "--effort", opt_view(&turn.effort));
    let trimmed = text::trim(turn.prompt.as_str());
    let prompt = if trimmed.as_str().is_empty() {
        None
    } else {
        Some(turn.prompt.as_str())
    };
    let args = add_flag(args, "--system-prompt", prompt);
    let args = if turn.scopes.native_on {
        add_flag(args, "--permission-mode", Some(runtime.permission_mode.as_str()))
    } else {
        add_flag(args, "--tools", Some(""))
    };
    let args = provider::with_text(args, "--strict-mcp-config");
    let args = match &turn.bridge {
        Some(b) => {
            if turn.scopes.nonoka_on {
                let args = add_flag(args, "--mcp-config", Some(b.as_str()));
                add_flag(args, "--allowedTools", Some("mcp__nonoka"))
            } else {
                args
            }
        },
        None => args,
    };
    let args = add_flag(args, "--resume", opt_view(&turn.resume));
    if turn.ephemeral {
        provider::with_text(args, "--no-session-persistence")
    } else {
        args
    }
}

/// Whether two texts stand behind each other in a list.
pub open spec fn names_pair(args: Seq<Seq<char>>, name: Seq<char>, value: Seq<char>) -> bool {
    exists|i: int|
        0 <= i < args.len() - 1 && #[trigger] args[i] == name && args[i + 1] == value
}

proof fn lemma_pair_stays(args: Seq<Seq<char>>, more: Seq<char>, name: Seq<char>, value: Seq<char>)
    requires
        names_pair(args, name, value),
    ensures
        names_pair(args.push(more), name, value),
{
    let i = choose|i: int|
        0 <= i < args.len() - 1 && #[trigger] args[i] == name && args[i + 1] == value;
    assert(args.push(more)[i] == name);
    assert(args.push(more)[i + 1] == value);
}

/// Where the agent may not use its own tools, it is always told that it has none.
pub proof fn lemma_no_native_tools(
    args: Seq<Seq<char>>,
    permission_mode: Seq<char>,
    scopes: ToolScopes,
    bridge: Option<Seq<char>>,
)
    requires
        !scopes.native_on,
    ensures
        names_pair(tool_args(args, permission_mode, scopes, bridge), "--tools"@, ""@),
{
    let own = args.push("--tools"@).push(""@);
    assert(own[args.len() as int] == "--tools"@);
    assert(own[args.len() as int + 1] == ""@);
    assert(names_pair(own, "--tools"@, ""@));
    lemma_pair_stays(own, "--strict-mcp-config"@, "--tools"@, ""@);
    let strict = own.push("--strict-mcp-config"@);
    if bridge is Some && scopes.nonoka_on {
        let b = bridge->0;
        lemma_pair_stays(strict, "--mcp-config"@, "--tools"@, ""@);
        let x = strict.push("--mcp-config"@);
        lemma_pair_stays(x, b, "--tools"@, ""@);
        let y = x.push(b);
        lemma_pair_stays(y, "--allowedTools"@, "--tools"@, ""@);
        lemma_pair_stays(y.push("--allowedTools"@), "mcp__nonoka"@, "--tools"@, ""@);
    }
}

proof fn lemma_pair_in_longer(
    args: Seq<Seq<char>>,
    longer: Seq<Seq<char>>,
    name: Seq<char>,
    value: Seq<char>,
)
    requires
        names_pair(args, name, value),
        args.is_prefix_of(longer),
    ensures
        names_pair(longer, name, value),
{
    let i = choose|i: int|
        0 <= i < args.len() - 1 && #[trigger] args[i] == name && args[i + 1] == value;
    assert(longer[i] == args[i]);
    assert(longer[i + 1] == args[i + 1]);
}

proof fn lemma_flag_is_named(
    args: Seq<Seq<char>>,
    longer: Seq<Seq<char>>,
    name: Seq<char>,
    value: Seq<char>,
)
    requires
        args.push(name).push(value).is_prefix_of(longer),
    ensures
        names_pair(longer, name, value),
{
    let pair = args.push(name).push(value);
    assert(pair[args.len() as int] == name);
    assert(pair[args.len() as int + 1] == value);
    lemma_pair_in_longer(pair, longer, name, value);
}

/// The agent goes on with the session that a turn names, whether or not the turn is kept: the flag
/// and the session stand in the arguments.
pub proof fn lemma_session_is_resumed(
    runtime: ClaudeCodeRuntime,
    provider: Seq<char>,
    model: Seq<char>,
    effort: Option<Seq<char>>,
    prompt: Seq<char>,
    scopes: ToolScopes,
    bridge: Option<Seq<char>>,
    session: Seq<char>,
    ephemeral: bool,
)
    ensures
        names_pair(
            agent_args(
                runtime,
                provider,
                model,
                effort,
                prompt,
                scopes,
                bridge,
                Some(session),
                ephemeral,
            ),
            "--resume"@,
            session,
        ),
{
    let all = agent_args(
        runtime,
        provider,
        model,
        effort,
        prompt,
        scopes,
        bridge,
        Some(session),
        ephemeral,
    );
    let n = if ephemeral {
        all.len() - 3
    } else {
        all.len() - 2
    };
    assert(all[n] == "--resume"@);
    assert(all[n + 1] == session);
}

/// Whether a text is none of the values that a turn hands to the agent.
pub open spec fn is_no_value(
    name: Seq<char>,
    runtime: ClaudeCodeRuntime,
    provider: Seq<char>,
    model: Seq<char>,
    effort: Option<Seq<char>>,
    prompt: Seq<char>,
    bridge: Option<Seq<char>>,
    resume: Option<Seq<char>>,
) -> bool {
    &&& model != name
    &&& effort != Some(name)
    &&& prompt != name
    &&& bridge != Some(name)
    &&& resume != Some(name)
    &&& runtime.permission_mode@ != name
    &&& window_text(runtime, provider, model) != Some(name)
}

proof fn lemma_lacks(args: Seq<Seq<char>>, more: Seq<char>, name: Seq<char>)
    requires
        !args.contains(name),
        more != name,
    ensures
        !args.push(more).contains(name),
{
    if args.push(more).contains(name) {
        let i = args.push(more).index_of(name);
        if i < args.len() {
            assert(args[i] == name);
        }
    }
}

proof fn lemma_flag_lacks(
    args: Seq<Seq<char>>,
    flag: Seq<char>,
    value: Option<Seq<char>>,
    name: Seq<char>,
)
    requires
        !args.contains(name),
        value is Some ==> flag != name,
        value != Some(name),
    ensures
        !with_flag(args, flag, value).contains(name),
{
    match value {
        Some(v) => {
            lemma_lacks(args, flag, name);
            lemma_lacks(args.push(flag), v, name);
        },
        None => {},
    }
}

/// How long the flags and their fixed values are, and that those of one length differ.
proof fn lemma_flags_differ()
    ensures
        "--resume"@.len() == 8,
        "--no-session-persistence"@.len() == 24,
        "--mcp-config"@.len() == 12,
        "--system-prompt"@.len() == 15,
        "--permission-mode"@.len() == 17,
        "--tools"@.len() == 7,
        "--effort"@.len() == 8,
        "--autocompact"@.len() == 13,
        "-p"@.len() == 2,
        "--verbose"@.len() == 9,
        "--output-format"@.len() == 15,
        "stream-json"@.len() == 11,
        "--input-format"@.len() == 14,
        "--include-partial-messages"@.len() == 26,
        "--model"@.len() == 7,
        "--strict-mcp-config"@.len() == 19,
        "--allowedTools"@.len() == 14,
        "mcp__nonoka"@.len() == 11,
        ""@.len() == 0,
        "--resume"@ != "--effort"@,
        "--system-prompt"@ != "--output-format"@,
        "--tools"@ != "--model"@,
{
    reveal_strlit("--resume");
    reveal_strlit("--no-session-persistence");
    reveal_strlit("--mcp-config");
    reveal_strlit("--system-prompt");
    reveal_strlit("--permission-mode");
    reveal_strlit("--tools");
    reveal_strlit("--effort");
    reveal_strlit("--autocompact");
    reveal_strlit("-p");
    reveal_strlit("--verbose");
    reveal_strlit("--output-format");
    reveal_strlit("stream-json");
    reveal_strlit("--input-format");
    reveal_strlit("--include-partial-messages");
    reveal_strlit("--model");
    reveal_strlit("--strict-mcp-config");
    reveal_strlit("--allowedTools");
    reveal_strlit("mcp__nonoka");
    reveal_strlit("");
    assert("--resume"@[2] != "--effort"@[2]);
    assert("--system-prompt"@[2] != "--output-format"@[2]);
    assert("--tools"@[2] != "--model"@[2]);
}

proof fn lemma_args_lack(
    name: Seq<char>,
    runtime: ClaudeCodeRuntime,
    provider: Seq<char>,
    model: Seq<char>,
    effort: Option<Seq<char>>,
    prompt: Seq<char>,
    scopes: ToolScopes,
    bridge: Option<Seq<char>>,
    resume: Option<Seq<char>>,
    ephemeral: bool,
)
    requires
        is_no_value(name, runtime, provider, model, effort, prompt, bridge, resume),
        name == "--resume"@ || name == "--no-session-persistence"@ || name == "--mcp-config"@ || name
            == "--system-prompt"@ || name == "--permission-mode"@ || name == "--tools"@ || name
            == "--effort"@ || name == "--autocompact"@,
        name == "--resume"@ ==> resume is None,
        name == "--no-session-persistence"@ ==> !ephemeral,
        name == "--mcp-config"@ ==> !scopes.nonoka_on || bridge is None,
        name == "--system-prompt"@ ==> text::trimmed(prompt).len() == 0,
        name == "--permission-mode"@ ==> !scopes.native_on,
        name == "--tools"@ ==> scopes.native_on,
        name == "--effort"@ ==> effort is None,
        name == "--autocompact"@ ==> window_text(runtime, provider, model) is None,
    ensures
        !agent_args(
            runtime,
            provider,
            model,
            effort,
            prompt,
            scopes,
            bridge,
            resume,
            ephemeral,
        ).contains(name),
{
    lemma_flags_differ();
    let none = Seq::<Seq<char>>::empty();
    lemma_lacks(none, "-p"@, name);
    let a = none.push("-p"@);
    lemma_lacks(a, "--verbose"@, name);
    let a = a.push("--verbose"@);
    lemma_lacks(a, "--output-format"@, name);
    let a = a.push("--output-format"@);
    lemma_lacks(a, "stream-json"@, name);
    let a = a.push("stream-json"@);
    lemma_lacks(a, "--input-format"@, name);
    let a = a.push("--input-format"@);
    lemma_lacks(a, "stream-json"@, name);
    let a = a.push("stream-json"@);
    lemma_lacks(a, "--include-partial-messages"@, name);
    let a = a.push("--include-partial-messages"@);
    assert(a == stream_args());
    lemma_lacks(a, "--model"@, name);
    let a = a.push("--model"@);
    lemma_lacks(a, model, name);
    let a = a.push(model);
    lemma_flag_lacks(a, "--autocompact"@, window_text(runtime, provider, model), name);
    let a = with_flag(a, "--autocompact"@, window_text(runtime, provider, model));
    lemma_flag_lacks(a, "--effort"@, effort, name);
    let a = with_flag(a, "--effort"@, effort);
    lemma_flag_lacks(a, "--system-prompt"@, said_prompt(prompt), name);
    let a = with_flag(a, "--system-prompt"@, said_prompt(prompt));
    let own = if scopes.native_on {
        lemma_lacks(a, "--permission-mode"@, name);
        lemma_lacks(a.push("--permission-mode"@), runtime.permission_mode@, name);
        a.push("--permission-mode"@).push(runtime.permission_mode@)
    } else {
        lemma_lacks(a, "--tools"@, name);
        lemma_lacks(a.push("--tools"@), ""@, name);
        a.push("--tools"@).push(""@)
    };
    lemma_lacks(own, "--strict-mcp-config"@, name);
    let strict = own.push("--strict-mcp-config"@);
    if scopes.nonoka_on && bridge is Some {
        let b = bridge->0;
        lemma_lacks(strict, "--mcp-config"@, name);
        let x = strict.push("--mcp-config"@);
        lemma_lacks(x, b, name);
        let y = x.push(b);
        lemma_lacks(y, "--allowedTools"@, name);
        lemma_lacks(y.push("--allowedTools"@), "mcp__nonoka"@, name);
    }
    let armed = tool_args(a, runtime.permission_mode@, scopes, bridge);
    lemma_flag_lacks(armed, "--resume"@, resume, name);
    let resumed = with_flag(armed, "--resume"@, resume);
    if ephemeral {
        lemma_lacks(resumed, "--no-session-persistence"@, name);
    }
}

/// A turn that names no session begins a new one, a turn that is kept is not run without being
/// kept, and where tools are not offered no bridge is named: the flags that would say otherwise are
/// not among the arguments, unless a turn hands one of them over as a value.
pub proof fn lemma_flags_left_out(
    runtime: ClaudeCodeRuntime,
    provider: Seq<char>,
    model: Seq<char>,
    effort: Option<Seq<char>>,
    prompt: Seq<char>,
    scopes: ToolScopes,
    bridge: Option<Seq<char>>,
    resume: Option<Seq<char>>,
    ephemeral: bool,
)
    requires
        forall|name: Seq<char>|
            name == "--resume"@ || name == "--no-session-persistence"@ || name == "--mcp-config"@
                || name == "--system-prompt"@ || name == "--permission-mode"@ || name == "--tools"@
                || name == "--effort"@ || name == "--autocompact"@ ==> #[trigger] is_no_value(
                name,
                runtime,
                provider,
                model,
                effort,
                prompt,
                bridge,
                resume,
            ),
    ensures
        ({
            let args = agent_args(
                runtime,
                provider,
                model,
                effort,
                prompt,
                scopes,
                bridge,
                resume,
                ephemeral,
            );
            &&& resume is None ==> !args.contains("--resume"@)
            &&& !ephemeral ==> !args.contains("--no-session-persistence"@)
            &&& !scopes.nonoka_on || bridge is None ==> !args.contains("--mcp-config"@)
            &&& scopes.native_on ==> !args.contains("--tools"@)
            &&& !scopes.native_on ==> !args.contains("--permission-mode"@)
            &&& text::trimmed(prompt).len() == 0 ==> !args.contains("--system-prompt"@)
            &&& effort is None ==> !args.contains("--effort"@)
            &&& !runtime.autocompact@.contains_key(provider + "\t"@ + model) ==> !args.contains(
                "--autocompact"@,
            )
        }),
{
    lemma_flags_differ();
    if resume is None {
        let name = "--resume"@;
        assert(is_no_value(name, runtime, provider, model, effort, prompt, bridge, resume));
        lemma_args_lack(
            name,
            runtime,
            provider,
            model,
            effort,
            prompt,
            scopes,
            bridge,
            resume,
            ephemeral,
        );
    }
    if !ephemeral {
        let name = "--no-session-persistence"@;
        assert(is_no_value(name, runtime, provider, model, effort, prompt, bridge, resume));
        lemma_args_lack(
            name,
            runtime,
            provider,
            model,
            effort,
            prompt,
            scopes,
            bridge,
            resume,
            ephemeral,
        );
    }
    if !scopes.nonoka_on || bridge is None {
        let name = "--mcp-config"@;
        assert(is_no_value(name, runtime, provider, model, effort, prompt, bridge, resume));
        lemma_args_lack(
            name,
            runtime,
            provider,
            model,
            effort,
            prompt,
            scopes,
            bridge,
            resume,
            ephemeral,
        );
    }
    if scopes.native_on {
        let name = "--tools"@;
        assert(is_no_value(name, runtime, provider, model, effort, prompt, bridge, resume));
        lemma_args_lack(
            name,
            runtime,
            provider,
            model,
            effort,
            prompt,
            scopes,
            bridge,
            resume,
            ephemeral,
        );
    }
    if !scopes.native_on {
        let name = "--permission-mode"@;
        assert(is_no_value(name, runtime, provider, model, effort, prompt, bridge, resume));
        lemma_args_lack(
            name,
            runtime,
            provider,
            model,
            effort,
            prompt,
            scopes,
            bridge,
            resume,
            ephemeral,
        );
    }
    if text::trimmed(prompt).len() == 0 {
        let name = "--system-prompt"@;
        assert(is_no_value(name, runtime, provider, model, effort, prompt, bridge, resume));
        lemma_args_lack(
            name,
            runtime,
            provider,
            model,
            effort,
            prompt,
            scopes,
            bridge,
            resume,
            ephemeral,
        );
    }
    if effort is None {
        let name = "--effort"@;
        assert(is_no_value(name, runtime, provider, model, effort, prompt, bridge, resume));
        lemma_args_lack(
            name,
            runtime,
            provider,
            model,
            effort,
            prompt,
            scopes,
            bridge,
            resume,
            ephemeral,
        );
    }
    if !runtime.autocompact@.contains_key(provider + "\t"@ + model) {
        let name = "--autocompact"@;
        assert(is_no_value(name, runtime, provider, model, effort, prompt, bridge, resume));
        lemma_args_lack(
            name,
            runtime,
            provider,
            model,
            effort,
            prompt,
            scopes,
            bridge,
            resume,
            ephemeral,
        );
    }
}

/// What a turn asks for reaches the agent: each flag stands in the arguments with its value.
pub proof fn lemma_turn_is_told(
    runtime: ClaudeCodeRuntime,
    provider: Seq<char>,
    model: Seq<char>,
    effort: Option<Seq<char>>,
    prompt: Seq<char>,
    scopes: ToolScopes,
    bridge: Option<Seq<char>>,
    resume: Option<Seq<char>>,
    ephemeral: bool,
)
    ensures
        ({
            let args = agent_args(
                runtime,
                provider,
                model,
                effort,
                prompt,
                scopes,
                bridge,
                resume,
                ephemeral,
            );
            let key = provider + "\t"@ + model;
            &&& names_pair(args, "--output-format"@, "stream-json"@)
            &&& names_pair(args, "--input-format"@, "stream-json"@)
            &&& args[0] == "-p"@
            &&& args.contains("--strict-mcp-config"@)
            &&& names_pair(args, "--model"@, model)
            &&& runtime.autocompact@.contains_key(key) ==> names_pair(
                args,
                "--autocompact"@,
                text::decimal(runtime.autocompact@[key] as nat),
            )
            &&& effort matches Some(e) ==> names_pair(args, "--effort"@, e)
            &&& text::trimmed(prompt).len() > 0 ==> names_pair(args, "--system-prompt"@, prompt)
            &&& scopes.native_on ==> names_pair(
                args,
                "--permission-mode"@,
                runtime.permission_mode@,
            )
            &&& !scopes.native_on ==> names_pair(args, "--tools"@, ""@)
            &&& (bridge matches Some(b) && scopes.nonoka_on) ==> names_pair(
                args,
                "--mcp-config"@,
                bridge->0,
            ) && names_pair(args, "--allowedTools"@, "mcp__nonoka"@)
            &&& ephemeral ==> args.contains("--no-session-persistence"@)
        }),
{
    let all = agent_args(
        runtime,
        provider,
        model,
        effort,
        prompt,
        scopes,
        bridge,
        resume,
        ephemeral,
    );
    let first = stream_args();
    let named = first.push("--model"@).push(model);
    let sized = with_flag(named, "--autocompact"@, window_text(runtime, provider, model));
    let eager = with_flag(sized, "--effort"@, effort);
    let told = with_flag(eager, "--system-prompt"@, said_prompt(prompt));
    let own = if scopes.native_on {
        told.push("--permission-mode"@).push(runtime.permission_mode@)
    } else {
        told.push("--tools"@).push(""@)
    };
    let strict = own.push("--strict-mcp-config"@);
    let armed = tool_args(told, runtime.permission_mode@, scopes, bridge);
    assert(strict.is_prefix_of(armed));
    assert(armed.is_prefix_of(all));
    assert(strict.is_prefix_of(all));
    assert(own.is_prefix_of(all));
    assert(told.is_prefix_of(all));
    assert(eager.is_prefix_of(all));
    assert(sized.is_prefix_of(all));
    assert(named.is_prefix_of(all));
    assert(first.is_prefix_of(all));
    assert(all[0] == "-p"@);
    assert(first[2] == "--output-format"@ && first[3] == "stream-json"@);
    assert(names_pair(first, "--output-format"@, "stream-json"@));
    lemma_pair_in_longer(first, all, "--output-format"@, "stream-json"@);
    assert(first[4] == "--input-format"@ && first[5] == "stream-json"@);
    assert(names_pair(first, "--input-format"@, "stream-json"@));
    lemma_pair_in_longer(first, all, "--input-format"@, "stream-json"@);
    lemma_flag_is_named(first, all, "--model"@, model);
    if window_text(runtime, provider, model) is Some {
        lemma_flag_is_named(
            named,
            all,
            "--autocompact"@,
            window_text(runtime, provider, model)->0,
        );
    }
    if effort is Some {
        lemma_flag_is_named(sized, all, "--effort"@, effort->0);
    }
    if text::trimmed(prompt).len() > 0 {
        lemma_flag_is_named(eager, all, "--system-prompt"@, prompt);
    }
    if scopes.native_on {
        lemma_flag_is_named(told, all, "--permission-mode"@, runtime.permission_mode@);
    } else {
        lemma_flag_is_named(told, all, "--tools"@, ""@);
    }
    assert(strict[own.len() as int] == "--strict-mcp-config"@);
    assert(all[own.len() as int] == "--strict-mcp-config"@);
    if bridge is Some && scopes.nonoka_on {
        lemma_flag_is_named(strict, all, "--mcp-config"@, bridge->0);
        lemma_flag_is_named(
            strict.push("--mcp-config"@).push(bridge->0),
            all,
            "--allowedTools"@,
            "mcp__nonoka"@,
        );
    }
    if ephemeral {
        assert(all[all.len() - 1] == "--no-session-persistence"@);
    }
}

/// What the agent is told of where it runs.
pub const RELAY_ENVIRONMENT_NOTE: &'static str = "\n\n<relay-environment>\nThis session runs inside Nonoka's relay: each turn is a fresh CLI process that exits when the turn ends. Work backgrounded through the built-in tools (Bash run_in_background, background Task) dies with the process, and its completion notifications never arrive.\n</relay-environment>";

/// What the agent is told of the tools that it is offered.
pub const RELAY_NONOKA_TOOLS_NOTE: &'static str = "\n<relay-environment-tools>\nThe mcp__nonoka__ tools live in the persistent Nonoka daemon and survive across turns: mcp__nonoka__task runs a background subagent that wakes a follow-up turn when it finishes, mcp__nonoka__job inspects or stops those, and mcp__nonoka__alarm schedules timed reminders.\n</relay-environment-tools>";

/// The tools that do what tools of the agent's own do.
pub open spec fn duplicate_tools() -> Seq<Seq<char>> {
    Seq::empty().push("run_command"@).push("web_search"@).push("web_fetch"@).push("glob"@).push(
        "grep"@,
    ).push("todowrite"@)
}

/// The tools that do what tools of the agent's own do.
pub fn bridge_duplicate_tools() -> (r: Vec<String>)
    ensures
        text::views(r@) == duplicate_tools(),
{
    let v = provider::with_text(provider::no_texts(), "run_command");
    let v = provider::with_text(v, "web_search");
    let v = provider::with_text(v, "web_fetch");
    let v = provider::with_text(v, "glob");
    let v = provider::with_text(v, "grep");
    provider::with_text(v, "todowrite")
}

/// The place of a member, from `i` on.
pub open spec fn member_place(ms: Seq<(Seq<char>, Doc)>, key: Seq<char>, i: int) -> Option<int>
    decreases ms.len() - i,
{
    if i < 0 || i >= ms.len() {
        None
    } else if ms[i].0 == key {
        Some(i)
    } else {
        member_place(ms, key, i + 1)
    }
}

/// Members where one has been set.
pub open spec fn with_member(ms: Seq<(Seq<char>, Doc)>, key: Seq<char>, value: Doc) -> Seq<
    (Seq<char>, Doc),
> {
    match member_place(ms, key, 0) {
        Some(i) => ms.update(i, (key, value)),
        None => ms.push((key, value)),
    }
}

/// Members where the first `n` of some variables have been set.
pub open spec fn with_variables(
    ms: Seq<(Seq<char>, Doc)>,
    vars: Seq<(String, String)>,
    n: nat,
) -> Seq<(Seq<char>, Doc)>
    decreases n,
{
    if n == 0 {
        ms
    } else {
        with_member(
            with_variables(ms, vars, (n - 1) as nat),
            vars[n - 1].0@,
            Doc::Text(vars[n - 1].1@),
        )
    }
}

/// The environment of the bridge: the session, where the turn comes from, the tools that are left
/// out where the agent has its own, and what is passed through.
pub open spec fn bridge_env(
    session: Seq<char>,
    origin: Seq<char>,
    exclude_duplicates: bool,
    passed: Seq<(String, String)>,
) -> Seq<(Seq<char>, Doc)> {
    let first = json::fields().push(("NONOKA_SESSION"@, Doc::Text(session))).push(
        ("NONOKA_TURN_ORIGIN"@, Doc::Text(origin)),
    );
    let excluded = if exclude_duplicates {
        first.push(("NONOKA_MCP_EXCLUDE"@, Doc::Text(text::joined(duplicate_tools(), ","@))))
    } else {
        first
    };
    with_variables(excluded, passed, passed.len())
}

/// How the agent reaches the tools that it is offered.
pub open spec fn bridge_doc(exe: Seq<char>, env: Seq<(Seq<char>, Doc)>) -> Doc {
    let server = Doc::Object(
        json::fields().push(("command"@, Doc::Text(exe))).push(
            ("args"@, Doc::Array(json::items().push(Doc::Text("mcp-serve"@)))),
        ).push(("env"@, Doc::Object(env))),
    );
    Doc::Object(
        json::fields().push(
            ("mcpServers"@, Doc::Object(json::fields().push(("nonoka"@, server)))),
        ),
    )
}

fn set_member(ms: &mut Vec<(String, Json)>, key: &str, value: Json)
    ensures
        json::members(final(ms)@) == with_member(json::members(old(ms)@), key@, value@),
{
    let ghost before = json::members(ms@);
    let mut i: usize = 0;
    while i < ms.len()
        invariant
            i <= ms@.len(),
            *ms == *old(ms),
            before == json::members(ms@),
            member_place(before, key@, 0) == member_place(before, key@, i as int),
        decreases ms@.len() - i,
    {
        assert(before[i as int] == (ms@[i as int].0@, ms@[i as int].1@));
        if text::same(ms[i].0.as_str(), key) {
            ms.set(i, (key.to_owned(), value));
            assert(json::members(ms@) =~= before.update(i as int, (key@, value@)));
            return;
        }
        i = i + 1;
    }
    ms.push((key.to_owned(), value));
    assert(json::members(ms@) =~= before.push((key@, value@)));
}

/// How the agent reaches the tools that it is offered: through this program, which it starts with
/// what it needs to know. There is no way where there is no session, or where it is not known
/// where the program is.
pub fn mcp_bridge_config(
    session: Option<&str>,
    exe: Option<&str>,
    origin: &str,
    exclude_duplicates: bool,
    passed: &Vec<(String, String)>,
) -> (r: Option<Json>)
    ensures
        match (session, exe) {
            (Some(s), Some(e)) => r matches Some(v) && v@ == bridge_doc(
                e@,
                bridge_env(s@, origin@, exclude_duplicates, passed@),
            ),
            _ => r is None,
        },
{
    match (session, exe) {
        (Some(s), Some(e)) => {
            let mut env: Vec<(String, Json)> = Vec::new();
            env.push(("NONOKA_SESSION".to_owned(), json::string(s)));
            env.push(("NONOKA_TURN_ORIGIN".to_owned(), json::string(origin)));
            if exclude_duplicates {
                let names = text::join(&bridge_duplicate_tools(), ",");
                env.push(("NONOKA_MCP_EXCLUDE".to_owned(), json::string(names.as_str())));
            }
            let ghost first = json::fields().push(("NONOKA_SESSION"@, Doc::Text(s@))).push(
                ("NONOKA_TURN_ORIGIN"@, Doc::Text(origin@)),
            );
            let ghost start = if exclude_duplicates {
                first.push(
                    ("NONOKA_MCP_EXCLUDE"@, Doc::Text(text::joined(duplicate_tools(), ","@))),
                )
            } else {
                first
            };
            assert(json::members(env@) =~= start);
            let mut i: usize = 0;
            while i < passed.len()
                invariant
                    i <= passed@.len(),
                    json::members(env@) == with_variables(start, passed@, i as nat),
                decreases passed@.len() - i,
            {
                set_member(
                    &mut env,
                    passed[i].0.as_str(),
                    json::string(passed[i].1.as_str()),
                );
                i = i + 1;
            }
            let env = Json::Object(env);
            assert(env@->Object_0 =~= bridge_env(s@, origin@, exclude_duplicates, passed@));
            let server = Fields::new().with("command", json::string(e)).with(
                "args",
                Items::new().with(json::string("mcp-serve")).build(),
            ).with("env", env).build();
            let servers = Fields::new().with("nonoka", server).build();
            Some(Fields::new().with("mcpServers", servers).build())
        },
        _ => None,
    }
}

/// What comes behind a turn of the agent.
#[derive(Debug, Clone, Copy, PartialEq, Eq, Structural)]
pub enum RelayStep {
    /// Its answer is taken.
    Answer,
    /// The turn is run again, without what was said before.
    Afresh,
    /// It has failed.
    Fail,
}

/// What comes behind a turn of the agent: it is run again only where it went on with a session
/// that the agent has lost.
pub fn after_turn(failed: bool, resumed: bool, session_lost: bool) -> (r: RelayStep)
    ensures
        !failed ==> r == RelayStep::Answer,
        failed && resumed && session_lost ==> r == RelayStep::Afresh,
        failed && !(resumed && session_lost) ==> r == RelayStep::Fail,
{
    if !failed {
        RelayStep::Answer
    } else if resumed && session_lost {
        RelayStep::Afresh
    } else {
        RelayStep::Fail
    }
}

/// Where the agent keeps what it writes down, below a home directory.
pub fn transcripts_dir(home: &str, vendor: &str) -> (r: String)
    ensures
        r@ == path::below(path::below(home@, "."@ + vendor@), "projects"@),
{
    path::join(path::join(home, text::cat2(".", vendor).as_str()).as_str(), "projects")
}

/// Where the agent has written a session down, in a project's directory.
pub fn transcript_path(project: &str, session: &str) -> (r: String)
    ensures
        r@ == path::below(project@, session@ + ".jsonl"@),
{
    path::join(project, text::cat2(session, ".jsonl").as_str())
}

/// A turn that names a session resumes it, whether or not it leaves a trace itself, and a turn that
/// names none resumes none.
pub proof fn lemma_resumes(runtime: &ClaudeCodeRuntime, turn: &ClaudeTurn, r: Vec<String>)
    requires
        call_ensures(claude_code_args, (runtime, turn), r),
    ensures
        turn.resume matches Some(id) ==> exists|i: int|
            0 <= i < r@.len() - 1 && (#[trigger] r@[i])@ == "--resume"@ && r@[i + 1]@ == id@,
        turn.ephemeral ==> r@.len() > 0 && r@[r@.len() - 1]@ == "--no-session-persistence"@,
        !turn.ephemeral && turn.resume is Some ==> r@.len() >= 2 && r@[r@.len() - 2]@ == "--resume"@
            && r@[r@.len() - 1]@ == turn.resume->0@,
{
    let all = text::views(r@);
    let n = all.len() as int;
    if turn.ephemeral {
        assert(all[n - 1] == "--no-session-persistence"@);
        assert(r@[n - 1]@ == all[n - 1]);
        if turn.resume is Some {
            assert(all[n - 3] == "--resume"@);
            assert(all[n - 2] == turn.resume->0@);
            assert(r@[n - 3]@ == all[n - 3]);
            assert(r@[n - 3 + 1]@ == all[n - 2]);
        }
    } else if turn.resume is Some {
        assert(all[n - 2] == "--resume"@);
        assert(all[n - 1] == turn.resume->0@);
        assert(r@[n - 2]@ == all[n - 2]);
        assert(r@[n - 2 + 1]@ == all[n - 1]);
    }
}

/// A turn that went well is answered; one that failed is tried afresh exactly where it was to resume
/// a session that is lost.
pub proof fn lemma_after_turn(failed: bool, resumed: bool, session_lost: bool, r: RelayStep)
    requires
        call_ensures(after_turn, (failed, resumed, session_lost), r),
    ensures
        r == RelayStep::Answer <==> !failed,
        r == RelayStep::Afresh <==> failed && resumed && session_lost,
{
}

/// The program that is run is the one that is set, or the usual one, and is waited for half a minute
/// at least.
pub proof fn lemma_runtime(plugin: &ClaudeCodePluginConfig, vendor: &str, r: ClaudeCodeRuntime)
    requires
        call_ensures(ClaudeCodeRuntime::from_config, (plugin, vendor), r),
    ensures
        r.idle_timeout_seconds >= 30,
        plugin.idle_timeout_seconds >= 30 ==> r.idle_timeout_seconds == plugin.idle_timeout_seconds,
        text::trimmed(plugin.binary@).len() > 0 ==> r.binary@ == text::trimmed(plugin.binary@),
        text::trimmed(plugin.binary@).len() == 0 ==> r.binary@ == vendor@,
{
}

/// The bridge is set up exactly where there is a session to bridge to and a program to run it.
pub proof fn lemma_bridge(
    session: Option<&str>,
    exe: Option<&str>,
    origin: &str,
    exclude_duplicates: bool,
    passed: &Vec<(String, String)>,
    r: Option<Json>,
)
    requires
        call_ensures(mcp_bridge_config, (session, exe, origin, exclude_duplicates, passed), r),
    ensures
        r is Some <==> session is Some && exe is Some,
{
}

/// A member that is set has its new value, and every other member the one that it had.
pub proof fn lemma_with_member(
    ms: Seq<(Seq<char>, Doc)>,
    key: Seq<char>,
    value: Doc,
    other: Seq<char>,
)
    ensures
        Doc::Object(with_member(ms, key, value)).field(key) == Some(value),
        other != key ==> Doc::Object(with_member(ms, key, value)).field(other) == Doc::Object(
            ms,
        ).field(other),
{
    let now = with_member(ms, key, value);
    lemma_member_place(ms, key, 0);
    match member_place(ms, key, 0) {
        Some(i) => {
            assert forall|k: int| 0 <= k < i implies (#[trigger] now[k]).0 != key by {
                assert(now[k] == ms[k]);
            }
            json::lemma_field(now, key, i);
        },
        None => {
            assert forall|k: int| 0 <= k < ms.len() implies (#[trigger] now[k]).0 != key by {
                assert(now[k] == ms[k]);
            }
            json::lemma_field(now, key, ms.len() as int);
        },
    }
    if other != key {
        lemma_other_member(ms, key, value, other, 0);
    }
}

proof fn lemma_member_place(ms: Seq<(Seq<char>, Doc)>, key: Seq<char>, from: int)
    requires
        0 <= from <= ms.len(),
    ensures
        match member_place(ms, key, from) {
            Some(i) => from <= i < ms.len() && ms[i].0 == key && forall|k: int|
                from <= k < i ==> (#[trigger] ms[k]).0 != key,
            None => forall|k: int| from <= k < ms.len() ==> (#[trigger] ms[k]).0 != key,
        },
    decreases ms.len() - from,
{
    if from < ms.len() {
        lemma_member_place(ms, key, from + 1);
    }
}

proof fn lemma_other_member(
    ms: Seq<(Seq<char>, Doc)>,
    key: Seq<char>,
    value: Doc,
    other: Seq<char>,
    from: int,
)
    requires
        other != key,
        0 <= from <= ms.len(),
    ensures
        json::member_from(with_member(ms, key, value), other, from) == json::member_from(
            ms,
            other,
            from,
        ),
    decreases ms.len() - from,
{
    let now = with_member(ms, key, value);
    lemma_member_place(ms, key, 0);
    if from < ms.len() {
        lemma_other_member(ms, key, value, other, from + 1);
        match member_place(ms, key, 0) {
            Some(i) => {
                if from != i {
                    assert(now[from] == ms[from]);
                } else {
                    assert(now[from].0 == key && ms[from].0 == key);
                }
            },
            None => {
                assert(now[from] == ms[from]);
            },
        }
    } else if now.len() > ms.len() {
        assert(now[from].0 == key);
        assert(json::member_from(now, other, from + 1) is None);
    }
}

/// Of variables that are set one after the other the last value of each counts, and what is not among
/// them stays.
pub proof fn lemma_variables(
    ms: Seq<(Seq<char>, Doc)>,
    vars: Seq<(String, String)>,
    n: nat,
    name: Seq<char>,
)
    requires
        n <= vars.len(),
    ensures
        (forall|k: int| 0 <= k < n ==> (#[trigger] vars[k]).0@ != name) ==> Doc::Object(
            with_variables(ms, vars, n),
        ).field(name) == Doc::Object(ms).field(name),
        forall|i: int|
            0 <= i < n && (#[trigger] vars[i]).0@ == name && (forall|k: int|
                i < k < n ==> (#[trigger] vars[k]).0@ != name) ==> Doc::Object(
                with_variables(ms, vars, n),
            ).field(name) == Some(Doc::Text(vars[i].1@)),
    decreases n,
{
    if n > 0 {
        let before = with_variables(ms, vars, (n - 1) as nat);
        lemma_variables(ms, vars, (n - 1) as nat, name);
        lemma_with_member(before, vars[n - 1].0@, Doc::Text(vars[n - 1].1@), name);
    }
}

/// The bridge is told the session and where the turn comes from, and which tools to leave out exactly
/// where the agent has its own, unless what is passed through says otherwise.
pub proof fn lemma_bridge_env(
    session: Seq<char>,
    origin: Seq<char>,
    exclude_duplicates: bool,
    passed: Seq<(String, String)>,
)
    requires
        forall|k: int|
            0 <= k < passed.len() ==> (#[trigger] passed[k]).0@ != "NONOKA_SESSION"@
                && passed[k].0@ != "NONOKA_TURN_ORIGIN"@ && passed[k].0@ != "NONOKA_MCP_EXCLUDE"@,
    ensures
        ({
            let env = Doc::Object(bridge_env(session, origin, exclude_duplicates, passed));
            &&& env.text_at("NONOKA_SESSION"@) == Some(session)
            &&& env.text_at("NONOKA_TURN_ORIGIN"@) == Some(origin)
            &&& exclude_duplicates ==> env.text_at("NONOKA_MCP_EXCLUDE"@) == Some(
                text::joined(duplicate_tools(), ","@),
            )
            &&& !exclude_duplicates ==> env.field("NONOKA_MCP_EXCLUDE"@) is None
        }),
{
    reveal_strlit("NONOKA_SESSION");
    reveal_strlit("NONOKA_TURN_ORIGIN");
    reveal_strlit("NONOKA_MCP_EXCLUDE");
    assert("NONOKA_SESSION"@.len() == 14);
    assert("NONOKA_TURN_ORIGIN"@.len() == 18 && "NONOKA_TURN_ORIGIN"@[7] == 'T');
    assert("NONOKA_MCP_EXCLUDE"@.len() == 18 && "NONOKA_MCP_EXCLUDE"@[7] == 'M');
    let first = json::fields().push(("NONOKA_SESSION"@, Doc::Text(session))).push(
        ("NONOKA_TURN_ORIGIN"@, Doc::Text(origin)),
    );
    let ms = if exclude_duplicates {
        first.push(("NONOKA_MCP_EXCLUDE"@, Doc::Text(text::joined(duplicate_tools(), ","@))))
    } else {
        first
    };
    json::lemma_field(ms, "NONOKA_SESSION"@, 0);
    json::lemma_field(ms, "NONOKA_TURN_ORIGIN"@, 1);
    if exclude_duplicates {
        json::lemma_field(ms, "NONOKA_MCP_EXCLUDE"@, 2);
    } else {
        json::lemma_no_field(Doc::Object(ms), "NONOKA_MCP_EXCLUDE"@);
    }
    lemma_variables(ms, passed, passed.len(), "NONOKA_SESSION"@);
    lemma_variables(ms, passed, passed.len(), "NONOKA_TURN_ORIGIN"@);
    lemma_variables(ms, passed, passed.len(), "NONOKA_MCP_EXCLUDE"@);
}

}
