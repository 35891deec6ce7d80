//! Looking at pictures in a turn of a chat, where only some may be looked at.

use super::request::{self, VisionError};
use crate::json::{self, Doc, Fields, Items, Json};
use crate::registry::{self, Tool, ToolRegistry, ToolSpec};
use crate::text;
use vstd::prelude::*;

verus! {

/// The tool's name.
pub const TOOL_NAME: &'static str = "vision_analyze";

/// What is said of the tool where anything may be looked at.
pub const TOOL_ABOUT: &'static str = "Analyze an image or a video using the current multimodal model or a configured vision provider. Supports local paths and http(s) URLs. Video formats: mp4, mkv, mov, webm, mpeg; a URL costs far less than a local file, which has to be inlined as base64.";

/// What is said of the tool in a turn of a chat.
pub const SCOPED_ABOUT: &'static str = "Analyze an image. image can be an image path from this turn's prompt or context_image_N; historical context images are fetched on demand.";

/// What is added where anything may be looked at in a turn of a chat.
pub const GENERAL_MORE: &'static str = " Historical image IDs from this turn (context_image_N) are fetched on demand; plain local paths and URLs still work as well.";

/// What is added where only some pictures may be looked at.
pub const ATTACHED_MORE: &'static str = " Only these images may be analyzed: this turn's paths from the current or quoted message, context_image_N IDs explicitly listed in earlier group-chat history, or avatar_url links returned by the group query tools. No other paths or URLs are allowed.";

/// A parameter that is a text.
pub open spec fn text_param(about: Seq<char>) -> Doc {
    Doc::Object(
        json::fields().push(("type"@, Doc::Text("string"@))).push(
            ("description"@, Doc::Text(about)),
        ),
    )
}

fn text_json(about: &str) -> (r: Json)
    ensures
        r@ == text_param(about@),
{
    Fields::new().with("type", json::string("string")).with(
        "description",
        json::string(about),
    ).build()
}

/// A parameter that is a list of texts.
pub open spec fn texts_param(about: Seq<char>) -> Doc {
    Doc::Object(
        json::fields().push(("type"@, Doc::Text("array"@))).push(
            ("items"@, Doc::Object(json::fields().push(("type"@, Doc::Text("string"@))))),
        ).push(("description"@, Doc::Text(about))),
    )
}

fn texts_json(about: &str) -> (r: Json)
    ensures
        r@ == texts_param(about@),
{
    let item = Fields::new().with("type", json::string("string")).build();
    Fields::new().with("type", json::string("array")).with("items", item).with(
        "description",
        json::string(about),
    ).build()
}

/// The schema of the tool's arguments.
pub open spec fn schema(image: Seq<char>, images: Seq<char>, prompt: Seq<char>) -> Doc {
    Doc::Object(
        json::fields().push(("type"@, Doc::Text("object"@))).push(
            (
                "properties"@,
                Doc::Object(
                    json::fields().push(("image"@, text_param(image))).push(
                        ("images"@, texts_param(images)),
                    ).push(("prompt"@, text_param(prompt))),
                ),
            ),
        ).push(("required"@, Doc::Array(json::items()))).push(
            ("additionalProperties"@, Doc::Bool(false)),
        ),
    )
}

fn schema_json(image: &str, images: &str, prompt: &str) -> (r: Json)
    ensures
        r@ == schema(image@, images@, prompt@),
{
    let properties = Fields::new().with("image", text_json(image)).with(
        "images",
        texts_json(images),
    ).with("prompt", text_json(prompt)).build();
    Fields::new().with("type", json::string("object")).with("properties", properties).with(
        "required",
        Items::new().build(),
    ).with("additionalProperties", Json::Bool(false)).build()
}

/// The tool where anything may be looked at.
pub open spec fn general_tool() -> Tool {
    Tool {
        name: TOOL_NAME@,
        description: TOOL_ABOUT@,
        parameters: schema(
            "Local path or http(s) URL of an image or a video."@,
            "Several images to analyze in one call (paths or URLs). Overrides image. Videos are analyzed one at a time — pass a single video through `image`."@,
            "Question or instruction for image analysis. Defaults to a concise description."@,
        ),
    }
}

/// The tool in a turn of a chat, before it is said what may be looked at.
pub open spec fn scoped_tool() -> Tool {
    Tool {
        name: TOOL_NAME@,
        description: SCOPED_ABOUT@,
        parameters: schema(
            "A path listed in this turn's image prompt, or a historical image ID such as context_image_1."@,
            "Several images to analyze in one call. Overrides image."@,
            "Question or instruction for the image analysis. Defaults to a concise description."@,
        ),
    }
}

/// Offers the tool with which anything may be looked at, if it is wanted.
pub fn register(registry: &mut ToolRegistry, register_analyze: bool)
    ensures
        final(registry)@ == if register_analyze {
            registry::with_tool(old(registry)@, general_tool())
        } else {
            old(registry)@
        },
{
    if !register_analyze {
        return;
    }
    registry.register(
        ToolSpec {
            name: TOOL_NAME.to_owned(),
            description: TOOL_ABOUT.to_owned(),
            parameters: schema_json(
                "Local path or http(s) URL of an image or a video.",
                "Several images to analyze in one call (paths or URLs). Overrides image. Videos are analyzed one at a time — pass a single video through `image`.",
                "Question or instruction for image analysis. Defaults to a concise description.",
            ),
        },
    );
}

/// The tools of a turn of a chat: making pictures first, where that is switched on, since what it
/// may start from is limited alike; then looking at them, where that is switched on.
pub open spec fn scoped_tools(
    tools: Seq<Tool>,
    vision_enabled: bool,
    generation: Option<Tool>,
    allow_general_access: bool,
) -> Seq<Tool> {
    let first = match generation {
        Some(t) => registry::with_tool(tools, t),
        None => tools,
    };
    if vision_enabled {
        registry::amended(
            registry::with_tool(first, scoped_tool()),
            TOOL_NAME@,
            if allow_general_access {
                GENERAL_MORE@
            } else {
                ATTACHED_MORE@
            },
        )
    } else {
        first
    }
}

/// The view of an optional tool.
pub open spec fn opt_tool(t: Option<ToolSpec>) -> Option<Tool> {
    match t {
        Some(s) => Some(s@),
        None => None,
    }
}

fn register_scoped(
    registry: &mut ToolRegistry,
    vision_enabled: bool,
    generation: Option<ToolSpec>,
    allow_general_access: bool,
)
    ensures
        final(registry)@ == scoped_tools(
            old(registry)@,
            vision_enabled,
            opt_tool(generation),
            allow_general_access,
        ),
{
    match generation {
        Some(spec) => {
            registry.register(spec);
        },
        None => {},
    }
    if !vision_enabled {
        return;
    }
    registry.register(
        ToolSpec {
            name: TOOL_NAME.to_owned(),
            description: SCOPED_ABOUT.to_owned(),
            parameters: schema_json(
                "A path listed in this turn's image prompt, or a historical image ID such as context_image_1.",
                "Several images to analyze in one call. Overrides image.",
                "Question or instruction for the image analysis. Defaults to a concise description.",
            ),
        },
    );
    registry.amend_description(
        TOOL_NAME,
        if allow_general_access {
            GENERAL_MORE
        } else {
            ATTACHED_MORE
        },
    );
}

/// Offers the tools of a turn without a chat around it: only what is attached may be looked at.
pub fn register_scoped_local(
    registry: &mut ToolRegistry,
    vision_enabled: bool,
    generation: Option<ToolSpec>,
)
    ensures
        final(registry)@ == scoped_tools(
            old(registry)@,
            vision_enabled,
            opt_tool(generation),
            false,
        ),
{
    register_scoped(registry, vision_enabled, generation, false);
}

/// Offers the tools of a turn of a chat. Where its participants may use the host's tools, they
/// may look at anything.
pub fn register_scoped_platform(
    registry: &mut ToolRegistry,
    vision_enabled: bool,
    generation: Option<ToolSpec>,
    host_tools_allowed: bool,
)
    ensures
        final(registry)@ == scoped_tools(
            old(registry)@,
            vision_enabled,
            opt_tool(generation),
            host_tools_allowed,
        ),
{
    register_scoped(registry, vision_enabled, generation, host_tools_allowed);
}

/// Saying more of a tool changes nothing about which tools there are.
proof fn lemma_amended(tools: Seq<Tool>, name: Seq<char>, more: Seq<char>, other: Seq<char>)
    ensures
        registry::has_tool(registry::amended(tools, name, more), other) == registry::has_tool(
            tools,
            other,
        ),
{
    let after = registry::amended(tools, name, more);
    registry::lemma_tool_from(tools, name, 0);
    registry::lemma_tool_from(tools, other, 0);
    registry::lemma_tool_from(after, other, 0);
    assert(after.len() == tools.len());
    assert(forall|j: int| 0 <= j < tools.len() ==> (#[trigger] after[j]).name == tools[j].name);
    match registry::tool_from(tools, other, 0) {
        Some(j) => {
            assert(after[j].name == other);
        },
        None => {},
    }
}

/// Making pictures is offered in a turn of a chat wherever it is switched on, whether or not
/// looking at them is; looking is offered exactly where it is switched on or was before.
pub proof fn lemma_scoped_tools(
    tools: Seq<Tool>,
    vision_enabled: bool,
    generation: Option<Tool>,
    allow_general_access: bool,
)
    requires
        generation matches Some(t) ==> t.name != TOOL_NAME@,
    ensures
        ({
            let after = scoped_tools(tools, vision_enabled, generation, allow_general_access);
            &&& generation matches Some(t) ==> registry::has_tool(after, t.name)
            &&& registry::has_tool(after, TOOL_NAME@) == (vision_enabled || registry::has_tool(
                tools,
                TOOL_NAME@,
            ))
        }),
{
    let first = match generation {
        Some(t) => registry::with_tool(tools, t),
        None => tools,
    };
    let more = if allow_general_access {
        GENERAL_MORE@
    } else {
        ATTACHED_MORE@
    };
    let second = registry::with_tool(first, scoped_tool());
    registry::lemma_registered(first, scoped_tool(), TOOL_NAME@);
    lemma_amended(second, TOOL_NAME@, more, TOOL_NAME@);
    match generation {
        Some(t) => {
            registry::lemma_registered(tools, t, TOOL_NAME@);
            registry::lemma_registered(tools, t, t.name);
            registry::lemma_registered(first, scoped_tool(), t.name);
            lemma_amended(second, TOOL_NAME@, more, t.name);
        },
        None => {},
    }
}

/// What a call leads to in a turn of a chat.
#[derive(Debug)]
pub enum ScopedStep {
    /// The picture of an earlier message, which is fetched.
    Context { id: String, prompt: String },
    /// What may be looked at without limits.
    General,
    /// A file, if it turns out to be one of this turn's.
    Local { path: String, prompt: String },
}

/// Whether `r` is what a call leads to. `calls` is how many were made before.
pub open spec fn scoped_to(
    args: Doc,
    calls: usize,
    limit: usize,
    context_ids: Seq<Seq<char>>,
    allow_general_access: bool,
    trusted_avatar: bool,
    r: Result<ScopedStep, VisionError>,
) -> bool {
    let image = request::image_of(args);
    if image.len() == 0 {
        r == Err::<ScopedStep, VisionError>(VisionError::ImageRequired)
    } else if calls >= limit {
        r == Err::<ScopedStep, VisionError>(VisionError::CallLimit)
    } else if context_ids.contains(image) {
        r matches Ok(ScopedStep::Context { id, prompt }) && id@ == image && prompt@
            == request::prompt_of(args)
    } else if allow_general_access {
        r matches Ok(ScopedStep::General)
    } else if request::is_url(image) {
        if trusted_avatar {
            r matches Ok(ScopedStep::General)
        } else {
            r == Err::<ScopedStep, VisionError>(VisionError::OnlyAttached)
        }
    } else {
        r matches Ok(ScopedStep::Local { path, prompt }) && path@ == image && prompt@
            == request::prompt_of(args)
    }
}

/// What a call leads to in a turn of a chat. Calls without a picture do not count toward the
/// limit; `trusted_avatar` says whether the address is one that the chat's own tools make.
pub fn scoped_step(
    args: &Json,
    calls: usize,
    limit: usize,
    context_ids: &Vec<String>,
    allow_general_access: bool,
    trusted_avatar: bool,
) -> (r: Result<ScopedStep, VisionError>)
    ensures
        scoped_to(
            args@,
            calls,
            limit,
            text::views(context_ids@),
            allow_general_access,
            trusted_avatar,
            r,
        ),
{
    let image = request::read_image(args);
    if image.as_str().is_empty() {
        return Err(VisionError::ImageRequired);
    }
    if calls >= limit {
        return Err(VisionError::CallLimit);
    }
    let prompt = request::read_prompt(args);
    if crate::provider_config::contains_text(context_ids, image.as_str()) {
        return Ok(ScopedStep::Context { id: image, prompt });
    }
    if allow_general_access {
        return Ok(ScopedStep::General);
    }
    if request::looks_like_url(image.as_str()) {
        if trusted_avatar {
            return Ok(ScopedStep::General);
        }
        return Err(VisionError::OnlyAttached);
    }
    Ok(ScopedStep::Local { path: image, prompt })
}

/// Whether a file is one of this turn's.
pub fn check_attached(allowed: &Vec<String>, resolved: &str) -> (r: Result<(), VisionError>)
    ensures
        if text::views(allowed@).contains(resolved@) {
            r is Ok
        } else {
            r == Err::<(), VisionError>(VisionError::NotAttached)
        },
{
    if crate::provider_config::contains_text(allowed, resolved) {
        Ok(())
    } else {
        Err(VisionError::NotAttached)
    }
}

/// Where not everything may be looked at, an address is looked at only if it is that of an avatar
/// or names an earlier picture.
pub proof fn lemma_addresses_are_limited(
    args: Doc,
    calls: usize,
    limit: usize,
    context_ids: Seq<Seq<char>>,
    r: Result<ScopedStep, VisionError>,
)
    requires
        scoped_to(args, calls, limit, context_ids, false, false, r),
        request::is_url(request::image_of(args)),
        !context_ids.contains(request::image_of(args)),
    ensures
        r is Err,
{
}

/// A picture has to be named, and no more pictures are looked at than the limit says, whatever else
/// is allowed; a picture of an earlier message is fetched before anything else is tried.
pub proof fn lemma_scope_order(
    args: Doc,
    calls: usize,
    limit: usize,
    context_ids: Seq<Seq<char>>,
    allow_general_access: bool,
    trusted_avatar: bool,
    r: Result<ScopedStep, VisionError>,
)
    requires
        scoped_to(args, calls, limit, context_ids, allow_general_access, trusted_avatar, r),
    ensures
        request::image_of(args).len() == 0 <==> r == Err::<ScopedStep, VisionError>(
            VisionError::ImageRequired,
        ),
        request::image_of(args).len() > 0 && calls >= limit ==> r == Err::<ScopedStep, VisionError>(
            VisionError::CallLimit,
        ),
        r is Ok ==> calls < limit && request::image_of(args).len() > 0,
        r matches Ok(ScopedStep::Context { id, prompt }) ==> context_ids.contains(id@) && prompt@
            == request::prompt_of(args),
        request::image_of(args).len() > 0 && calls < limit && context_ids.contains(
            request::image_of(args),
        ) ==> (r matches Ok(ScopedStep::Context { id, prompt }) && id@ == request::image_of(args)),
        r matches Ok(ScopedStep::Local { path, prompt }) ==> !allow_general_access && path@
            == request::image_of(args) && prompt@ == request::prompt_of(args),
{
}

/// A file may be looked at exactly where it is one of this turn's.
pub proof fn lemma_attached(allowed: &Vec<String>, resolved: &str, r: Result<(), VisionError>)
    requires
        call_ensures(check_attached, (allowed, resolved), r),
    ensures
        r is Ok <==> exists|i: int| 0 <= i < allowed@.len() && (#[trigger] allowed@[i])@ == resolved@,
{
    let names = text::views(allowed@);
    if names.contains(resolved@) {
        let i = names.index_of(resolved@);
        assert(allowed@[i]@ == resolved@);
    }
    if exists|i: int| 0 <= i < allowed@.len() && (#[trigger] allowed@[i])@ == resolved@ {
        let i = choose|i: int| 0 <= i < allowed@.len() && (#[trigger] allowed@[i])@ == resolved@;
        assert(names[i] == resolved@);
    }
}

}
