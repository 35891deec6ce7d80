//! What a call asks to be looked at, and how long that may take.

use super::media;
use super::message::{self, ChatContent, ChatMessage, Part};
use crate::json::{Doc, Json};
use crate::text;
use vstd::prelude::*;

verus! {

/// Why nothing is looked at.
#[derive(Debug, Clone, Copy, PartialEq, Eq, Structural)]
pub enum VisionError {
    /// Looking is switched off.
    Disabled,
    /// No picture is named.
    ImageRequired,
    /// The model has said nothing of a picture.
    EmptyImageReply,
    /// The model has said nothing of a video.
    EmptyVideoReply,
    /// Enough has been looked at in this turn.
    CallLimit,
    /// The address is not one of this turn's.
    OnlyAttached,
    /// The file is not one of this turn's.
    NotAttached,
    /// Half of a choice of a model for videos is missing.
    HalfVideoRoute,
    /// No model takes videos.
    NoVideoModel,
}

/// What is said where no model takes videos.
pub const NO_VIDEO_MODEL: &'static str = "no video-capable model available: either add a model whose input modalities include \"video\" to the active multimodal model pool (nonoka config → 配置多模态模型), or set plugins.vision.video_provider_id/video_model to one (e.g. glm-5.3-flash, or ox-alpha-free on an OpenRouter-compatible relay)";

impl VisionError {
    /// What is said of it.
    pub open spec fn said(self) -> Seq<char> {
        match self {
            VisionError::Disabled => "vision plugin is disabled"@,
            VisionError::ImageRequired => "image (or images) is required"@,
            VisionError::EmptyImageReply => "vision model returned empty response"@,
            VisionError::EmptyVideoReply => "video model returned empty response"@,
            VisionError::CallLimit =>
                "vision_analyze call limit reached for the current platform turn"@,
            VisionError::OnlyAttached =>
                "only images attached to the current platform turn are allowed"@,
            VisionError::NotAttached => "image is not attached to the current platform turn"@,
            VisionError::HalfVideoRoute =>
                "plugins.vision.video_provider_id 与 video_model 需同时配置"@,
            VisionError::NoVideoModel => NO_VIDEO_MODEL@,
        }
    }

    /// What is said of it.
    pub fn message(&self) -> (r: &'static str)
        ensures
            r@ == self.said(),
    {
        match self {
            VisionError::Disabled => "vision plugin is disabled",
            VisionError::ImageRequired => "image (or images) is required",
            VisionError::EmptyImageReply => "vision model returned empty response",
            VisionError::EmptyVideoReply => "video model returned empty response",
            VisionError::CallLimit =>
                "vision_analyze call limit reached for the current platform turn",
            VisionError::OnlyAttached =>
                "only images attached to the current platform turn are allowed",
            VisionError::NotAttached => "image is not attached to the current platform turn",
            VisionError::HalfVideoRoute =>
                "plugins.vision.video_provider_id 与 video_model 需同时配置",
            VisionError::NoVideoModel => NO_VIDEO_MODEL,
        }
    }
}

/// The question where none is asked.
pub const DEFAULT_PROMPT: &'static str = "Describe this image concisely and point out the important details.";

/// The picture that a call names.
pub open spec fn image_of(args: Doc) -> Seq<char> {
    text::trimmed(args.text_or("image"@, ""@))
}

/// The question that a call asks.
pub open spec fn prompt_of(args: Doc) -> Seq<char> {
    match args.text_at("prompt"@) {
        Some(p) => if text::trimmed(p).len() > 0 {
            text::trimmed(p)
        } else {
            text::trimmed(DEFAULT_PROMPT@)
        },
        None => text::trimmed(DEFAULT_PROMPT@),
    }
}

/// The picture that a call names.
pub fn read_image(args: &Json) -> (r: String)
    ensures
        r@ == image_of(args@),
{
    text::trim(args.text_or("image", ""))
}

/// The question that a call asks.
pub fn read_prompt(args: &Json) -> (r: String)
    ensures
        r@ == prompt_of(args@),
{
    match args.text_at("prompt") {
        Some(p) => {
            let t = text::trim(p);
            if t.as_str().is_empty() {
                text::trim(DEFAULT_PROMPT)
            } else {
                t
            }
        },
        None => text::trim(DEFAULT_PROMPT),
    }
}

/// Whether something is named by its address.
pub open spec fn is_url(value: Seq<char>) -> bool {
    text::begins(value, "http://"@) || text::begins(value, "https://"@)
}

/// Whether something is named by its address.
pub fn looks_like_url(value: &str) -> (r: bool)
    ensures
        r == is_url(value@),
{
    text::starts_with(value, "http://") || text::starts_with(value, "https://")
}

/// What is looked at.
#[derive(Debug)]
pub enum VisionSource {
    /// The video at this address.
    VideoUrl { url: String },
    /// The video in this file.
    LocalVideo { path: String, mime: String },
    /// The picture at this address.
    ImageUrl { url: String },
    /// The picture in this file.
    LocalImage { path: String },
}

/// What is looked at, and what is asked of it.
#[derive(Debug)]
pub struct VisionPlan {
    pub source: VisionSource,
    pub prompt: String,
}

/// Whether `s` is what the name of a picture or a video leads to: its ending tells a video from a
/// picture, its start an address from a file.
pub open spec fn leads_to(image: Seq<char>, s: VisionSource) -> bool {
    match media::video_type(media::ending(image)) {
        Some(mime) => if is_url(image) {
            s matches VisionSource::VideoUrl { url } && url@ == image
        } else {
            s matches VisionSource::LocalVideo { path, mime: m } && path@ == image && m@ == mime
        },
        None => if is_url(image) {
            s matches VisionSource::ImageUrl { url } && url@ == image
        } else {
            s matches VisionSource::LocalImage { path } && path@ == image
        },
    }
}

/// What one call asks to be looked at.
pub fn plan_image(enabled: bool, args: &Json) -> (r: Result<VisionPlan, VisionError>)
    ensures
        if !enabled {
            r == Err::<VisionPlan, VisionError>(VisionError::Disabled)
        } else if image_of(args@).len() == 0 {
            r == Err::<VisionPlan, VisionError>(VisionError::ImageRequired)
        } else {
            r matches Ok(p) && leads_to(image_of(args@), p.source) && p.prompt@ == prompt_of(args@)
        },
{
    if !enabled {
        return Err(VisionError::Disabled);
    }
    let image = read_image(args);
    if image.as_str().is_empty() {
        return Err(VisionError::ImageRequired);
    }
    let prompt = read_prompt(args);
    let remote = looks_like_url(image.as_str());
    let source = match media::video_mime(image.as_str()) {
        Some(mime) => {
            if remote {
                VisionSource::VideoUrl { url: image }
            } else {
                VisionSource::LocalVideo { path: image, mime: mime.to_owned() }
            }
        },
        None => {
            if remote {
                VisionSource::ImageUrl { url: image }
            } else {
                VisionSource::LocalImage { path: image }
            }
        },
    };
    Ok(VisionPlan { source, prompt })
}

/// What the system says to a model that looks at a picture.
pub const IMAGE_SYSTEM: &'static str = "Answer based on the image content; do not make up details you cannot see.";

/// What the system says to a model that looks at a video.
pub const VIDEO_SYSTEM: &'static str = "Answer based on the video content; do not make up details you cannot see.";

/// The messages that ask a model of a picture or a video.
pub fn analysis_messages(video: bool, prompt: &str, url: &str) -> (r: Vec<ChatMessage>)
    ensures
        r@.len() == 2,
        r@[0].role@ == "system"@,
        r@[0].content matches ChatContent::Text(t) && t@ == if video {
            VIDEO_SYSTEM@
        } else {
            IMAGE_SYSTEM@
        },
        r@[1].role@ == "user"@,
        r@[1].content matches ChatContent::Parts(v) && message::parts_of(v@) == Seq::empty().push(
            Part::Text(prompt@),
        ).push(
            if video {
                Part::Video(url@)
            } else {
                Part::Image(url@)
            },
        ),
{
    let mut v: Vec<ChatMessage> = Vec::new();
    if video {
        v.push(ChatMessage::system(VIDEO_SYSTEM));
        v.push(ChatMessage::user_with_video(prompt, url));
    } else {
        v.push(ChatMessage::system(IMAGE_SYSTEM));
        v.push(ChatMessage::user_with_image(prompt, url));
    }
    v
}

/// The model's reply, unless it says nothing.
pub fn check_reply(video: bool, content: String) -> (r: Result<String, VisionError>)
    ensures
        if text::trimmed(content@).len() > 0 {
            r == Ok::<String, VisionError>(content)
        } else if video {
            r == Err::<String, VisionError>(VisionError::EmptyVideoReply)
        } else {
            r == Err::<String, VisionError>(VisionError::EmptyImageReply)
        },
{
    if text::trim(content.as_str()).as_str().is_empty() {
        if video {
            Err(VisionError::EmptyVideoReply)
        } else {
            Err(VisionError::EmptyImageReply)
        }
    } else {
        Ok(content)
    }
}

/// How long looking may take, in seconds.
#[derive(Debug, Clone, Copy)]
pub struct VisionPluginConfig {
    /// Until a model begins to answer.
    pub response_header_timeout_seconds: u64,
    /// Between two parts of an answer.
    pub stream_idle_timeout_seconds: u64,
    /// In all, at least.
    pub image_timeout_seconds: u64,
}

/// The greater of two numbers.
pub open spec fn greater(a: int, b: int) -> int {
    if a < b {
        b
    } else {
        a
    }
}

/// The smaller of two numbers.
pub open spec fn smaller(a: int, b: int) -> int {
    if a < b {
        a
    } else {
        b
    }
}

/// How long all models together may take: as long as it is set, but long enough for each of them
/// to fail in its time.
pub open spec fn pool_timeout(v: VisionPluginConfig, endpoints: int) -> int {
    greater(
        v.image_timeout_seconds as int,
        smaller(
            u64::MAX as int,
            smaller(
                u64::MAX as int,
                greater(v.response_header_timeout_seconds as int, 1) * greater(endpoints, 1),
            ) + v.stream_idle_timeout_seconds,
        ),
    )
}

/// How long all models together may take.
pub fn vision_pool_timeout(vision: &VisionPluginConfig, endpoints: usize) -> (r: u64)
    ensures
        r == pool_timeout(*vision, endpoints as int),
{
    let header: u64 = if vision.response_header_timeout_seconds < 1 {
        1
    } else {
        vision.response_header_timeout_seconds
    };
    let count: u64 = if endpoints < 1 {
        1
    } else {
        endpoints as u64
    };
    let product: u64 = match header.checked_mul(count) {
        Some(p) => p,
        None => u64::MAX,
    };
    let worst: u64 = match product.checked_add(vision.stream_idle_timeout_seconds) {
        Some(s) => s,
        None => u64::MAX,
    };
    if vision.image_timeout_seconds < worst {
        worst
    } else {
        vision.image_timeout_seconds
    }
}

/// All models together may always take at least a second, and, unless that is more than can be
/// counted, as long as each of them may take until it begins to answer.
pub proof fn lemma_pool_timeout_is_enough(v: VisionPluginConfig, endpoints: int)
    requires
        0 <= endpoints,
    ensures
        pool_timeout(v, endpoints) >= 1,
        v.response_header_timeout_seconds * endpoints <= u64::MAX ==> pool_timeout(v, endpoints)
            >= v.response_header_timeout_seconds * endpoints,
{
    let h = v.response_header_timeout_seconds as int;
    let a = greater(h, 1);
    let b = greater(endpoints, 1);
    assert(a * b >= 1) by (nonlinear_arith)
        requires
            a >= 1,
            b >= 1,
    ;
    assert(a * b >= h * endpoints) by (nonlinear_arith)
        requires
            a >= h,
            b >= endpoints,
            h >= 0,
            endpoints >= 0,
            a >= 1,
            b >= 1,
    ;
}

/// How long one request may take, in seconds: one at least.
pub fn image_timeout(timeout_seconds: u64) -> (r: u64)
    ensures
        r == greater(timeout_seconds as int, 1),
{
    if timeout_seconds < 1 {
        1
    } else {
        timeout_seconds
    }
}

/// What is said where a request has taken too long.
pub fn timeout_message(timeout_seconds: u64) -> (r: String)
    ensures
        r@ == "vision model pool timed out after "@ + text::decimal(
            greater(timeout_seconds as int, 1) as nat,
        ) + " seconds"@,
{
    text::cat3(
        "vision model pool timed out after ",
        text::decimal_text(image_timeout(timeout_seconds) as u128).as_str(),
        " seconds",
    )
}

/// A prompt that holds more than white space is asked as it stands, without the white space around
/// it; otherwise the usual one is.
pub proof fn lemma_prompt(args: Doc)
    ensures
        args.text_at("prompt"@) matches Some(p) ==> (text::trimmed(p).len() > 0 ==> prompt_of(args)
            == text::trimmed(p)),
        args.text_at("prompt"@) matches Some(p) ==> (text::trimmed(p).len() == 0 ==> prompt_of(args)
            == text::trimmed(DEFAULT_PROMPT@)),
        args.text_at("prompt"@) is None ==> prompt_of(args) == text::trimmed(DEFAULT_PROMPT@),
{
}

/// What is looked at is a video exactly where its ending is that of one, and is fetched exactly where
/// it is an address.
pub proof fn lemma_source(image: Seq<char>, s: VisionSource)
    requires
        leads_to(image, s),
    ensures
        s is VideoUrl || s is LocalVideo <==> media::video_type(media::ending(image)) is Some,
        s is VideoUrl || s is ImageUrl <==> text::begins(image, "http://"@) || text::begins(
            image,
            "https://"@,
        ),
        s matches VisionSource::VideoUrl { url } ==> url@ == image,
        s matches VisionSource::ImageUrl { url } ==> url@ == image,
        s matches VisionSource::LocalImage { path } ==> path@ == image,
        s matches VisionSource::LocalVideo { path, mime } ==> path@ == image && Some(mime@)
            == media::video_type(media::ending(image)),
{
}

/// Looking has to be switched on and a picture has to be named; then what is named is looked at.
pub proof fn lemma_plan(enabled: bool, args: &Json, r: Result<VisionPlan, VisionError>)
    requires
        call_ensures(plan_image, (enabled, args), r),
    ensures
        r is Ok <==> enabled && image_of(args@).len() > 0,
        !enabled ==> r == Err::<VisionPlan, VisionError>(VisionError::Disabled),
        enabled && image_of(args@).len() == 0 ==> r == Err::<VisionPlan, VisionError>(
            VisionError::ImageRequired,
        ),
        r matches Ok(p) ==> p.prompt@ == prompt_of(args@) && p.prompt@.len() > 0,
{
    text::lemma_trimmed_twice(DEFAULT_PROMPT@);
    reveal_strlit(
        "Describe this image concisely and point out the important details.",
    );
    let d = DEFAULT_PROMPT@;
    let ends = text::lemma_trimmed(d);
    assert(d[0] == 'D');
    assert(!text::is_space('D'));
    if text::trimmed(d).len() == 0 {
        assert(text::is_space(d[0]));
    }
}

/// A reply that says something is passed on as it is, and one that says nothing is refused.
pub proof fn lemma_check_reply(video: bool, content: String, r: Result<String, VisionError>)
    requires
        call_ensures(check_reply, (video, content), r),
    ensures
        r is Ok <==> text::trimmed(content@).len() > 0,
        r matches Ok(t) ==> t@ == content@,
        r is Err ==> r == Err::<String, VisionError>(
            if video {
                VisionError::EmptyVideoReply
            } else {
                VisionError::EmptyImageReply
            },
        ),
{
}

/// Looking may take a second at least, and what is set where that is more.
pub proof fn lemma_image_timeout(timeout_seconds: u64, r: u64)
    requires
        call_ensures(image_timeout, (timeout_seconds,), r),
    ensures
        r >= 1,
        timeout_seconds >= 1 ==> r == timeout_seconds,
{
}

/// A pool may take as long as is set for a picture, and as long as each of its models may keep it
/// waiting in turn, and no longer than both.
pub proof fn lemma_pool_timeout(v: &VisionPluginConfig, endpoints: usize, r: u64)
    requires
        call_ensures(vision_pool_timeout, (v, endpoints), r),
        v.response_header_timeout_seconds >= 1,
        endpoints >= 1,
        v.response_header_timeout_seconds * endpoints + v.stream_idle_timeout_seconds <= u64::MAX,
    ensures
        r >= v.image_timeout_seconds,
        r >= v.response_header_timeout_seconds * endpoints + v.stream_idle_timeout_seconds,
        r == v.image_timeout_seconds || r == v.response_header_timeout_seconds * endpoints
            + v.stream_idle_timeout_seconds,
{
    assert(v.response_header_timeout_seconds * endpoints >= 0) by (nonlinear_arith);
}

}
