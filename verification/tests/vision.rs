//! Looking at pictures and videos.

use nonoka::json::{self, Fields, Items, Json};
use nonoka::provider::ProviderModelChoice;
use nonoka::provider_config::{ModelCatalog, ProviderConfig, ProviderDefaults};
use nonoka::registry::{ToolRegistry, ToolSpec};
use nonoka::vision::analyses::Analyses;
use nonoka::vision::batch::{batch_targets, run_vision_batch, single_args};
use nonoka::vision::media::{
    check_image, check_video, expand_path, local_image_data_url, mime_from_path, video_mime,
    MediaError, MAX_VIDEO_BYTES,
};
use nonoka::vision::message::{
    inline_media_message, ChatContent, ChatContentPart, ChatMessage, TurnInlineMedia,
    INLINE_MEDIA_KIND_IMAGE, INLINE_MEDIA_KIND_TEXT, INLINE_MEDIA_KIND_VIDEO,
};
use nonoka::vision::request::{
    analysis_messages, check_reply, image_timeout, plan_image, timeout_message,
    vision_pool_timeout, VisionError, VisionPluginConfig, VisionSource,
};
use nonoka::vision::route::{
    active_pool_views_media_with_native_file_tool, active_text_pool_for_vision,
    active_text_pool_supports_vision, should_use_active_text_pool_for_images, video_route,
    vision_route, with_model, Route,
};
use nonoka::vision::scope::{
    check_attached, register, register_scoped_local, register_scoped_platform, scoped_step,
    ScopedStep,
};

fn texts(list: &[&str]) -> Vec<String> {
    list.iter().map(|s| s.to_string()).collect()
}

fn defaults() -> ProviderDefaults {
    ProviderDefaults {
        vendor: "agent".to_string(),
        vendor_title: "Agent".to_string(),
        protocol: "openai-chat".to_string(),
        timeout_seconds: 120,
        temperature_bits: 0x3f33_3333,
        anthropic_max_tokens: 8192,
        opencode_id: "opencode".to_string(),
        opencode_url: "https://opencode.ai/zen/v1".to_string(),
        opencode_model: "free".to_string(),
    }
}

fn catalog() -> ModelCatalog {
    ModelCatalog { entries: vec![] }
}

fn provider(models: &[(&str, &[&str])]) -> ProviderConfig {
    let mut p = ProviderConfig::template("local", "Local", "http://localhost", &defaults());
    for (model, modalities) in models {
        p.models.push(model.to_string());
        p.model_modalities.insert(model, texts(modalities));
    }
    p
}

fn choice(model: &str) -> ProviderModelChoice {
    ProviderModelChoice {
        provider_id: "local".to_string(),
        provider_name: "Local".to_string(),
        model: model.to_string(),
    }
}

fn media(kind: &str, source: &str, data: Option<&[u8]>) -> TurnInlineMedia {
    TurnInlineMedia {
        call_id: "c".to_string(),
        seq: 0,
        kind: kind.to_string(),
        mime: "text/plain".to_string(),
        source: source.to_string(),
        data: data.map(|d| d.to_vec()),
    }
}

#[test]
fn inline_media_message_uses_plain_for_text_and_parts_for_media() {
    let text = || media(INLINE_MEDIA_KIND_TEXT, "", Some(b"a cat"));
    let message = inline_media_message(&[text()]).unwrap();
    assert!(matches!(message.content, ChatContent::Text(ref t) if t == "a cat"));

    let remote = TurnInlineMedia {
        call_id: "c".to_string(),
        seq: 1,
        kind: INLINE_MEDIA_KIND_IMAGE.to_string(),
        mime: String::new(),
        source: "https://example.com/p.jpg".to_string(),
        data: None,
    };
    let message = inline_media_message(&[text(), remote]).unwrap();
    let parts = match message.content {
        ChatContent::Parts(parts) => parts,
        _ => panic!("parts"),
    };
    assert_eq!(parts.len(), 2);
    assert!(
        matches!(&parts[1], ChatContentPart::ImageUrl { url } if url == "https://example.com/p.jpg")
    );
    assert!(inline_media_message(&[]).is_none());
}

#[test]
fn inline_bytes_become_data_urls_and_unreadable_text_is_left_out() {
    let mut video = media(INLINE_MEDIA_KIND_VIDEO, "x", Some(&[0, 1, 2]));
    video.mime = "video/mp4".to_string();
    let message = inline_media_message(&[video]).unwrap();
    let parts = match message.content {
        ChatContent::Parts(parts) => parts,
        _ => panic!("parts"),
    };
    assert!(
        matches!(&parts[0], ChatContentPart::VideoUrl { url } if url == "data:video/mp4;base64,AAEC")
    );
    assert!(
        inline_media_message(&[media(INLINE_MEDIA_KIND_TEXT, "", Some(&[0xff]))]).is_none()
    );
    assert!(inline_media_message(&[media("sound", "", Some(b"x"))]).is_none());
    let mixed = inline_media_message(&[media(INLINE_MEDIA_KIND_TEXT, "", Some("三".as_bytes()))]);
    assert!(matches!(mixed.unwrap().content, ChatContent::Text(ref t) if t == "三"));
}

#[test]
fn batch_targets_requires_non_empty_array() {
    let images = |list: &[&str]| {
        let mut items = Items::new();
        for item in list {
            items = items.with(json::string(item));
        }
        Fields::new().with("images", items.build()).build()
    };
    let single = Fields::new().with("image", json::string("a.png")).build();
    assert!(batch_targets(&single).is_none());
    assert!(batch_targets(&images(&[])).is_none());
    assert!(batch_targets(&images(&["  "])).is_none());
    assert_eq!(
        batch_targets(&images(&["a.png", " b.png "])).unwrap(),
        vec!["a.png".to_string(), "b.png".to_string()]
    );
}

#[test]
fn vision_batch_keeps_order_and_isolates_failures() {
    let targets = texts(&["one.png", "two.png", "three.png"]);
    let prompt = json::string("what is it");
    let mut results: Vec<Result<String, String>> = Vec::new();
    for target in &targets {
        let sub = single_args(target, Some(&prompt));
        let image = sub.text_at("image").unwrap().to_string();
        assert_eq!(sub.text_at("prompt"), Some("what is it"));
        if image == "two.png" {
            results.push(Err("boom".to_string()));
        } else {
            results.push(Ok(format!("desc of {image}")));
        }
    }
    let output = run_vision_batch(&targets, &results);
    let sections: Vec<&str> = output.split("\n\n").collect();
    assert_eq!(sections.len(), 3);
    assert!(sections[0].starts_with("[Image 1] one.png\ndesc of one.png"));
    assert!(sections[1].starts_with("[Image 2] two.png\nERROR: boom"));
    assert!(sections[2].starts_with("[Image 3] three.png\ndesc of three.png"));
    assert_eq!(single_args("a", None).to_text(), "{\"image\":\"a\"}");
}

#[test]
fn video_mime_detection_covers_url_and_case() {
    assert_eq!(video_mime("/tmp/a.mp4"), Some("video/mp4"));
    assert_eq!(video_mime("/tmp/A.MOV"), Some("video/mov"));
    assert_eq!(
        video_mime("https://x.com/v.webm?sig=abc"),
        Some("video/webm")
    );
    assert_eq!(video_mime("/tmp/a.png"), None);
    assert_eq!(video_mime("https://x.com/v"), None);
    for (path, mime) in [
        ("/tmp/a.mp4", "video/mp4"),
        ("/tmp/a.mkv", "video/x-matroska"),
        ("/tmp/a.mov", "video/mov"),
    ] {
        assert_eq!(video_mime(path), Some(mime));
    }
    assert_eq!(video_mime("a.m4v"), Some("video/mp4"));
    assert_eq!(video_mime("a.mpg?x.png"), Some("video/mpeg"));
}

#[test]
fn video_size_cap_matches_the_glm_limit() {
    assert_eq!(MAX_VIDEO_BYTES, 200 * 1024 * 1024);
}

#[test]
fn video_part_serializes_to_openrouter_shape() {
    let message = ChatMessage::user_with_video("看看这段", "data:video/mp4;base64,AAAA");
    let json = message.to_json();
    let parts = json.array_at("content").unwrap();
    assert_eq!(parts[1].text_at("type"), Some("video_url"));
    assert_eq!(
        parts[1].get("video_url").unwrap().text_at("url"),
        Some("data:video/mp4;base64,AAAA")
    );
}

#[test]
fn files_that_cannot_be_sent_are_refused() {
    assert!(check_video("a", true, MAX_VIDEO_BYTES, "200.0").is_ok());
    assert_eq!(
        check_video("a", false, 1, "0.0").unwrap_err().message(),
        "video path is not a file: a"
    );
    assert_eq!(
        check_video("a", true, MAX_VIDEO_BYTES + 1, "200.0").unwrap_err().message(),
        "video is 200.0 MB; the limit is 200 MB — trim or compress it first (e.g. ffmpeg -ss/-t or lower the resolution)"
    );
    assert!(check_image("a", true, 9, 9).is_ok());
    assert_eq!(
        check_image("a", false, 9, 9).unwrap_err().message(),
        "image path is not a file: a"
    );
    assert_eq!(
        check_image("a", true, 10, 9).unwrap_err().message(),
        "image too large: 10 bytes"
    );
}

#[test]
fn pictures_are_known_by_their_endings() {
    assert_eq!(mime_from_path("/a/b.JPG").unwrap(), "image/jpeg");
    assert_eq!(mime_from_path("b.jpeg").unwrap(), "image/jpeg");
    assert_eq!(mime_from_path("b.png").unwrap(), "image/png");
    assert_eq!(mime_from_path("b.webp/").unwrap(), "image/webp");
    assert_eq!(mime_from_path("b.tar.gif").unwrap(), "image/gif");
    for path in ["b", ".png", "", "..", "a/.."] {
        assert!(matches!(
            mime_from_path(path),
            Err(MediaError::UnsupportedExtension { extension }) if extension.is_empty()
        ));
    }
    assert_eq!(
        mime_from_path("b.bmp").unwrap_err().message(),
        "unsupported image extension: bmp; supported: jpg, jpeg, png, webp, gif"
    );
    assert_eq!(
        local_image_data_url("b.png", b"qq-image-bytes").unwrap(),
        "data:image/png;base64,cXEtaW1hZ2UtYnl0ZXM="
    );
    assert!(local_image_data_url("b.bmp", b"x").is_err());
}

#[test]
fn endings_agree_with_paths_of_the_standard_library() {
    for path in ["/a/b.jpg", "b.", "b..png", "/", "a/b/", "a/./b.gif/.", "x/../y.png", ".a.b"] {
        let expected = std::path::Path::new(path)
            .extension()
            .and_then(|e| e.to_str())
            .unwrap_or_default()
            .to_ascii_lowercase();
        match mime_from_path(path) {
            Ok(mime) => assert!(mime.ends_with(&expected.replace("jpg", "jpeg")), "{path}"),
            Err(MediaError::UnsupportedExtension { extension }) => {
                assert_eq!(extension, expected, "{path}")
            }
            Err(_) => unreachable!(),
        }
    }
}

#[test]
fn typed_paths_are_expanded() {
    assert_eq!(expand_path(" ~/a ", Some("/home/x"), "/w"), "/home/x/a");
    assert_eq!(expand_path("~/a", None, "/w"), "/w/~/a");
    assert_eq!(expand_path("/a", Some("/h"), "/w"), "/a");
    assert_eq!(expand_path("a", Some("/h"), "/w"), "/w/a");
}

fn call(image: &str, prompt: Option<&str>) -> Json {
    let fields = Fields::new().with("image", json::string(image));
    match prompt {
        Some(p) => fields.with("prompt", json::string(p)).build(),
        None => fields.build(),
    }
}

#[test]
fn calls_lead_to_pictures_and_videos() {
    let plan = plan_image(true, &call(" https://x/a.png ", None)).unwrap();
    assert!(matches!(plan.source, VisionSource::ImageUrl { url } if url == "https://x/a.png"));
    assert_eq!(
        plan.prompt,
        "Describe this image concisely and point out the important details."
    );
    let plan = plan_image(true, &call("http://x/a.mp4?b", Some(" why "))).unwrap();
    assert!(matches!(plan.source, VisionSource::VideoUrl { url } if url == "http://x/a.mp4?b"));
    assert_eq!(plan.prompt, "why");
    let plan = plan_image(true, &call("a.mkv", Some("  "))).unwrap();
    assert!(matches!(
        plan.source,
        VisionSource::LocalVideo { path, mime } if path == "a.mkv" && mime == "video/x-matroska"
    ));
    let plan = plan_image(true, &call("a.png", None)).unwrap();
    assert!(matches!(plan.source, VisionSource::LocalImage { path } if path == "a.png"));
    assert_eq!(
        plan_image(false, &call("a.png", None)).unwrap_err().message(),
        "vision plugin is disabled"
    );
    assert_eq!(
        plan_image(true, &Json::Null).unwrap_err().message(),
        "image (or images) is required"
    );
}

#[test]
fn models_are_asked_and_their_replies_checked() {
    let messages = analysis_messages(false, "why", "u");
    assert_eq!(
        messages[0].to_json().to_text(),
        "{\"role\":\"system\",\"content\":\"Answer based on the image content; do not make up details you cannot see.\"}"
    );
    assert_eq!(
        messages[1].to_json().to_text(),
        "{\"role\":\"user\",\"content\":[{\"type\":\"text\",\"text\":\"why\"},{\"type\":\"image_url\",\"image_url\":{\"url\":\"u\"}}]}"
    );
    let messages = analysis_messages(true, "why", "u");
    assert!(messages[0].to_json().to_text().contains("video content"));
    assert_eq!(check_reply(true, " a ".to_string()).unwrap(), " a ");
    assert_eq!(
        check_reply(true, " ".to_string()).unwrap_err().message(),
        "video model returned empty response"
    );
    assert_eq!(
        check_reply(false, "\n".to_string()).unwrap_err().message(),
        "vision model returned empty response"
    );
}

fn limits(header: u64, idle: u64, image: u64) -> VisionPluginConfig {
    VisionPluginConfig {
        response_header_timeout_seconds: header,
        stream_idle_timeout_seconds: idle,
        image_timeout_seconds: image,
    }
}

#[test]
fn the_pool_budget_covers_every_endpoint_timing_out() {
    let vision = limits(15, 20, 60);
    assert_eq!(vision_pool_timeout(&vision, 1), 60);
    assert_eq!(vision_pool_timeout(&vision, 2), 60);
    assert_eq!(vision_pool_timeout(&vision, 5), 95);
    assert_eq!(vision_pool_timeout(&vision, 9), 155);
    assert!(vision_pool_timeout(&vision, 9) >= vision.response_header_timeout_seconds * 9);
}

#[test]
fn the_pool_budget_is_never_zero() {
    assert!(vision_pool_timeout(&limits(0, 0, 0), 0) >= 1);
}

#[test]
fn the_pool_budget_saturates() {
    assert_eq!(vision_pool_timeout(&limits(u64::MAX, 1, 0), 2), u64::MAX);
    assert_eq!(vision_pool_timeout(&limits(1, u64::MAX, 0), 1), u64::MAX);
}

#[test]
fn image_timeout_cancels_a_stalled_model_pool() {
    assert_eq!(image_timeout(0), 1);
    assert_eq!(image_timeout(1), 1);
    assert_eq!(image_timeout(7), 7);
    assert_eq!(
        timeout_message(1),
        "vision model pool timed out after 1 seconds"
    );
}

#[test]
fn vision_support_requires_every_effective_text_pool_model() {
    let providers = vec![provider(&[
        ("vision-model", &["text", "image"]),
        ("text-model", &["text"]),
    ])];
    let mut pool = vec![choice("vision-model")];
    assert!(active_text_pool_supports_vision(&providers, &pool, &catalog()));
    pool.push(choice("text-model"));
    assert!(!active_text_pool_supports_vision(&providers, &pool, &catalog()));
    assert!(!active_text_pool_supports_vision(&providers, &vec![], &catalog()));
}

#[test]
fn vision_preference_controls_direct_image_delivery_to_the_text_pool() {
    let providers = vec![provider(&[("m", &["text", "image"])])];
    let pool = vec![choice("m")];
    assert!(should_use_active_text_pool_for_images(true, &providers, &pool, &catalog()));
    assert!(!should_use_active_text_pool_for_images(false, &providers, &pool, &catalog()));
}

#[test]
fn vision_uses_the_active_text_pool_when_it_can_see() {
    let providers = vec![provider(&[
        ("seeing", &["text", "image"]),
        ("blind-model", &["text"]),
    ])];
    let seeing = || vec![choice("seeing")];
    assert!(active_text_pool_for_vision(true, &providers, seeing(), &catalog()).is_some());
    assert!(active_text_pool_for_vision(false, &providers, seeing(), &catalog()).is_none());
    let mixed = vec![choice("seeing"), choice("blind-model")];
    assert!(active_text_pool_for_vision(true, &providers, mixed, &catalog()).is_none());
}

#[test]
fn antigravity_pool_never_inlines_media_but_views_it_natively() {
    let mut p = ProviderConfig::antigravity_template(&defaults());
    p.enabled = true;
    let model = p.default_model.clone();
    p.model_modalities.insert(&model, texts(&["text", "image"]));
    let pool = vec![ProviderModelChoice {
        provider_id: p.id.clone(),
        provider_name: p.display_name.clone(),
        model,
    }];
    let providers = vec![p];
    assert!(!active_text_pool_supports_vision(&providers, &pool, &catalog()));
    assert!(!should_use_active_text_pool_for_images(true, &providers, &pool, &catalog()));
    assert!(active_pool_views_media_with_native_file_tool(&providers, &pool, "all", false));
    assert!(!active_pool_views_media_with_native_file_tool(&providers, &pool, "dev", false));
    assert!(active_pool_views_media_with_native_file_tool(&providers, &pool, "dev", true));
}

#[test]
fn videos_go_to_models_that_take_them() {
    let providers = vec![provider(&[("v", &["text", "video"]), ("t", &["text"])])];
    let choices = vec![choice("t"), choice("v")];
    match video_route("", " ", &providers, &choices, &catalog()).unwrap() {
        Route::Pool(pool) => {
            assert_eq!(pool.len(), 1);
            assert_eq!(pool[0].model, "v");
        }
        _ => panic!("pool"),
    }
    assert!(matches!(
        video_route(" p ", " m ", &providers, &choices, &catalog()),
        Ok(Route::Model { provider_id, model }) if provider_id == "p" && model == "m"
    ));
    assert!(matches!(
        video_route("p", "", &providers, &choices, &catalog()),
        Err(VisionError::HalfVideoRoute)
    ));
    let none = video_route("", "", &providers, &vec![choice("t")], &catalog()).unwrap_err();
    assert!(none.message().starts_with("no video-capable model available"));
}

#[test]
fn pictures_go_to_models_that_take_them() {
    let providers = vec![provider(&[("i", &["image"]), ("t", &["text"])])];
    let pool = || vec![choice("i")];
    assert!(matches!(
        vision_route("", true, &providers, pool(), &vec![], &catalog()),
        Route::Pool(v) if v.len() == 1 && v[0].model == "i"
    ));
    assert!(matches!(
        vision_route("", false, &providers, pool(), &vec![choice("t"), choice("i")], &catalog()),
        Route::Pool(v) if v.len() == 1 && v[0].model == "i"
    ));
    assert!(matches!(
        vision_route("", false, &providers, pool(), &vec![choice("t")], &catalog()),
        Route::Configured
    ));
    assert!(matches!(
        vision_route("p", true, &providers, pool(), &pool(), &catalog()),
        Route::Configured
    ));
    let p = with_model(provider(&[("i", &[])]), "new");
    assert_eq!(p.default_model, "new");
    assert_eq!(p.models.last().unwrap(), "new");
    let q = with_model(provider(&[("i", &[])]), "i");
    assert_eq!(q.models.iter().filter(|m| *m == "i").count(), 1);
}

fn generation() -> ToolSpec {
    ToolSpec {
        name: "generate_image".to_string(),
        description: "x".to_string(),
        parameters: Json::Null,
    }
}

#[test]
fn scoped_registration_binds_image_generation_even_without_vision() {
    let mut registry = ToolRegistry::new();
    register_scoped_local(&mut registry, false, Some(generation()));
    assert!(!registry.contains("vision_analyze"));
    assert!(registry.contains("generate_image"));
}

#[test]
fn the_tool_is_offered_where_it_is_wanted() {
    let mut registry = ToolRegistry::new();
    register(&mut registry, false);
    assert!(!registry.contains("vision_analyze"));
    register(&mut registry, true);
    assert!(registry.contains("vision_analyze"));
    let mut scoped = ToolRegistry::new();
    register_scoped_platform(&mut scoped, true, None, true);
    assert!(scoped.contains("vision_analyze"));
    assert!(!scoped.contains("generate_image"));
}

#[test]
fn only_attached_pictures_are_looked_at_in_a_chat() {
    let ids = texts(&["context_image_1"]);
    let step = |image: &str, calls: usize, general: bool, avatar: bool| {
        scoped_step(&call(image, None), calls, 4, &ids, general, avatar)
    };
    assert!(matches!(
        step("context_image_1", 0, false, false),
        Ok(ScopedStep::Context { id, .. }) if id == "context_image_1"
    ));
    assert!(matches!(step("/a.png", 3, true, false), Ok(ScopedStep::General)));
    assert!(matches!(step("https://q/1", 0, false, true), Ok(ScopedStep::General)));
    assert_eq!(
        step("https://q/1", 0, false, false).unwrap_err().message(),
        "only images attached to the current platform turn are allowed"
    );
    assert!(matches!(
        step(" /etc/passwd ", 0, false, false),
        Ok(ScopedStep::Local { path, .. }) if path == "/etc/passwd"
    ));
    assert_eq!(
        step("/a.png", 4, true, false).unwrap_err().message(),
        "vision_analyze call limit reached for the current platform turn"
    );
    assert_eq!(
        step(" ", 9, true, false).unwrap_err().message(),
        "image (or images) is required"
    );
    assert!(check_attached(&texts(&["/a.png"]), "/a.png").is_ok());
    assert_eq!(
        check_attached(&texts(&["/a.png"]), "/etc/passwd").unwrap_err().message(),
        "image is not attached to the current platform turn"
    );
}

#[test]
fn a_question_is_put_once() {
    let mut analyses = Analyses::new();
    assert_eq!(analyses.recall("d1", "what"), None);
    analyses.keep("d1", "what", "a cat");
    analyses.keep("d1", "where", "a sofa");
    assert_eq!(analyses.recall("d1", "what").as_deref(), Some("a cat"));
    assert_eq!(analyses.recall("d1", "where").as_deref(), Some("a sofa"));
    assert_eq!(analyses.recall("d2", "what"), None);
    analyses.keep("d1", "what", "a dog");
    assert_eq!(analyses.recall("d1", "what").as_deref(), Some("a dog"));
    assert_eq!(analyses.recall("d1", "where").as_deref(), Some("a sofa"));
}
