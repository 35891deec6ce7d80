//! Which models look at pictures and videos.

use super::request::VisionError;
use crate::provider::{self, ProviderModelChoice};
use crate::provider_config::{self, ModelCatalog, ProviderConfig};
use crate::text;
use vstd::prelude::*;

verus! {

/// Whether a model takes in something, such as pictures, within a message.
pub open spec fn takes(
    providers: Seq<ProviderConfig>,
    choice: ProviderModelChoice,
    input: Seq<char>,
    catalog: ModelCatalog,
) -> bool {
    match provider_config::provider_from(providers, choice.provider_id@, 0) {
        Some(p) => match p.modalities(choice.model@, catalog) {
            Some(list) => list.contains(input),
            None => false,
        },
        None => false,
    }
}

/// Whether a model takes in something within a message.
pub fn takes_input(
    providers: &Vec<ProviderConfig>,
    choice: &ProviderModelChoice,
    input: &str,
    catalog: &ModelCatalog,
) -> (r: bool)
    ensures
        r == takes(providers@, *choice, input@, *catalog),
{
    match provider_config::find_provider(providers, choice.provider_id.as_str()) {
        Some(p) => match p.input_modalities(choice.model.as_str(), catalog) {
            Some(list) => provider_config::contains_text(&list, input),
            None => false,
        },
        None => false,
    }
}

/// Whether every model of a pool takes in something, and there is one. Requests go to any of
/// them, so that one which does not is one too many.
pub open spec fn all_take(
    providers: Seq<ProviderConfig>,
    pool: Seq<ProviderModelChoice>,
    input: Seq<char>,
    catalog: ModelCatalog,
) -> bool {
    pool.len() > 0 && forall|i: int|
        0 <= i < pool.len() ==> takes(providers, #[trigger] pool[i], input, catalog)
}

fn all_take_input(
    providers: &Vec<ProviderConfig>,
    pool: &Vec<ProviderModelChoice>,
    input: &str,
    catalog: &ModelCatalog,
) -> (r: bool)
    ensures
        r == all_take(providers@, pool@, input@, *catalog),
{
    let mut i: usize = 0;
    while i < pool.len()
        invariant
            i <= pool@.len(),
            forall|k: int|
                0 <= k < i ==> takes(providers@, #[trigger] pool@[k], input@, *catalog),
        decreases pool@.len() - i,
    {
        if !takes_input(providers, &pool[i], input, catalog) {
            return false;
        }
        i = i + 1;
    }
    pool.len() > 0
}

/// Whether the models in use for text see pictures, all of them.
pub fn active_text_pool_supports_vision(
    providers: &Vec<ProviderConfig>,
    pool: &Vec<ProviderModelChoice>,
    catalog: &ModelCatalog,
) -> (r: bool)
    ensures
        r == all_take(providers@, pool@, "image"@, *catalog),
{
    all_take_input(providers, pool, "image", catalog)
}

/// Whether pictures go to the models in use for text: where that is wanted and all of them see.
pub fn should_use_active_text_pool_for_images(
    prefer: bool,
    providers: &Vec<ProviderConfig>,
    pool: &Vec<ProviderModelChoice>,
    catalog: &ModelCatalog,
) -> (r: bool)
    ensures
        r == (prefer && all_take(providers@, pool@, "image"@, *catalog)),
{
    prefer && all_take_input(providers, pool, "image", catalog)
}

/// The models in use for text, where pictures go to them.
pub fn active_text_pool_for_vision(
    prefer: bool,
    providers: &Vec<ProviderConfig>,
    pool: Vec<ProviderModelChoice>,
    catalog: &ModelCatalog,
) -> (r: Option<Vec<ProviderModelChoice>>)
    ensures
        if prefer && all_take(providers@, pool@, "image"@, *catalog) {
            r == Some(pool)
        } else {
            r is None
        },
{
    if prefer && all_take_input(providers, &pool, "image", catalog) {
        Some(pool)
    } else {
        None
    }
}

/// Whether a provider's models look at media with a tool of their own.
pub open spec fn looks_itself(
    providers: Seq<ProviderConfig>,
    choice: ProviderModelChoice,
) -> bool {
    match provider_config::provider_from(providers, choice.provider_id@, 0) {
        Some(p) => p.speaks_antigravity(),
        None => false,
    }
}

/// Whether all models in use look at media with a tool of their own, which their scope lets
/// through.
pub fn active_pool_views_media_with_native_file_tool(
    providers: &Vec<ProviderConfig>,
    pool: &Vec<ProviderModelChoice>,
    native_tools: &str,
    dev_mode: bool,
) -> (r: bool)
    ensures
        r == (pool@.len() > 0 && (forall|i: int|
            0 <= i < pool@.len() ==> looks_itself(providers@, #[trigger] pool@[i]))
            && provider::scope_allows(native_tools@, dev_mode)),
{
    let mut i: usize = 0;
    while i < pool.len()
        invariant
            i <= pool@.len(),
            forall|k: int| 0 <= k < i ==> looks_itself(providers@, #[trigger] pool@[k]),
        decreases pool@.len() - i,
    {
        let own = match provider_config::find_provider(providers, pool[i].provider_id.as_str()) {
            Some(p) => p.views_media_with_native_file_tool(),
            None => false,
        };
        if !own {
            return false;
        }
        i = i + 1;
    }
    pool.len() > 0 && provider::relay_scope_allows(native_tools, dev_mode)
}

/// The choices among the first `n` whose models take in something.
pub open spec fn taking(
    providers: Seq<ProviderConfig>,
    choices: Seq<ProviderModelChoice>,
    input: Seq<char>,
    catalog: ModelCatalog,
    n: nat,
) -> Seq<ProviderModelChoice>
    decreases n,
{
    if n == 0 {
        Seq::empty()
    } else {
        let before = taking(providers, choices, input, catalog, (n - 1) as nat);
        if takes(providers, choices[n - 1], input, catalog) {
            before.push(choices[n - 1])
        } else {
            before
        }
    }
}

fn keep_taking(
    providers: &Vec<ProviderConfig>,
    choices: &Vec<ProviderModelChoice>,
    input: &str,
    catalog: &ModelCatalog,
) -> (r: Vec<ProviderModelChoice>)
    ensures
        r@ == taking(providers@, choices@, input@, *catalog, choices@.len()),
{
    let mut out: Vec<ProviderModelChoice> = Vec::new();
    let mut i: usize = 0;
    while i < choices.len()
        invariant
            i <= choices@.len(),
            out@ == taking(providers@, choices@, input@, *catalog, i as nat),
        decreases choices@.len() - i,
    {
        let c = &choices[i];
        if takes_input(providers, c, input, catalog) {
            out.push(
                ProviderModelChoice {
                    provider_id: c.provider_id.clone(),
                    provider_name: c.provider_name.clone(),
                    model: c.model.clone(),
                },
            );
        }
        i = i + 1;
    }
    out
}

/// Who looks.
#[derive(Debug)]
pub enum Route {
    /// This model of this provider.
    Model { provider_id: String, model: String },
    /// Any of these.
    Pool(Vec<ProviderModelChoice>),
    /// The model that is set for looking.
    Configured,
}

/// Who looks at videos: the model that is set for that, or else those in use that take videos.
pub fn video_route(
    video_provider_id: &str,
    video_model: &str,
    providers: &Vec<ProviderConfig>,
    choices: &Vec<ProviderModelChoice>,
    catalog: &ModelCatalog,
) -> (r: Result<Route, VisionError>)
    ensures
        ({
            let p = text::trimmed(video_provider_id@);
            let m = text::trimmed(video_model@);
            let found = taking(providers@, choices@, "video"@, *catalog, choices@.len());
            if p.len() > 0 && m.len() > 0 {
                r matches Ok(Route::Model { provider_id, model }) && provider_id@ == p && model@
                    == m
            } else if p.len() > 0 || m.len() > 0 {
                r matches Err(VisionError::HalfVideoRoute)
            } else if found.len() > 0 {
                r matches Ok(Route::Pool(v)) && v@ == found
            } else {
                r matches Err(VisionError::NoVideoModel)
            }
        }),
{
    let p = text::trim(video_provider_id);
    let m = text::trim(video_model);
    if !p.as_str().is_empty() || !m.as_str().is_empty() {
        if p.as_str().is_empty() || m.as_str().is_empty() {
            return Err(VisionError::HalfVideoRoute);
        }
        return Ok(Route::Model { provider_id: p, model: m });
    }
    let found = keep_taking(providers, choices, "video", catalog);
    if found.len() > 0 {
        Ok(Route::Pool(found))
    } else {
        Err(VisionError::NoVideoModel)
    }
}

/// Who looks at pictures: the model that is set for that; where none is, the models in use for
/// text, if pictures go to them, or else those in use for pictures that see any.
pub fn vision_route(
    vision_provider_id: &str,
    prefer: bool,
    providers: &Vec<ProviderConfig>,
    text_pool: Vec<ProviderModelChoice>,
    choices: &Vec<ProviderModelChoice>,
    catalog: &ModelCatalog,
) -> (r: Route)
    ensures
        ({
            let found = taking(providers@, choices@, "image"@, *catalog, choices@.len());
            if text::trimmed(vision_provider_id@).len() > 0 {
                r matches Route::Configured
            } else if prefer && all_take(providers@, text_pool@, "image"@, *catalog) {
                r matches Route::Pool(v) && v@ == text_pool@
            } else if found.len() > 0 {
                r matches Route::Pool(v) && v@ == found
            } else {
                r matches Route::Configured
            }
        }),
{
    if text::trim(vision_provider_id).as_str().is_empty() {
        match active_text_pool_for_vision(prefer, providers, text_pool, catalog) {
            Some(pool) => {
                return Route::Pool(pool);
            },
            None => {},
        }
        let found = keep_taking(providers, choices, "image", catalog);
        if found.len() > 0 {
            return Route::Pool(found);
        }
    }
    Route::Configured
}

/// A pool of models that look is never one in which a model does not see.
pub proof fn lemma_taking_take(
    providers: Seq<ProviderConfig>,
    choices: Seq<ProviderModelChoice>,
    input: Seq<char>,
    catalog: ModelCatalog,
    n: nat,
)
    requires
        n <= choices.len(),
    ensures
        forall|i: int|
            0 <= i < taking(providers, choices, input, catalog, n).len() ==> takes(
                providers,
                #[trigger] taking(providers, choices, input, catalog, n)[i],
                input,
                catalog,
            ),
    decreases n,
{
    if n > 0 {
        lemma_taking_take(providers, choices, input, catalog, (n - 1) as nat);
        let before = taking(providers, choices, input, catalog, (n - 1) as nat);
        let now = taking(providers, choices, input, catalog, n);
        assert forall|i: int| 0 <= i < now.len() implies takes(
            providers,
            #[trigger] now[i],
            input,
            catalog,
        ) by {
            if i < before.len() {
                assert(now[i] == before[i]);
            }
        }
    }
}

/// A provider set to one model, which is among its models from then on.
pub fn with_model(provider: ProviderConfig, model: &str) -> (r: ProviderConfig)
    ensures
        r.default_model@ == model@,
        text::views(r.models@) == if text::views(provider.models@).contains(model@) {
            text::views(provider.models@)
        } else {
            text::views(provider.models@).push(model@)
        },
        r == (ProviderConfig { default_model: r.default_model, models: r.models, ..provider }),
{
    let mut p = provider;
    p.default_model = model.to_owned();
    if !provider_config::contains_text(&p.models, model) {
        let t = model.to_owned();
        proof {
            text::lemma_views_push(p.models@, t);
        }
        p.models.push(t);
    }
    p
}

/// A model takes an input where its provider says so of it, and none of a provider that is not there.
pub proof fn lemma_takes(
    providers: Seq<ProviderConfig>,
    choice: ProviderModelChoice,
    input: Seq<char>,
    catalog: ModelCatalog,
)
    ensures
        (forall|k: int|
            0 <= k < providers.len() ==> (#[trigger] providers[k]).id@ != choice.provider_id@)
            ==> !takes(providers, choice, input, catalog) && !looks_itself(providers, choice),
        forall|i: int|
            0 <= i < providers.len() && (#[trigger] providers[i]).id@ == choice.provider_id@ && (
            forall|k: int|
                0 <= k < i ==> (#[trigger] providers[k]).id@ != choice.provider_id@) ==> {
                &&& takes(providers, choice, input, catalog) <==> (providers[i].modalities(
                    choice.model@,
                    catalog,
                ) matches Some(list) && list.contains(input))
                &&& looks_itself(providers, choice) <==> providers[i].speaks_antigravity()
            },
{
    provider_config::lemma_provider_from(providers, choice.provider_id@, 0);
    match provider_config::provider_from(providers, choice.provider_id@, 0) {
        Some(p) => {
            let j = choose|j: int|
                0 <= j < providers.len() && #[trigger] providers[j] == p && p.id@
                    == choice.provider_id@ && forall|k: int|
                    0 <= k < j ==> (#[trigger] providers[k]).id@ != choice.provider_id@;
            assert forall|i: int|
                0 <= i < providers.len() && (#[trigger] providers[i]).id@ == choice.provider_id@
                    && (forall|k: int|
                    0 <= k < i ==> (#[trigger] providers[k]).id@
                        != choice.provider_id@) implies i == j by {
                assert(providers[j].id@ == choice.provider_id@);
            }
        },
        None => {},
    }
}

/// A video goes to the model that is set for videos; where none is, to all that take videos; and it
/// is refused where half of a setting is missing or no model takes videos.
pub proof fn lemma_video_route(
    video_provider_id: &str,
    video_model: &str,
    providers: &Vec<ProviderConfig>,
    choices: &Vec<ProviderModelChoice>,
    catalog: &ModelCatalog,
    r: Result<Route, VisionError>,
)
    requires
        call_ensures(
            video_route,
            (video_provider_id, video_model, providers, choices, catalog),
            r,
        ),
    ensures
        ({
            let p = text::trimmed(video_provider_id@);
            let m = text::trimmed(video_model@);
            &&& p.len() > 0 && m.len() > 0 ==> (r matches Ok(Route::Model { provider_id, model })
                && provider_id@ == p && model@ == m)
            &&& (p.len() > 0) != (m.len() > 0) ==> (r matches Err(VisionError::HalfVideoRoute))
            &&& p.len() == 0 && m.len() == 0 ==> (r is Ok <==> exists|i: int|
                0 <= i < choices@.len() && takes(
                    providers@,
                    #[trigger] choices@[i],
                    "video"@,
                    *catalog,
                ))
            &&& r matches Ok(Route::Pool(v)) ==> forall|i: int|
                0 <= i < v@.len() ==> takes(providers@, #[trigger] v@[i], "video"@, *catalog)
            &&& r matches Ok(Route::Pool(v)) ==> v@.len() > 0
        }),
{
    lemma_taking_is(providers@, choices@, "video"@, *catalog, choices@.len());
}

/// A picture goes to the model that is set for looking, where one is; else to the models in use where
/// that is preferred and all of them see pictures; else to all that do; and else to what is set.
pub proof fn lemma_vision_route(
    vision_provider_id: &str,
    prefer: bool,
    providers: &Vec<ProviderConfig>,
    text_pool: Vec<ProviderModelChoice>,
    choices: &Vec<ProviderModelChoice>,
    catalog: &ModelCatalog,
    r: Route,
)
    requires
        call_ensures(
            vision_route,
            (vision_provider_id, prefer, providers, text_pool, choices, catalog),
            r,
        ),
    ensures
        text::trimmed(vision_provider_id@).len() > 0 ==> r is Configured,
        r matches Route::Pool(v) ==> v@.len() > 0 && forall|i: int|
            0 <= i < v@.len() ==> takes(providers@, #[trigger] v@[i], "image"@, *catalog),
        text::trimmed(vision_provider_id@).len() == 0 && prefer && text_pool@.len() > 0 && (forall|
            i: int,
        |
            0 <= i < text_pool@.len() ==> takes(
                providers@,
                #[trigger] text_pool@[i],
                "image"@,
                *catalog,
            )) ==> (r matches Route::Pool(v) && v@ == text_pool@),
        text::trimmed(vision_provider_id@).len() == 0 && (exists|i: int|
            0 <= i < choices@.len() && takes(
                providers@,
                #[trigger] choices@[i],
                "image"@,
                *catalog,
            )) ==> r is Pool,
{
    lemma_taking_is(providers@, choices@, "image"@, *catalog, choices@.len());
}

proof fn lemma_taking_is(
    providers: Seq<ProviderConfig>,
    choices: Seq<ProviderModelChoice>,
    input: Seq<char>,
    catalog: ModelCatalog,
    n: nat,
)
    requires
        n <= choices.len(),
    ensures
        taking(providers, choices, input, catalog, n).len() > 0 <==> exists|i: int|
            0 <= i < n && takes(providers, #[trigger] choices[i], input, catalog),
        forall|i: int|
            0 <= i < taking(providers, choices, input, catalog, n).len() ==> takes(
                providers,
                #[trigger] taking(providers, choices, input, catalog, n)[i],
                input,
                catalog,
            ),
    decreases n,
{
    if n > 0 {
        lemma_taking_is(providers, choices, input, catalog, (n - 1) as nat);
    }
}

/// The models in use look at pictures themselves only where that is preferred, there is one, and
/// every one of them sees pictures.
pub proof fn lemma_use_active_pool(
    prefer: bool,
    providers: &Vec<ProviderConfig>,
    pool: &Vec<ProviderModelChoice>,
    catalog: &ModelCatalog,
    r: bool,
)
    requires
        call_ensures(should_use_active_text_pool_for_images, (prefer, providers, pool, catalog), r),
    ensures
        r <==> prefer && pool@.len() > 0 && forall|i: int|
            0 <= i < pool@.len() ==> takes(providers@, #[trigger] pool@[i], "image"@, *catalog),
{
}

/// A provider that is given a model keeps those it has, and has that one as its default.
pub proof fn lemma_with_model(provider: ProviderConfig, model: &str, r: ProviderConfig)
    requires
        call_ensures(with_model, (provider, model), r),
    ensures
        r.default_model@ == model@,
        text::views(r.models@).contains(model@),
        forall|m: Seq<char>| #[trigger]
            text::views(provider.models@).contains(m) ==> text::views(r.models@).contains(m),
        r.id == provider.id,
        r.api_key == provider.api_key,
{
    let before = text::views(provider.models@);
    let after = text::views(r.models@);
    if !before.contains(model@) {
        assert(after[before.len() as int] == model@);
        assert forall|m: Seq<char>| #[trigger] before.contains(m) implies after.contains(m) by {
            let i = before.index_of(m);
            assert(after[i] == m);
        }
    }
}

}
