//! What Glide makes of the providers' model listings: which models the
//! pickers offer for transcription and for rewriting, the models kept when a
//! listing lacks them, and the verification each answer records.
use vstd::prelude::*;

use crate::catalog::{
    flag_of, info_view, model_info, set_remote_provider_verified, views, ModelCatalog, ModelInfo, ModelInfoView,
};
use crate::provider::{credentials_missing, credentials_missing_spec, remote_at, remote_index_of, ProvidersConfig, REMOTE_PROVIDER_COUNT};
use crate::provider::Provider;
use crate::text::{lowercase_str, str_lowercase, chars_of, push_chars, trim_spec, trim_string, contains_spec, contains_str, ends_with_spec, ends_with_str, starts_with_spec, starts_with_str, str_eq};

verus! {

broadcast use vstd::seq_lib::group_seq_properties;

/// Whether a lowercased model id names a Whisper transcription model.
pub open spec fn stt_model_id(id_lower: Seq<char>) -> bool {
    contains_spec(id_lower, "whisper"@) || contains_spec(id_lower, "distil-whisper"@)
}

pub fn remote_model_is_stt(id_lower: &str) -> (r: bool)
    ensures
        r == stt_model_id(id_lower@),
{
    contains_str(id_lower, "whisper") || contains_str(id_lower, "distil-whisper")
}

/// Whether `provider` transcribes: every remote provider but Cerebras.
pub fn provider_supports_remote_stt(provider: Provider) -> (r: bool)
    ensures
        r == (provider != Provider::Cerebras),
{
    match provider {
        Provider::Cerebras => false,
        _ => true,
    }
}

/// Whether a lowercased model id names a model that cannot rewrite text:
/// embedding, reranking, speech, image, moderation, fine-tune, realtime,
/// audio, legacy completion, guard, search and similar models; for OpenAI
/// also its video, image and audio generation models.
pub open spec fn excluded_llm_id(provider: Provider, id_lower: Seq<char>) -> bool {
    let by_family = contains_spec(id_lower, "embedding"@) || contains_spec(id_lower, "embed"@) || contains_spec(
        id_lower,
        "rerank"@,
    ) || contains_spec(id_lower, "tts"@) || contains_spec(id_lower, "dall-e"@) || contains_spec(id_lower, "flux"@)
        || contains_spec(id_lower, "stable-diffusion"@) || contains_spec(id_lower, "sdxl"@) || contains_spec(
        id_lower,
        "image"@,
    ) || contains_spec(id_lower, "moderation"@) || starts_with_spec(id_lower, "ft:"@) || contains_spec(
        id_lower,
        "realtime"@,
    ) || contains_spec(id_lower, "-audio-"@) || contains_spec(id_lower, "davinci"@) || contains_spec(
        id_lower,
        "babbage"@,
    ) || contains_spec(id_lower, "guard"@) || contains_spec(id_lower, "canary"@) || contains_spec(
        id_lower,
        "search"@,
    ) || contains_spec(id_lower, "similarity"@) || starts_with_spec(id_lower, "text-"@) || starts_with_spec(
        id_lower,
        "code-"@,
    ) || contains_spec(id_lower, "omni-"@) || contains_spec(id_lower, "orpheus"@);
    let openai_generation = provider == Provider::OpenAi && (id_lower == "sora-2"@ || id_lower == "sora-2-pro"@
        || starts_with_spec(id_lower, "gpt-image"@) || starts_with_spec(id_lower, "gpt-audio"@));
    by_family || openai_generation
}

pub fn excluded_remote_llm_model(provider: Provider, id_lower: &str) -> (r: bool)
    ensures
        r == excluded_llm_id(provider, id_lower@),
{
    let excluded_by_family = contains_str(id_lower, "embedding") || contains_str(id_lower, "embed")
        || contains_str(id_lower, "rerank") || contains_str(id_lower, "tts") || contains_str(
        id_lower,
        "dall-e",
    ) || contains_str(id_lower, "flux") || contains_str(id_lower, "stable-diffusion") || contains_str(
        id_lower,
        "sdxl",
    ) || contains_str(id_lower, "image") || contains_str(id_lower, "moderation") || starts_with_str(
        id_lower,
        "ft:",
    ) || contains_str(id_lower, "realtime") || contains_str(id_lower, "-audio-") || contains_str(
        id_lower,
        "davinci",
    ) || contains_str(id_lower, "babbage") || contains_str(id_lower, "guard") || contains_str(
        id_lower,
        "canary",
    ) || contains_str(id_lower, "search") || contains_str(id_lower, "similarity") || starts_with_str(
        id_lower,
        "text-",
    ) || starts_with_str(id_lower, "code-") || contains_str(id_lower, "omni-") || contains_str(
        id_lower,
        "orpheus",
    );
    let excluded_openai_generation_model = match provider {
        Provider::OpenAi => str_eq(id_lower, "sora-2") || str_eq(id_lower, "sora-2-pro") || starts_with_str(
            id_lower,
            "gpt-image",
        ) || starts_with_str(id_lower, "gpt-audio"),
        _ => false,
    };
    excluded_by_family || excluded_openai_generation_model
}

/// Whisper models go to the transcription picker of every provider that
/// transcribes (all but Cerebras), and models that cannot rewrite text
/// never reach the rewriting picker: an id
/// naming an embedding, reranking, speech synthesis, image, moderation,
/// realtime, audio, guard, search or similarity model, a fine-tune, or a
/// legacy completion model is excluded for every provider, and for OpenAI
/// its video, image and audio generation models are too.
pub proof fn law_listed_models_are_routed_by_kind(provider: Provider, id_lower: Seq<char>)
    ensures
        (contains_spec(id_lower, "embed"@) || contains_spec(id_lower, "rerank"@) || contains_spec(id_lower, "tts"@)
            || contains_spec(id_lower, "dall-e"@) || contains_spec(id_lower, "flux"@) || contains_spec(
            id_lower,
            "stable-diffusion"@,
        ) || contains_spec(id_lower, "sdxl"@) || contains_spec(id_lower, "image"@) || contains_spec(
            id_lower,
            "moderation"@,
        ) || starts_with_spec(id_lower, "ft:"@) || contains_spec(id_lower, "realtime"@) || contains_spec(
            id_lower,
            "-audio-"@,
        ) || contains_spec(id_lower, "davinci"@) || contains_spec(id_lower, "babbage"@) || contains_spec(
            id_lower,
            "guard"@,
        ) || contains_spec(id_lower, "canary"@) || contains_spec(id_lower, "search"@) || contains_spec(
            id_lower,
            "similarity"@,
        ) || starts_with_spec(id_lower, "text-"@) || starts_with_spec(id_lower, "code-"@) || contains_spec(
            id_lower,
            "omni-"@,
        ) || contains_spec(id_lower, "orpheus"@)) ==> excluded_llm_id(provider, id_lower) && route_of(
            provider,
            id_lower,
        ) != ModelRoute::Rewriting,
        provider == Provider::OpenAi && (id_lower == "sora-2"@ || id_lower == "sora-2-pro"@ || starts_with_spec(
            id_lower,
            "gpt-image"@,
        ) || starts_with_spec(id_lower, "gpt-audio"@)) ==> excluded_llm_id(provider, id_lower) && route_of(
            provider,
            id_lower,
        ) != ModelRoute::Rewriting,
        !stt_model_id(id_lower) && !excluded_llm_id(provider, id_lower) ==> route_of(provider, id_lower)
            == ModelRoute::Rewriting,
        contains_spec(id_lower, "whisper"@) ==> route_of(provider, id_lower) == if provider == Provider::Cerebras {
            ModelRoute::Hidden
        } else {
            ModelRoute::Transcription
        },
{
}

/// Where a listed model goes.
#[derive(Debug, Clone, Copy, PartialEq, Eq, Structural)]
pub enum ModelRoute {
    /// Offered for transcription.
    Transcription,
    /// Offered for rewriting.
    Rewriting,
    /// Not offered.
    Hidden,
}

/// Where a model of `provider` with lowercased id `id_lower` goes: Whisper
/// models to transcription when the provider transcribes, other models to
/// rewriting unless excluded.
pub open spec fn route_of(provider: Provider, id_lower: Seq<char>) -> ModelRoute {
    if stt_model_id(id_lower) {
        if provider != Provider::Cerebras {
            ModelRoute::Transcription
        } else {
            ModelRoute::Hidden
        }
    } else if !excluded_llm_id(provider, id_lower) {
        ModelRoute::Rewriting
    } else {
        ModelRoute::Hidden
    }
}

pub fn remote_model_route(provider: Provider, id_lower: &str) -> (r: ModelRoute)
    ensures
        r == route_of(provider, id_lower@),
{
    if remote_model_is_stt(id_lower) {
        if provider_supports_remote_stt(provider) {
            ModelRoute::Transcription
        } else {
            ModelRoute::Hidden
        }
    } else if !excluded_remote_llm_model(provider, id_lower) {
        ModelRoute::Rewriting
    } else {
        ModelRoute::Hidden
    }
}

/// One model of an OpenAI-compatible `/models` listing.
#[derive(Debug, Clone)]
pub struct ModelsResponseEntry {
    pub id: String,
    pub active: Option<bool>,
}

/// One model of the ElevenLabs model listing.
#[derive(Debug, Clone)]
pub struct ElevenLabsModelsResponseEntry {
    pub model_id: String,
    pub name: Option<String>,
}

/// The models found in this round of listings.
#[derive(Debug, Clone)]
pub struct DiscoveredModels {
    pub stt: Vec<ModelInfo>,
    pub llm: Vec<ModelInfo>,
}

impl DiscoveredModels {
    /// Nothing found yet.
    pub fn new() -> (r: DiscoveredModels)
        ensures
            r.stt@.len() == 0,
            r.llm@.len() == 0,
    {
        DiscoveredModels { stt: Vec::new(), llm: Vec::new() }
    }
}

/// Which of the Fireworks models Glide relies on a listing showed.
#[derive(Debug, Clone, Copy, PartialEq, Eq, Structural)]
pub struct FireworksCatalogCoverage {
    pub saw_whisper_v3: bool,
    pub saw_whisper_turbo: bool,
    pub saw_gpt_oss_20b: bool,
    pub saw_gpt_oss_120b: bool,
}

pub open spec fn is_whisper_v3(id: Seq<char>) -> bool {
    id == "whisper-v3"@
}

pub open spec fn is_whisper_turbo(id: Seq<char>) -> bool {
    id == "whisper-v3-turbo"@
}

pub open spec fn is_gpt_oss_20b(id: Seq<char>) -> bool {
    ends_with_spec(id, "/gpt-oss-20b"@) || id == "gpt-oss-20b"@
}

pub open spec fn is_gpt_oss_120b(id: Seq<char>) -> bool {
    ends_with_spec(id, "/gpt-oss-120b"@) || id == "gpt-oss-120b"@
}

/// The coverage after seeing `id`.
pub open spec fn covered(c: FireworksCatalogCoverage, id: Seq<char>) -> FireworksCatalogCoverage {
    FireworksCatalogCoverage {
        saw_whisper_v3: c.saw_whisper_v3 || is_whisper_v3(id),
        saw_whisper_turbo: c.saw_whisper_turbo || is_whisper_turbo(id),
        saw_gpt_oss_20b: c.saw_gpt_oss_20b || is_gpt_oss_20b(id),
        saw_gpt_oss_120b: c.saw_gpt_oss_120b || is_gpt_oss_120b(id),
    }
}

/// The Fireworks transcription models a listing with coverage `c` lacks.
pub open spec fn fireworks_missing_stt(c: FireworksCatalogCoverage) -> Seq<ModelInfoView> {
    (if !c.saw_whisper_turbo {
        seq![info_view(Provider::Fireworks, "whisper-v3-turbo"@, "whisper-v3-turbo"@, false)]
    } else {
        Seq::empty()
    }) + (if !c.saw_whisper_v3 {
        seq![info_view(Provider::Fireworks, "whisper-v3"@, "whisper-v3"@, false)]
    } else {
        Seq::empty()
    })
}

/// The Fireworks rewriting models a listing with coverage `c` lacks.
pub open spec fn fireworks_missing_llm(c: FireworksCatalogCoverage) -> Seq<ModelInfoView> {
    (if !c.saw_gpt_oss_20b {
        seq![
            info_view(
                Provider::Fireworks,
                "accounts/fireworks/models/gpt-oss-20b"@,
                "accounts/fireworks/models/gpt-oss-20b"@,
                false,
            ),
        ]
    } else {
        Seq::empty()
    }) + (if !c.saw_gpt_oss_120b {
        seq![
            info_view(
                Provider::Fireworks,
                "accounts/fireworks/models/gpt-oss-120b"@,
                "accounts/fireworks/models/gpt-oss-120b"@,
                false,
            ),
        ]
    } else {
        Seq::empty()
    })
}

impl FireworksCatalogCoverage {
    /// Nothing seen yet.
    pub fn new() -> (r: FireworksCatalogCoverage)
        ensures
            !r.saw_whisper_v3 && !r.saw_whisper_turbo && !r.saw_gpt_oss_20b && !r.saw_gpt_oss_120b,
    {
        FireworksCatalogCoverage {
            saw_whisper_v3: false,
            saw_whisper_turbo: false,
            saw_gpt_oss_20b: false,
            saw_gpt_oss_120b: false,
        }
    }

    pub fn record(&mut self, id: &str)
        ensures
            *final(self) == covered(*old(self), id@),
    {
        self.saw_whisper_v3 = self.saw_whisper_v3 || str_eq(id, "whisper-v3");
        self.saw_whisper_turbo = self.saw_whisper_turbo || str_eq(id, "whisper-v3-turbo");
        self.saw_gpt_oss_20b = self.saw_gpt_oss_20b || ends_with_str(id, "/gpt-oss-20b") || str_eq(
            id,
            "gpt-oss-20b",
        );
        self.saw_gpt_oss_120b = self.saw_gpt_oss_120b || ends_with_str(id, "/gpt-oss-120b") || str_eq(
            id,
            "gpt-oss-120b",
        );
    }

    /// Adds the Fireworks models Glide relies on that the listing lacked.
    pub fn append_missing(&self, discovered: &mut DiscoveredModels)
        ensures
            views(final(discovered).stt@) == views(old(discovered).stt@) + fireworks_missing_stt(*self),
            views(final(discovered).llm@) == views(old(discovered).llm@) + fireworks_missing_llm(*self),
    {
        let ghost stt0 = views(discovered.stt@);
        let ghost llm0 = views(discovered.llm@);
        if !self.saw_whisper_turbo {
            discovered.stt.push(model_info(Provider::Fireworks, "whisper-v3-turbo", false));
        }
        if !self.saw_whisper_v3 {
            discovered.stt.push(model_info(Provider::Fireworks, "whisper-v3", false));
        }
        if !self.saw_gpt_oss_20b {
            discovered.llm.push(model_info(Provider::Fireworks, "accounts/fireworks/models/gpt-oss-20b", false));
        }
        if !self.saw_gpt_oss_120b {
            discovered.llm.push(model_info(Provider::Fireworks, "accounts/fireworks/models/gpt-oss-120b", false));
        }
        proof {
            assert(views(discovered.stt@) =~= stt0 + fireworks_missing_stt(*self));
            assert(views(discovered.llm@) =~= llm0 + fireworks_missing_llm(*self));
        }
    }
}

/// Whether a listing marks an entry inactive.
pub open spec fn inactive(e: ModelsResponseEntry) -> bool {
    e.active == Some(false)
}

/// The coverage of the active entries of a listing.
pub open spec fn coverage_of(entries: Seq<ModelsResponseEntry>) -> FireworksCatalogCoverage
    decreases entries.len(),
{
    if entries.len() == 0 {
        FireworksCatalogCoverage {
            saw_whisper_v3: false,
            saw_whisper_turbo: false,
            saw_gpt_oss_20b: false,
            saw_gpt_oss_120b: false,
        }
    } else {
        let c = coverage_of(entries.drop_last());
        if inactive(entries.last()) {
            c
        } else {
            covered(c, entries.last().id@)
        }
    }
}

/// The entries, in listing order, of the active models of `provider` that go
/// to `route`.
pub open spec fn routed(provider: Provider, entries: Seq<ModelsResponseEntry>, route: ModelRoute) -> Seq<
    ModelInfoView,
>
    decreases entries.len(),
{
    if entries.len() == 0 {
        Seq::empty()
    } else {
        let rest = routed(provider, entries.drop_last(), route);
        let e = entries.last();
        if !inactive(e) && route_of(provider, str_lowercase(e.id@)) == route {
            rest.push(info_view(provider, e.id@, e.id@, false))
        } else {
            rest
        }
    }
}

/// Files the models of one provider's listing: each active model goes where
/// its lowercased id sends it, and a Fireworks listing is completed with the
/// Fireworks models Glide relies on.
pub fn append_provider_models(
    provider: Provider,
    data: Vec<ModelsResponseEntry>,
    discovered: &mut DiscoveredModels,
)
    ensures
        views(final(discovered).stt@) == views(old(discovered).stt@) + routed(provider, data@, ModelRoute::Transcription)
            + if provider == Provider::Fireworks {
            fireworks_missing_stt(coverage_of(data@))
        } else {
            Seq::empty()
        },
        views(final(discovered).llm@) == views(old(discovered).llm@) + routed(provider, data@, ModelRoute::Rewriting)
            + if provider == Provider::Fireworks {
            fireworks_missing_llm(coverage_of(data@))
        } else {
            Seq::empty()
        },
{
    let ghost stt0 = views(discovered.stt@);
    let ghost llm0 = views(discovered.llm@);
    let is_fireworks = match provider {
        Provider::Fireworks => true,
        _ => false,
    };
    let mut fireworks = FireworksCatalogCoverage::new();
    let mut i: usize = 0;
    while i < data.len()
        invariant
            i <= data@.len(),
            is_fireworks == (provider == Provider::Fireworks),
            is_fireworks ==> fireworks == coverage_of(data@.take(i as int)),
            views(discovered.stt@) == stt0 + routed(provider, data@.take(i as int), ModelRoute::Transcription),
            views(discovered.llm@) == llm0 + routed(provider, data@.take(i as int), ModelRoute::Rewriting),
        decreases data@.len() - i,
    {
        let entry = &data[i];
        proof {
            assert(data@.take(i + 1).drop_last() =~= data@.take(i as int));
            assert(data@.take(i + 1).last() == data@[i as int]);
        }
        let skip = match entry.active {
            Some(false) => true,
            _ => false,
        };
        let ghost e = data@[i as int];
        let ghost stt_before = discovered.stt@;
        let ghost llm_before = discovered.llm@;
        if !skip {
            if is_fireworks {
                fireworks.record(entry.id.as_str());
            }
            let id_lower = lowercase_str(entry.id.as_str());
            let info = model_info(provider, entry.id.as_str(), false);
            let route = remote_model_route(provider, id_lower.as_str());
            match route {
                ModelRoute::Transcription => discovered.stt.push(info),
                ModelRoute::Rewriting => discovered.llm.push(info),
                ModelRoute::Hidden => {},
            }
            proof {
                assert(route == route_of(provider, str_lowercase(e.id@)));
                if route == ModelRoute::Transcription {
                    assert(views(discovered.stt@) =~= views(stt_before).push(info_view(provider, e.id@, e.id@, false)));
                    assert(discovered.llm@ == llm_before);
                } else if route == ModelRoute::Rewriting {
                    assert(views(discovered.llm@) =~= views(llm_before).push(info_view(provider, e.id@, e.id@, false)));
                    assert(discovered.stt@ == stt_before);
                }
            }
        }
        proof {
            assert(views(discovered.stt@) =~= stt0 + routed(provider, data@.take(i + 1), ModelRoute::Transcription));
            assert(views(discovered.llm@) =~= llm0 + routed(provider, data@.take(i + 1), ModelRoute::Rewriting));
        }
        i = i + 1;
    }
    proof {
        assert(data@.take(data@.len() as int) =~= data@);
    }
    if is_fireworks {
        let ghost stt1 = views(discovered.stt@);
        let ghost llm1 = views(discovered.llm@);
        fireworks.append_missing(discovered);
        proof {
            assert(views(discovered.stt@) =~= stt0 + routed(provider, data@, ModelRoute::Transcription)
                + fireworks_missing_stt(coverage_of(data@)));
            assert(views(discovered.llm@) =~= llm0 + routed(provider, data@, ModelRoute::Rewriting)
                + fireworks_missing_llm(coverage_of(data@)));
        }
    } else {
        proof {
            assert(views(discovered.stt@) =~= stt0 + routed(provider, data@, ModelRoute::Transcription)
                + Seq::<ModelInfoView>::empty());
            assert(views(discovered.llm@) =~= llm0 + routed(provider, data@, ModelRoute::Rewriting)
                + Seq::<ModelInfoView>::empty());
        }
    }
}

/// The display name ElevenLabs' Scribe models get when the listing gives none.
pub open spec fn scribe_display(model_id: Seq<char>) -> Option<Seq<char>> {
    if model_id == "scribe_v2"@ {
        Some("Scribe v2"@)
    } else if model_id == "scribe_v1"@ {
        Some("Scribe v1"@)
    } else {
        None
    }
}

pub fn elevenlabs_scribe_display_name(model_id: &str) -> (r: Option<&'static str>)
    ensures
        match r {
            Some(d) => scribe_display(model_id@) == Some(d@),
            None => scribe_display(model_id@) is None,
        },
{
    if str_eq(model_id, "scribe_v2") {
        Some("Scribe v2")
    } else if str_eq(model_id, "scribe_v1") {
        Some("Scribe v1")
    } else {
        None
    }
}

/// Whether an ElevenLabs model is one of the Scribe models Glide offers.
pub open spec fn is_scribe(model_id: Seq<char>) -> bool {
    model_id == "scribe_v2"@ || model_id == "scribe_v1"@
}

/// The entry for a listed Scribe model: the listed name, else its known one.
pub open spec fn scribe_view(e: ElevenLabsModelsResponseEntry) -> ModelInfoView {
    let name = match e.name {
        Some(n) => n@,
        None => match scribe_display(e.model_id@) {
            Some(d) => d,
            None => "ElevenLabs Scribe"@,
        },
    };
    info_view(Provider::ElevenLabs, e.model_id@, name, false)
}

/// The entries of the listed Scribe models, in listing order.
pub open spec fn listed_scribes(entries: Seq<ElevenLabsModelsResponseEntry>) -> Seq<ModelInfoView>
    decreases entries.len(),
{
    if entries.len() == 0 {
        Seq::empty()
    } else {
        let rest = listed_scribes(entries.drop_last());
        if is_scribe(entries.last().model_id@) {
            rest.push(scribe_view(entries.last()))
        } else {
            rest
        }
    }
}

/// Whether the listing has model `id`.
pub open spec fn lists_model(entries: Seq<ElevenLabsModelsResponseEntry>, id: Seq<char>) -> bool {
    exists|k: int| 0 <= k < entries.len() && (#[trigger] entries[k]).model_id@ == id
}

/// The Scribe models the listing lacks, under their known names.
pub open spec fn missing_scribes(entries: Seq<ElevenLabsModelsResponseEntry>) -> Seq<ModelInfoView> {
    (if !lists_model(entries, "scribe_v2"@) {
        seq![info_view(Provider::ElevenLabs, "scribe_v2"@, "Scribe v2"@, false)]
    } else {
        Seq::empty()
    }) + (if !lists_model(entries, "scribe_v1"@) {
        seq![info_view(Provider::ElevenLabs, "scribe_v1"@, "Scribe v1"@, false)]
    } else {
        Seq::empty()
    })
}

/// Adds ElevenLabs' Scribe models: those listed, under the listed name, then
/// the ones the listing lacks, under their known names. Other ElevenLabs
/// models do not transcribe files and are left out.
pub fn append_elevenlabs_scribe_models(stt: &mut Vec<ModelInfo>, entries: Vec<ElevenLabsModelsResponseEntry>)
    ensures
        views(final(stt)@) == views(old(stt)@) + listed_scribes(entries@) + missing_scribes(entries@),
{
    let ghost stt0 = views(stt@);
    let mut saw_scribe_v2 = false;
    let mut saw_scribe_v1 = false;
    let mut i: usize = 0;
    while i < entries.len()
        invariant
            i <= entries@.len(),
            views(stt@) == stt0 + listed_scribes(entries@.take(i as int)),
            saw_scribe_v2 == lists_model(entries@.take(i as int), "scribe_v2"@),
            saw_scribe_v1 == lists_model(entries@.take(i as int), "scribe_v1"@),
        decreases entries@.len() - i,
    {
        let entry = &entries[i];
        let ghost e = entries@[i as int];
        proof {
            assert(entries@.take(i + 1).drop_last() =~= entries@.take(i as int));
            assert(entries@.take(i + 1).last() == e);
            assert forall|id: Seq<char>|
                lists_model(entries@.take(i + 1), id) == (lists_model(entries@.take(i as int), id) || e.model_id@
                    == id) by {
                if lists_model(entries@.take(i + 1), id) {
                    let k = choose|k: int|
                        0 <= k < entries@.take(i + 1).len() && (#[trigger] entries@.take(i + 1)[k]).model_id@ == id;
                    if k < i {
                        assert(entries@.take(i as int)[k] == entries@.take(i + 1)[k]);
                    }
                }
                if lists_model(entries@.take(i as int), id) {
                    let k = choose|k: int|
                        0 <= k < entries@.take(i as int).len() && (#[trigger] entries@.take(i as int)[k]).model_id@ == id;
                    assert(entries@.take(i + 1)[k] == entries@.take(i as int)[k]);
                }
                if e.model_id@ == id {
                    assert(entries@.take(i + 1)[i as int] == e);
                }
            }
        }
        let is_v2 = str_eq(entry.model_id.as_str(), "scribe_v2");
        let is_v1 = str_eq(entry.model_id.as_str(), "scribe_v1");
        if is_v2 || is_v1 {
            saw_scribe_v2 = saw_scribe_v2 || is_v2;
            saw_scribe_v1 = saw_scribe_v1 || is_v1;
            let display_name = match &entry.name {
                Some(n) => n.clone(),
                None => match elevenlabs_scribe_display_name(entry.model_id.as_str()) {
                    Some(d) => String::from_str(d),
                    None => String::from_str("ElevenLabs Scribe"),
                },
            };
            let ghost before = views(stt@);
            let info = crate::catalog::model_info_with_display(
                Provider::ElevenLabs,
                entry.model_id.as_str(),
                display_name.as_str(),
                false,
            );
            proof {
                assert(is_scribe(e.model_id@));
                assert(info@ == scribe_view(e));
            }
            stt.push(info);
            proof {
                assert(views(stt@) =~= before.push(scribe_view(e)));
                assert(views(stt@) =~= stt0 + listed_scribes(entries@.take(i + 1)));
            }
        } else {
            proof {
                assert(views(stt@) =~= stt0 + listed_scribes(entries@.take(i + 1)));
            }
        }
        i = i + 1;
    }
    proof {
        assert(entries@.take(entries@.len() as int) =~= entries@);
    }
    let ghost stt1 = views(stt@);
    if !saw_scribe_v2 {
        stt.push(crate::catalog::model_info_with_display(Provider::ElevenLabs, "scribe_v2", "Scribe v2", false));
    }
    if !saw_scribe_v1 {
        stt.push(crate::catalog::model_info_with_display(Provider::ElevenLabs, "scribe_v1", "Scribe v1", false));
    }
    proof {
        assert(views(stt@) =~= stt1 + missing_scribes(entries@));
    }
}

/// Number of `/` characters that end `s`.
pub open spec fn trailing_slashes(s: Seq<char>) -> nat
    decreases s.len(),
{
    if s.len() > 0 && s.last() == '/' {
        1 + trailing_slashes(s.drop_last())
    } else {
        0
    }
}

/// `s.trim_end_matches('/')`.
pub open spec fn trim_end_slashes(s: Seq<char>) -> Seq<char> {
    s.subrange(0, s.len() - trailing_slashes(s))
}

proof fn lemma_trailing_slashes(s: Seq<char>, n: int)
    requires
        0 <= n <= s.len(),
        forall|k: int| s.len() - n <= k < s.len() ==> #[trigger] s[k] == '/',
        n < s.len() ==> s[s.len() - n - 1] != '/',
    ensures
        trailing_slashes(s) == n,
    decreases s.len(),
{
    if n > 0 {
        let t = s.drop_last();
        assert(s[s.len() - 1] == '/');
        assert forall|k: int| t.len() - (n - 1) <= k < t.len() implies #[trigger] t[k] == '/' by {
            assert(t[k] == s[k]);
        }
        if n - 1 < t.len() {
            assert(t[t.len() - (n - 1) - 1] == s[s.len() - n - 1]);
        }
        lemma_trailing_slashes(t, n - 1);
    }
}

/// `base` without its trailing slashes, then `suffix`.
fn endpoint(base: &str, suffix: &str) -> (r: String)
    ensures
        r@ == trim_end_slashes(base@) + suffix@,
{
    let cs = chars_of(base);
    let mut e = cs.len();
    while e > 0 && cs[e - 1] == '/'
        invariant
            e <= cs@.len(),
            forall|k: int| e <= k < cs@.len() ==> #[trigger] cs@[k] == '/',
        decreases e,
    {
        e = e - 1;
    }
    proof {
        lemma_trailing_slashes(cs@, cs@.len() - e);
    }
    let mut out = String::new();
    push_chars(&mut out, &cs, 0, e);
    let sc = chars_of(suffix);
    push_chars(&mut out, &sc, 0, sc.len());
    proof {
        assert(sc@.subrange(0, sc@.len() as int) =~= sc@);
        assert(out@ =~= trim_end_slashes(base@) + suffix@);
    }
    out
}

/// The model listing endpoint under `base_url`.
pub fn models_url(base_url: &str) -> (r: String)
    ensures
        r@ == trim_end_slashes(base_url@) + "/models"@,
{
    endpoint(base_url, "/models")
}

/// The ElevenLabs account endpoint under `base_url`, asked when the model
/// listing fails, to tell a bad key from a listing the key may not read.
pub fn user_url(base_url: &str) -> (r: String)
    ensures
        r@ == trim_end_slashes(base_url@) + "/user"@,
{
    endpoint(base_url, "/user")
}

/// The account check to make after the ElevenLabs model listing under
/// `base_url` was asked for: none when the listing came, the account
/// endpoint when it failed.
pub fn elevenlabs_account_check(listing_failed: bool, base_url: &str) -> (r: Option<String>)
    ensures
        match r {
            Some(url) => listing_failed && url@ == trim_end_slashes(base_url@) + "/user"@,
            None => !listing_failed,
        },
{
    if listing_failed {
        Some(user_url(base_url))
    } else {
        None
    }
}

/// A model listing to ask a provider for.
#[derive(Debug, Clone)]
pub struct ModelListRequest {
    pub provider: Provider,
    pub url: String,
    pub api_key: String,
}

/// The listing request for remote provider `p` with `c`'s credentials:
/// ElevenLabs is sent the key without surrounding white space.
pub open spec fn request_view(p: Provider, base_url: Seq<char>, api_key: Seq<char>) -> (Provider, Seq<char>, Seq<char>) {
    (p, trim_end_slashes(base_url) + "/models"@, if p == Provider::ElevenLabs {
        trim_spec(api_key)
    } else {
        api_key
    })
}

/// The requests for the remote providers in slots `0..n` that have
/// credentials, in slot order.
pub open spec fn planned_requests(providers: ProvidersConfig, n: int) -> Seq<(Provider, Seq<char>, Seq<char>)>
    decreases n,
{
    if n <= 0 {
        Seq::empty()
    } else {
        let rest = planned_requests(providers, n - 1);
        let p = remote_at(n - 1);
        let c = providers.credentials_of(p).unwrap();
        if credentials_missing_spec(c) {
            rest
        } else {
            rest.push(request_view(p, c.base_url@, c.api_key@))
        }
    }
}

pub open spec fn request_views(s: Seq<ModelListRequest>) -> Seq<(Provider, Seq<char>, Seq<char>)> {
    s.map_values(|r: ModelListRequest| (r.provider, r.url@, r.api_key@))
}

/// Starts a round of model listings: providers without credentials are
/// recorded as unverified, and the others' listing requests are returned in
/// slot order (the OpenAI-compatible providers, then ElevenLabs).
pub fn plan_model_fetch(providers: &ProvidersConfig, catalog: &mut ModelCatalog) -> (r: Vec<ModelListRequest>)
    ensures
        request_views(r@) == planned_requests(*providers, REMOTE_PROVIDER_COUNT as int),
        forall|p: Provider|
            #![trigger flag_of(final(catalog).verified, p)]
            flag_of(final(catalog).verified, p) == if remote_index_of(p) is Some && credentials_missing_spec(
                providers.credentials_of(p).unwrap(),
            ) {
                false
            } else {
                flag_of(old(catalog).verified, p)
            },
        final(catalog).cached_stt == old(catalog).cached_stt,
        final(catalog).cached_llm == old(catalog).cached_llm,
{
    let credentials = providers.remote_credentials();
    let mut r: Vec<ModelListRequest> = Vec::new();
    let mut i: usize = 0;
    while i < credentials.len()
        invariant
            i <= credentials@.len(),
            credentials@.len() == REMOTE_PROVIDER_COUNT,
            forall|j: int|
                0 <= j < REMOTE_PROVIDER_COUNT ==> #[trigger] credentials@[j] == (
                    remote_at(j),
                    providers.credentials_of(remote_at(j)).unwrap(),
                ),
            request_views(r@) == planned_requests(*providers, i as int),
            forall|p: Provider|
                #![trigger flag_of(catalog.verified, p)]
                flag_of(catalog.verified, p) == if remote_index_of(p) matches Some(k) && k < i
                    && credentials_missing_spec(providers.credentials_of(p).unwrap()) {
                    false
                } else {
                    flag_of(old(catalog).verified, p)
                },
            catalog.cached_stt == old(catalog).cached_stt,
            catalog.cached_llm == old(catalog).cached_llm,
        decreases credentials@.len() - i,
    {
        let provider = credentials[i].0;
        let c = &credentials[i].1;
        proof {
            assert(credentials@[i as int] == (remote_at(i as int), providers.credentials_of(remote_at(i as int)).unwrap()));
        }
        if credentials_missing(c) {
            set_remote_provider_verified(catalog, provider, false);
            proof {
                assert(request_views(r@) =~= planned_requests(*providers, i + 1));
            }
        } else {
            let api_key = match provider {
                Provider::ElevenLabs => trim_string(c.api_key.as_str()),
                _ => c.api_key.clone(),
            };
            let request = ModelListRequest { provider, url: models_url(c.base_url.as_str()), api_key };
            let ghost before = request_views(r@);
            r.push(request);
            proof {
                assert(request_views(r@) =~= before.push((request.provider, request.url@, request.api_key@)));
                assert(request_views(r@) =~= planned_requests(*providers, i + 1));
            }
        }
        i = i + 1;
    }
    r
}

/// Records the answer to an OpenAI-compatible listing request: a listing
/// verifies the provider and its models are filed; a failed request leaves
/// the provider unverified.
pub fn record_provider_listing(
    catalog: &mut ModelCatalog,
    discovered: &mut DiscoveredModels,
    provider: Provider,
    listing: Option<Vec<ModelsResponseEntry>>,
)
    ensures
        forall|p: Provider|
            #![trigger flag_of(final(catalog).verified, p)]
            flag_of(final(catalog).verified, p) == if p == provider && remote_index_of(p) is Some {
                listing is Some
            } else {
                flag_of(old(catalog).verified, p)
            },
        final(catalog).cached_stt == old(catalog).cached_stt,
        final(catalog).cached_llm == old(catalog).cached_llm,
        match listing {
            Some(data) => {
                &&& views(final(discovered).stt@) == views(old(discovered).stt@) + routed(
                    provider,
                    data@,
                    ModelRoute::Transcription,
                ) + if provider == Provider::Fireworks {
                    fireworks_missing_stt(coverage_of(data@))
                } else {
                    Seq::empty()
                }
                &&& views(final(discovered).llm@) == views(old(discovered).llm@) + routed(
                    provider,
                    data@,
                    ModelRoute::Rewriting,
                ) + if provider == Provider::Fireworks {
                    fireworks_missing_llm(coverage_of(data@))
                } else {
                    Seq::empty()
                }
            },
            None => *final(discovered) == *old(discovered),
        },
{
    match listing {
        Some(data) => {
            set_remote_provider_verified(catalog, provider, true);
            append_provider_models(provider, data, discovered);
        },
        None => set_remote_provider_verified(catalog, provider, false),
    }
}

/// Records the answers about ElevenLabs: a model listing (`Some`, possibly
/// empty when it could not be read) verifies the key and its Scribe models
/// are filed; without one, the account answer decides, and a verified key
/// gets the known Scribe models.
pub fn record_elevenlabs_listing(
    catalog: &mut ModelCatalog,
    discovered: &mut DiscoveredModels,
    listing: Option<Vec<ElevenLabsModelsResponseEntry>>,
    user_verified: bool,
)
    ensures
        forall|p: Provider|
            #![trigger flag_of(final(catalog).verified, p)]
            flag_of(final(catalog).verified, p) == if p == Provider::ElevenLabs {
                listing is Some || user_verified
            } else {
                flag_of(old(catalog).verified, p)
            },
        final(catalog).cached_stt == old(catalog).cached_stt,
        final(catalog).cached_llm == old(catalog).cached_llm,
        final(discovered).llm == old(discovered).llm,
        match listing {
            Some(entries) => views(final(discovered).stt@) == views(old(discovered).stt@) + listed_scribes(entries@)
                + missing_scribes(entries@),
            None => if user_verified {
                views(final(discovered).stt@) == views(old(discovered).stt@) + missing_scribes(Seq::empty())
            } else {
                final(discovered).stt == old(discovered).stt
            },
        },
{
    match listing {
        Some(entries) => {
            set_remote_provider_verified(catalog, Provider::ElevenLabs, true);
            append_elevenlabs_scribe_models(&mut discovered.stt, entries);
        },
        None => {
            set_remote_provider_verified(catalog, Provider::ElevenLabs, user_verified);
            if user_verified {
                let ghost before = views(discovered.stt@);
                append_elevenlabs_scribe_models(&mut discovered.stt, Vec::new());
                proof {
                    assert(listed_scribes(Seq::<ElevenLabsModelsResponseEntry>::empty()) =~= Seq::empty());
                    assert(views(discovered.stt@) =~= before + missing_scribes(Seq::empty()));
                }
            }
        },
    }
}

impl DiscoveredModels {
    /// Makes this round's models the catalog's live listings.
    pub fn publish(self, catalog: &mut ModelCatalog)
        ensures
            final(catalog).cached_stt == self.stt,
            final(catalog).cached_llm == self.llm,
            final(catalog).verified == old(catalog).verified,
    {
        catalog.cached_stt = self.stt;
        catalog.cached_llm = self.llm;
    }
}

} // verus!
