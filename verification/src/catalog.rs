//! The model catalog: which providers are usable, which models the pickers
//! offer, and the live listings fetched from the providers.
use vstd::prelude::*;

use crate::local_models::{
    first_available_apple_foundation_model, first_available_foundation,
    first_installed_apple_speech_model, first_installed_speech, AppleFoundationModelStatus,
    AppleSpeechModelStatus,
};
use crate::parakeet::ParakeetModelStatus;
use crate::provider::{
    label_of, logo_of, provider_with_label, remote_index_of, Provider,
};
use crate::text::str_eq;

verus! {

broadcast use vstd::seq_lib::group_seq_properties;

/// A model as the pickers show it.
#[derive(Debug, Clone, PartialEq, Eq)]
pub struct ModelInfo {
    pub id: String,
    pub display_name: String,
    pub provider: String,
    pub logo: String,
    pub installed: bool,
}

/// The characters of a model entry.
pub struct ModelInfoView {
    pub id: Seq<char>,
    pub display_name: Seq<char>,
    pub provider: Seq<char>,
    pub logo: Seq<char>,
    pub installed: bool,
}

impl View for ModelInfo {
    type V = ModelInfoView;

    open spec fn view(&self) -> ModelInfoView {
        ModelInfoView {
            id: self.id@,
            display_name: self.display_name@,
            provider: self.provider@,
            logo: self.logo@,
            installed: self.installed,
        }
    }
}

impl ModelInfo {
    pub fn duplicate(&self) -> (r: ModelInfo)
        ensures
            r == *self,
    {
        ModelInfo {
            id: self.id.clone(),
            display_name: self.display_name.clone(),
            provider: self.provider.clone(),
            logo: self.logo.clone(),
            installed: self.installed,
        }
    }
}

/// The views of a list of model entries.
pub open spec fn views(s: Seq<ModelInfo>) -> Seq<ModelInfoView> {
    s.map_values(|m: ModelInfo| m@)
}

/// The entry for model `id` of `p`, shown as `display_name`.
pub open spec fn info_view(p: Provider, id: Seq<char>, display_name: Seq<char>, installed: bool) -> ModelInfoView {
    ModelInfoView { id, display_name, provider: label_of(p), logo: logo_of(p), installed }
}

pub fn model_info_with_display(provider: Provider, id: &str, display_name: &str, installed: bool) -> (r: ModelInfo)
    ensures
        r@ == info_view(provider, id@, display_name@, installed),
{
    ModelInfo {
        id: String::from_str(id),
        display_name: String::from_str(display_name),
        provider: String::from_str(provider.label()),
        logo: String::from_str(provider.logo()),
        installed,
    }
}

/// The entry for model `id` of `provider`, shown under its id.
pub fn model_info(provider: Provider, id: &str, installed: bool) -> (r: ModelInfo)
    ensures
        r@ == info_view(provider, id@, id@, installed),
{
    model_info_with_display(provider, id, id, installed)
}

/// Which remote providers answered with a valid key.
#[derive(Debug, Clone, Copy, PartialEq, Eq)]
pub struct RemoteVerification {
    pub openai: bool,
    pub groq: bool,
    pub cerebras: bool,
    pub fireworks: bool,
    pub elevenlabs: bool,
}

/// The recorded verification of remote provider `p` (false for local ones).
pub open spec fn flag_of(v: RemoteVerification, p: Provider) -> bool {
    match p {
        Provider::OpenAi => v.openai,
        Provider::Groq => v.groq,
        Provider::Cerebras => v.cerebras,
        Provider::Fireworks => v.fireworks,
        Provider::ElevenLabs => v.elevenlabs,
        _ => false,
    }
}

/// What the catalog knows from the providers: who is verified, and the
/// model lists last fetched from them.
#[derive(Debug, Clone)]
pub struct ModelCatalog {
    pub verified: RemoteVerification,
    pub cached_stt: Vec<ModelInfo>,
    pub cached_llm: Vec<ModelInfo>,
}

impl ModelCatalog {
    /// Nothing verified, nothing fetched.
    pub fn new() -> (r: ModelCatalog)
        ensures
            forall|p: Provider| !flag_of(r.verified, p),
            r.cached_stt@.len() == 0,
            r.cached_llm@.len() == 0,
    {
        ModelCatalog {
            verified: RemoteVerification {
                openai: false,
                groq: false,
                cerebras: false,
                fireworks: false,
                elevenlabs: false,
            },
            cached_stt: Vec::new(),
            cached_llm: Vec::new(),
        }
    }
}

/// The on-device models and their states, as the asset modules report them.
#[derive(Debug, Clone)]
pub struct LocalModels {
    pub apple_speech: Vec<AppleSpeechModelStatus>,
    pub apple_foundation: Vec<AppleFoundationModelStatus>,
    pub parakeet: Vec<ParakeetModelStatus>,
}

/// Records whether remote provider `provider` answered with a valid key;
/// local providers have no record.
pub fn set_remote_provider_verified(catalog: &mut ModelCatalog, provider: Provider, verified: bool)
    ensures
        forall|p: Provider|
            flag_of(final(catalog).verified, p) == if p == provider && remote_index_of(p) is Some {
                verified
            } else {
                flag_of(old(catalog).verified, p)
            },
        final(catalog).cached_stt == old(catalog).cached_stt,
        final(catalog).cached_llm == old(catalog).cached_llm,
{
    match provider {
        Provider::OpenAi => catalog.verified.openai = verified,
        Provider::Groq => catalog.verified.groq = verified,
        Provider::Cerebras => catalog.verified.cerebras = verified,
        Provider::Fireworks => catalog.verified.fireworks = verified,
        Provider::ElevenLabs => catalog.verified.elevenlabs = verified,
        _ => {},
    }
}

/// Whether a Parakeet model is installed.
pub open spec fn parakeet_installed(s: ParakeetModelStatus) -> bool {
    s.state is Installed
}

/// Whether a local provider has a usable model: an installed Apple Speech
/// locale or a usable foundation model; an installed Parakeet model.
pub open spec fn local_verified(local: LocalModels, p: Provider) -> bool {
    match p {
        Provider::AppleLocal => first_installed_speech(local.apple_speech@) is Some || first_available_foundation(
            local.apple_foundation@,
        ) is Some,
        Provider::Parakeet => exists|i: int|
            0 <= i < local.parakeet@.len() && parakeet_installed(#[trigger] local.parakeet@[i]),
        _ => false,
    }
}

/// Whether `p` can be used: a remote provider verified its key, a local
/// provider has a usable model.
pub open spec fn verified_spec(catalog: ModelCatalog, local: LocalModels, p: Provider) -> bool {
    if remote_index_of(p) is Some {
        flag_of(catalog.verified, p)
    } else {
        local_verified(local, p)
    }
}

pub fn apple_speech_available(local: &LocalModels) -> (r: bool)
    ensures
        r == first_installed_speech(local.apple_speech@) is Some,
{
    first_installed_apple_speech_model(local.apple_speech.as_slice()).is_some()
}

pub fn apple_foundation_available(local: &LocalModels) -> (r: bool)
    ensures
        r == first_available_foundation(local.apple_foundation@) is Some,
{
    first_available_apple_foundation_model(local.apple_foundation.as_slice()).is_some()
}

pub fn any_parakeet_installed(local: &LocalModels) -> (r: bool)
    ensures
        r == exists|i: int| 0 <= i < local.parakeet@.len() && parakeet_installed(#[trigger] local.parakeet@[i]),
{
    let mut i: usize = 0;
    while i < local.parakeet.len()
        invariant
            i <= local.parakeet@.len(),
            forall|k: int| 0 <= k < i ==> !parakeet_installed(#[trigger] local.parakeet@[k]),
        decreases local.parakeet@.len() - i,
    {
        if local.parakeet[i].state.is_installed() {
            return true;
        }
        i = i + 1;
    }
    false
}

pub fn local_provider_verified(local: &LocalModels, provider: Provider) -> (r: bool)
    ensures
        r == local_verified(*local, provider),
{
    match provider {
        Provider::AppleLocal => apple_speech_available(local) || apple_foundation_available(local),
        Provider::Parakeet => any_parakeet_installed(local),
        _ => false,
    }
}

pub fn remote_provider_state(catalog: &ModelCatalog, provider: Provider) -> (r: bool)
    ensures
        r == flag_of(catalog.verified, provider),
{
    match provider {
        Provider::OpenAi => catalog.verified.openai,
        Provider::Groq => catalog.verified.groq,
        Provider::Cerebras => catalog.verified.cerebras,
        Provider::Fireworks => catalog.verified.fireworks,
        Provider::ElevenLabs => catalog.verified.elevenlabs,
        _ => false,
    }
}

pub fn provider_verified(catalog: &ModelCatalog, local: &LocalModels, provider: Provider) -> (r: bool)
    ensures
        r == verified_spec(*catalog, *local, provider),
{
    if provider.remote_index().is_some() {
        remote_provider_state(catalog, provider)
    } else {
        local_provider_verified(local, provider)
    }
}

/// Whether some provider, remote or local, can be used.
pub open spec fn any_verified_spec(catalog: ModelCatalog, local: LocalModels) -> bool {
    exists|p: Provider| verified_spec(catalog, local, p)
}

pub fn any_provider_verified(catalog: &ModelCatalog, local: &LocalModels) -> (r: bool)
    ensures
        r == any_verified_spec(*catalog, *local),
{
    let r = provider_verified(catalog, local, Provider::OpenAi) || provider_verified(catalog, local, Provider::Groq)
        || provider_verified(catalog, local, Provider::Cerebras) || provider_verified(
        catalog,
        local,
        Provider::Fireworks,
    ) || provider_verified(catalog, local, Provider::ElevenLabs) || provider_verified(
        catalog,
        local,
        Provider::AppleLocal,
    ) || provider_verified(catalog, local, Provider::Parakeet);
    proof {
        if !r {
            assert forall|p: Provider| !verified_spec(*catalog, *local, p) by {
                match p {
                    Provider::OpenAi => {},
                    Provider::Groq => {},
                    Provider::Cerebras => {},
                    Provider::Fireworks => {},
                    Provider::ElevenLabs => {},
                    Provider::AppleLocal => {},
                    Provider::Parakeet => {},
                }
            }
        }
    }
    r
}

/// Whether some remote provider verified its key.
pub open spec fn any_remote_verified_spec(catalog: ModelCatalog) -> bool {
    exists|p: Provider| remote_index_of(p) is Some && flag_of(catalog.verified, p)
}

pub fn any_remote_provider_verified(catalog: &ModelCatalog) -> (r: bool)
    ensures
        r == any_remote_verified_spec(*catalog),
{
    let v = catalog.verified;
    let r = v.openai || v.groq || v.cerebras || v.fireworks || v.elevenlabs;
    proof {
        if r {
            if v.openai {
                assert(remote_index_of(Provider::OpenAi) is Some && flag_of(v, Provider::OpenAi));
            } else if v.groq {
                assert(remote_index_of(Provider::Groq) is Some && flag_of(v, Provider::Groq));
            } else if v.cerebras {
                assert(remote_index_of(Provider::Cerebras) is Some && flag_of(v, Provider::Cerebras));
            } else if v.fireworks {
                assert(remote_index_of(Provider::Fireworks) is Some && flag_of(v, Provider::Fireworks));
            } else {
                assert(remote_index_of(Provider::ElevenLabs) is Some && flag_of(v, Provider::ElevenLabs));
            }
        }
    }
    r
}

/// What a live listing says about `model` of `p`: listed, not listed while
/// the provider has entries, or nothing known when it has none.
pub open spec fn live_contains(cache: Seq<ModelInfo>, p: Provider, model: Seq<char>) -> Option<bool> {
    if exists|i: int| 0 <= i < cache.len() && (#[trigger] cache[i]).provider@ == label_of(p) && cache[i].id@ == model {
        Some(true)
    } else if exists|i: int| 0 <= i < cache.len() && (#[trigger] cache[i]).provider@ == label_of(p) {
        Some(false)
    } else {
        None
    }
}

pub fn live_catalog_contains(cache: &Vec<ModelInfo>, provider: Provider, model: &str) -> (r: Option<bool>)
    ensures
        r == live_contains(cache@, provider, model@),
{
    let label = provider.label();
    let mut saw_provider = false;
    let mut i: usize = 0;
    while i < cache.len()
        invariant
            i <= cache@.len(),
            label@ == label_of(provider),
            forall|k: int| 0 <= k < i && (#[trigger] cache@[k]).provider@ == label_of(provider) ==> cache@[k].id@ != model@,
            saw_provider == exists|k: int| 0 <= k < i && (#[trigger] cache@[k]).provider@ == label_of(provider),
        decreases cache@.len() - i,
    {
        if str_eq(cache[i].provider.as_str(), label) {
            if str_eq(cache[i].id.as_str(), model) {
                return Some(true);
            }
            saw_provider = true;
        }
        i = i + 1;
    }
    if saw_provider {
        Some(false)
    } else {
        None
    }
}

pub fn stt_model_in_live_catalog(catalog: &ModelCatalog, provider: Provider, model: &str) -> (r: Option<bool>)
    ensures
        r == live_contains(catalog.cached_stt@, provider, model@),
{
    live_catalog_contains(&catalog.cached_stt, provider, model)
}

pub fn llm_model_in_live_catalog(catalog: &ModelCatalog, provider: Provider, model: &str) -> (r: Option<bool>)
    ensures
        r == live_contains(catalog.cached_llm@, provider, model@),
{
    live_catalog_contains(&catalog.cached_llm, provider, model)
}

/// The transcription models Glide knows of before any listing is fetched.
pub open spec fn known_stt_views() -> Seq<ModelInfoView> {
    seq![
        info_view(Provider::OpenAi, "whisper-1"@, "whisper-1"@, false),
        info_view(Provider::Groq, "whisper-large-v3"@, "whisper-large-v3"@, false),
        info_view(Provider::Groq, "whisper-large-v3-turbo"@, "whisper-large-v3-turbo"@, false),
        info_view(Provider::Fireworks, "whisper-v3-turbo"@, "whisper-v3-turbo"@, false),
        info_view(Provider::Fireworks, "whisper-v3"@, "whisper-v3"@, false),
        info_view(Provider::ElevenLabs, "scribe_v2"@, "Scribe v2"@, false),
        info_view(Provider::ElevenLabs, "scribe_v1"@, "Scribe v1"@, false),
    ]
}

/// The clean-up models Glide knows of before any listing is fetched.
pub open spec fn known_llm_views() -> Seq<ModelInfoView> {
    seq![
        info_view(Provider::OpenAi, "gpt-5.4-nano"@, "gpt-5.4-nano"@, false),
        info_view(Provider::OpenAi, "gpt-4o-mini"@, "gpt-4o-mini"@, false),
        info_view(Provider::OpenAi, "gpt-4o"@, "gpt-4o"@, false),
        info_view(Provider::OpenAi, "gpt-4-turbo"@, "gpt-4-turbo"@, false),
        info_view(Provider::Groq, "openai/gpt-oss-20b"@, "openai/gpt-oss-20b"@, false),
        info_view(Provider::Groq, "llama-3.3-70b-versatile"@, "llama-3.3-70b-versatile"@, false),
        info_view(Provider::Groq, "llama-3.1-8b-instant"@, "llama-3.1-8b-instant"@, false),
        info_view(
            Provider::Fireworks,
            "accounts/fireworks/models/gpt-oss-20b"@,
            "accounts/fireworks/models/gpt-oss-20b"@,
            false,
        ),
        info_view(
            Provider::Fireworks,
            "accounts/fireworks/models/gpt-oss-120b"@,
            "accounts/fireworks/models/gpt-oss-120b"@,
            false,
        ),
        info_view(Provider::Cerebras, "gpt-oss-120b"@, "gpt-oss-120b"@, false),
        info_view(
            Provider::Cerebras,
            "llama-4-scout-17b-16e-instruct"@,
            "llama-4-scout-17b-16e-instruct"@,
            false,
        ),
    ]
}

pub fn known_remote_stt_models() -> (r: Vec<ModelInfo>)
    ensures
        views(r@) == known_stt_views(),
{
    let mut r = Vec::new();
    r.push(model_info(Provider::OpenAi, "whisper-1", false));
    r.push(model_info(Provider::Groq, "whisper-large-v3", false));
    r.push(model_info(Provider::Groq, "whisper-large-v3-turbo", false));
    r.push(model_info(Provider::Fireworks, "whisper-v3-turbo", false));
    r.push(model_info(Provider::Fireworks, "whisper-v3", false));
    r.push(model_info_with_display(Provider::ElevenLabs, "scribe_v2", "Scribe v2", false));
    r.push(model_info_with_display(Provider::ElevenLabs, "scribe_v1", "Scribe v1", false));
    proof {
        assert(views(r@) =~= known_stt_views());
    }
    r
}

pub fn known_remote_llm_models() -> (r: Vec<ModelInfo>)
    ensures
        views(r@) == known_llm_views(),
{
    let mut r = Vec::new();
    r.push(model_info(Provider::OpenAi, "gpt-5.4-nano", false));
    r.push(model_info(Provider::OpenAi, "gpt-4o-mini", false));
    r.push(model_info(Provider::OpenAi, "gpt-4o", false));
    r.push(model_info(Provider::OpenAi, "gpt-4-turbo", false));
    r.push(model_info(Provider::Groq, "openai/gpt-oss-20b", false));
    r.push(model_info(Provider::Groq, "llama-3.3-70b-versatile", false));
    r.push(model_info(Provider::Groq, "llama-3.1-8b-instant", false));
    r.push(model_info(Provider::Fireworks, "accounts/fireworks/models/gpt-oss-20b", false));
    r.push(model_info(Provider::Fireworks, "accounts/fireworks/models/gpt-oss-120b", false));
    r.push(model_info(Provider::Cerebras, "gpt-oss-120b", false));
    r.push(model_info(Provider::Cerebras, "llama-4-scout-17b-16e-instruct", false));
    proof {
        assert(views(r@) =~= known_llm_views());
    }
    r
}

/// Entries for the installed Apple Speech locale models, in order.
pub open spec fn speech_infos(s: Seq<AppleSpeechModelStatus>) -> Seq<ModelInfoView>
    decreases s.len(),
{
    if s.len() == 0 {
        Seq::empty()
    } else {
        let rest = speech_infos(s.drop_last());
        if s.last().state is Installed {
            rest.push(info_view(Provider::AppleLocal, s.last().definition.id@, s.last().definition.display_name@, true))
        } else {
            rest
        }
    }
}

/// Entries for the installed Parakeet models, in order.
pub open spec fn parakeet_infos(s: Seq<ParakeetModelStatus>) -> Seq<ModelInfoView>
    decreases s.len(),
{
    if s.len() == 0 {
        Seq::empty()
    } else {
        let rest = parakeet_infos(s.drop_last());
        if s.last().state is Installed {
            rest.push(info_view(Provider::Parakeet, s.last().definition.id@, s.last().definition.id@, true))
        } else {
            rest
        }
    }
}

/// Entries for the usable Apple Foundation models, in order.
pub open spec fn foundation_infos(s: Seq<AppleFoundationModelStatus>) -> Seq<ModelInfoView>
    decreases s.len(),
{
    if s.len() == 0 {
        Seq::empty()
    } else {
        let rest = foundation_infos(s.drop_last());
        if s.last().available {
            rest.push(info_view(Provider::AppleLocal, s.last().id@, s.last().display_name@, true))
        } else {
            rest
        }
    }
}

pub fn apple_speech_model_infos(local: &LocalModels) -> (r: Vec<ModelInfo>)
    ensures
        views(r@) == speech_infos(local.apple_speech@),
{
    let s = &local.apple_speech;
    let mut r: Vec<ModelInfo> = Vec::new();
    let mut i: usize = 0;
    proof {
        assert(s@.take(0) =~= Seq::<AppleSpeechModelStatus>::empty());
        assert(views(r@) =~= Seq::<ModelInfoView>::empty());
    }
    while i < s.len()
        invariant
            i <= s@.len(),
            views(r@) == speech_infos(s@.take(i as int)),
        decreases s@.len() - i,
    {
        proof {
            assert(s@.take(i + 1).drop_last() =~= s@.take(i as int));
        }
        if s[i].state.is_installed() {
            let m = model_info_with_display(
                Provider::AppleLocal,
                s[i].definition.id.as_str(),
                s[i].definition.display_name.as_str(),
                true,
            );
            r.push(m);
            proof {
                assert(views(r@) =~= speech_infos(s@.take(i + 1)));
            }
        }
        i = i + 1;
    }
    proof {
        assert(s@.take(s@.len() as int) =~= s@);
    }
    r
}

pub fn installed_parakeet_model_infos(local: &LocalModels) -> (r: Vec<ModelInfo>)
    ensures
        views(r@) == parakeet_infos(local.parakeet@),
{
    let s = &local.parakeet;
    let mut r: Vec<ModelInfo> = Vec::new();
    let mut i: usize = 0;
    proof {
        assert(s@.take(0) =~= Seq::<ParakeetModelStatus>::empty());
        assert(views(r@) =~= Seq::<ModelInfoView>::empty());
    }
    while i < s.len()
        invariant
            i <= s@.len(),
            views(r@) == parakeet_infos(s@.take(i as int)),
        decreases s@.len() - i,
    {
        proof {
            assert(s@.take(i + 1).drop_last() =~= s@.take(i as int));
        }
        if s[i].state.is_installed() {
            let m = model_info(Provider::Parakeet, s[i].definition.id, true);
            r.push(m);
            proof {
                assert(views(r@) =~= parakeet_infos(s@.take(i + 1)));
            }
        }
        i = i + 1;
    }
    proof {
        assert(s@.take(s@.len() as int) =~= s@);
    }
    r
}

pub fn apple_foundation_model_infos(local: &LocalModels) -> (r: Vec<ModelInfo>)
    ensures
        views(r@) == foundation_infos(local.apple_foundation@),
{
    let s = &local.apple_foundation;
    let mut r: Vec<ModelInfo> = Vec::new();
    let mut i: usize = 0;
    proof {
        assert(s@.take(0) =~= Seq::<AppleFoundationModelStatus>::empty());
        assert(views(r@) =~= Seq::<ModelInfoView>::empty());
    }
    while i < s.len()
        invariant
            i <= s@.len(),
            views(r@) == foundation_infos(s@.take(i as int)),
        decreases s@.len() - i,
    {
        proof {
            assert(s@.take(i + 1).drop_last() =~= s@.take(i as int));
        }
        if s[i].available {
            let m = model_info_with_display(
                Provider::AppleLocal,
                s[i].id.as_str(),
                s[i].display_name.as_str(),
                true,
            );
            r.push(m);
            proof {
                assert(views(r@) =~= foundation_infos(s@.take(i + 1)));
            }
        }
        i = i + 1;
    }
    proof {
        assert(s@.take(s@.len() as int) =~= s@);
    }
    r
}

/// Entries for the local transcription models: installed Apple Speech
/// locales, then installed Parakeet models.
pub open spec fn local_stt_views(local: LocalModels) -> Seq<ModelInfoView> {
    speech_infos(local.apple_speech@) + parakeet_infos(local.parakeet@)
}

pub fn local_stt_models(local: &LocalModels) -> (r: Vec<ModelInfo>)
    ensures
        views(r@) == local_stt_views(*local),
{
    let mut r = apple_speech_model_infos(local);
    let mut p = installed_parakeet_model_infos(local);
    let ghost a = r@;
    let ghost b = p@;
    r.append(&mut p);
    proof {
        assert(views(r@) =~= views(a) + views(b));
    }
    r
}

pub fn local_llm_models(local: &LocalModels) -> (r: Vec<ModelInfo>)
    ensures
        views(r@) == foundation_infos(local.apple_foundation@),
{
    apple_foundation_model_infos(local)
}

/// Whether an entry is offered: its provider is usable, and a local model
/// must also be installed.
pub open spec fn visible(v: ModelInfoView, catalog: ModelCatalog, local: LocalModels) -> bool {
    match provider_with_label(v.provider) {
        Some(p) => if remote_index_of(p) is None {
            v.installed && verified_spec(catalog, local, p)
        } else {
            verified_spec(catalog, local, p)
        },
        None => false,
    }
}

pub fn model_provider_is_visible(model: &ModelInfo, catalog: &ModelCatalog, local: &LocalModels) -> (r: bool)
    ensures
        r == visible(model@, *catalog, *local),
{
    match Provider::from_model_info_provider(model.provider.as_str()) {
        Some(provider) => {
            if provider.is_local() {
                model.installed && provider_verified(catalog, local, provider)
            } else {
                provider_verified(catalog, local, provider)
            }
        },
        None => false,
    }
}

/// The offered entries of `s`, in order.
pub open spec fn filter_visible(s: Seq<ModelInfoView>, catalog: ModelCatalog, local: LocalModels) -> Seq<ModelInfoView> {
    s.filter(|v: ModelInfoView| visible(v, catalog, local))
}

pub fn filter_models_by_verified_providers(models: Vec<ModelInfo>, catalog: &ModelCatalog, local: &LocalModels) -> (r:
    Vec<ModelInfo>)
    ensures
        views(r@) == filter_visible(views(models@), *catalog, *local),
{
    let ghost pred = |v: ModelInfoView| visible(v, *catalog, *local);
    let mut r: Vec<ModelInfo> = Vec::new();
    let mut i: usize = 0;
    proof {
        assert(views(models@).take(0) =~= Seq::<ModelInfoView>::empty());
        assert(views(r@) =~= Seq::<ModelInfoView>::empty());
        assert(Seq::<ModelInfoView>::empty().filter(pred) =~= Seq::<ModelInfoView>::empty()) by {
            reveal_with_fuel(Seq::<ModelInfoView>::filter, 1);
        }
    }
    while i < models.len()
        invariant
            i <= models@.len(),
            pred == (|v: ModelInfoView| visible(v, *catalog, *local)),
            views(r@) == views(models@).take(i as int).filter(pred),
        decreases models@.len() - i,
    {
        proof {
            assert(views(models@).take(i + 1) =~= views(models@).take(i as int).push(models@[i as int]@));
            views(models@).take(i as int).lemma_filter_push(models@[i as int]@, pred);
        }
        if model_provider_is_visible(&models[i], catalog, local) {
            r.push(models[i].duplicate());
            proof {
                assert(views(r@) =~= views(models@).take(i + 1).filter(pred));
            }
        } else {
            proof {
                assert(views(r@) =~= views(models@).take(i + 1).filter(pred));
            }
        }
        i = i + 1;
    }
    proof {
        assert(views(models@).take(models@.len() as int) =~= views(models@));
    }
    r
}

/// The transcription picker before any listing is fetched.
pub open spec fn fallback_stt_views(catalog: ModelCatalog, local: LocalModels) -> Seq<ModelInfoView> {
    filter_visible(known_stt_views() + local_stt_views(local), catalog, local)
}

/// The clean-up picker before any listing is fetched.
pub open spec fn fallback_llm_views(catalog: ModelCatalog, local: LocalModels) -> Seq<ModelInfoView> {
    filter_visible(known_llm_views() + foundation_infos(local.apple_foundation@), catalog, local)
}

pub fn fallback_stt_models(catalog: &ModelCatalog, local: &LocalModels) -> (r: Vec<ModelInfo>)
    ensures
        views(r@) == fallback_stt_views(*catalog, *local),
{
    let mut all = known_remote_stt_models();
    let mut l = local_stt_models(local);
    let ghost a = all@;
    let ghost b = l@;
    all.append(&mut l);
    proof {
        assert(views(all@) =~= views(a) + views(b));
    }
    filter_models_by_verified_providers(all, catalog, local)
}

pub fn fallback_llm_models(catalog: &ModelCatalog, local: &LocalModels) -> (r: Vec<ModelInfo>)
    ensures
        views(r@) == fallback_llm_views(*catalog, *local),
{
    let mut all = known_remote_llm_models();
    let mut l = local_llm_models(local);
    let ghost a = all@;
    let ghost b = l@;
    all.append(&mut l);
    proof {
        assert(views(all@) =~= views(a) + views(b));
    }
    filter_models_by_verified_providers(all, catalog, local)
}

/// The transcription picker: the fallback until a listing was fetched,
/// then the listing plus local models; offered entries only.
pub open spec fn cached_stt_views(catalog: ModelCatalog, local: LocalModels) -> Seq<ModelInfoView> {
    if catalog.cached_stt@.len() == 0 {
        fallback_stt_views(catalog, local)
    } else {
        filter_visible(views(catalog.cached_stt@) + local_stt_views(local), catalog, local)
    }
}

/// The clean-up picker: the fallback until a listing was fetched, then the
/// listing plus local models; offered entries only.
pub open spec fn cached_llm_views(catalog: ModelCatalog, local: LocalModels) -> Seq<ModelInfoView> {
    if catalog.cached_llm@.len() == 0 {
        fallback_llm_views(catalog, local)
    } else {
        filter_visible(views(catalog.cached_llm@) + foundation_infos(local.apple_foundation@), catalog, local)
    }
}

fn copy_models(s: &Vec<ModelInfo>) -> (r: Vec<ModelInfo>)
    ensures
        r@ == s@,
{
    let mut r: Vec<ModelInfo> = Vec::new();
    let mut i: usize = 0;
    while i < s.len()
        invariant
            i <= s@.len(),
            r@ == s@.take(i as int),
        decreases s@.len() - i,
    {
        r.push(s[i].duplicate());
        i = i + 1;
        proof {
            assert(r@ =~= s@.take(i as int));
        }
    }
    proof {
        assert(s@.take(s@.len() as int) =~= s@);
    }
    r
}

pub fn cached_stt_models(catalog: &ModelCatalog, local: &LocalModels) -> (r: Vec<ModelInfo>)
    ensures
        views(r@) == cached_stt_views(*catalog, *local),
{
    if catalog.cached_stt.len() == 0 {
        fallback_stt_models(catalog, local)
    } else {
        let mut models = copy_models(&catalog.cached_stt);
        let mut l = local_stt_models(local);
        let ghost a = models@;
        let ghost b = l@;
        models.append(&mut l);
        proof {
            assert(views(models@) =~= views(a) + views(b));
        }
        filter_models_by_verified_providers(models, catalog, local)
    }
}

pub fn cached_llm_models(catalog: &ModelCatalog, local: &LocalModels) -> (r: Vec<ModelInfo>)
    ensures
        views(r@) == cached_llm_views(*catalog, *local),
{
    if catalog.cached_llm.len() == 0 {
        fallback_llm_models(catalog, local)
    } else {
        let mut models = copy_models(&catalog.cached_llm);
        let mut l = local_llm_models(local);
        let ghost a = models@;
        let ghost b = l@;
        models.append(&mut l);
        proof {
            assert(views(models@) =~= views(a) + views(b));
        }
        filter_models_by_verified_providers(models, catalog, local)
    }
}

} // verus!
