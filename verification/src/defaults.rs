//! Smart defaults: the models a configuration falls back to when a choice is
//! missing or no longer usable.
use vstd::prelude::*;

use crate::catalog::{
    live_catalog_contains, live_contains, provider_verified, verified_spec, any_provider_verified,
    any_verified_spec, LocalModels, ModelCatalog, ModelInfo,
};
use crate::config::GlideConfig;
use crate::config::models::{ModelSelection, Style};
use crate::local_models::{
    first_available_apple_foundation_model, first_available_foundation,
    first_installed_apple_speech_model, first_installed_speech, first_index, foundation_id_available,
    lemma_first_index, lemma_first_index_full, locale_of, resolve_apple_foundation_model_id,
    apple_speech_install_state, apple_speech_locale_id, speech_state_of, AppleSpeechInstallState,
    is_legacy_apple_speech_model, APPLE_SPEECH_MODEL_ID,
};
use crate::parakeet::{ParakeetInstallState, ParakeetModelStatus};
use crate::provider::Provider;
use crate::text::str_eq;

verus! {

/// A selection by its provider and the characters of its model id.
pub open spec fn sel_view(s: ModelSelection) -> (Provider, Seq<char>) {
    (s.provider, s.model@)
}

/// An optional selection by its provider and model id.
pub open spec fn opt_sel_view(s: Option<ModelSelection>) -> Option<(Provider, Seq<char>)> {
    match s {
        Some(m) => Some(sel_view(m)),
        None => None,
    }
}

/// Candidates by provider and model id.
pub open spec fn cand_views(s: Seq<(Provider, &'static str)>) -> Seq<(Provider, Seq<char>)> {
    s.map_values(|c: (Provider, &'static str)| (c.0, c.1@))
}

/// The remote transcription defaults, most preferred first.
pub open spec fn stt_remote_defaults_spec() -> Seq<(Provider, Seq<char>)> {
    seq![
        (Provider::Groq, "whisper-large-v3-turbo"@),
        (Provider::OpenAi, "whisper-1"@),
        (Provider::Fireworks, "whisper-v3-turbo"@),
        (Provider::ElevenLabs, "scribe_v2"@),
    ]
}

/// The remote rewriting defaults, most preferred first.
pub open spec fn llm_remote_defaults_spec() -> Seq<(Provider, Seq<char>)> {
    seq![
        (Provider::Groq, "llama-3.3-70b-versatile"@),
        (Provider::OpenAi, "gpt-5.4-nano"@),
        (Provider::Fireworks, "accounts/fireworks/models/gpt-oss-20b"@),
        (Provider::Cerebras, "gpt-oss-120b"@),
    ]
}

pub fn stt_remote_defaults() -> (r: Vec<(Provider, &'static str)>)
    ensures
        cand_views(r@) == stt_remote_defaults_spec(),
{
    let r = vec![
        (Provider::Groq, "whisper-large-v3-turbo"),
        (Provider::OpenAi, "whisper-1"),
        (Provider::Fireworks, "whisper-v3-turbo"),
        (Provider::ElevenLabs, "scribe_v2"),
    ];
    proof {
        assert(cand_views(r@) =~= stt_remote_defaults_spec());
    }
    r
}

pub fn llm_remote_defaults() -> (r: Vec<(Provider, &'static str)>)
    ensures
        cand_views(r@) == llm_remote_defaults_spec(),
{
    let r = vec![
        (Provider::Groq, "llama-3.3-70b-versatile"),
        (Provider::OpenAi, "gpt-5.4-nano"),
        (Provider::Fireworks, "accounts/fireworks/models/gpt-oss-20b"),
        (Provider::Cerebras, "gpt-oss-120b"),
    ];
    proof {
        assert(cand_views(r@) =~= llm_remote_defaults_spec());
    }
    r
}

/// The selection of `model` of `provider`.
pub fn model_selection(provider: Provider, model: &str) -> (r: ModelSelection)
    ensures
        sel_view(r) == (provider, model@),
{
    ModelSelection { provider, model: String::from_str(model) }
}

/// Whether a remote candidate can be used: its provider is verified and the
/// provider's live listing, if one was fetched, has the model.
pub open spec fn candidate_usable(
    c: (Provider, Seq<char>),
    catalog: ModelCatalog,
    local: LocalModels,
    live: Seq<ModelInfo>,
) -> bool {
    verified_spec(catalog, local, c.0) && live_contains(live, c.0, c.1) != Some(false)
}

/// The first usable candidate.
pub open spec fn first_usable(
    cands: Seq<(Provider, Seq<char>)>,
    catalog: ModelCatalog,
    local: LocalModels,
    live: Seq<ModelInfo>,
) -> Option<(Provider, Seq<char>)> {
    match first_index(cands, |c: (Provider, Seq<char>)| candidate_usable(c, catalog, local, live)) {
        Some(i) => Some(cands[i]),
        None => None,
    }
}

pub fn first_verified_remote_default(
    candidates: &Vec<(Provider, &'static str)>,
    live: &Vec<ModelInfo>,
    catalog: &ModelCatalog,
    local: &LocalModels,
) -> (r: Option<ModelSelection>)
    ensures
        opt_sel_view(r) == first_usable(cand_views(candidates@), *catalog, *local, live@),
{
    let ghost cs = cand_views(candidates@);
    let ghost pred = |c: (Provider, Seq<char>)| candidate_usable(c, *catalog, *local, live@);
    let mut i: usize = 0;
    while i < candidates.len()
        invariant
            i <= candidates@.len(),
            cs == cand_views(candidates@),
            cs.len() == candidates@.len(),
            pred == (|c: (Provider, Seq<char>)| candidate_usable(c, *catalog, *local, live@)),
            forall|k: int| 0 <= k < i ==> !pred(#[trigger] cs[k]),
        decreases candidates@.len() - i,
    {
        let (provider, model) = candidates[i];
        let usable = provider_verified(catalog, local, provider) && match live_catalog_contains(
            live,
            provider,
            model,
        ) {
            Some(false) => false,
            _ => true,
        };
        proof {
            assert(cs[i as int] == (provider, model@));
        }
        if usable {
            proof {
                lemma_first_index(cs, pred, i as int);
                lemma_first_index_full(cs, pred);
                let j = first_index(cs, pred);
                if j is Some {
                    let jj = j.unwrap();
                    if jj < i {
                        assert(!pred(cs[jj]));
                    } else if jj > i {
                        assert(pred(cs[i as int]));
                    }
                } else {
                    assert(pred(cs[i as int]));
                }
            }
            return Some(model_selection(provider, model));
        }
        i = i + 1;
    }
    proof {
        lemma_first_index_full(cs, pred);
        if first_index(cs, pred) is Some {
            let j = first_index(cs, pred).unwrap();
            assert(pred(cs[j]));
        }
    }
    None
}

/// The first installed Parakeet model.
pub open spec fn first_installed_parakeet(statuses: Seq<ParakeetModelStatus>) -> Option<ParakeetModelStatus> {
    match first_index(statuses, |s: ParakeetModelStatus| s.state is Installed) {
        Some(i) => Some(statuses[i]),
        None => None,
    }
}

/// The install state of Parakeet model `id` among `statuses`; unknown ids
/// are not installed.
pub open spec fn parakeet_state_of(statuses: Seq<ParakeetModelStatus>, id: Seq<char>) -> ParakeetInstallState {
    match first_index(statuses, |s: ParakeetModelStatus| s.definition.id@ == id) {
        Some(i) => statuses[i].state,
        None => ParakeetInstallState::NotInstalled,
    }
}

pub fn installed_parakeet_stt_default(local: &LocalModels) -> (r: Option<ModelSelection>)
    ensures
        opt_sel_view(r) == match first_installed_parakeet(local.parakeet@) {
            Some(s) => Some((Provider::Parakeet, s.definition.id@)),
            None => None,
        },
{
    let ghost pred = |s: ParakeetModelStatus| s.state is Installed;
    let mut i: usize = 0;
    while i < local.parakeet.len()
        invariant
            i <= local.parakeet@.len(),
            pred == (|s: ParakeetModelStatus| s.state is Installed),
            forall|k: int| 0 <= k < i ==> !pred(#[trigger] local.parakeet@[k]),
        decreases local.parakeet@.len() - i,
    {
        if local.parakeet[i].state.is_installed() {
            proof {
                lemma_first_index(local.parakeet@, pred, i as int);
                lemma_first_index_full(local.parakeet@, pred);
                let j = first_index(local.parakeet@, pred);
                if j is Some {
                    let jj = j.unwrap();
                    if jj < i {
                        assert(!pred(local.parakeet@[jj]));
                    } else if jj > i {
                        assert(pred(local.parakeet@[i as int]));
                    }
                } else {
                    assert(pred(local.parakeet@[i as int]));
                }
            }
            return Some(model_selection(Provider::Parakeet, local.parakeet[i].definition.id));
        }
        i = i + 1;
    }
    proof {
        lemma_first_index_full(local.parakeet@, pred);
        if first_index(local.parakeet@, pred) is Some {
            let j = first_index(local.parakeet@, pred).unwrap();
            assert(pred(local.parakeet@[j]));
        }
    }
    None
}

pub fn installed_apple_speech_default(local: &LocalModels) -> (r: Option<ModelSelection>)
    ensures
        opt_sel_view(r) == match first_installed_speech(local.apple_speech@) {
            Some(s) => Some((Provider::AppleLocal, s.definition.id@)),
            None => None,
        },
{
    match first_installed_apple_speech_model(local.apple_speech.as_slice()) {
        Some(model) => Some(model_selection(Provider::AppleLocal, model.definition.id.as_str())),
        None => None,
    }
}

pub fn apple_foundation_llm_default(local: &LocalModels) -> (r: Option<ModelSelection>)
    ensures
        opt_sel_view(r) == match first_available_foundation(local.apple_foundation@) {
            Some(m) => Some((Provider::AppleLocal, m.id@)),
            None => None,
        },
{
    match first_available_apple_foundation_model(local.apple_foundation.as_slice()) {
        Some(model) => Some(model_selection(Provider::AppleLocal, model.id.as_str())),
        None => None,
    }
}

/// The transcription default: the first usable remote default, else the
/// first installed Parakeet model, else the first installed Apple Speech
/// locale model.
pub open spec fn smart_stt_spec(catalog: ModelCatalog, local: LocalModels) -> Option<(Provider, Seq<char>)> {
    match first_usable(stt_remote_defaults_spec(), catalog, local, catalog.cached_stt@) {
        Some(c) => Some(c),
        None => match first_installed_parakeet(local.parakeet@) {
            Some(s) => Some((Provider::Parakeet, s.definition.id@)),
            None => match first_installed_speech(local.apple_speech@) {
                Some(s) => Some((Provider::AppleLocal, s.definition.id@)),
                None => None,
            },
        },
    }
}

/// The rewriting default: the first usable remote default, else the first
/// usable Apple Foundation model.
pub open spec fn smart_llm_spec(catalog: ModelCatalog, local: LocalModels) -> Option<(Provider, Seq<char>)> {
    match first_usable(llm_remote_defaults_spec(), catalog, local, catalog.cached_llm@) {
        Some(c) => Some(c),
        None => match first_available_foundation(local.apple_foundation@) {
            Some(m) => Some((Provider::AppleLocal, m.id@)),
            None => None,
        },
    }
}

/// The transcription default prefers, among the remote models that can be
/// used, Groq's whisper-large-v3-turbo, then OpenAI's whisper-1, then
/// Fireworks' whisper-v3-turbo, then ElevenLabs' scribe_v2; only when none
/// can be used does it fall back to an on-device model.
pub proof fn law_stt_default_preference(catalog: ModelCatalog, local: LocalModels)
    ensures
        ({
            let live = catalog.cached_stt@;
            let groq = candidate_usable((Provider::Groq, "whisper-large-v3-turbo"@), catalog, local, live);
            let openai = candidate_usable((Provider::OpenAi, "whisper-1"@), catalog, local, live);
            let fireworks = candidate_usable((Provider::Fireworks, "whisper-v3-turbo"@), catalog, local, live);
            let elevenlabs = candidate_usable((Provider::ElevenLabs, "scribe_v2"@), catalog, local, live);
            &&& groq ==> smart_stt_spec(catalog, local) == Some((Provider::Groq, "whisper-large-v3-turbo"@))
            &&& !groq && openai ==> smart_stt_spec(catalog, local) == Some((Provider::OpenAi, "whisper-1"@))
            &&& !groq && !openai && fireworks ==> smart_stt_spec(catalog, local) == Some(
                (Provider::Fireworks, "whisper-v3-turbo"@),
            )
            &&& !groq && !openai && !fireworks && elevenlabs ==> smart_stt_spec(catalog, local) == Some(
                (Provider::ElevenLabs, "scribe_v2"@),
            )
            &&& !groq && !openai && !fireworks && !elevenlabs ==> match smart_stt_spec(catalog, local) {
                Some(sel) => sel.0 == Provider::Parakeet || sel.0 == Provider::AppleLocal,
                None => true,
            }
        }),
{
    let cs = stt_remote_defaults_spec();
    let pred = |c: (Provider, Seq<char>)| candidate_usable(c, catalog, local, catalog.cached_stt@);
    lemma_first_index_full(cs, pred);
    assert(cs[0] == (Provider::Groq, "whisper-large-v3-turbo"@));
    assert(cs[1] == (Provider::OpenAi, "whisper-1"@));
    assert(cs[2] == (Provider::Fireworks, "whisper-v3-turbo"@));
    assert(cs[3] == (Provider::ElevenLabs, "scribe_v2"@));
}

/// The rewriting default prefers, among the remote models that can be used,
/// Groq's llama-3.3-70b-versatile, then OpenAI's gpt-5.4-nano, then
/// Fireworks' gpt-oss-20b, then Cerebras' gpt-oss-120b; only when none can be
/// used does it fall back to an Apple Foundation model.
pub proof fn law_llm_default_preference(catalog: ModelCatalog, local: LocalModels)
    ensures
        ({
            let live = catalog.cached_llm@;
            let groq = candidate_usable((Provider::Groq, "llama-3.3-70b-versatile"@), catalog, local, live);
            let openai = candidate_usable((Provider::OpenAi, "gpt-5.4-nano"@), catalog, local, live);
            let fireworks = candidate_usable(
                (Provider::Fireworks, "accounts/fireworks/models/gpt-oss-20b"@),
                catalog,
                local,
                live,
            );
            let cerebras = candidate_usable((Provider::Cerebras, "gpt-oss-120b"@), catalog, local, live);
            &&& groq ==> smart_llm_spec(catalog, local) == Some((Provider::Groq, "llama-3.3-70b-versatile"@))
            &&& !groq && openai ==> smart_llm_spec(catalog, local) == Some((Provider::OpenAi, "gpt-5.4-nano"@))
            &&& !groq && !openai && fireworks ==> smart_llm_spec(catalog, local) == Some(
                (Provider::Fireworks, "accounts/fireworks/models/gpt-oss-20b"@),
            )
            &&& !groq && !openai && !fireworks && cerebras ==> smart_llm_spec(catalog, local) == Some(
                (Provider::Cerebras, "gpt-oss-120b"@),
            )
            &&& !groq && !openai && !fireworks && !cerebras ==> match smart_llm_spec(catalog, local) {
                Some(sel) => sel.0 == Provider::AppleLocal,
                None => true,
            }
        }),
{
    let cs = llm_remote_defaults_spec();
    let pred = |c: (Provider, Seq<char>)| candidate_usable(c, catalog, local, catalog.cached_llm@);
    lemma_first_index_full(cs, pred);
    assert(cs[0] == (Provider::Groq, "llama-3.3-70b-versatile"@));
    assert(cs[1] == (Provider::OpenAi, "gpt-5.4-nano"@));
    assert(cs[2] == (Provider::Fireworks, "accounts/fireworks/models/gpt-oss-20b"@));
    assert(cs[3] == (Provider::Cerebras, "gpt-oss-120b"@));
}

pub fn smart_stt_default(catalog: &ModelCatalog, local: &LocalModels) -> (r: Option<ModelSelection>)
    ensures
        opt_sel_view(r) == smart_stt_spec(*catalog, *local),
{
    let candidates = stt_remote_defaults();
    match first_verified_remote_default(&candidates, &catalog.cached_stt, catalog, local) {
        Some(s) => Some(s),
        None => match installed_parakeet_stt_default(local) {
            Some(s) => Some(s),
            None => installed_apple_speech_default(local),
        },
    }
}

pub fn smart_llm_default(catalog: &ModelCatalog, local: &LocalModels) -> (r: Option<ModelSelection>)
    ensures
        opt_sel_view(r) == smart_llm_spec(*catalog, *local),
{
    let candidates = llm_remote_defaults();
    match first_verified_remote_default(&candidates, &catalog.cached_llm, catalog, local) {
        Some(s) => Some(s),
        None => apple_foundation_llm_default(local),
    }
}

/// Whether a transcription selection can still be used: a remote one whose
/// provider is verified and whose live listing does not lack the model; an
/// installed Apple Speech locale model; an installed Parakeet model. Cerebras
/// offers no transcription.
pub open spec fn stt_available(sel: (Provider, Seq<char>), catalog: ModelCatalog, local: LocalModels) -> bool {
    match sel.0 {
        Provider::Cerebras => false,
        Provider::AppleLocal => locale_of(sel.1) is Some && speech_state_of(local.apple_speech@, sel.1) is Installed,
        Provider::Parakeet => parakeet_state_of(local.parakeet@, sel.1) is Installed,
        _ => candidate_usable(sel, catalog, local, catalog.cached_stt@),
    }
}

/// Whether a rewriting selection can still be used: a remote one whose
/// provider is verified and whose live listing does not lack the model; a
/// usable Apple Foundation model. ElevenLabs and Parakeet offer no rewriting.
pub open spec fn llm_available(sel: (Provider, Seq<char>), catalog: ModelCatalog, local: LocalModels) -> bool {
    match sel.0 {
        Provider::ElevenLabs => false,
        Provider::Parakeet => false,
        Provider::AppleLocal => foundation_id_available(sel.1, local.apple_foundation@),
        _ => candidate_usable(sel, catalog, local, catalog.cached_llm@),
    }
}

pub fn remote_selection_available(
    selection: &ModelSelection,
    live: &Vec<ModelInfo>,
    catalog: &ModelCatalog,
    local: &LocalModels,
) -> (r: bool)
    ensures
        r == candidate_usable(sel_view(*selection), *catalog, *local, live@),
{
    provider_verified(catalog, local, selection.provider) && match live_catalog_contains(
        live,
        selection.provider,
        selection.model.as_str(),
    ) {
        Some(false) => false,
        _ => true,
    }
}

pub fn apple_speech_selection_available(model: &str, local: &LocalModels) -> (r: bool)
    ensures
        r == (locale_of(model@) is Some && speech_state_of(local.apple_speech@, model@) is Installed),
{
    apple_speech_locale_id(model).is_some() && apple_speech_install_state(
        model,
        local.apple_speech.as_slice(),
    ).is_installed()
}

pub fn parakeet_selection_available(model: &str, local: &LocalModels) -> (r: bool)
    ensures
        r == (parakeet_state_of(local.parakeet@, model@) is Installed),
{
    let ghost pred = |s: ParakeetModelStatus| s.definition.id@ == model@;
    let mut i: usize = 0;
    while i < local.parakeet.len()
        invariant
            i <= local.parakeet@.len(),
            pred == (|s: ParakeetModelStatus| s.definition.id@ == model@),
            forall|k: int| 0 <= k < i ==> !pred(#[trigger] local.parakeet@[k]),
        decreases local.parakeet@.len() - i,
    {
        if str_eq(local.parakeet[i].definition.id, model) {
            proof {
                lemma_first_index_full(local.parakeet@, pred);
                let j = first_index(local.parakeet@, pred);
                if j is Some {
                    let jj = j.unwrap();
                    if jj < i {
                        assert(!pred(local.parakeet@[jj]));
                    } else if jj > i {
                        assert(pred(local.parakeet@[i as int]));
                    }
                } else {
                    assert(pred(local.parakeet@[i as int]));
                }
            }
            return local.parakeet[i].state.is_installed();
        }
        i = i + 1;
    }
    proof {
        lemma_first_index_full(local.parakeet@, pred);
        if first_index(local.parakeet@, pred) is Some {
            let j = first_index(local.parakeet@, pred).unwrap();
            assert(pred(local.parakeet@[j]));
        }
    }
    false
}

pub fn stt_selection_available(selection: &ModelSelection, catalog: &ModelCatalog, local: &LocalModels) -> (r:
    bool)
    ensures
        r == stt_available(sel_view(*selection), *catalog, *local),
{
    match selection.provider {
        Provider::Cerebras => false,
        Provider::AppleLocal => apple_speech_selection_available(selection.model.as_str(), local),
        Provider::Parakeet => parakeet_selection_available(selection.model.as_str(), local),
        _ => remote_selection_available(selection, &catalog.cached_stt, catalog, local),
    }
}

pub fn llm_selection_available(selection: &ModelSelection, catalog: &ModelCatalog, local: &LocalModels) -> (r:
    bool)
    ensures
        r == llm_available(sel_view(*selection), *catalog, *local),
{
    match selection.provider {
        Provider::ElevenLabs => false,
        Provider::Parakeet => false,
        Provider::AppleLocal => resolve_apple_foundation_model_id(
            selection.model.as_str(),
            local.apple_foundation.as_slice(),
        ).is_some(),
        _ => remote_selection_available(selection, &catalog.cached_llm, catalog, local),
    }
}

/// The transcription selection after smart defaults: kept while usable,
/// else replaced by the default when there is one.
pub open spec fn stt_after_defaults(
    stt: (Provider, Seq<char>),
    catalog: ModelCatalog,
    local: LocalModels,
) -> (Provider, Seq<char>) {
    if !stt_available(stt, catalog, local) && smart_stt_spec(catalog, local) is Some {
        smart_stt_spec(catalog, local).unwrap()
    } else {
        stt
    }
}

/// The rewriting selection after smart defaults: an unusable one is replaced
/// by the default when there is one; on the first run an unset one becomes
/// the default (which may be none).
pub open spec fn llm_after_defaults(
    llm: Option<(Provider, Seq<char>)>,
    applied: bool,
    catalog: ModelCatalog,
    local: LocalModels,
) -> Option<(Provider, Seq<char>)> {
    let repaired = match llm {
        Some(l) => if !llm_available(l, catalog, local) && smart_llm_spec(catalog, local) is Some {
            smart_llm_spec(catalog, local)
        } else {
            Some(l)
        },
        None => None,
    };
    if !applied && repaired is None {
        smart_llm_spec(catalog, local)
    } else {
        repaired
    }
}

/// Applies the best available defaults without overriding usable choices.
///
/// Nothing happens while no provider can be used. Otherwise an unusable
/// transcription or rewriting model is replaced by the default, when there
/// is one; on the first such run an unset rewriting model is set to the
/// default too, and the run is recorded, so that a rewriting model the user
/// turns off later stays off.
pub fn apply_smart_defaults(config: &mut GlideConfig, catalog: &ModelCatalog, local: &LocalModels)
    ensures
        !any_verified_spec(*catalog, *local) ==> *final(config) == *old(config),
        any_verified_spec(*catalog, *local) ==> {
            &&& sel_view(final(config).dictation.stt) == stt_after_defaults(
                sel_view(old(config).dictation.stt),
                *catalog,
                *local,
            )
            &&& stt_available(sel_view(old(config).dictation.stt), *catalog, *local)
                ==> final(config).dictation.stt == old(config).dictation.stt
            &&& opt_sel_view(final(config).dictation.llm) == llm_after_defaults(
                opt_sel_view(old(config).dictation.llm),
                old(config).dictation.smart_defaults_applied,
                *catalog,
                *local,
            )
            &&& old(config).dictation.smart_defaults_applied && old(config).dictation.llm is None
                ==> final(config).dictation.llm is None
            &&& final(config).dictation.smart_defaults_applied
            &&& final(config).dictation.system_prompt == old(config).dictation.system_prompt
            &&& final(config).dictation.system_prompt_uses_default
                == old(config).dictation.system_prompt_uses_default
            &&& final(config).dictation.styles == old(config).dictation.styles
            &&& final(config).app == old(config).app
            &&& final(config).hotkey == old(config).hotkey
            &&& final(config).audio == old(config).audio
            &&& final(config).providers == old(config).providers
            &&& final(config).dictionary == old(config).dictionary
            &&& final(config).overlay == old(config).overlay
            &&& final(config).paste == old(config).paste
        },
{
    if !any_provider_verified(catalog, local) {
        return;
    }
    if !stt_selection_available(&config.dictation.stt, catalog, local) {
        if let Some(smart) = smart_stt_default(catalog, local) {
            config.dictation.stt = smart;
        }
    }
    let llm_unavailable = match &config.dictation.llm {
        Some(llm) => !llm_selection_available(llm, catalog, local),
        None => false,
    };
    if llm_unavailable {
        if let Some(smart) = smart_llm_default(catalog, local) {
            config.dictation.llm = Some(smart);
        }
    }
    if config.dictation.smart_defaults_applied {
        return;
    }
    if config.dictation.llm.is_none() {
        config.dictation.llm = smart_llm_default(catalog, local);
    }
    config.dictation.smart_defaults_applied = true;
}

/// Smart defaults settle after one run: running them again, on the
/// selections one run produced and with the run recorded, changes nothing.
pub proof fn law_smart_defaults_idempotent(
    stt: (Provider, Seq<char>),
    llm: Option<(Provider, Seq<char>)>,
    applied: bool,
    catalog: ModelCatalog,
    local: LocalModels,
)
    ensures
        stt_after_defaults(stt_after_defaults(stt, catalog, local), catalog, local) == stt_after_defaults(
            stt,
            catalog,
            local,
        ),
        llm_after_defaults(llm_after_defaults(llm, applied, catalog, local), true, catalog, local)
            == llm_after_defaults(llm, applied, catalog, local),
{
}

/// A choice the user can still use survives smart defaults, and a rewriting
/// model turned off after the first run stays off.
pub proof fn law_smart_defaults_keep_user_choices(
    stt: (Provider, Seq<char>),
    llm: Option<(Provider, Seq<char>)>,
    applied: bool,
    catalog: ModelCatalog,
    local: LocalModels,
)
    ensures
        stt_available(stt, catalog, local) ==> stt_after_defaults(stt, catalog, local) == stt,
        (llm matches Some(l) && llm_available(l, catalog, local)) ==> llm_after_defaults(
            llm,
            applied,
            catalog,
            local,
        ) == llm,
        applied && llm is None ==> llm_after_defaults(llm, applied, catalog, local) is None,
{
}

/// A transcription selection with the legacy Apple Speech id resolved to
/// the first installed locale model, when there is one.
pub open spec fn legacy_resolved(sel: (Provider, Seq<char>), local: LocalModels) -> (Provider, Seq<char>) {
    if sel.0 == Provider::AppleLocal && sel.1 == APPLE_SPEECH_MODEL_ID@ && first_installed_speech(
        local.apple_speech@,
    ) is Some {
        (sel.0, first_installed_speech(local.apple_speech@).unwrap().definition.id@)
    } else {
        sel
    }
}

/// Resolving the legacy Apple Speech id settles after one pass: resolving
/// the result again changes nothing.
pub proof fn law_legacy_resolution_idempotent(sel: (Provider, Seq<char>), local: LocalModels)
    ensures
        legacy_resolved(legacy_resolved(sel, local), local) == legacy_resolved(sel, local),
{
}

fn resolve_legacy_selection(selection: &mut ModelSelection, local: &LocalModels)
    ensures
        sel_view(*final(selection)) == legacy_resolved(sel_view(*old(selection)), *local),
{
    if selection.provider == Provider::AppleLocal && is_legacy_apple_speech_model(selection.model.as_str()) {
        if let Some(model) = first_installed_apple_speech_model(local.apple_speech.as_slice()) {
            selection.model = model.definition.id;
        }
    }
}

/// Replaces the legacy Apple Speech model id, in the transcription choice
/// and in each style's, by the first installed locale model; nothing
/// changes while none is installed.
pub fn resolve_legacy_apple_speech_selections(config: &mut GlideConfig, local: &LocalModels)
    ensures
        sel_view(final(config).dictation.stt) == legacy_resolved(sel_view(old(config).dictation.stt), *local),
        final(config).dictation.styles@.len() == old(config).dictation.styles@.len(),
        forall|i: int|
            0 <= i < old(config).dictation.styles@.len() ==> {
                &&& (#[trigger] final(config).dictation.styles@[i]).name == old(config).dictation.styles@[i].name
                &&& final(config).dictation.styles@[i].apps == old(config).dictation.styles@[i].apps
                &&& final(config).dictation.styles@[i].prompt == old(config).dictation.styles@[i].prompt
                &&& final(config).dictation.styles@[i].llm == old(config).dictation.styles@[i].llm
                &&& opt_sel_view(final(config).dictation.styles@[i].stt) == match old(config).dictation.styles@[i].stt {
                    Some(s) => Some(legacy_resolved(sel_view(s), *local)),
                    None => None,
                }
            },
        final(config).dictation.llm == old(config).dictation.llm,
        final(config).dictation.system_prompt == old(config).dictation.system_prompt,
        final(config).dictation.smart_defaults_applied == old(config).dictation.smart_defaults_applied,
        final(config).providers == old(config).providers,
{
    resolve_legacy_selection(&mut config.dictation.stt, local);
    let ghost before = config.dictation.styles@;
    let ghost stt_after = config.dictation.stt;
    let mut i: usize = 0;
    while i < config.dictation.styles.len()
        invariant
            config.dictation.stt == stt_after,
            config.dictation.llm == old(config).dictation.llm,
            config.dictation.system_prompt == old(config).dictation.system_prompt,
            config.dictation.smart_defaults_applied == old(config).dictation.smart_defaults_applied,
            config.providers == old(config).providers,
            before == old(config).dictation.styles@,
            i <= config.dictation.styles@.len(),
            config.dictation.styles@.len() == before.len(),
            forall|k: int|
                0 <= k < before.len() ==> {
                    &&& (#[trigger] config.dictation.styles@[k]).name == before[k].name
                    &&& config.dictation.styles@[k].apps == before[k].apps
                    &&& config.dictation.styles@[k].prompt == before[k].prompt
                    &&& config.dictation.styles@[k].llm == before[k].llm
                    &&& opt_sel_view(config.dictation.styles@[k].stt) == if k < i {
                        match before[k].stt {
                            Some(s) => Some(legacy_resolved(sel_view(s), *local)),
                            None => None,
                        }
                    } else {
                        opt_sel_view(before[k].stt)
                    }
                },
        decreases before.len() - i,
    {
        let mut style: Style = config.dictation.styles.remove(i);
        if let Some(stt) = &mut style.stt {
            resolve_legacy_selection(stt, local);
        }
        config.dictation.styles.insert(i, style);
        i = i + 1;
    }
}

} // verus!
