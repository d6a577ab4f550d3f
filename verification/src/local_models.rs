//! On-device Apple models: Apple Speech locale models (which Glide can ask
//! the system to download) and the Apple Foundation language model.
use vstd::prelude::*;

use crate::error::GlideError;
use crate::lifecycle::{
    active_in, after_finish_clear, after_finish_error, after_request_cancel, after_update, begun,
    DownloadFinish, DownloadRegistry, DownloadRun, EntryModel,
};
use crate::text::{chars_of, is_blank, str_eq, trim_spec, trim_string};

verus! {

/// Model id older configurations used for "the installed Apple Speech model".
pub const APPLE_SPEECH_MODEL_ID: &'static str = "apple-speech-on-device";

/// Apple Speech model ids are this prefix followed by a locale id.
pub const APPLE_SPEECH_MODEL_PREFIX: &'static str = "speechanalyzer-";

/// Id of the system's default Apple Foundation model.
pub const APPLE_FOUNDATION_MODEL_ID: &'static str = "apple-foundation-default";

/// Progress of an Apple Speech locale model on this machine. Download
/// progress is kept in millionths of the whole.
#[derive(Debug, Clone, PartialEq, Eq)]
pub enum AppleSpeechInstallState {
    NotInstalled,
    Downloading { progress_ppm: Option<u32> },
    Cancelling,
    Installed,
    Failed(String),
}

impl AppleSpeechInstallState {
    pub fn duplicate(&self) -> (r: AppleSpeechInstallState)
        ensures
            r == *self,
    {
        match self {
            AppleSpeechInstallState::NotInstalled => AppleSpeechInstallState::NotInstalled,
            AppleSpeechInstallState::Downloading { progress_ppm } => AppleSpeechInstallState::Downloading {
                progress_ppm: *progress_ppm,
            },
            AppleSpeechInstallState::Cancelling => AppleSpeechInstallState::Cancelling,
            AppleSpeechInstallState::Installed => AppleSpeechInstallState::Installed,
            AppleSpeechInstallState::Failed(m) => AppleSpeechInstallState::Failed(m.clone()),
        }
    }

    pub fn is_installed(&self) -> (r: bool)
        ensures
            r == (*self is Installed),
    {
        match self {
            AppleSpeechInstallState::Installed => true,
            _ => false,
        }
    }
}

/// A locale model Apple Speech offers.
#[derive(Debug, Clone, PartialEq, Eq)]
pub struct AppleSpeechModelDefinition {
    pub id: String,
    pub display_name: String,
    pub locale_id: String,
    pub asset_status: String,
    pub reserved: bool,
}

impl AppleSpeechModelDefinition {
    pub fn duplicate(&self) -> (r: AppleSpeechModelDefinition)
        ensures
            r == *self,
    {
        AppleSpeechModelDefinition {
            id: self.id.clone(),
            display_name: self.display_name.clone(),
            locale_id: self.locale_id.clone(),
            asset_status: self.asset_status.clone(),
            reserved: self.reserved,
        }
    }
}

/// A locale model and its install state.
#[derive(Debug, Clone, PartialEq, Eq)]
pub struct AppleSpeechModelStatus {
    pub definition: AppleSpeechModelDefinition,
    pub state: AppleSpeechInstallState,
}

impl AppleSpeechModelStatus {
    pub fn duplicate(&self) -> (r: AppleSpeechModelStatus)
        ensures
            r == *self,
    {
        AppleSpeechModelStatus { definition: self.definition.duplicate(), state: self.state.duplicate() }
    }
}

/// An Apple Foundation model and whether it can be used now.
#[derive(Debug, Clone, PartialEq, Eq)]
pub struct AppleFoundationModelStatus {
    pub id: String,
    pub display_name: String,
    pub model_name: String,
    pub available: bool,
    pub reason: String,
}

impl AppleFoundationModelStatus {
    pub fn duplicate(&self) -> (r: AppleFoundationModelStatus)
        ensures
            r == *self,
    {
        AppleFoundationModelStatus {
            id: self.id.clone(),
            display_name: self.display_name.clone(),
            model_name: self.model_name.clone(),
            available: self.available,
            reason: self.reason.clone(),
        }
    }
}

/// What the Apple helper reports about the machine's Apple models.
#[derive(Debug, Clone)]
pub struct AppleCapabilities {
    pub apple_speech_available: bool,
    pub apple_speech_reason: String,
    pub foundation_models_reason: String,
}

/// A locale model as the Apple helper lists it.
#[derive(Debug, Clone)]
pub struct AppleSpeechModel {
    pub id: String,
    pub display_name: String,
    pub locale_id: String,
    pub status: String,
    pub reserved: bool,
}

/// A foundation model as the Apple helper lists it.
#[derive(Debug, Clone)]
pub struct AppleFoundationModel {
    pub id: String,
    pub display_name: String,
    pub model_name: String,
    pub available: bool,
    pub reason: String,
}

/// The locale an Apple Speech model id names: what follows the prefix, when
/// that is not blank.
pub open spec fn locale_of(model_id: Seq<char>) -> Option<Seq<char>> {
    let p = APPLE_SPEECH_MODEL_PREFIX@;
    if p.len() <= model_id.len() && model_id.take(p.len() as int) == p && trim_spec(
        model_id.skip(p.len() as int),
    ).len() > 0 {
        Some(model_id.skip(p.len() as int))
    } else {
        None
    }
}

/// The model id of the Apple Speech model for `locale_id`.
pub fn apple_speech_model_id(locale_id: &str) -> (r: String)
    ensures
        r@ == APPLE_SPEECH_MODEL_PREFIX@ + locale_id@,
{
    let mut r = String::from_str(APPLE_SPEECH_MODEL_PREFIX);
    r.append(locale_id);
    r
}

/// The locale part of an Apple Speech model id.
pub fn apple_speech_locale_id(model_id: &str) -> (r: Option<&str>)
    ensures
        match r {
            Some(l) => locale_of(model_id@) == Some(l@),
            None => locale_of(model_id@) is None,
        },
{
    let p = chars_of(APPLE_SPEECH_MODEL_PREFIX);
    let m = chars_of(model_id);
    if p.len() > m.len() {
        return None;
    }
    let mut i: usize = 0;
    while i < p.len()
        invariant
            p@ == APPLE_SPEECH_MODEL_PREFIX@,
            m@ == model_id@,
            p@.len() <= m@.len(),
            i <= p@.len(),
            forall|k: int| 0 <= k < i ==> m@[k] == p@[k],
        decreases p@.len() - i,
    {
        if m[i] != p[i] {
            proof {
                assert(m@.take(p@.len() as int)[i as int] != p@[i as int]);
            }
            return None;
        }
        i = i + 1;
    }
    proof {
        assert(m@.take(p@.len() as int) =~= p@);
    }
    let rest = model_id.substring_char(p.len(), m.len());
    proof {
        assert(rest@ =~= model_id@.skip(p@.len() as int));
    }
    if is_blank(rest) {
        None
    } else {
        Some(rest)
    }
}

/// Whether `model_id` is the id older configurations used.
pub fn is_legacy_apple_speech_model(model_id: &str) -> (r: bool)
    ensures
        r == (model_id@ == APPLE_SPEECH_MODEL_ID@),
{
    str_eq(model_id, APPLE_SPEECH_MODEL_ID)
}

/// Install state of a locale model given the download records: a record
/// wins; otherwise models the system reserved are installed.
pub open spec fn install_state_for(
    def: AppleSpeechModelDefinition,
    downloads: Map<Seq<char>, EntryModel<AppleSpeechInstallState>>,
) -> AppleSpeechInstallState {
    if downloads.contains_key(def.id@) {
        downloads[def.id@].state
    } else if def.reserved {
        AppleSpeechInstallState::Installed
    } else {
        AppleSpeechInstallState::NotInstalled
    }
}

pub fn apple_speech_install_state_for_definition(
    definition: &AppleSpeechModelDefinition,
    downloads: &DownloadRegistry<AppleSpeechInstallState>,
) -> (r: AppleSpeechInstallState)
    requires
        downloads.wf(),
    ensures
        r == install_state_for(*definition, downloads.model()),
{
    match downloads.state_ref(definition.id.as_str()) {
        Some(s) => s.duplicate(),
        None => {
            if definition.reserved {
                AppleSpeechInstallState::Installed
            } else {
                AppleSpeechInstallState::NotInstalled
            }
        },
    }
}

/// A locale model with its install state given the download records.
pub open spec fn status_for(
    def: AppleSpeechModelDefinition,
    downloads: Map<Seq<char>, EntryModel<AppleSpeechInstallState>>,
) -> AppleSpeechModelStatus {
    AppleSpeechModelStatus { definition: def, state: install_state_for(def, downloads) }
}

/// Every offered locale model with its install state.
pub fn apple_speech_models_status(
    definitions: &[AppleSpeechModelDefinition],
    downloads: &DownloadRegistry<AppleSpeechInstallState>,
) -> (r: Vec<AppleSpeechModelStatus>)
    requires
        downloads.wf(),
    ensures
        r@.len() == definitions@.len(),
        forall|i: int|
            0 <= i < definitions@.len() ==> #[trigger] r@[i] == status_for(definitions@[i], downloads.model()),
{
    let mut r: Vec<AppleSpeechModelStatus> = Vec::new();
    let mut i: usize = 0;
    while i < definitions.len()
        invariant
            downloads.wf(),
            i <= definitions@.len(),
            r@.len() == i,
            forall|k: int|
                0 <= k < i ==> #[trigger] r@[k] == status_for(definitions@[k], downloads.model()),
        decreases definitions@.len() - i,
    {
        let state = apple_speech_install_state_for_definition(&definitions[i], downloads);
        r.push(AppleSpeechModelStatus { definition: definitions[i].duplicate(), state });
        i = i + 1;
    }
    r
}

/// Without a download record, a locale model reserved by the system is
/// installed and any other is not; a download record, when there is one,
/// gives the state.
pub proof fn law_reserved_locales_are_installed(
    def: AppleSpeechModelDefinition,
    downloads: Map<Seq<char>, EntryModel<AppleSpeechInstallState>>,
)
    ensures
        !downloads.contains_key(def.id@) ==> (install_state_for(def, downloads) is Installed <==> def.reserved),
        !downloads.contains_key(def.id@) && !def.reserved ==> install_state_for(def, downloads) is NotInstalled,
        downloads.contains_key(def.id@) ==> install_state_for(def, downloads) == downloads[def.id@].state,
        !downloads.contains_key(def.id@) ==> status_for(def, downloads).state == (if def.reserved {
            AppleSpeechInstallState::Installed
        } else {
            AppleSpeechInstallState::NotInstalled
        }),
{
}

/// Index of the first status satisfying `pred`, if any.
pub open spec fn first_index<T>(s: Seq<T>, pred: spec_fn(T) -> bool) -> Option<int>
    decreases s.len(),
{
    if s.len() == 0 {
        None
    } else {
        match first_index(s.drop_last(), pred) {
            Some(i) => Some(i),
            None => if pred(s.last()) {
                Some(s.len() - 1)
            } else {
                None
            },
        }
    }
}

pub proof fn lemma_first_index<T>(s: Seq<T>, pred: spec_fn(T) -> bool, i: int)
    requires
        0 <= i <= s.len(),
        forall|k: int| 0 <= k < i ==> !pred(#[trigger] s[k]),
    ensures
        first_index(s.take(i), pred) is None,
        i < s.len() && pred(s[i]) ==> first_index(s.take(i + 1), pred) == Some(i),
        i < s.len() && !pred(s[i]) ==> first_index(s.take(i + 1), pred) is None,
    decreases i,
{
    if i > 0 {
        lemma_first_index(s, pred, i - 1);
        assert(s.take(i).drop_last() =~= s.take(i - 1));
    }
    if i < s.len() {
        assert(s.take(i + 1).drop_last() =~= s.take(i));
    }
}

pub proof fn lemma_first_index_full<T>(s: Seq<T>, pred: spec_fn(T) -> bool)
    ensures
        match first_index(s, pred) {
            Some(i) => 0 <= i < s.len() && pred(s[i]) && forall|k: int| 0 <= k < i ==> !pred(#[trigger] s[k]),
            None => forall|k: int| 0 <= k < s.len() ==> !pred(#[trigger] s[k]),
        },
    decreases s.len(),
{
    if s.len() > 0 {
        lemma_first_index_full(s.drop_last(), pred);
        match first_index(s.drop_last(), pred) {
            Some(i) => {
                assert forall|k: int| 0 <= k < i implies !pred(#[trigger] s[k]) by {
                    assert(s[k] == s.drop_last()[k]);
                }
                assert(s[i] == s.drop_last()[i]);
            },
            None => {
                assert forall|k: int| 0 <= k < s.len() - 1 implies !pred(#[trigger] s[k]) by {
                    assert(s[k] == s.drop_last()[k]);
                }
            },
        }
    }
}

/// Whether a locale model is installed.
pub open spec fn speech_installed(s: AppleSpeechModelStatus) -> bool {
    s.state is Installed
}

/// The first installed locale model.
pub open spec fn first_installed_speech(statuses: Seq<AppleSpeechModelStatus>) -> Option<AppleSpeechModelStatus> {
    match first_index(statuses, |s: AppleSpeechModelStatus| speech_installed(s)) {
        Some(i) => Some(statuses[i]),
        None => None,
    }
}

pub fn first_installed_apple_speech_model(statuses: &[AppleSpeechModelStatus]) -> (r: Option<AppleSpeechModelStatus>)
    ensures
        r == first_installed_speech(statuses@),
{
    let ghost pred = |s: AppleSpeechModelStatus| speech_installed(s);
    let mut i: usize = 0;
    while i < statuses.len()
        invariant
            i <= statuses@.len(),
            pred == (|s: AppleSpeechModelStatus| speech_installed(s)),
            forall|k: int| 0 <= k < i ==> !pred(#[trigger] statuses@[k]),
        decreases statuses@.len() - i,
    {
        if statuses[i].state.is_installed() {
            proof {
                lemma_first_index(statuses@, pred, i as int);
                lemma_first_index_full(statuses@, pred);
                let j = first_index(statuses@, pred);
                assert(j == Some(i as int));
            }
            return Some(statuses[i].duplicate());
        }
        i = i + 1;
    }
    proof {
        lemma_first_index_full(statuses@, pred);
        if first_index(statuses@, pred) is Some {
            let j = first_index(statuses@, pred).unwrap();
            assert(pred(statuses@[j]));
        }
    }
    None
}

/// The install state of locale model `id` among `statuses`; unknown ids
/// are not installed.
pub open spec fn speech_state_of(statuses: Seq<AppleSpeechModelStatus>, id: Seq<char>) -> AppleSpeechInstallState {
    match first_index(statuses, |s: AppleSpeechModelStatus| s.definition.id@ == id) {
        Some(i) => statuses[i].state,
        None => AppleSpeechInstallState::NotInstalled,
    }
}

pub fn apple_speech_install_state(id: &str, statuses: &[AppleSpeechModelStatus]) -> (r: AppleSpeechInstallState)
    ensures
        r == speech_state_of(statuses@, id@),
{
    let ghost pred = |s: AppleSpeechModelStatus| s.definition.id@ == id@;
    let mut i: usize = 0;
    while i < statuses.len()
        invariant
            i <= statuses@.len(),
            pred == (|s: AppleSpeechModelStatus| s.definition.id@ == id@),
            forall|k: int| 0 <= k < i ==> !pred(#[trigger] statuses@[k]),
        decreases statuses@.len() - i,
    {
        if str_eq(statuses[i].definition.id.as_str(), id) {
            proof {
                lemma_first_index_full(statuses@, pred);
                let j = first_index(statuses@, pred);
                if j is Some {
                    let jj = j.unwrap();
                    if jj < i {
                        assert(!pred(statuses@[jj]));
                    } else if jj > i {
                        assert(pred(statuses@[i as int]));
                    }
                } else {
                    assert(pred(statuses@[i as int]));
                }
            }
            return statuses[i].state.duplicate();
        }
        i = i + 1;
    }
    proof {
        lemma_first_index_full(statuses@, pred);
        if first_index(statuses@, pred) is Some {
            let j = first_index(statuses@, pred).unwrap();
            assert(pred(statuses@[j]));
        }
    }
    AppleSpeechInstallState::NotInstalled
}

/// The model id a selection resolves to: a legacy id stands for the first
/// installed locale model; any other id must name a locale.
pub open spec fn resolved_speech_id(model_id: Seq<char>, statuses: Seq<AppleSpeechModelStatus>) -> Option<Seq<char>> {
    if model_id != APPLE_SPEECH_MODEL_ID@ {
        if locale_of(model_id) is Some {
            Some(model_id)
        } else {
            None
        }
    } else {
        match first_installed_speech(statuses) {
            Some(s) => Some(s.definition.id@),
            None => None,
        }
    }
}

pub fn resolve_apple_speech_model_id(model_id: &str, statuses: &[AppleSpeechModelStatus]) -> (r: Option<String>)
    ensures
        match r {
            Some(s) => resolved_speech_id(model_id@, statuses@) == Some(s@),
            None => resolved_speech_id(model_id@, statuses@) is None,
        },
{
    if !is_legacy_apple_speech_model(model_id) {
        return match apple_speech_locale_id(model_id) {
            Some(_) => Some(String::from_str(model_id)),
            None => None,
        };
    }
    match first_installed_apple_speech_model(statuses) {
        Some(s) => Some(s.definition.id),
        None => None,
    }
}

/// Whether a foundation model is usable.
pub open spec fn foundation_available(m: AppleFoundationModelStatus) -> bool {
    m.available
}

/// The first usable foundation model.
pub open spec fn first_available_foundation(models: Seq<AppleFoundationModelStatus>) -> Option<AppleFoundationModelStatus> {
    match first_index(models, |m: AppleFoundationModelStatus| foundation_available(m)) {
        Some(i) => Some(models[i]),
        None => None,
    }
}

pub fn first_available_apple_foundation_model(models: &[AppleFoundationModelStatus]) -> (r: Option<AppleFoundationModelStatus>)
    ensures
        r == first_available_foundation(models@),
{
    let ghost pred = |m: AppleFoundationModelStatus| foundation_available(m);
    let mut i: usize = 0;
    while i < models.len()
        invariant
            i <= models@.len(),
            pred == (|m: AppleFoundationModelStatus| foundation_available(m)),
            forall|k: int| 0 <= k < i ==> !pred(#[trigger] models@[k]),
        decreases models@.len() - i,
    {
        if models[i].available {
            proof {
                lemma_first_index(models@, pred, i as int);
                lemma_first_index_full(models@, pred);
                assert(first_index(models@, pred) == Some(i as int));
            }
            return Some(models[i].duplicate());
        }
        i = i + 1;
    }
    proof {
        lemma_first_index_full(models@, pred);
        if first_index(models@, pred) is Some {
            let j = first_index(models@, pred).unwrap();
            assert(pred(models@[j]));
        }
    }
    None
}

/// Whether `model_id` names a usable foundation model.
pub open spec fn foundation_id_available(model_id: Seq<char>, models: Seq<AppleFoundationModelStatus>) -> bool {
    exists|i: int| 0 <= i < models.len() && (#[trigger] models[i]).id@ == model_id && models[i].available
}

pub fn resolve_apple_foundation_model_id(model_id: &str, models: &[AppleFoundationModelStatus]) -> (r: Option<String>)
    ensures
        match r {
            Some(s) => foundation_id_available(model_id@, models@) && s@ == model_id@,
            None => !foundation_id_available(model_id@, models@),
        },
{
    let mut i: usize = 0;
    while i < models.len()
        invariant
            i <= models@.len(),
            forall|k: int| 0 <= k < i ==> !((#[trigger] models@[k]).id@ == model_id@ && models@[k].available),
        decreases models@.len() - i,
    {
        if models[i].available && str_eq(models[i].id.as_str(), model_id) {
            return Some(models[i].id.clone());
        }
        i = i + 1;
    }
    None
}

/// The foundation model list shown when the helper cannot be asked: the
/// system default model, unavailable for `reason`.
pub fn unavailable_apple_foundation_models(reason: String) -> (r: Vec<AppleFoundationModelStatus>)
    ensures
        r@.len() == 1,
        r@[0].id@ == APPLE_FOUNDATION_MODEL_ID@,
        r@[0].display_name@ == "Apple Foundation Model"@,
        r@[0].model_name@ == "SystemLanguageModel.default"@,
        !r@[0].available,
        r@[0].reason == reason,
{
    let mut r = Vec::new();
    r.push(
        AppleFoundationModelStatus {
            id: String::from_str(APPLE_FOUNDATION_MODEL_ID),
            display_name: String::from_str("Apple Foundation Model"),
            model_name: String::from_str("SystemLanguageModel.default"),
            available: false,
            reason,
        },
    );
    r
}

/// A foundation model status from the helper's listing.
pub open spec fn foundation_status_of(m: AppleFoundationModel) -> AppleFoundationModelStatus {
    AppleFoundationModelStatus {
        id: m.id,
        display_name: m.display_name,
        model_name: m.model_name,
        available: m.available,
        reason: m.reason,
    }
}

/// The foundation models from the helper's answer, or the unavailable
/// default model when the helper failed.
pub fn load_apple_foundation_models(loaded: Result<Vec<AppleFoundationModel>, String>) -> (r: Vec<AppleFoundationModelStatus>)
    ensures
        match loaded {
            Ok(models) => r@.len() == models@.len() && forall|i: int|
                0 <= i < models@.len() ==> #[trigger] r@[i] == foundation_status_of(models@[i]),
            Err(reason) => r@.len() == 1 && r@[0].id@ == APPLE_FOUNDATION_MODEL_ID@ && !r@[0].available
                && r@[0].reason == reason,
        },
{
    match loaded {
        Ok(models) => {
            let mut r: Vec<AppleFoundationModelStatus> = Vec::new();
            let mut i: usize = 0;
            while i < models.len()
                invariant
                    i <= models@.len(),
                    r@.len() == i,
                    forall|k: int| 0 <= k < i ==> #[trigger] r@[k] == foundation_status_of(models@[k]),
                decreases models@.len() - i,
            {
                let m = &models[i];
                r.push(
                    AppleFoundationModelStatus {
                        id: m.id.clone(),
                        display_name: m.display_name.clone(),
                        model_name: m.model_name.clone(),
                        available: m.available,
                        reason: m.reason.clone(),
                    },
                );
                i = i + 1;
            }
            r
        },
        Err(reason) => unavailable_apple_foundation_models(reason),
    }
}

/// A locale model definition from the helper's listing.
pub open spec fn speech_definition_of(m: AppleSpeechModel) -> AppleSpeechModelDefinition {
    AppleSpeechModelDefinition {
        id: m.id,
        display_name: m.display_name,
        locale_id: m.locale_id,
        asset_status: m.status,
        reserved: m.reserved,
    }
}

/// What Glide remembers of the Apple helper's answers between questions.
#[derive(Debug, Clone)]
pub struct AppleModelCache {
    pub speech_models: Option<Vec<AppleSpeechModelDefinition>>,
    pub speech_unavailable_reason: Option<String>,
    pub foundation_models: Option<Vec<AppleFoundationModelStatus>>,
    pub capabilities: Option<AppleCapabilities>,
}

impl AppleModelCache {
    /// A cache that remembers nothing yet.
    pub fn new() -> (r: AppleModelCache)
        ensures
            r.speech_models is None,
            r.speech_unavailable_reason is None,
            r.foundation_models is None,
            r.capabilities is None,
    {
        AppleModelCache {
            speech_models: None,
            speech_unavailable_reason: None,
            foundation_models: None,
            capabilities: None,
        }
    }
}

/// What is remembered of the helper's capabilities answer: a failure to ask
/// is kept as Apple Speech being unavailable, with the failure as both
/// reasons.
pub open spec fn stored_capabilities(fetched: Result<AppleCapabilities, String>) -> AppleCapabilities {
    match fetched {
        Ok(c) => c,
        Err(e) => AppleCapabilities {
            apple_speech_available: false,
            apple_speech_reason: e,
            foundation_models_reason: e,
        },
    }
}

/// The cache once the helper's capabilities answer is remembered.
pub open spec fn remember_capabilities(cache: AppleModelCache, fetched: Result<AppleCapabilities, String>) -> AppleModelCache {
    AppleModelCache { capabilities: Some(stored_capabilities(fetched)), ..cache }
}

/// The cache once the capabilities answer is forgotten.
pub open spec fn forget_capabilities(cache: AppleModelCache) -> AppleModelCache {
    AppleModelCache { capabilities: None, ..cache }
}

/// The first step of asking for the capabilities: `Some` is the remembered
/// answer, to be used as it is; `None` means the helper must be asked and
/// its answer handed to `store_capabilities`.
pub fn cached_capabilities(cache: &AppleModelCache) -> (r: Option<AppleCapabilities>)
    ensures
        r == cache.capabilities,
{
    match &cache.capabilities {
        Some(c) => Some(
            AppleCapabilities {
                apple_speech_available: c.apple_speech_available,
                apple_speech_reason: c.apple_speech_reason.clone(),
                foundation_models_reason: c.foundation_models_reason.clone(),
            },
        ),
        None => None,
    }
}

/// Remembers the helper's capabilities answer and returns what is
/// remembered.
pub fn store_capabilities(cache: &mut AppleModelCache, fetched: Result<AppleCapabilities, String>) -> (r:
    AppleCapabilities)
    ensures
        r == stored_capabilities(fetched),
        *final(cache) == remember_capabilities(*old(cache), fetched),
{
    let c = match fetched {
        Ok(c) => c,
        Err(e) => AppleCapabilities {
            apple_speech_available: false,
            apple_speech_reason: e.clone(),
            foundation_models_reason: e,
        },
    };
    cache.capabilities = Some(
        AppleCapabilities {
            apple_speech_available: c.apple_speech_available,
            apple_speech_reason: c.apple_speech_reason.clone(),
            foundation_models_reason: c.foundation_models_reason.clone(),
        },
    );
    c
}

/// Forgets the capabilities answer.
pub fn invalidate_capabilities_cache(cache: &mut AppleModelCache)
    ensures
        *final(cache) == forget_capabilities(*old(cache)),
{
    cache.capabilities = None;
}

/// The helper is asked for the capabilities at most once between
/// invalidations: whether the first request is answered from memory or by
/// asking (with answer `fetched`), a second request is answered from memory
/// with the same answer; once forgotten, the next request asks again.
pub proof fn law_capabilities_asked_at_most_once(cache: AppleModelCache, fetched: Result<AppleCapabilities, String>)
    ensures
        ({
            let first = match cache.capabilities {
                Some(c) => c,
                None => stored_capabilities(fetched),
            };
            let after = match cache.capabilities {
                Some(_) => cache,
                None => remember_capabilities(cache, fetched),
            };
            &&& after.capabilities == Some(first)
            &&& forget_capabilities(after).capabilities is None
            &&& forget_capabilities(after).speech_models == cache.speech_models
            &&& forget_capabilities(after).foundation_models == cache.foundation_models
        }),
{
}

/// Why no locale models are listed, if the last listing failed or was empty.
pub fn apple_speech_models_unavailable_reason(cache: &AppleModelCache) -> (r: Option<String>)
    ensures
        r == cache.speech_unavailable_reason,
{
    match &cache.speech_unavailable_reason {
        Some(s) => Some(s.clone()),
        None => None,
    }
}

pub fn set_apple_speech_models_unavailable_reason(cache: &mut AppleModelCache, reason: Option<String>)
    ensures
        final(cache).speech_unavailable_reason == reason,
        final(cache).speech_models == old(cache).speech_models,
        final(cache).foundation_models == old(cache).foundation_models,
        final(cache).capabilities == old(cache).capabilities,
{
    cache.speech_unavailable_reason = reason;
}

/// Forgets the locale model listing and why it was missing.
pub fn invalidate_apple_speech_model_cache(cache: &mut AppleModelCache)
    ensures
        final(cache).speech_models is None,
        final(cache).speech_unavailable_reason is None,
        final(cache).foundation_models == old(cache).foundation_models,
        final(cache).capabilities == old(cache).capabilities,
{
    cache.speech_models = None;
    set_apple_speech_models_unavailable_reason(cache, None);
}

/// Forgets the foundation model listing.
pub fn invalidate_apple_foundation_model_cache(cache: &mut AppleModelCache)
    ensures
        final(cache).foundation_models is None,
        final(cache).speech_models == old(cache).speech_models,
        final(cache).speech_unavailable_reason == old(cache).speech_unavailable_reason,
        final(cache).capabilities == old(cache).capabilities,
{
    cache.foundation_models = None;
}

/// Forgets every remembered answer, so the next question asks the helper.
pub fn refresh_apple_local_models(cache: &mut AppleModelCache)
    ensures
        final(cache).speech_models is None,
        final(cache).speech_unavailable_reason is None,
        final(cache).foundation_models is None,
        final(cache).capabilities is None,
{
    invalidate_apple_speech_model_cache(cache);
    invalidate_apple_foundation_model_cache(cache);
    invalidate_capabilities_cache(cache);
}

/// The remembered locale model listing, if any.
pub fn apple_speech_model_definitions(cache: &AppleModelCache) -> (r: Option<Vec<AppleSpeechModelDefinition>>)
    ensures
        match r {
            Some(v) => cache.speech_models matches Some(c) && v@ == c@,
            None => cache.speech_models is None,
        },
{
    match &cache.speech_models {
        Some(v) => {
            let mut out: Vec<AppleSpeechModelDefinition> = Vec::new();
            let mut i: usize = 0;
            while i < v.len()
                invariant
                    i <= v@.len(),
                    out@ == v@.take(i as int),
                decreases v@.len() - i,
            {
                out.push(v[i].duplicate());
                i = i + 1;
                proof {
                    assert(out@ =~= v@.take(i as int));
                }
            }
            proof {
                assert(v@.take(v@.len() as int) =~= v@);
            }
            Some(out)
        },
        None => None,
    }
}

/// Records the helper's locale model listing and returns the definitions.
/// A failure is kept as the reason, an empty listing gets its own reason;
/// neither is remembered as a listing, so the next question asks again.
pub fn record_apple_speech_models(cache: &mut AppleModelCache, loaded: Result<Vec<AppleSpeechModel>, String>) -> (r:
    Vec<AppleSpeechModelDefinition>)
    ensures
        final(cache).foundation_models == old(cache).foundation_models,
        final(cache).capabilities == old(cache).capabilities,
        match loaded {
            Err(e) => r@.len() == 0 && final(cache).speech_models is None
                && final(cache).speech_unavailable_reason == Some(e),
            Ok(models) => {
                &&& r@.len() == models@.len()
                &&& forall|i: int| 0 <= i < models@.len() ==> #[trigger] r@[i] == speech_definition_of(models@[i])
                &&& models@.len() == 0 ==> (final(cache).speech_models is None
                    && (final(cache).speech_unavailable_reason matches Some(s)
                    && s@ == "Apple Speech returned no supported locales"@))
                &&& models@.len() > 0 ==> ((final(cache).speech_models matches Some(c) && c@ == r@)
                    && final(cache).speech_unavailable_reason is None)
            },
        },
{
    match loaded {
        Err(e) => {
            set_apple_speech_models_unavailable_reason(cache, Some(e));
            cache.speech_models = None;
            Vec::new()
        },
        Ok(models) => {
            let mut defs: Vec<AppleSpeechModelDefinition> = Vec::new();
            let mut copy: Vec<AppleSpeechModelDefinition> = Vec::new();
            let mut i: usize = 0;
            while i < models.len()
                invariant
                    i <= models@.len(),
                    defs@.len() == i,
                    copy@ == defs@,
                    forall|k: int| 0 <= k < i ==> #[trigger] defs@[k] == speech_definition_of(models@[k]),
                decreases models@.len() - i,
            {
                let m = &models[i];
                let d = AppleSpeechModelDefinition {
                    id: m.id.clone(),
                    display_name: m.display_name.clone(),
                    locale_id: m.locale_id.clone(),
                    asset_status: m.status.clone(),
                    reserved: m.reserved,
                };
                copy.push(d.duplicate());
                defs.push(d);
                i = i + 1;
            }
            if models.len() == 0 {
                set_apple_speech_models_unavailable_reason(
                    cache,
                    Some(String::from_str("Apple Speech returned no supported locales")),
                );
                cache.speech_models = None;
            } else {
                set_apple_speech_models_unavailable_reason(cache, None);
                cache.speech_models = Some(copy);
            }
            defs
        },
    }
}

/// The remembered foundation model statuses, if any.
pub fn apple_foundation_model_statuses(cache: &AppleModelCache) -> (r: Option<Vec<AppleFoundationModelStatus>>)
    ensures
        match r {
            Some(v) => cache.foundation_models matches Some(c) && v@ == c@,
            None => cache.foundation_models is None,
        },
{
    match &cache.foundation_models {
        Some(v) => {
            let mut out: Vec<AppleFoundationModelStatus> = Vec::new();
            let mut i: usize = 0;
            while i < v.len()
                invariant
                    i <= v@.len(),
                    out@ == v@.take(i as int),
                decreases v@.len() - i,
            {
                out.push(v[i].duplicate());
                i = i + 1;
                proof {
                    assert(out@ =~= v@.take(i as int));
                }
            }
            proof {
                assert(v@.take(v@.len() as int) =~= v@);
            }
            Some(out)
        },
        None => None,
    }
}

/// Records the foundation model statuses from the helper's answer (or the
/// unavailable default on failure) and returns them.
pub fn apple_foundation_models_status(cache: &mut AppleModelCache, loaded: Result<Vec<AppleFoundationModel>, String>) -> (r:
    Vec<AppleFoundationModelStatus>)
    ensures
        final(cache).foundation_models matches Some(c) && c@ == r@,
        final(cache).speech_models == old(cache).speech_models,
        final(cache).speech_unavailable_reason == old(cache).speech_unavailable_reason,
        final(cache).capabilities == old(cache).capabilities,
        match loaded {
            Ok(models) => r@.len() == models@.len() && forall|i: int|
                0 <= i < models@.len() ==> #[trigger] r@[i] == foundation_status_of(models@[i]),
            Err(reason) => r@.len() == 1 && r@[0].id@ == APPLE_FOUNDATION_MODEL_ID@ && !r@[0].available
                && r@[0].reason == reason,
        },
{
    let r = load_apple_foundation_models(loaded);
    let mut copy: Vec<AppleFoundationModelStatus> = Vec::new();
    let mut i: usize = 0;
    while i < r.len()
        invariant
            i <= r@.len(),
            copy@ == r@.take(i as int),
        decreases r@.len() - i,
    {
        copy.push(r[i].duplicate());
        i = i + 1;
        proof {
            assert(copy@ =~= r@.take(i as int));
        }
    }
    proof {
        assert(r@.take(r@.len() as int) =~= r@);
    }
    cache.foundation_models = Some(copy);
    r
}

/// Whether `id` names one of `definitions`.
pub open spec fn defined_speech(definitions: Seq<AppleSpeechModelDefinition>, id: Seq<char>) -> bool {
    exists|i: int| 0 <= i < definitions.len() && (#[trigger] definitions[i]).id@ == id
}

fn apple_speech_model_definition(id: &str, definitions: &[AppleSpeechModelDefinition]) -> (r: Option<usize>)
    ensures
        match r {
            Some(i) => i < definitions@.len() && definitions@[i as int].id@ == id@,
            None => !defined_speech(definitions@, id@),
        },
{
    let mut i: usize = 0;
    while i < definitions.len()
        invariant
            i <= definitions@.len(),
            forall|k: int| 0 <= k < i ==> (#[trigger] definitions@[k]).id@ != id@,
        decreases definitions@.len() - i,
    {
        if str_eq(definitions[i].id.as_str(), id) {
            return Some(i);
        }
        i = i + 1;
    }
    None
}

/// Starts a download of locale model `id` unless one is under way; the run
/// returned is the one the caller must carry out.
pub fn start_apple_speech_model_download(
    id: &str,
    definitions: &[AppleSpeechModelDefinition],
    downloads: &mut DownloadRegistry<AppleSpeechInstallState>,
) -> (r: Result<Option<DownloadRun>, GlideError>)
    requires
        old(downloads).wf(),
    ensures
        final(downloads).wf(),
        final(downloads).cancelled_ids() == if defined_speech(definitions@, id@) { crate::lifecycle::cancelled_after_begin(old(downloads).cancelled_ids(), old(downloads).model(), old(downloads).next_id(), id@) } else { old(downloads).cancelled_ids() },
        !defined_speech(definitions@, id@) ==> (r matches Err(e) && e is UnknownAppleSpeechModel)
            && final(downloads).model() == old(downloads).model(),
        defined_speech(definitions@, id@) && active_in(old(downloads).model(), id@) ==> (r matches Ok(None))
            && final(downloads).model() == old(downloads).model(),
        defined_speech(definitions@, id@) && !active_in(old(downloads).model(), id@) ==> (r matches Ok(Some(run))
            && run.id_view() == id@ && run.run_id_view() == old(downloads).next_id()) && final(downloads).model()
            == begun(
            old(downloads).model(),
            id@,
            AppleSpeechInstallState::Downloading { progress_ppm: None },
            old(downloads).next_id(),
        ),
{
    match apple_speech_model_definition(id, definitions) {
        None => Err(GlideError::UnknownAppleSpeechModel(String::from_str(id))),
        Some(i) => Ok(
            downloads.begin(
                definitions[i].id.as_str(),
                AppleSpeechInstallState::Downloading { progress_ppm: None },
            ),
        ),
    }
}

/// The state shown while a cancellation is under way.
pub fn apple_speech_cancelling_state(_state: &AppleSpeechInstallState) -> (r: AppleSpeechInstallState)
    ensures
        r == AppleSpeechInstallState::Cancelling,
{
    AppleSpeechInstallState::Cancelling
}

/// Asks the download of `id` under way, if any, to stop; returns its run,
/// whose installer process the caller must stop.
pub fn cancel_apple_speech_model_download(
    id: &str,
    downloads: &mut DownloadRegistry<AppleSpeechInstallState>,
) -> (r: Result<Option<DownloadRun>, GlideError>)
    requires
        old(downloads).wf(),
    ensures
        final(downloads).wf(),
        final(downloads).cancelled_ids() == if locale_of(id@) is Some { crate::lifecycle::cancelled_after_request(old(downloads).cancelled_ids(), old(downloads).model(), id@) } else { old(downloads).cancelled_ids() },
        final(downloads).next_id() == old(downloads).next_id(),
        locale_of(id@) is None ==> (r matches Err(e) && e is UnknownAppleSpeechModel) && final(downloads).model()
            == old(downloads).model(),
        locale_of(id@) is Some ==> {
            let (m, run) = after_request_cancel(old(downloads).model(), id@, AppleSpeechInstallState::Cancelling);
            &&& final(downloads).model() == m
            &&& match run {
                Some(run_id) => r matches Ok(Some(run)) && run.id_view() == id@ && run.run_id_view() == run_id,
                None => r matches Ok(None),
            }
        },
{
    if apple_speech_locale_id(id).is_none() {
        return Err(GlideError::UnknownAppleSpeechModel(String::from_str(id)));
    }
    Ok(downloads.request_cancel(id, apple_speech_cancelling_state))
}

/// What releasing a locale model asks of the caller.
#[derive(Debug, Clone)]
pub enum AppleSpeechReleaseStep {
    /// A download of the model was under way and was asked to stop; the
    /// caller must stop this run's installer.
    CancelledDownload(DownloadRun),
    /// Nothing was under way: the caller must ask the helper to release the
    /// model and then call `finish_apple_speech_release`.
    ReleaseWithHelper,
}

/// The bookkeeping half of releasing locale model `id`: a download under way
/// is cancelled and its run handed back; otherwise the helper is to be
/// asked.
pub fn release_apple_speech_model(
    id: &str,
    downloads: &mut DownloadRegistry<AppleSpeechInstallState>,
) -> (r: Result<AppleSpeechReleaseStep, GlideError>)
    requires
        old(downloads).wf(),
    ensures
        final(downloads).wf(),
        final(downloads).cancelled_ids() == if locale_of(id@) is Some { crate::lifecycle::cancelled_after_request(old(downloads).cancelled_ids(), old(downloads).model(), id@) } else { old(downloads).cancelled_ids() },
        !active_in(old(downloads).model(), id@) ==> (r matches Ok(AppleSpeechReleaseStep::ReleaseWithHelper))
            && final(downloads).model() == old(downloads).model(),
        active_in(old(downloads).model(), id@) && locale_of(id@) is Some ==> (r matches Ok(
            AppleSpeechReleaseStep::CancelledDownload(run),
        ) && run.id_view() == id@ && run.run_id_view() == old(downloads).model()[id@].active.unwrap().run_id)
            && final(downloads).model() == after_request_cancel(
            old(downloads).model(),
            id@,
            AppleSpeechInstallState::Cancelling,
        ).0,
        active_in(old(downloads).model(), id@) && locale_of(id@) is None ==> (r matches Err(e)
            && e is UnknownAppleSpeechModel) && final(downloads).model() == old(downloads).model(),
{
    if downloads.is_active(id) {
        match cancel_apple_speech_model_download(id, downloads) {
            Ok(Some(run)) => Ok(AppleSpeechReleaseStep::CancelledDownload(run)),
            Ok(None) => Ok(AppleSpeechReleaseStep::ReleaseWithHelper),
            Err(e) => Err(e),
        }
    } else {
        Ok(AppleSpeechReleaseStep::ReleaseWithHelper)
    }
}

/// After the helper released locale model `id`: its record is dropped and
/// the locale listing is asked for again.
pub fn finish_apple_speech_release(
    id: &str,
    downloads: &mut DownloadRegistry<AppleSpeechInstallState>,
    cache: &mut AppleModelCache,
)
    requires
        old(downloads).wf(),
    ensures
        final(downloads).wf(),
        final(downloads).cancelled_ids() == old(downloads).cancelled_ids(),
        final(downloads).model() == old(downloads).model().remove(id@),
        final(cache).speech_models is None,
        final(cache).speech_unavailable_reason is None,
        final(cache).foundation_models == old(cache).foundation_models,
        final(cache).capabilities == old(cache).capabilities,
{
    downloads.clear(id);
    invalidate_apple_speech_model_cache(cache);
}

/// Whether any locale model is being downloaded or cancelled.
pub fn apple_speech_has_active_downloads(downloads: &DownloadRegistry<AppleSpeechInstallState>) -> (r: bool)
    requires
        downloads.wf(),
    ensures
        r == exists|k: Seq<char>| active_in(downloads.model(), k),
{
    downloads.any_active()
}

/// The recorded state of a download of `id`, if any.
pub fn apple_speech_transient_install_state(
    id: &str,
    downloads: &DownloadRegistry<AppleSpeechInstallState>,
) -> (r: Option<AppleSpeechInstallState>)
    requires
        downloads.wf(),
    ensures
        match r {
            Some(s) => downloads.model().contains_key(id@) && s == downloads.model()[id@].state,
            None => !downloads.model().contains_key(id@),
        },
{
    match downloads.state_ref(id) {
        Some(s) => Some(s.duplicate()),
        None => None,
    }
}

pub fn apple_speech_is_downloading(state: &AppleSpeechInstallState) -> (r: bool)
    ensures
        r == (*state is Downloading),
{
    match state {
        AppleSpeechInstallState::Downloading { .. } => true,
        _ => false,
    }
}

/// Records install progress for `run`, unless it is stale or its model is
/// no longer downloading (for example, being cancelled).
pub fn update_apple_speech_download_progress(
    run: &DownloadRun,
    progress_ppm: Option<u32>,
    downloads: &mut DownloadRegistry<AppleSpeechInstallState>,
) -> (r: bool)
    requires
        old(downloads).wf(),
    ensures
        final(downloads).wf(),
        final(downloads).cancelled_ids() == old(downloads).cancelled_ids(),
        final(downloads).next_id() == old(downloads).next_id(),
        (final(downloads).model(), r) == after_update(
            old(downloads).model(),
            run.id_view(),
            run.run_id_view(),
            AppleSpeechInstallState::Downloading { progress_ppm },
            old(downloads).model().contains_key(run.id_view()) && old(downloads).model()[run.id_view()].state is Downloading,
        ),
{
    downloads.update_if_current(
        run,
        AppleSpeechInstallState::Downloading { progress_ppm },
        apple_speech_is_downloading,
    )
}

/// Applies the outcome of `run` and forgets the locale listing. Returns
/// whether the caller must ask the helper to release the model: a failed
/// run that had been cancelled may have left a partial install.
pub fn finish_apple_speech_model_download(
    run: &DownloadRun,
    outcome: Result<(), String>,
    downloads: &mut DownloadRegistry<AppleSpeechInstallState>,
    cache: &mut AppleModelCache,
) -> (r: bool)
    requires
        old(downloads).wf(),
    ensures
        final(downloads).wf(),
        final(downloads).cancelled_ids() == old(downloads).cancelled_ids(),
        final(cache).speech_models is None,
        final(cache).speech_unavailable_reason is None,
        final(cache).foundation_models == old(cache).foundation_models,
        final(cache).capabilities == old(cache).capabilities,
        match outcome {
            Ok(()) => !r && final(downloads).model() == after_finish_clear(
                old(downloads).model(),
                run.id_view(),
                run.run_id_view(),
            ).0,
            Err(message) => {
                let (m, finish) = after_finish_error(
                    old(downloads).model(),
                    run.id_view(),
                    run.run_id_view(),
                    AppleSpeechInstallState::Failed(message),
                );
                &&& final(downloads).model() == m
                &&& r == (finish == DownloadFinish::Cancelled)
            },
        },
{
    let release = match outcome {
        Ok(()) => {
            let _ = downloads.finish_clear(run);
            false
        },
        Err(message) => {
            let finish = downloads.finish_error(run, AppleSpeechInstallState::Failed(message));
            finish == DownloadFinish::Cancelled
        },
    };
    invalidate_apple_speech_model_cache(cache);
    release
}

/// Progress in millionths: the whole.
pub const PROGRESS_COMPLETE_PPM: u32 = 1000000;

/// One event the Apple Speech installer reports. Its progress fraction, when
/// it gives one, is handed over in millionths.
#[derive(Debug, Clone)]
pub struct AppleSpeechInstallProgress {
    pub model_id: String,
    pub ok: bool,
    pub error: Option<String>,
    pub event: String,
    pub progress_ppm: Option<u32>,
}

/// What the installer's report said by the time it ended.
#[derive(Debug, Clone)]
pub struct AppleSpeechInstallOutcome {
    pub saw_finished: bool,
    pub helper_error: Option<String>,
}

impl AppleSpeechInstallOutcome {
    /// Nothing reported yet.
    pub fn new() -> (r: AppleSpeechInstallOutcome)
        ensures
            !r.saw_finished,
            r.helper_error is None,
    {
        AppleSpeechInstallOutcome { saw_finished: false, helper_error: None }
    }
}

/// The text of an installer output line worth reading: the line trimmed,
/// unless it is blank.
pub fn install_progress_line(line: &str) -> (r: Option<String>)
    ensures
        match r {
            Some(t) => trim_spec(line@).len() > 0 && t@ == trim_spec(line@),
            None => trim_spec(line@).len() == 0,
        },
{
    let t = trim_string(line);
    if t.as_str().unicode_len() == 0 {
        None
    } else {
        Some(t)
    }
}

/// Whether an installer event is about another model.
pub open spec fn about_other_model(event: AppleSpeechInstallProgress, id: Seq<char>) -> bool {
    event.model_id@.len() > 0 && event.model_id@ != id
}

/// Takes in one installer event of `run`. Events about other models are
/// ignored. A failure is recorded (with a generic message when the helper
/// gave none) and ends the reading; a `finished` event is recorded and
/// shows full progress; a `progress` event shows its progress. Returns
/// whether to keep reading.
pub fn read_install_progress_event(
    run: &DownloadRun,
    event: AppleSpeechInstallProgress,
    outcome: &mut AppleSpeechInstallOutcome,
    downloads: &mut DownloadRegistry<AppleSpeechInstallState>,
) -> (keep_reading: bool)
    requires
        old(downloads).wf(),
    ensures
        final(downloads).wf(),
        final(downloads).cancelled_ids() == old(downloads).cancelled_ids(),
        final(downloads).next_id() == old(downloads).next_id(),
        about_other_model(event, run.id_view()) ==> keep_reading && *final(outcome) == *old(outcome)
            && final(downloads).model() == old(downloads).model(),
        !about_other_model(event, run.id_view()) && !event.ok ==> {
            &&& !keep_reading
            &&& final(outcome).saw_finished == old(outcome).saw_finished
            &&& final(outcome).helper_error == Some(
                match event.error {
                    Some(e) => e,
                    None => final(outcome).helper_error.unwrap(),
                },
            )
            &&& event.error is None ==> final(outcome).helper_error.unwrap()@ == "Apple Speech install failed"@
            &&& final(downloads).model() == old(downloads).model()
        },
        !about_other_model(event, run.id_view()) && event.ok ==> {
            &&& keep_reading
            &&& final(outcome).helper_error == old(outcome).helper_error
            &&& final(outcome).saw_finished == (old(outcome).saw_finished || event.event@ == "finished"@)
            &&& event.event@ == "finished"@ ==> final(downloads).model() == after_update(
                old(downloads).model(),
                run.id_view(),
                run.run_id_view(),
                AppleSpeechInstallState::Downloading { progress_ppm: Some(PROGRESS_COMPLETE_PPM) },
                old(downloads).model().contains_key(run.id_view()) && old(downloads).model()[run.id_view()].state is Downloading,
            ).0
            &&& event.event@ == "progress"@ ==> final(downloads).model() == after_update(
                old(downloads).model(),
                run.id_view(),
                run.run_id_view(),
                AppleSpeechInstallState::Downloading { progress_ppm: event.progress_ppm },
                old(downloads).model().contains_key(run.id_view()) && old(downloads).model()[run.id_view()].state is Downloading,
            ).0
            &&& event.event@ != "finished"@ && event.event@ != "progress"@ ==> final(downloads).model()
                == old(downloads).model()
        },
{
    if event.model_id.as_str().unicode_len() != 0 && !str_eq(event.model_id.as_str(), run.id()) {
        return true;
    }
    if !event.ok {
        outcome.helper_error = Some(
            match event.error {
                Some(e) => e,
                None => String::from_str("Apple Speech install failed"),
            },
        );
        return false;
    }
    proof {
        reveal_strlit("finished");
        reveal_strlit("progress");
        assert("finished"@[0] != "progress"@[0]);
    }
    if str_eq(event.event.as_str(), "finished") {
        outcome.saw_finished = true;
        let _ = update_apple_speech_download_progress(run, Some(PROGRESS_COMPLETE_PPM), downloads);
    } else if str_eq(event.event.as_str(), "progress") {
        let _ = update_apple_speech_download_progress(run, event.progress_ppm, downloads);
    }
    true
}

/// Why an Apple Speech install failed.
#[derive(Debug, Clone)]
pub enum AppleSpeechInstallFailure {
    /// The download was cancelled.
    Cancelled,
    /// The helper exited unsuccessfully.
    HelperExited,
    /// The helper reported an error.
    HelperError(String),
    /// The helper exited without reporting the install finished.
    Incomplete,
}

/// The result of an install once the helper exited: a cancellation wins,
/// then an unsuccessful exit, then a reported error; success needs the
/// helper to have reported that the install finished.
pub fn apple_speech_install_result(
    cancelled: bool,
    exit_success: bool,
    outcome: AppleSpeechInstallOutcome,
) -> (r: Result<(), AppleSpeechInstallFailure>)
    ensures
        cancelled ==> r matches Err(AppleSpeechInstallFailure::Cancelled),
        !cancelled && !exit_success ==> r matches Err(AppleSpeechInstallFailure::HelperExited),
        !cancelled && exit_success && outcome.helper_error is Some ==> r == Err::<(), AppleSpeechInstallFailure>(
            AppleSpeechInstallFailure::HelperError(outcome.helper_error.unwrap()),
        ),
        !cancelled && exit_success && outcome.helper_error is None && !outcome.saw_finished ==> r matches Err(
            AppleSpeechInstallFailure::Incomplete,
        ),
        !cancelled && exit_success && outcome.helper_error is None && outcome.saw_finished ==> r is Ok,
{
    if cancelled {
        return Err(AppleSpeechInstallFailure::Cancelled);
    }
    if !exit_success {
        return Err(AppleSpeechInstallFailure::HelperExited);
    }
    if let Some(error) = outcome.helper_error {
        return Err(AppleSpeechInstallFailure::HelperError(error));
    }
    if !outcome.saw_finished {
        return Err(AppleSpeechInstallFailure::Incomplete);
    }
    Ok(())
}

/// The Apple helper's answer to a command, as parsed.
#[derive(Debug, Clone)]
pub struct HelperResponse {
    pub ok: bool,
    pub text: Option<String>,
    pub speech_models: Vec<AppleSpeechModel>,
    pub foundation_models: Vec<AppleFoundationModel>,
    pub apple_speech_available: bool,
    pub apple_speech_reason: String,
    pub foundation_models_reason: String,
    pub error: Option<String>,
}

/// The capabilities the helper's `capabilities` answer reports.
pub fn capabilities(response: HelperResponse) -> (r: AppleCapabilities)
    ensures
        r.apple_speech_available == response.apple_speech_available,
        r.apple_speech_reason == response.apple_speech_reason,
        r.foundation_models_reason == response.foundation_models_reason,
{
    AppleCapabilities {
        apple_speech_available: response.apple_speech_available,
        apple_speech_reason: response.apple_speech_reason,
        foundation_models_reason: response.foundation_models_reason,
    }
}

/// The locale models the helper's `speech-models` answer lists.
pub fn speech_models(response: HelperResponse) -> (r: Vec<AppleSpeechModel>)
    ensures
        r == response.speech_models,
{
    response.speech_models
}

/// The foundation models the helper's `foundation-models` answer lists.
pub fn foundation_models(response: HelperResponse) -> (r: Vec<AppleFoundationModel>)
    ensures
        r == response.foundation_models,
{
    response.foundation_models
}

/// The text of a `transcribe` or `cleanup` answer, trimmed; `missing` when
/// the answer holds none.
pub fn helper_text(response: HelperResponse, missing: GlideError) -> (r: Result<String, GlideError>)
    ensures
        match response.text {
            Some(t) => r matches Ok(s) && s@ == trim_spec(t@),
            None => r == Err::<String, GlideError>(missing),
        },
{
    match response.text {
        Some(t) => Ok(trim_string(t.as_str())),
        None => Err(missing),
    }
}

} // verus!
