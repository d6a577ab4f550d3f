//! Speech and language model providers, and the credentials Glide keeps for
//! the remote ones.
use vstd::prelude::*;

use crate::text::{is_blank, str_eq, trim_spec};

verus! {

/// Number of remote (network) providers; each has a verification slot.
pub const REMOTE_PROVIDER_COUNT: usize = 5;

/// A source of transcription or clean-up models.
#[derive(Debug, Clone, Copy, PartialEq, Eq, Structural)]
pub enum Provider {
    OpenAi,
    Groq,
    Cerebras,
    Fireworks,
    ElevenLabs,
    AppleLocal,
    Parakeet,
}

/// The label a provider is shown (and stored in model lists) under.
pub open spec fn label_of(p: Provider) -> Seq<char> {
    match p {
        Provider::OpenAi => "OpenAI"@,
        Provider::Groq => "Groq"@,
        Provider::Cerebras => "Cerebras"@,
        Provider::Fireworks => "Fireworks"@,
        Provider::ElevenLabs => "ElevenLabs"@,
        Provider::AppleLocal => "Apple Intelligence"@,
        Provider::Parakeet => "Parakeet"@,
    }
}

/// The logo asset a provider is shown with.
pub open spec fn logo_of(p: Provider) -> Seq<char> {
    match p {
        Provider::OpenAi => "assets/providers/openai.svg"@,
        Provider::Groq => "assets/providers/groq.svg"@,
        Provider::Cerebras => "assets/providers/cerebras.svg"@,
        Provider::Fireworks => "assets/providers/fireworks.svg"@,
        Provider::ElevenLabs => "assets/providers/elevenlabs.svg"@,
        Provider::AppleLocal => "assets/providers/apple.svg"@,
        Provider::Parakeet => "assets/providers/parakeet.svg"@,
    }
}

/// Slot of a remote provider in the verification table.
pub open spec fn remote_index_of(p: Provider) -> Option<int> {
    match p {
        Provider::OpenAi => Some(0),
        Provider::Groq => Some(1),
        Provider::Cerebras => Some(2),
        Provider::Fireworks => Some(3),
        Provider::ElevenLabs => Some(4),
        Provider::AppleLocal => None,
        Provider::Parakeet => None,
    }
}

/// Identifier a remote provider's API key is stored under.
pub open spec fn key_id_of(p: Provider) -> Option<Seq<char>> {
    match p {
        Provider::OpenAi => Some("openai"@),
        Provider::Groq => Some("groq"@),
        Provider::Cerebras => Some("cerebras"@),
        Provider::Fireworks => Some("fireworks"@),
        Provider::ElevenLabs => Some("elevenlabs"@),
        Provider::AppleLocal => None,
        Provider::Parakeet => None,
    }
}

/// The provider whose label is `label`, if any.
pub open spec fn provider_with_label(label: Seq<char>) -> Option<Provider> {
    if label == label_of(Provider::OpenAi) {
        Some(Provider::OpenAi)
    } else if label == label_of(Provider::Groq) {
        Some(Provider::Groq)
    } else if label == label_of(Provider::Cerebras) {
        Some(Provider::Cerebras)
    } else if label == label_of(Provider::Fireworks) {
        Some(Provider::Fireworks)
    } else if label == label_of(Provider::ElevenLabs) {
        Some(Provider::ElevenLabs)
    } else if label == label_of(Provider::AppleLocal) {
        Some(Provider::AppleLocal)
    } else if label == label_of(Provider::Parakeet) {
        Some(Provider::Parakeet)
    } else {
        None
    }
}

/// The provider whose key identifier is `key_id`, if any.
pub open spec fn provider_with_key_id(key_id: Seq<char>) -> Option<Provider> {
    if key_id == "openai"@ {
        Some(Provider::OpenAi)
    } else if key_id == "groq"@ {
        Some(Provider::Groq)
    } else if key_id == "cerebras"@ {
        Some(Provider::Cerebras)
    } else if key_id == "fireworks"@ {
        Some(Provider::Fireworks)
    } else if key_id == "elevenlabs"@ {
        Some(Provider::ElevenLabs)
    } else {
        None
    }
}

/// The remote provider in verification slot `i`.
pub open spec fn remote_at(i: int) -> Provider {
    if i == 0 {
        Provider::OpenAi
    } else if i == 1 {
        Provider::Groq
    } else if i == 2 {
        Provider::Cerebras
    } else if i == 3 {
        Provider::Fireworks
    } else {
        Provider::ElevenLabs
    }
}

/// Labels of distinct providers differ, so a label names one provider.
pub proof fn law_label_names_one_provider(p: Provider)
    ensures
        provider_with_label(label_of(p)) == Some(p),
{
    reveal_strlit("OpenAI");
    reveal_strlit("Groq");
    reveal_strlit("Cerebras");
    reveal_strlit("Fireworks");
    reveal_strlit("ElevenLabs");
    reveal_strlit("Apple Intelligence");
    reveal_strlit("Parakeet");
    assert(label_of(Provider::OpenAi).len() == 6);
    assert(label_of(Provider::Groq).len() == 4);
    assert(label_of(Provider::Cerebras).len() == 8);
    assert(label_of(Provider::Fireworks).len() == 9);
    assert(label_of(Provider::ElevenLabs).len() == 10);
    assert(label_of(Provider::AppleLocal).len() == 18);
    assert(label_of(Provider::Parakeet).len() == 8);
    assert(label_of(Provider::Cerebras)[0] == 'C');
    assert(label_of(Provider::Parakeet)[0] == 'P');
}

/// Key identifiers of distinct remote providers differ.
pub proof fn law_key_id_names_one_provider(p: Provider)
    ensures
        key_id_of(p) matches Some(k) ==> provider_with_key_id(k) == Some(p),
{
    reveal_strlit("openai");
    reveal_strlit("groq");
    reveal_strlit("cerebras");
    reveal_strlit("fireworks");
    reveal_strlit("elevenlabs");
    assert("openai"@.len() == 6);
    assert("groq"@.len() == 4);
    assert("cerebras"@.len() == 8);
    assert("fireworks"@.len() == 9);
    assert("elevenlabs"@.len() == 10);
}

/// Verification slots and remote providers correspond one to one.
pub proof fn law_remote_slots_round_trip(p: Provider)
    ensures
        remote_index_of(p) matches Some(i) ==> 0 <= i < REMOTE_PROVIDER_COUNT && remote_at(i) == p,
        forall|i: int| 0 <= i < REMOTE_PROVIDER_COUNT ==> remote_index_of(#[trigger] remote_at(i)) == Some(i),
{
}

impl Provider {
    pub fn label(self) -> (r: &'static str)
        ensures
            r@ == label_of(self),
    {
        match self {
            Provider::OpenAi => "OpenAI",
            Provider::Groq => "Groq",
            Provider::Cerebras => "Cerebras",
            Provider::Fireworks => "Fireworks",
            Provider::ElevenLabs => "ElevenLabs",
            Provider::AppleLocal => "Apple Intelligence",
            Provider::Parakeet => "Parakeet",
        }
    }

    pub fn logo(self) -> (r: &'static str)
        ensures
            r@ == logo_of(self),
    {
        match self {
            Provider::OpenAi => "assets/providers/openai.svg",
            Provider::Groq => "assets/providers/groq.svg",
            Provider::Cerebras => "assets/providers/cerebras.svg",
            Provider::Fireworks => "assets/providers/fireworks.svg",
            Provider::ElevenLabs => "assets/providers/elevenlabs.svg",
            Provider::AppleLocal => "assets/providers/apple.svg",
            Provider::Parakeet => "assets/providers/parakeet.svg",
        }
    }

    pub fn is_local(self) -> (r: bool)
        ensures
            r == (remote_index_of(self) is None),
    {
        match self {
            Provider::AppleLocal | Provider::Parakeet => true,
            _ => false,
        }
    }

    pub fn remote_index(self) -> (r: Option<usize>)
        ensures
            match r {
                Some(i) => remote_index_of(self) == Some(i as int),
                None => remote_index_of(self) is None,
            },
    {
        match self {
            Provider::OpenAi => Some(0),
            Provider::Groq => Some(1),
            Provider::Cerebras => Some(2),
            Provider::Fireworks => Some(3),
            Provider::ElevenLabs => Some(4),
            Provider::AppleLocal => None,
            Provider::Parakeet => None,
        }
    }

    /// The remote provider in verification slot `i`.
    pub fn remote_from_index(i: usize) -> (r: Provider)
        requires
            i < REMOTE_PROVIDER_COUNT,
        ensures
            r == remote_at(i as int),
    {
        if i == 0 {
            Provider::OpenAi
        } else if i == 1 {
            Provider::Groq
        } else if i == 2 {
            Provider::Cerebras
        } else if i == 3 {
            Provider::Fireworks
        } else {
            Provider::ElevenLabs
        }
    }

    pub fn key_id(self) -> (r: Option<&'static str>)
        ensures
            match r {
                Some(k) => key_id_of(self) == Some(k@),
                None => key_id_of(self) is None,
            },
    {
        match self {
            Provider::OpenAi => Some("openai"),
            Provider::Groq => Some("groq"),
            Provider::Cerebras => Some("cerebras"),
            Provider::Fireworks => Some("fireworks"),
            Provider::ElevenLabs => Some("elevenlabs"),
            Provider::AppleLocal => None,
            Provider::Parakeet => None,
        }
    }

    pub fn from_key_id(key_id: &str) -> (r: Option<Provider>)
        ensures
            r == provider_with_key_id(key_id@),
    {
        if str_eq(key_id, "openai") {
            Some(Provider::OpenAi)
        } else if str_eq(key_id, "groq") {
            Some(Provider::Groq)
        } else if str_eq(key_id, "cerebras") {
            Some(Provider::Cerebras)
        } else if str_eq(key_id, "fireworks") {
            Some(Provider::Fireworks)
        } else if str_eq(key_id, "elevenlabs") {
            Some(Provider::ElevenLabs)
        } else {
            None
        }
    }

    /// The provider a model list entry names by its label.
    pub fn from_model_info_provider(label: &str) -> (r: Option<Provider>)
        ensures
            r == provider_with_label(label@),
    {
        if str_eq(label, Provider::OpenAi.label()) {
            Some(Provider::OpenAi)
        } else if str_eq(label, Provider::Groq.label()) {
            Some(Provider::Groq)
        } else if str_eq(label, Provider::Cerebras.label()) {
            Some(Provider::Cerebras)
        } else if str_eq(label, Provider::Fireworks.label()) {
            Some(Provider::Fireworks)
        } else if str_eq(label, Provider::ElevenLabs.label()) {
            Some(Provider::ElevenLabs)
        } else if str_eq(label, Provider::AppleLocal.label()) {
            Some(Provider::AppleLocal)
        } else if str_eq(label, Provider::Parakeet.label()) {
            Some(Provider::Parakeet)
        } else {
            None
        }
    }
}

/// API key and endpoint of one remote provider.
#[derive(Debug, Clone)]
pub struct ProviderCredentials {
    pub api_key: String,
    pub base_url: String,
}

impl ProviderCredentials {
    /// A copy with the same key and endpoint.
    pub fn duplicate(&self) -> (r: ProviderCredentials)
        ensures
            r == *self,
    {
        ProviderCredentials { api_key: self.api_key.clone(), base_url: self.base_url.clone() }
    }
}

/// Whether the key or the endpoint is blank, so no request can be made.
pub open spec fn credentials_missing_spec(c: ProviderCredentials) -> bool {
    trim_spec(c.api_key@).len() == 0 || trim_spec(c.base_url@).len() == 0
}

pub fn credentials_missing(credentials: &ProviderCredentials) -> (r: bool)
    ensures
        r == credentials_missing_spec(*credentials),
{
    is_blank(credentials.api_key.as_str()) || is_blank(credentials.base_url.as_str())
}

/// Credentials of every remote provider.
#[derive(Debug, Clone)]
pub struct ProvidersConfig {
    pub openai: ProviderCredentials,
    pub groq: ProviderCredentials,
    pub cerebras: ProviderCredentials,
    pub fireworks: ProviderCredentials,
    pub elevenlabs: ProviderCredentials,
}

impl ProvidersConfig {
    pub open spec fn credentials_of(self, p: Provider) -> Option<ProviderCredentials> {
        match p {
            Provider::OpenAi => Some(self.openai),
            Provider::Groq => Some(self.groq),
            Provider::Cerebras => Some(self.cerebras),
            Provider::Fireworks => Some(self.fireworks),
            Provider::ElevenLabs => Some(self.elevenlabs),
            Provider::AppleLocal => None,
            Provider::Parakeet => None,
        }
    }

    pub fn credentials_for(&self, provider: Provider) -> (r: Option<&ProviderCredentials>)
        ensures
            match r {
                Some(c) => self.credentials_of(provider) == Some(*c),
                None => self.credentials_of(provider) is None,
            },
    {
        match provider {
            Provider::OpenAi => Some(&self.openai),
            Provider::Groq => Some(&self.groq),
            Provider::Cerebras => Some(&self.cerebras),
            Provider::Fireworks => Some(&self.fireworks),
            Provider::ElevenLabs => Some(&self.elevenlabs),
            Provider::AppleLocal => None,
            Provider::Parakeet => None,
        }
    }

    /// Every remote provider with a copy of its credentials, in slot order.
    pub fn remote_credentials(&self) -> (r: Vec<(Provider, ProviderCredentials)>)
        ensures
            r@.len() == REMOTE_PROVIDER_COUNT,
            forall|i: int|
                0 <= i < REMOTE_PROVIDER_COUNT ==> #[trigger] r@[i] == (
                    remote_at(i),
                    self.credentials_of(remote_at(i)).unwrap(),
                ),
    {
        let mut r = Vec::new();
        r.push((Provider::OpenAi, self.openai.duplicate()));
        r.push((Provider::Groq, self.groq.duplicate()));
        r.push((Provider::Cerebras, self.cerebras.duplicate()));
        r.push((Provider::Fireworks, self.fireworks.duplicate()));
        r.push((Provider::ElevenLabs, self.elevenlabs.duplicate()));
        r
    }
}

impl ProvidersConfig {
    /// A copy with the same credentials.
    pub fn duplicate(&self) -> (r: ProvidersConfig)
        ensures
            r == *self,
    {
        ProvidersConfig {
            openai: self.openai.duplicate(),
            groq: self.groq.duplicate(),
            cerebras: self.cerebras.duplicate(),
            fireworks: self.fireworks.duplicate(),
            elevenlabs: self.elevenlabs.duplicate(),
        }
    }
}

/// No key, and the provider's public API endpoint.
fn endpoint_only(base_url: &str) -> (r: ProviderCredentials)
    ensures
        r.api_key@.len() == 0,
        r.base_url@ == base_url@,
{
    ProviderCredentials { api_key: String::new(), base_url: String::from_str(base_url) }
}

impl Default for ProvidersConfig {
    /// No keys; each provider at its public API endpoint.
    fn default() -> (r: ProvidersConfig)
        ensures
            r.openai.api_key@.len() == 0 && r.openai.base_url@ == "https://api.openai.com/v1"@,
            r.groq.api_key@.len() == 0 && r.groq.base_url@ == "https://api.groq.com/openai/v1"@,
            r.cerebras.api_key@.len() == 0 && r.cerebras.base_url@ == "https://api.cerebras.ai/v1"@,
            r.fireworks.api_key@.len() == 0 && r.fireworks.base_url@ == "https://api.fireworks.ai/inference/v1"@,
            r.elevenlabs.api_key@.len() == 0 && r.elevenlabs.base_url@ == "https://api.elevenlabs.io/v1"@,
    {
        ProvidersConfig {
            openai: endpoint_only("https://api.openai.com/v1"),
            groq: endpoint_only("https://api.groq.com/openai/v1"),
            cerebras: endpoint_only("https://api.cerebras.ai/v1"),
            fireworks: endpoint_only("https://api.fireworks.ai/inference/v1"),
            elevenlabs: endpoint_only("https://api.elevenlabs.io/v1"),
        }
    }
}

} // verus!
