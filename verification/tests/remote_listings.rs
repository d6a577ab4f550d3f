use glide::catalog::{model_info, model_info_with_display, ModelCatalog, provider_verified, LocalModels};
use glide::llm::{
    capped_error_body, chat_completion_request, first_choice_text, lowered_model_rejects_temperature_zero,
    lowered_reasoning_effort, openai_model_rejects_temperature_zero, reasoning_effort, ChatMessage,
};
use glide::error::GlideError;
use glide::model_check::{model_check_result, missing_models, model_checks, provider_check, shipped_models, ModelCheckFailure, ProviderCheck};
use glide::net::{should_retry, transient_status};
use glide::provider::{Provider, ProvidersConfig};
use glide::remote::{
    append_provider_models, elevenlabs_account_check, models_url, plan_model_fetch, record_elevenlabs_listing, record_provider_listing,
    remote_model_route, user_url, DiscoveredModels, ModelRoute, ModelsResponseEntry,
};

fn entry(id: &str, active: Option<bool>) -> ModelsResponseEntry {
    ModelsResponseEntry { id: id.to_string(), active }
}

fn no_local_models() -> LocalModels {
    LocalModels { apple_speech: Vec::new(), apple_foundation: Vec::new(), parakeet: Vec::new() }
}

#[test]
fn listed_models_are_filed_by_kind() {
    let mut discovered = DiscoveredModels::new();
    append_provider_models(
        Provider::Groq,
        vec![
            entry("Whisper-Large-V3", None),
            entry("llama-3.3-70b-versatile", Some(true)),
            entry("llama-guard-4", None),
            entry("old-model", Some(false)),
        ],
        &mut discovered,
    );
    let stt: Vec<&str> = discovered.stt.iter().map(|m| m.id.as_str()).collect();
    let llm: Vec<&str> = discovered.llm.iter().map(|m| m.id.as_str()).collect();
    assert_eq!(stt, ["Whisper-Large-V3"]);
    assert_eq!(llm, ["llama-3.3-70b-versatile"]);
    assert_eq!(discovered.stt[0].provider, "Groq");

    let mut cerebras = DiscoveredModels::new();
    append_provider_models(Provider::Cerebras, vec![entry("whisper-x", None)], &mut cerebras);
    assert!(cerebras.stt.is_empty() && cerebras.llm.is_empty());
    assert_eq!(remote_model_route(Provider::Cerebras, "whisper-x"), ModelRoute::Hidden);
    assert_eq!(remote_model_route(Provider::OpenAi, "text-embedding-3"), ModelRoute::Hidden);
}

#[test]
fn fireworks_listing_is_completed_with_relied_on_models() {
    let mut discovered = DiscoveredModels::new();
    append_provider_models(
        Provider::Fireworks,
        vec![entry("whisper-v3", None), entry("accounts/fireworks/models/gpt-oss-120b", None)],
        &mut discovered,
    );
    let stt: Vec<&str> = discovered.stt.iter().map(|m| m.id.as_str()).collect();
    let llm: Vec<&str> = discovered.llm.iter().map(|m| m.id.as_str()).collect();
    assert_eq!(stt, ["whisper-v3", "whisper-v3-turbo"]);
    assert_eq!(llm, ["accounts/fireworks/models/gpt-oss-120b", "accounts/fireworks/models/gpt-oss-20b"]);
}

#[test]
fn listings_verify_providers_and_are_published_sorted() {
    let mut catalog = ModelCatalog::new();
    let mut providers = ProvidersConfig::default();
    providers.groq.api_key = "gsk".to_string();
    providers.elevenlabs.api_key = "  xi  ".to_string();
    providers.elevenlabs.base_url = "https://api.elevenlabs.io/v1//".to_string();
    let requests = plan_model_fetch(&providers, &mut catalog);
    let planned: Vec<(Provider, &str, &str)> =
        requests.iter().map(|r| (r.provider, r.url.as_str(), r.api_key.as_str())).collect();
    assert_eq!(
        planned,
        [
            (Provider::Groq, "https://api.groq.com/openai/v1/models", "gsk"),
            (Provider::ElevenLabs, "https://api.elevenlabs.io/v1/models", "xi"),
        ]
    );

    let mut discovered = DiscoveredModels::new();
    record_provider_listing(&mut catalog, &mut discovered, Provider::Groq, Some(vec![entry("zeta", None), entry("alpha", None)]));
    record_provider_listing(&mut catalog, &mut discovered, Provider::OpenAi, None);
    record_elevenlabs_listing(&mut catalog, &mut discovered, None, true);
    let local = no_local_models();
    assert!(provider_verified(&catalog, &local, Provider::Groq));
    assert!(!provider_verified(&catalog, &local, Provider::OpenAi));
    assert!(provider_verified(&catalog, &local, Provider::ElevenLabs));

    discovered.sort();
    let llm: Vec<&str> = discovered.llm.iter().map(|m| m.id.as_str()).collect();
    assert_eq!(llm, ["alpha", "zeta"]);
    let stt: Vec<(&str, &str)> = discovered.stt.iter().map(|m| (m.provider.as_str(), m.id.as_str())).collect();
    assert_eq!(stt, [("ElevenLabs", "scribe_v1"), ("ElevenLabs", "scribe_v2")]);
    discovered.publish(&mut catalog);
    assert_eq!(catalog.cached_llm.len(), 2);
    assert_eq!(catalog.cached_stt[0].id, "scribe_v1");
}

#[test]
fn sorting_is_by_provider_then_id() {
    let mut discovered = DiscoveredModels::new();
    discovered.llm = vec![
        model_info(Provider::OpenAi, "b", false),
        model_info(Provider::Groq, "z", false),
        model_info(Provider::OpenAi, "a", false),
        model_info(Provider::Cerebras, "m", false),
    ];
    discovered.sort();
    let order: Vec<(&str, &str)> = discovered.llm.iter().map(|m| (m.provider.as_str(), m.id.as_str())).collect();
    assert_eq!(order, [("Cerebras", "m"), ("Groq", "z"), ("OpenAI", "a"), ("OpenAI", "b")]);
}

#[test]
fn endpoints_drop_trailing_slashes() {
    assert_eq!(models_url("https://x/v1/"), "https://x/v1/models");
    assert_eq!(user_url("https://x/v1"), "https://x/v1/user");
}

#[test]
fn retries_only_transient_failures() {
    assert!(should_retry(None));
    assert!(should_retry(Some(500)));
    assert!(should_retry(Some(503)));
    assert!(should_retry(Some(429)));
    assert!(should_retry(Some(408)));
    assert!(!should_retry(Some(200)));
    assert!(!should_retry(Some(404)));
    assert!(!transient_status(600));
}

#[test]
fn chat_requests_follow_the_model() {
    assert!(openai_model_rejects_temperature_zero(" GPT-5-mini "));
    assert!(openai_model_rejects_temperature_zero("o3"));
    assert!(!openai_model_rejects_temperature_zero("gpt-4o"));
    assert_eq!(reasoning_effort("openai/GPT-OSS-20b"), Some("low"));
    assert_eq!(reasoning_effort("llama"), None);

    let request = chat_completion_request(Provider::OpenAi, "gpt-5.4-nano", "system", "user text".to_string());
    assert!(!request.zero_temperature);
    assert_eq!(request.messages[0].role, "system");
    assert_eq!(request.messages[1].content, "user text");
    let request = chat_completion_request(Provider::Groq, "gpt-5.4-nano", "s", String::new());
    assert!(request.zero_temperature);

    let choices = vec![ChatMessage { role: "assistant".to_string(), content: "  cleaned \n".to_string() }];
    assert_eq!(first_choice_text(&choices).unwrap(), "cleaned");
    assert!(matches!(first_choice_text(&[]), Err(GlideError::NoChatChoices)));
}

#[test]
fn error_bodies_are_capped() {
    assert_eq!(capped_error_body("  "), "<empty response body>");
    assert_eq!(capped_error_body(" oops "), "oops");
    let long = "é".repeat(5000);
    let capped = capped_error_body(&long);
    assert_eq!(capped.chars().count(), 4096 + "... [truncated]".len());
    assert!(capped.ends_with("... [truncated]"));
}

#[test]
fn shipped_models_are_sorted_and_unique() {
    let groq = shipped_models(Provider::Groq);
    assert_eq!(
        groq,
        [
            "llama-3.1-8b-instant",
            "llama-3.3-70b-versatile",
            "openai/gpt-oss-20b",
            "whisper-large-v3",
            "whisper-large-v3-turbo",
        ]
    );
    let available = vec!["whisper-large-v3".to_string(), "llama-3.3-70b-versatile".to_string()];
    assert_eq!(
        missing_models(&groq, &available),
        ["llama-3.1-8b-instant", "openai/gpt-oss-20b", "whisper-large-v3-turbo"]
    );
    assert_eq!(provider_check(&[], true), ProviderCheck::AllLive);
    assert_eq!(provider_check(&groq, false), ProviderCheck::NotListed);
    assert_eq!(provider_check(&groq, true), ProviderCheck::Missing);
    assert_eq!(model_check_result(0, 0), Err(ModelCheckFailure::NoKeys));
    assert_eq!(model_check_result(2, 1), Err(ModelCheckFailure::MissingModels));
    assert_eq!(model_check_result(2, 0), Ok(()));
    assert_eq!(model_checks().len(), 4);
}

#[test]
fn lowercased_names_decide_temperature_and_effort() {
    assert!(lowered_model_rejects_temperature_zero("gpt-5-mini"));
    assert!(lowered_model_rejects_temperature_zero("o4-mini"));
    assert!(!lowered_model_rejects_temperature_zero("gpt-4.1"));
    assert_eq!(lowered_reasoning_effort("openai/gpt-oss-120b"), Some("low"));
    assert_eq!(lowered_reasoning_effort("llama-3.3-70b"), None);
}

#[test]
fn sorting_keeps_the_order_of_equal_entries() {
    let mut discovered = DiscoveredModels::new();
    discovered.stt = vec![
        model_info_with_display(Provider::Groq, "whisper", "second listing", false),
        model_info_with_display(Provider::Fireworks, "whisper-v3", "Whisper v3", false),
        model_info_with_display(Provider::Groq, "whisper", "first listing", false),
        model_info_with_display(Provider::Groq, "distil", "Distil", false),
    ];
    discovered.sort();
    let names: Vec<&str> = discovered.stt.iter().map(|m| m.display_name.as_str()).collect();
    assert_eq!(names, vec!["Whisper v3", "Distil", "second listing", "first listing"]);
}

#[test]
fn the_account_is_checked_only_when_the_listing_failed() {
    assert_eq!(elevenlabs_account_check(false, "https://api.elevenlabs.io/v1/"), None);
    assert_eq!(
        elevenlabs_account_check(true, "https://api.elevenlabs.io/v1//").as_deref(),
        Some("https://api.elevenlabs.io/v1/user")
    );
}
