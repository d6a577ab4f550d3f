use glide::config::models::{ModelSelection, ReplacementRule, Style};
use glide::config::GlideConfig;
use glide::pipeline::{
    effective_llm_selection, effective_stt_selection, matched_style, next_dictation_action, DictationAction,
    DictationEvent,
};
use glide::stt::transcript_text;
use glide::llm::strip_think_tags;
use glide::pipeline::{apply_replacements, eq_ignore_ascii_case, finish_transcript, strip_model_reasoning};
use glide::stt::{stt_model_name, upload_prompt, uses_plain_authorization, vocabulary_prompt};
use glide::error::GlideError;
use glide::provider::Provider;

fn rule(find: &str, replace: &str, case_sensitive: bool) -> ReplacementRule {
    ReplacementRule { find: find.to_string(), replace: replace.to_string(), case_sensitive }
}

#[test]
fn vocabulary_prompt_is_none_for_empty_vocabulary() {
    assert_eq!(vocabulary_prompt(&[]), None);
}

#[test]
fn vocabulary_prompt_ignores_blank_terms() {
    let vocabulary = vec![" Glide ".to_string(), "".to_string(), "  ".to_string(), "GPUI".to_string()];

    assert_eq!(vocabulary_prompt(&vocabulary).as_deref(), Some("Glide, GPUI"));
}

#[test]
fn vocabulary_prompt_preserves_commas_inside_terms() {
    let vocabulary = vec!["ACME, Inc.".to_string(), "Glide".to_string()];

    assert_eq!(vocabulary_prompt(&vocabulary).as_deref(), Some("ACME, Inc., Glide"));
}

#[test]
fn removes_reasoning_block() {
    assert_eq!(strip_think_tags("<think>reasoning</think>Hello"), "Hello");
}

#[test]
fn removes_inline_reasoning_block() {
    assert_eq!(strip_think_tags("Hi <think>reasoning</think>there"), "Hi there");
}

#[test]
fn removes_case_insensitive_reasoning_block() {
    assert_eq!(strip_think_tags("<THINK>reasoning</ThInK> Hello"), "Hello");
}

#[test]
fn removes_unclosed_reasoning_block() {
    assert_eq!(strip_think_tags("Answer<think>hidden"), "Answer");
}

#[test]
fn text_without_reasoning_is_only_trimmed() {
    assert_eq!(strip_think_tags("  plain answer \n"), "plain answer");
    assert_eq!(strip_model_reasoning("a <think>x</think>b"), "a b");
}

#[test]
fn reasoning_close_tag_ends_at_its_angle_bracket() {
    assert_eq!(strip_think_tags("x<think>y</think  >z"), "xz");
    assert_eq!(strip_think_tags("x<think>y</think"), "x");
}

#[test]
fn case_sensitive_replacement_only_matches_exact_case() {
    let rules = [rule("Foo", "Bar", true)];
    assert_eq!(apply_replacements("Foo foo Foo", &rules), "Bar foo Bar");
}

#[test]
fn case_insensitive_replacement_matches_any_case() {
    let rules = [rule("hello", "hi", false)];
    assert_eq!(apply_replacements("Hello world, HELLO again hello", &rules), "hi world, hi again hi");
}

#[test]
fn case_insensitive_replacement_survives_lowercase_length_change() {
    // 'İ' (U+0130) is 2 bytes but lowercases to 3 bytes ("i\u{307}").
    let rules = [rule("abc", "xyz", false)];
    assert_eq!(apply_replacements("İabc", &rules), "İxyz");
}

#[test]
fn case_insensitive_replacement_keeps_text_around_multibyte_chars() {
    let rules = [rule("q", "z", false)];
    assert_eq!(apply_replacements("aİbQc", &rules), "aİbzc");
}

#[test]
fn case_insensitive_find_containing_multibyte_char() {
    let rules = [rule("İstanbul", "Istanbul", false)];
    assert_eq!(apply_replacements("İstanbul and İSTANBUL", &rules), "Istanbul and Istanbul");
}

#[test]
fn rules_apply_in_order_and_empty_finds_are_skipped() {
    let rules = [rule("", "x", true), rule("a", "b", true), rule("b", "c", true)];
    assert_eq!(apply_replacements("ab", &rules), "cc");
    let overlapping = [rule("aa", "b", true)];
    assert_eq!(apply_replacements("aaa", &overlapping), "ba");
}

#[test]
fn blank_transcripts_are_refused() {
    assert!(matches!(finish_transcript("  \n", &[]), Err(GlideError::EmptyTranscription)));
    let rules = [rule("teh", "the", true)];
    assert_eq!(finish_transcript("teh cat", &rules).unwrap(), "the cat");
}

#[test]
fn app_names_match_ignoring_ascii_case_only() {
    assert!(eq_ignore_ascii_case("Slack", "sLACK"));
    assert!(!eq_ignore_ascii_case("Slack", "Slac"));
    assert!(!eq_ignore_ascii_case("Ä", "ä"));
}

#[test]
fn fireworks_transcription_model_is_the_last_path_segment() {
    assert_eq!(stt_model_name(Provider::Fireworks, "accounts/fireworks/models/whisper-v3"), "whisper-v3");
    assert_eq!(stt_model_name(Provider::Fireworks, "whisper-v3-turbo"), "whisper-v3-turbo");
    assert_eq!(stt_model_name(Provider::Groq, "openai/whisper"), "openai/whisper");
    assert!(uses_plain_authorization(Provider::Fireworks));
    assert!(!uses_plain_authorization(Provider::OpenAi));
}

#[test]
fn empty_prompts_are_not_uploaded() {
    assert_eq!(upload_prompt(&Some(String::new())), None);
    assert_eq!(upload_prompt(&Some("Glide".to_string())).as_deref(), Some("Glide"));
    assert_eq!(upload_prompt(&None), None);
}

fn selection(provider: Provider, model: &str) -> ModelSelection {
    ModelSelection { provider, model: model.to_string() }
}

fn style(name: &str, apps: &[&str], stt: Option<ModelSelection>, llm: Option<ModelSelection>) -> Style {
    Style {
        name: name.to_string(),
        apps: apps.iter().map(|a| a.to_string()).collect(),
        prompt: String::new(),
        stt,
        llm,
    }
}

fn config_with_styles(styles: Vec<Style>) -> GlideConfig {
    let mut config = GlideConfig::default();
    config.dictation.styles = styles;
    config.dictation.llm = Some(selection(Provider::Groq, "llama-3.3-70b-versatile"));
    config
}

#[test]
fn first_style_listing_the_app_is_matched() {
    let config = config_with_styles(vec![
        style("Code", &["Terminal"], None, None),
        style("Chat", &["Slack", "TERMINAL"], None, None),
    ]);
    assert_eq!(matched_style(&config, Some("terminal")).map(|s| s.name.as_str()), Some("Code"));
    assert_eq!(matched_style(&config, Some("slack")).map(|s| s.name.as_str()), Some("Chat"));
    assert!(matched_style(&config, Some("Mail")).is_none());
    assert!(matched_style(&config, None).is_none());
}

#[test]
fn style_models_override_the_configured_ones() {
    let config = config_with_styles(vec![
        style("Own", &["Notes"], Some(selection(Provider::Parakeet, "parakeet-tdt")), Some(selection(Provider::Cerebras, "qwen"))),
        style("Plain", &["Mail"], None, None),
    ]);
    let own = matched_style(&config, Some("Notes"));
    let stt = effective_stt_selection(&config, own);
    assert_eq!((stt.provider, stt.model.as_str()), (Provider::Parakeet, "parakeet-tdt"));
    let llm = effective_llm_selection(&config, own).unwrap();
    assert_eq!((llm.provider, llm.model.as_str()), (Provider::Cerebras, "qwen"));

    let plain = matched_style(&config, Some("Mail"));
    let stt = effective_stt_selection(&config, plain);
    assert_eq!((stt.provider, stt.model.as_str()), (Provider::OpenAi, "whisper-1"));
    let llm = effective_llm_selection(&config, plain).unwrap();
    assert_eq!((llm.provider, llm.model.as_str()), (Provider::Groq, "llama-3.3-70b-versatile"));
}

#[test]
fn no_configured_rewriting_model_turns_rewriting_off() {
    let mut config = config_with_styles(vec![style("Plain", &["Mail"], None, None)]);
    config.dictation.llm = None;
    assert!(effective_llm_selection(&config, matched_style(&config, Some("Mail"))).is_none());
    assert!(effective_llm_selection(&config, None).is_none());
}

#[test]
fn transcripts_are_trimmed() {
    assert_eq!(transcript_text("  hello there \n"), "hello there");
    assert_eq!(transcript_text("   "), "");
}

#[test]
fn dictation_steps_follow_the_matched_style() {
    let mut config = config_with_styles(vec![style(
        "Chat",
        &["Slack"],
        Some(selection(Provider::Groq, "whisper-large-v3")),
        None,
    )]);
    config.dictionary.replacements = vec![rule("glide", "Glide", true)];

    match next_dictation_action(&config, Some("slack"), DictationEvent::Recorded) {
        DictationAction::Transcribe(s) => assert_eq!((s.provider, s.model.as_str()), (Provider::Groq, "whisper-large-v3")),
        other => panic!("unexpected step {other:?}"),
    }
    match next_dictation_action(&config, Some("slack"), DictationEvent::Transcribed(" hi glide ".to_string())) {
        DictationAction::CleanUp { selection, style_prompt, text } => {
            assert_eq!((selection.provider, selection.model.as_str()), (Provider::Groq, "llama-3.3-70b-versatile"));
            assert_eq!(style_prompt.as_deref(), Some(""));
            assert_eq!(text, " hi Glide ");
        }
        other => panic!("unexpected step {other:?}"),
    }
    match next_dictation_action(&config, Some("slack"), DictationEvent::CleanedUp("<think>x</think> Hi Glide.".to_string())) {
        DictationAction::Paste(text) => assert_eq!(text, "Hi Glide."),
        other => panic!("unexpected step {other:?}"),
    }
}

#[test]
fn dictation_without_rewriting_pastes_the_transcript() {
    let mut config = config_with_styles(vec![]);
    config.dictation.llm = None;
    match next_dictation_action(&config, None, DictationEvent::Transcribed("  plain text ".to_string())) {
        DictationAction::Paste(text) => assert_eq!(text, "plain text"),
        other => panic!("unexpected step {other:?}"),
    }
    assert!(matches!(
        next_dictation_action(&config, None, DictationEvent::Transcribed("   ".to_string())),
        DictationAction::Fail(GlideError::EmptyTranscription)
    ));
}
