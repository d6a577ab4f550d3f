//! Text handling around the clean-up models: removing reasoning blocks from
//! their answers, and the request details that depend on the model name.
use vstd::prelude::*;

use crate::error::GlideError;
use crate::provider::Provider;
use crate::text::{
    chars_of, contains_spec, contains_str, find_match, lowercase_each, lowercase_str, matches_at, push_chars,
    starts_with_spec, starts_with_str, str_lowercase, string_from_chars, trim_spec, trim_string,
    trimmed_end_index, trimmed_start_index,
};

verus! {

/// First position at or after `p` where `needle` occurs in `h`.
pub open spec fn first_match_from(h: Seq<char>, p: int, needle: Seq<char>, case_sensitive: bool) -> Option<int>
    decreases h.len() + 1 - p,
{
    if p < 0 || p > h.len() {
        None
    } else if matches_at(h, p, needle, case_sensitive) {
        Some(p)
    } else {
        first_match_from(h, p + 1, needle, case_sensitive)
    }
}

proof fn lemma_first_match_found(h: Seq<char>, p: int, i: int, needle: Seq<char>, case_sensitive: bool)
    requires
        0 <= p <= i,
        matches_at(h, i, needle, case_sensitive),
        forall|j: int| p <= j < i ==> !#[trigger] matches_at(h, j, needle, case_sensitive),
    ensures
        first_match_from(h, p, needle, case_sensitive) == Some(i),
    decreases i - p,
{
    if p < i {
        assert(!matches_at(h, p, needle, case_sensitive));
        lemma_first_match_found(h, p + 1, i, needle, case_sensitive);
    }
}

proof fn lemma_first_match_none(h: Seq<char>, p: int, needle: Seq<char>, case_sensitive: bool)
    requires
        0 <= p,
        forall|j: int| p <= j ==> !#[trigger] matches_at(h, j, needle, case_sensitive),
    ensures
        first_match_from(h, p, needle, case_sensitive) is None,
    decreases h.len() + 1 - p,
{
    if p <= h.len() {
        assert(!matches_at(h, p, needle, case_sensitive));
        lemma_first_match_none(h, p + 1, needle, case_sensitive);
    }
}

/// The opening tag of a reasoning block, matched ignoring case.
pub open spec fn open_tag() -> Seq<char> {
    seq!['<', 't', 'h', 'i', 'n', 'k']
}

/// The closing tag of a reasoning block, matched ignoring case.
pub open spec fn close_tag() -> Seq<char> {
    seq!['<', '/', 't', 'h', 'i', 'n', 'k']
}

/// Position just past the first `>` at or after `e`, or the end of `h`.
pub open spec fn close_after(h: Seq<char>, e: int) -> int {
    match first_match_from(h, e, seq!['>'], true) {
        Some(c) => c + 1,
        None => h.len() as int,
    }
}

proof fn lemma_first_match_bounds(h: Seq<char>, p: int, needle: Seq<char>, case_sensitive: bool)
    ensures
        first_match_from(h, p, needle, case_sensitive) matches Some(i) ==> p <= i && matches_at(h, i, needle, case_sensitive),
    decreases h.len() + 1 - p,
{
    if 0 <= p <= h.len() && !matches_at(h, p, needle, case_sensitive) {
        lemma_first_match_bounds(h, p + 1, needle, case_sensitive);
    }
}

/// `h[pos..]` with every reasoning block removed: from an opening tag up to
/// the first `>` after the next closing tag, or to the end when the block is
/// never closed.
pub open spec fn strip_from(h: Seq<char>, pos: int) -> Seq<char>
    decreases h.len() - pos,
{
    if pos < 0 || pos > h.len() {
        Seq::empty()
    } else {
        match first_match_from(h, pos, open_tag(), false) {
            None => h.subrange(pos, h.len() as int),
            Some(s) => h.subrange(pos, s) + match first_match_from(h, s, close_tag(), false) {
                None => Seq::empty(),
                Some(e) => {
                    if pos < close_after(h, e) <= h.len() {
                        strip_from(h, close_after(h, e))
                    } else {
                        Seq::empty()
                    }
                },
            },
        }
    }
}

fn tag_chars(closing: bool) -> (r: Vec<char>)
    ensures
        r@ == if closing {
            close_tag()
        } else {
            open_tag()
        },
{
    let mut v: Vec<char> = Vec::new();
    v.push('<');
    if closing {
        v.push('/');
    }
    v.push('t');
    v.push('h');
    v.push('i');
    v.push('n');
    v.push('k');
    proof {
        if closing {
            assert(v@ =~= close_tag());
        } else {
            assert(v@ =~= open_tag());
        }
    }
    v
}

proof fn lemma_strip_at_end(h: Seq<char>)
    ensures
        strip_from(h, h.len() as int) == Seq::<char>::empty(),
{
    let n = h.len() as int;
    assert(!matches_at(h, n, open_tag(), false));
    assert(first_match_from(h, n + 1, open_tag(), false) is None);
    assert(first_match_from(h, n, open_tag(), false) is None);
    assert(h.subrange(n, n) =~= Seq::<char>::empty());
}

/// Removes `<think>...</think>` blocks (tags in any case) from a model's
/// answer and trims the rest.
pub fn strip_think_tags(text: &str) -> (r: String)
    ensures
        r@ == trim_spec(strip_from(text@, 0)),
{
    let cs = chars_of(text);
    let open = tag_chars(false);
    let close = tag_chars(true);
    let open_lower = lowercase_each(&open);
    let close_lower = lowercase_each(&close);
    let mut gt: Vec<char> = Vec::new();
    gt.push('>');
    let gt_lower = lowercase_each(&gt);
    let mut out = String::new();
    let mut pos: usize = 0;
    let n = cs.len();
    loop
        invariant
            n == cs@.len(),
            pos <= n,
            cs@ == text@,
            open@ == open_tag(),
            close@ == close_tag(),
            gt@ == seq!['>'],
            open_lower@.len() == open@.len(),
            forall|k: int| 0 <= k < open@.len() ==> (#[trigger] open_lower@[k])@ == crate::text::char_lowercase(open@[k]),
            close_lower@.len() == close@.len(),
            forall|k: int| 0 <= k < close@.len() ==> (#[trigger] close_lower@[k])@ == crate::text::char_lowercase(close@[k]),
            gt_lower@.len() == gt@.len(),
            forall|k: int| 0 <= k < gt@.len() ==> (#[trigger] gt_lower@[k])@ == crate::text::char_lowercase(gt@[k]),
            out@ + strip_from(cs@, pos as int) == strip_from(cs@, 0),
        ensures
            out@ == strip_from(cs@, 0),
        decreases n - pos,
    {
        match find_match(&cs, pos, &open, &open_lower, false) {
            None => {
                proof {
                    lemma_first_match_none(cs@, pos as int, open_tag(), false);
                }
                push_chars(&mut out, &cs, pos, n);
                proof {
                    assert(out@ =~= strip_from(cs@, 0));
                    lemma_strip_at_end(cs@);
                    assert(out@ + strip_from(cs@, n as int) =~= strip_from(cs@, 0));
                }
                pos = n;
                break ;
            },
            Some(s) => {
                proof {
                    lemma_first_match_found(cs@, pos as int, s as int, open_tag(), false);
                }
                push_chars(&mut out, &cs, pos, s);
                match find_match(&cs, s, &close, &close_lower, false) {
                    None => {
                        proof {
                            lemma_first_match_none(cs@, s as int, close_tag(), false);
                            assert(out@ =~= strip_from(cs@, 0));
                        }
                        pos = n;
                        proof {
                            lemma_strip_at_end(cs@);
                            assert(out@ + strip_from(cs@, pos as int) =~= strip_from(cs@, 0));
                        }
                    },
                    Some(e) => {
                        proof {
                            lemma_first_match_found(cs@, s as int, e as int, close_tag(), false);
                        }
                        let close_end = match find_match(&cs, e, &gt, &gt_lower, true) {
                            Some(c) => {
                                proof {
                                    lemma_first_match_found(cs@, e as int, c as int, seq!['>'], true);
                                }
                                c + 1
                            },
                            None => {
                                proof {
                                    lemma_first_match_none(cs@, e as int, seq!['>'], true);
                                }
                                n
                            },
                        };
                        proof {
                            assert(close_end == close_after(cs@, e as int));
                            assert(close_end <= n);
                            assert(out@ + strip_from(cs@, close_end as int) =~= strip_from(cs@, 0));
                        }
                        pos = close_end;
                    },
                }
            },
        }
    }
    let oc = chars_of(out.as_str());
    let b = trimmed_start_index(&oc, 0, oc.len());
    let e = trimmed_end_index(&oc, b, oc.len());
    proof {
        assert(oc@.subrange(0, oc@.len() as int) =~= oc@);
        assert(crate::text::trim_start_spec(oc@) =~= oc@.subrange(b as int, oc@.len() as int));
    }
    let r = string_from_chars(&oc, b, e);
    proof {
        assert(r@ =~= trim_spec(oc@));
    }
    r
}

proof fn lemma_matches_shift(h: Seq<char>, c: int, j: int, needle: Seq<char>, case_sensitive: bool)
    requires
        0 <= c <= h.len(),
        0 <= j,
    ensures
        matches_at(h, c + j, needle, case_sensitive) == matches_at(
            h.subrange(c, h.len() as int),
            j,
            needle,
            case_sensitive,
        ),
{
    let t = h.subrange(c, h.len() as int);
    if matches_at(t, j, needle, case_sensitive) {
        assert forall|k: int| 0 <= k < needle.len() implies crate::text::chars_match(
            #[trigger] h[c + j + k],
            needle[k],
            case_sensitive,
        ) by {
            assert(t[j + k] == h[c + j + k]);
        }
    }
    if matches_at(h, c + j, needle, case_sensitive) {
        assert forall|k: int| 0 <= k < needle.len() implies crate::text::chars_match(
            #[trigger] t[j + k],
            needle[k],
            case_sensitive,
        ) by {
            assert(t[j + k] == h[c + j + k]);
            assert(h[c + j + k] == h[(c + j) + k]);
        }
    }
}

proof fn lemma_first_match_shift(h: Seq<char>, c: int, p: int, needle: Seq<char>, case_sensitive: bool)
    requires
        0 <= c <= h.len(),
        0 <= p,
    ensures
        first_match_from(h, c + p, needle, case_sensitive) == match first_match_from(
            h.subrange(c, h.len() as int),
            p,
            needle,
            case_sensitive,
        ) {
            Some(i) => Some(i + c),
            None => None::<int>,
        },
    decreases h.len() - c + 1 - p,
{
    let t = h.subrange(c, h.len() as int);
    if p <= t.len() {
        lemma_matches_shift(h, c, p, needle, case_sensitive);
        if !matches_at(t, p, needle, case_sensitive) {
            lemma_first_match_shift(h, c, p + 1, needle, case_sensitive);
            assert(c + p + 1 == c + (p + 1));
        }
    }
}

proof fn lemma_strip_shift(h: Seq<char>, c: int, p: int)
    requires
        0 <= c <= h.len(),
        0 <= p,
    ensures
        strip_from(h, c + p) == strip_from(h.subrange(c, h.len() as int), p),
    decreases h.len() - c - p,
{
    let t = h.subrange(c, h.len() as int);
    if p <= t.len() {
        lemma_first_match_shift(h, c, p, open_tag(), false);
        match first_match_from(t, p, open_tag(), false) {
            None => {
                assert(h.subrange(c + p, h.len() as int) =~= t.subrange(p, t.len() as int));
            },
            Some(s) => {
                lemma_first_match_bounds(t, p, open_tag(), false);
                assert(h.subrange(c + p, s + c) =~= t.subrange(p, s));
                lemma_first_match_shift(h, c, s, close_tag(), false);
                assert(c + s == s + c);
                match first_match_from(t, s, close_tag(), false) {
                    None => {},
                    Some(e) => {
                        lemma_first_match_bounds(t, s, close_tag(), false);
                        lemma_first_match_shift(h, c, e, seq!['>'], true);
                        assert(c + e == e + c);
                        assert(close_after(h, e + c) == close_after(t, e) + c);
                        let ct = close_after(t, e);
                        if p < ct <= t.len() {
                            lemma_strip_shift(h, c, ct);
                            assert(c + ct == ct + c);
                        }
                    },
                }
            },
        }
    }
}

/// Every reasoning block goes, not only the first: when the answer's first
/// opening tag (at `s`) is closed by a closing tag (at `e`), what remains is
/// the text before the block followed by what the stripping makes of the
/// text after the block, as if that text were an answer of its own; an
/// opening tag that is never closed drops everything from it on.
pub proof fn law_every_reasoning_block_is_removed(h: Seq<char>, s: int, e: int)
    requires
        first_match_from(h, 0, open_tag(), false) == Some(s),
    ensures
        first_match_from(h, s, close_tag(), false) == Some(e) ==> strip_from(h, 0) == h.subrange(0, s)
            + strip_from(h.subrange(close_after(h, e), h.len() as int), 0),
        first_match_from(h, s, close_tag(), false) is None ==> strip_from(h, 0) == h.subrange(0, s),
{
    lemma_first_match_bounds(h, 0, open_tag(), false);
    if first_match_from(h, s, close_tag(), false) == Some(e) {
        lemma_first_match_bounds(h, s, close_tag(), false);
        lemma_first_match_bounds(h, e, seq!['>'], true);
        let c = close_after(h, e);
        assert(0 < c <= h.len());
        lemma_strip_shift(h, c, 0);
        assert(c + 0 == c);
    } else if first_match_from(h, s, close_tag(), false) is None {
        assert(h.subrange(0, s) + Seq::<char>::empty() =~= h.subrange(0, s));
    }
}

/// A model answer without an opening tag is only trimmed.
pub proof fn law_no_reasoning_block_only_trims(h: Seq<char>)
    requires
        forall|j: int| 0 <= j ==> !#[trigger] matches_at(h, j, open_tag(), false),
    ensures
        trim_spec(strip_from(h, 0)) == trim_spec(h),
{
    lemma_first_match_none(h, 0, open_tag(), false);
    assert(h.subrange(0, h.len() as int) =~= h);
}

/// OpenAI models that only accept their default temperature: the `gpt-5`
/// family and the `o` reasoning series (names compared trimmed and lowercased).
pub open spec fn rejects_temperature_zero(model: Seq<char>) -> bool {
    starts_with_spec(str_lowercase(trim_spec(model)), "gpt-5"@) || starts_with_spec(
        str_lowercase(trim_spec(model)),
        "o"@,
    )
}

/// Whether an already trimmed and lowercased OpenAI model name names a model
/// that rejects temperature 0.
pub fn lowered_model_rejects_temperature_zero(lower: &str) -> (r: bool)
    ensures
        r == (starts_with_spec(lower@, "gpt-5"@) || starts_with_spec(lower@, "o"@)),
{
    starts_with_str(lower, "gpt-5") || starts_with_str(lower, "o")
}

pub fn openai_model_rejects_temperature_zero(model: &str) -> (r: bool)
    ensures
        r == rejects_temperature_zero(model@),
{
    let t = trim_string(model);
    let lower = lowercase_str(t.as_str());
    lowered_model_rejects_temperature_zero(lower.as_str())
}

/// Whether a clean-up request asks for zero temperature: every model except
/// OpenAI's that reject it.
pub open spec fn uses_zero_temperature(provider: Provider, model: Seq<char>) -> bool {
    !(provider == Provider::OpenAi && rejects_temperature_zero(model))
}

pub fn deterministic_temperature_allowed(provider: Provider, model: &str) -> (r: bool)
    ensures
        r == uses_zero_temperature(provider, model@),
{
    !(provider == Provider::OpenAi && openai_model_rejects_temperature_zero(model))
}

/// `gpt-oss` models reason before answering and are asked for low effort
/// (names compared lowercased).
pub open spec fn wants_low_reasoning_effort(model: Seq<char>) -> bool {
    contains_spec(str_lowercase(model), "gpt-oss"@)
}

pub fn reasoning_effort(model: &str) -> (r: Option<&'static str>)
    ensures
        match r {
            Some(e) => wants_low_reasoning_effort(model@) && e@ == "low"@,
            None => !wants_low_reasoning_effort(model@),
        },
{
    let lower = lowercase_str(model);
    lowered_reasoning_effort(lower.as_str())
}

/// The reasoning effort for an already lowercased model name: low for
/// `gpt-oss` models, none for the rest.
pub fn lowered_reasoning_effort(lower: &str) -> (r: Option<&'static str>)
    ensures
        match r {
            Some(e) => contains_spec(lower@, "gpt-oss"@) && e@ == "low"@,
            None => !contains_spec(lower@, "gpt-oss"@),
        },
{
    if contains_str(lower, "gpt-oss") {
        Some("low")
    } else {
        None
    }
}

/// Longest error body, in characters, quoted in an error message.
pub const ERROR_BODY_CHAR_LIMIT: usize = 4096;

/// An error response body as quoted in an error message: trimmed, a marker
/// when empty, and cut to the limit with a truncation marker when longer.
pub open spec fn capped_body(body: Seq<char>) -> Seq<char> {
    let t = trim_spec(body);
    if t.len() == 0 {
        "<empty response body>"@
    } else if t.len() <= ERROR_BODY_CHAR_LIMIT {
        t
    } else {
        t.take(ERROR_BODY_CHAR_LIMIT as int) + "... [truncated]"@
    }
}

pub fn capped_error_body(body: &str) -> (r: String)
    ensures
        r@ == capped_body(body@),
{
    let t = trim_string(body);
    let tc = chars_of(t.as_str());
    if tc.len() == 0 {
        return String::from_str("<empty response body>");
    }
    if tc.len() <= ERROR_BODY_CHAR_LIMIT {
        return t;
    }
    let mut r = string_from_chars(&tc, 0, ERROR_BODY_CHAR_LIMIT);
    r.append("... [truncated]");
    r
}

/// One message of a chat completion request or answer.
#[derive(Debug, Clone)]
pub struct ChatMessage {
    pub role: String,
    pub content: String,
}

/// A chat completion request for one clean-up. `zero_temperature` asks for
/// temperature 0; otherwise the model's default applies.
#[derive(Debug, Clone)]
pub struct ChatCompletionRequest {
    pub model: String,
    pub messages: Vec<ChatMessage>,
    pub zero_temperature: bool,
    pub reasoning_effort: Option<&'static str>,
}

/// The clean-up request for `model` of `provider`: the system prompt, then
/// the user prompt; zero temperature where the model accepts it, and low
/// reasoning effort for `gpt-oss` models.
pub fn chat_completion_request(
    provider: Provider,
    model: &str,
    system_prompt: &str,
    user_prompt: String,
) -> (r: ChatCompletionRequest)
    ensures
        r.model@ == model@,
        r.messages@.len() == 2,
        r.messages@[0].role@ == "system"@,
        r.messages@[0].content@ == system_prompt@,
        r.messages@[1].role@ == "user"@,
        r.messages@[1].content == user_prompt,
        r.zero_temperature == uses_zero_temperature(provider, model@),
        match r.reasoning_effort {
            Some(e) => wants_low_reasoning_effort(model@) && e@ == "low"@,
            None => !wants_low_reasoning_effort(model@),
        },
{
    let mut messages = Vec::new();
    messages.push(ChatMessage { role: String::from_str("system"), content: String::from_str(system_prompt) });
    messages.push(ChatMessage { role: String::from_str("user"), content: user_prompt });
    ChatCompletionRequest {
        model: String::from_str(model),
        messages,
        zero_temperature: deterministic_temperature_allowed(provider, model),
        reasoning_effort: reasoning_effort(model),
    }
}

/// The cleaned text of a chat completion answer: the first choice's
/// content, trimmed.
pub fn first_choice_text(choices: &[ChatMessage]) -> (r: Result<String, GlideError>)
    ensures
        match r {
            Ok(t) => choices@.len() > 0 && t@ == trim_spec(choices@[0].content@),
            Err(e) => choices@.len() == 0 && e == GlideError::NoChatChoices,
        },
{
    if choices.len() == 0 {
        return Err(GlideError::NoChatChoices);
    }
    Ok(trim_string(choices[0].content.as_str()))
}

/// Clean-up with an on-device Apple Foundation model.
#[derive(Debug, Clone)]
pub struct AppleFoundationLlmProvider {
    pub model_id: String,
    pub system_prompt: String,
}

impl AppleFoundationLlmProvider {
    pub fn new(model_id: &str, system_prompt: &str) -> (r: AppleFoundationLlmProvider)
        ensures
            r.model_id@ == model_id@,
            r.system_prompt@ == system_prompt@,
    {
        AppleFoundationLlmProvider {
            model_id: String::from_str(model_id),
            system_prompt: String::from_str(system_prompt),
        }
    }
}

} // verus!
