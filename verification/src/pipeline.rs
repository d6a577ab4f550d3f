//! The text steps of the dictation pipeline: dictionary replacements on the
//! raw transcript, and the choice of style and models for the target app.
use vstd::prelude::*;

use crate::config::GlideConfig;
use crate::config::models::{ModelSelection, ReplacementRule, Style};
use crate::error::GlideError;
use crate::llm::{strip_from, strip_think_tags};
use crate::text::{chars_of, find_match, is_blank, lowercase_each, matches_at, push_chars, trim_spec};

verus! {

/// `hay` with every leftmost, non-overlapping occurrence of `needle`
/// replaced by `rep`; an empty `needle` matches nothing.
pub open spec fn replace_all(hay: Seq<char>, needle: Seq<char>, rep: Seq<char>, case_sensitive: bool) -> Seq<
    char,
>
    decreases hay.len(),
{
    if hay.len() == 0 || needle.len() == 0 {
        hay
    } else if matches_at(hay, 0, needle, case_sensitive) {
        rep + replace_all(hay.skip(needle.len() as int), needle, rep, case_sensitive)
    } else {
        seq![hay[0]] + replace_all(hay.skip(1), needle, rep, case_sensitive)
    }
}

/// One rule applied to `text`; a rule with an empty `find` does nothing.
pub open spec fn apply_rule(text: Seq<char>, rule: ReplacementRule) -> Seq<char> {
    if rule.find@.len() == 0 {
        text
    } else {
        replace_all(text, rule.find@, rule.replace@, rule.case_sensitive)
    }
}

/// The rules applied to `text` one after another, in order.
pub open spec fn apply_rules(text: Seq<char>, rules: Seq<ReplacementRule>) -> Seq<char>
    decreases rules.len(),
{
    if rules.len() == 0 {
        text
    } else {
        apply_rule(apply_rules(text, rules.drop_last()), rules.last())
    }
}

proof fn lemma_shift(hay: Seq<char>, p: int, j: int, needle: Seq<char>, case_sensitive: bool)
    requires
        0 <= p <= hay.len(),
        0 <= j,
    ensures
        matches_at(hay.skip(p), j, needle, case_sensitive) == matches_at(hay, p + j, needle, case_sensitive),
{
    let t = hay.skip(p);
    if matches_at(t, j, needle, case_sensitive) {
        assert forall|k: int| 0 <= k < needle.len() implies crate::text::chars_match(
            #[trigger] hay[p + j + k],
            needle[k],
            case_sensitive,
        ) by {
            assert(t[j + k] == hay[p + j + k]);
        }
    }
    if matches_at(hay, p + j, needle, case_sensitive) {
        assert forall|k: int| 0 <= k < needle.len() implies crate::text::chars_match(
            #[trigger] t[j + k],
            needle[k],
            case_sensitive,
        ) by {
            assert(t[j + k] == hay[p + j + k]);
        }
    }
}

proof fn lemma_no_match_prefix(hay: Seq<char>, needle: Seq<char>, rep: Seq<char>, case_sensitive: bool, i: int)
    requires
        needle.len() > 0,
        0 <= i <= hay.len(),
        forall|j: int| 0 <= j < i ==> !#[trigger] matches_at(hay, j, needle, case_sensitive),
    ensures
        replace_all(hay, needle, rep, case_sensitive) == hay.subrange(0, i) + replace_all(
            hay.skip(i),
            needle,
            rep,
            case_sensitive,
        ),
    decreases i,
{
    if i == 0 {
        assert(hay.skip(0) =~= hay);
        assert(hay.subrange(0, 0) =~= Seq::<char>::empty());
    } else {
        let t = hay.skip(1);
        assert(!matches_at(hay, 0, needle, case_sensitive));
        assert forall|j: int| 0 <= j < i - 1 implies !#[trigger] matches_at(t, j, needle, case_sensitive) by {
            lemma_shift(hay, 1, j, needle, case_sensitive);
            assert(!matches_at(hay, 1 + j, needle, case_sensitive));
        }
        lemma_no_match_prefix(t, needle, rep, case_sensitive, i - 1);
        assert(t.skip(i - 1) =~= hay.skip(i));
        assert(seq![hay[0]] + t.subrange(0, i - 1) =~= hay.subrange(0, i));
    }
}

/// `text` with every occurrence of `find` replaced by `replace`, comparing
/// characters exactly or by their lowercase mapping.
pub fn replace_matches(text: &str, find: &str, replace: &str, case_sensitive: bool) -> (r: String)
    ensures
        r@ == replace_all(text@, find@, replace@, case_sensitive),
{
    let hay = chars_of(text);
    let needle = chars_of(find);
    if needle.len() == 0 {
        return String::from_str(text);
    }
    let needle_lower = lowercase_each(&needle);
    let mut out = String::new();
    let mut pos: usize = 0;
    let hl = hay.len();
    proof {
        assert(hay@.skip(0) =~= hay@);
    }
    loop
        invariant
            hl == hay@.len(),
            pos <= hay@.len(),
            needle@.len() > 0,
            needle@ == find@,
            needle_lower@.len() == needle@.len(),
            forall|k: int| 0 <= k < needle@.len() ==> (#[trigger] needle_lower@[k])@ == crate::text::char_lowercase(needle@[k]),
            out@ + replace_all(hay@.skip(pos as int), needle@, replace@, case_sensitive) == replace_all(
                text@,
                find@,
                replace@,
                case_sensitive,
            ),
        decreases hay@.len() - pos,
    {
        let ghost rest = hay@.skip(pos as int);
        match find_match(&hay, pos, &needle, &needle_lower, case_sensitive) {
            Some(i) => {
                proof {
                    let d = (i - pos) as int;
                    assert forall|j: int| 0 <= j < d implies !#[trigger] matches_at(rest, j, needle@, case_sensitive) by {
                        lemma_shift(hay@, pos as int, j, needle@, case_sensitive);
                        assert(!matches_at(hay@, pos + j, needle@, case_sensitive));
                    }
                    lemma_no_match_prefix(rest, needle@, replace@, case_sensitive, d);
                    lemma_shift(hay@, pos as int, d, needle@, case_sensitive);
                    assert(rest.skip(d) =~= hay@.skip(i as int));
                    assert(rest.subrange(0, d) =~= hay@.subrange(pos as int, i as int));
                    let t = hay@.skip(i as int);
                    lemma_shift(hay@, i as int, 0, needle@, case_sensitive);
                    assert(t.skip(needle@.len() as int) =~= hay@.skip(i + needle@.len()));
                }
                push_chars(&mut out, &hay, pos, i);
                out.append(replace);
                proof {
                    assert(out@ + replace_all(hay@.skip(i + needle@.len()), needle@, replace@, case_sensitive)
                        =~= replace_all(text@, find@, replace@, case_sensitive));
                }
                assert(i + needle@.len() <= hl);
                pos = i + needle.len();
            },
            None => {
                proof {
                    let n = rest.len() as int;
                    assert forall|j: int| 0 <= j < n implies !#[trigger] matches_at(rest, j, needle@, case_sensitive) by {
                        lemma_shift(hay@, pos as int, j, needle@, case_sensitive);
                        assert(!matches_at(hay@, pos + j, needle@, case_sensitive));
                    }
                    lemma_no_match_prefix(rest, needle@, replace@, case_sensitive, n);
                    assert(rest.skip(n).len() == 0);
                    assert(rest.subrange(0, n) =~= hay@.subrange(pos as int, hay@.len() as int));
                }
                let len = hay.len();
                push_chars(&mut out, &hay, pos, len);
                proof {
                    assert(out@ =~= replace_all(text@, find@, replace@, case_sensitive));
                }
                return out;
            },
        }
    }
}

/// Applies the dictionary's replacement rules to a transcript, in order.
pub fn apply_replacements(text: &str, replacements: &[ReplacementRule]) -> (r: String)
    ensures
        r@ == apply_rules(text@, replacements@),
{
    let mut result = String::from_str(text);
    let mut i: usize = 0;
    proof {
        assert(replacements@.take(0) =~= Seq::<ReplacementRule>::empty());
    }
    while i < replacements.len()
        invariant
            i <= replacements@.len(),
            result@ == apply_rules(text@, replacements@.take(i as int)),
        decreases replacements@.len() - i,
    {
        let rule = &replacements[i];
        proof {
            assert(replacements@.take(i + 1).drop_last() =~= replacements@.take(i as int));
            assert(replacements@.take(i + 1).last() == replacements@[i as int]);
        }
        if rule.find.as_str().unicode_len() != 0 {
            result = replace_matches(result.as_str(), rule.find.as_str(), rule.replace.as_str(), rule.case_sensitive);
        }
        i = i + 1;
    }
    proof {
        assert(replacements@.take(replacements@.len() as int) =~= replacements@);
    }
    result
}

/// `c` with ASCII upper-case letters made lower-case.
pub open spec fn ascii_lower(c: char) -> char {
    if 'A' <= c && c <= 'Z' {
        ((c as u32) + 32) as char
    } else {
        c
    }
}

/// `str::eq_ignore_ascii_case`.
pub open spec fn eq_ignore_ascii_case_spec(a: Seq<char>, b: Seq<char>) -> bool {
    a.len() == b.len() && forall|i: int| 0 <= i < a.len() ==> ascii_lower(#[trigger] a[i]) == ascii_lower(b[i])
}

fn ascii_lower_exec(c: char) -> (r: char)
    ensures
        r == ascii_lower(c),
{
    if 'A' <= c && c <= 'Z' {
        match c {
            'A' => 'a', 'B' => 'b', 'C' => 'c', 'D' => 'd', 'E' => 'e', 'F' => 'f', 'G' => 'g',
            'H' => 'h', 'I' => 'i', 'J' => 'j', 'K' => 'k', 'L' => 'l', 'M' => 'm', 'N' => 'n',
            'O' => 'o', 'P' => 'p', 'Q' => 'q', 'R' => 'r', 'S' => 's', 'T' => 't', 'U' => 'u',
            'V' => 'v', 'W' => 'w', 'X' => 'x', 'Y' => 'y', _ => 'z',
        }
    } else {
        c
    }
}

pub fn eq_ignore_ascii_case(a: &str, b: &str) -> (r: bool)
    ensures
        r == eq_ignore_ascii_case_spec(a@, b@),
{
    let ac = chars_of(a);
    let bc = chars_of(b);
    if ac.len() != bc.len() {
        return false;
    }
    let mut i: usize = 0;
    while i < ac.len()
        invariant
            ac@ == a@,
            bc@ == b@,
            ac@.len() == bc@.len(),
            i <= ac@.len(),
            forall|k: int| 0 <= k < i ==> ascii_lower(#[trigger] a@[k]) == ascii_lower(b@[k]),
        decreases ac@.len() - i,
    {
        if ascii_lower_exec(ac[i]) != ascii_lower_exec(bc[i]) {
            return false;
        }
        i = i + 1;
    }
    true
}

/// Whether a style is meant for the app named `target`.
pub open spec fn style_for_app(style: Style, target: Seq<char>) -> bool {
    exists|k: int| 0 <= k < style.apps@.len() && eq_ignore_ascii_case_spec((#[trigger] style.apps@[k])@, target)
}

/// The first style meant for `target`.
pub open spec fn style_index(styles: Seq<Style>, target: Seq<char>) -> Option<int> {
    crate::local_models::first_index(styles, |s: Style| style_for_app(s, target))
}

fn style_matches(style: &Style, target: &str) -> (r: bool)
    ensures
        r == style_for_app(*style, target@),
{
    let mut i: usize = 0;
    while i < style.apps.len()
        invariant
            i <= style.apps@.len(),
            forall|k: int| 0 <= k < i ==> !eq_ignore_ascii_case_spec((#[trigger] style.apps@[k])@, target@),
        decreases style.apps@.len() - i,
    {
        if eq_ignore_ascii_case(style.apps[i].as_str(), target) {
            return true;
        }
        i = i + 1;
    }
    false
}

fn first_style_for<'a>(styles: &'a Vec<Style>, target: &str) -> (r: Option<&'a Style>)
    ensures
        match style_index(styles@, target@) {
            Some(i) => 0 <= i < styles@.len() && r == Some(&styles@[i]),
            None => r is None,
        },
{
    let ghost pred = |s: Style| style_for_app(s, target@);
    let mut i: usize = 0;
    while i < styles.len()
        invariant
            i <= styles@.len(),
            pred == (|s: Style| style_for_app(s, target@)),
            forall|k: int| 0 <= k < i ==> !pred(#[trigger] styles@[k]),
        decreases styles@.len() - i,
    {
        if style_matches(&styles[i], target) {
            proof {
                crate::local_models::lemma_first_index_full(styles@, pred);
                let j = crate::local_models::first_index(styles@, pred);
                assert(pred(styles@[i as int]));
                if j is Some {
                    let jj = j.unwrap();
                    if jj < i {
                        assert(!pred(styles@[jj]));
                    } else if jj > i {
                        assert(pred(styles@[i as int]));
                    }
                }
            }
            return Some(&styles[i]);
        }
        i = i + 1;
    }
    proof {
        crate::local_models::lemma_first_index_full(styles@, pred);
        if crate::local_models::first_index(styles@, pred) is Some {
            let j = crate::local_models::first_index(styles@, pred).unwrap();
            assert(pred(styles@[j]));
        }
    }
    None
}

/// The style for dictating into `target_app`: the first style listing that
/// app, names compared ignoring ASCII case.
pub fn matched_style<'a>(config: &'a GlideConfig, target_app: Option<&str>) -> (r: Option<&'a Style>)
    ensures
        match target_app {
            None => r is None,
            Some(target) => match style_index(config.dictation.styles@, target@) {
                Some(i) => 0 <= i < config.dictation.styles@.len() && r == Some(&config.dictation.styles@[i]),
                None => r is None,
            },
        },
{
    match target_app {
        None => None,
        Some(target) => first_style_for(&config.dictation.styles, target),
    }
}

/// The transcription model to use: the style's own, else the configured one.
pub fn effective_stt_selection<'a>(config: &'a GlideConfig, matched_style: Option<&'a Style>) -> (r: &'a ModelSelection)
    ensures
        *r == match matched_style {
            Some(style) => match style.stt {
                Some(s) => s,
                None => config.dictation.stt,
            },
            None => config.dictation.stt,
        },
{
    match matched_style {
        Some(style) => match &style.stt {
            Some(s) => s,
            None => &config.dictation.stt,
        },
        None => &config.dictation.stt,
    }
}

/// The rewriting model to use: the style's own, else the configured one
/// (none turns rewriting off).
pub fn effective_llm_selection<'a>(config: &'a GlideConfig, matched_style: Option<&'a Style>) -> (r: Option<
    &'a ModelSelection,
>)
    ensures
        match r {
            Some(s) => Some(*s) == match matched_style {
                Some(style) => match style.llm {
                    Some(l) => Some(l),
                    None => config.dictation.llm,
                },
                None => config.dictation.llm,
            },
            None => match matched_style {
                Some(style) => style.llm is None && config.dictation.llm is None,
                None => config.dictation.llm is None,
            },
        },
{
    match matched_style {
        Some(style) => match &style.llm {
            Some(l) => Some(l),
            None => match &config.dictation.llm {
                Some(l) => Some(l),
                None => None,
            },
        },
        None => match &config.dictation.llm {
            Some(l) => Some(l),
            None => None,
        },
    }
}

/// The transcript the rest of the pipeline works on: refused when blank,
/// else with the dictionary's replacements applied.
pub fn finish_transcript(raw_text: &str, replacements: &[ReplacementRule]) -> (r: Result<String, GlideError>)
    ensures
        match r {
            Ok(t) => trim_spec(raw_text@).len() > 0 && t@ == apply_rules(raw_text@, replacements@),
            Err(e) => trim_spec(raw_text@).len() == 0 && e == GlideError::EmptyTranscription,
        },
{
    if is_blank(raw_text) {
        return Err(GlideError::EmptyTranscription);
    }
    Ok(apply_replacements(raw_text, replacements))
}

/// The clean-up answer without reasoning blocks some models emit, trimmed.
pub fn strip_model_reasoning(text: &str) -> (r: String)
    ensures
        r@ == trim_spec(strip_from(text@, 0)),
{
    strip_think_tags(text)
}

/// The style chosen for `target_app`, if any.
pub open spec fn style_for(config: GlideConfig, target_app: Option<Seq<char>>) -> Option<Style> {
    match target_app {
        None => None,
        Some(t) => match style_index(config.dictation.styles@, t) {
            Some(i) => Some(config.dictation.styles@[i]),
            None => None,
        },
    }
}

/// The transcription model for a dictation styled by `style`.
pub open spec fn stt_choice(config: GlideConfig, style: Option<Style>) -> ModelSelection {
    match style {
        Some(s) => match s.stt {
            Some(x) => x,
            None => config.dictation.stt,
        },
        None => config.dictation.stt,
    }
}

/// The rewriting model for a dictation styled by `style`, if rewriting is on.
pub open spec fn llm_choice(config: GlideConfig, style: Option<Style>) -> Option<ModelSelection> {
    match style {
        Some(s) => match s.llm {
            Some(l) => Some(l),
            None => config.dictation.llm,
        },
        None => config.dictation.llm,
    }
}

pub open spec fn app_view(target_app: Option<&str>) -> Option<Seq<char>> {
    match target_app {
        Some(t) => Some(t@),
        None => None,
    }
}

/// What the outside world reports to a dictation in progress.
#[derive(Debug, Clone)]
pub enum DictationEvent {
    /// The recording is ready.
    Recorded,
    /// The transcription model answered with this text.
    Transcribed(String),
    /// The rewriting model answered with this text.
    CleanedUp(String),
}

/// What a dictation in progress asks the outside world to do next.
#[derive(Debug, Clone)]
pub enum DictationAction {
    /// Transcribe the recording with this model.
    Transcribe(ModelSelection),
    /// Rewrite `text` with `selection`; `style_prompt` is the matched style's.
    CleanUp { selection: ModelSelection, style_prompt: Option<String>, text: String },
    /// Paste this text into the target app.
    Paste(String),
    /// Stop with this error.
    Fail(GlideError),
}

/// One step of a dictation into `target_app`: a recording is transcribed
/// with the style's model (else the configured one); a blank transcript
/// fails; otherwise the dictionary's replacements apply and the text is
/// rewritten when a rewriting model is chosen, or pasted as it is; a
/// rewritten text is pasted. Pasted text is stripped of reasoning blocks
/// and trimmed.
pub fn next_dictation_action(config: &GlideConfig, target_app: Option<&str>, event: DictationEvent) -> (r:
    DictationAction)
    ensures
        match event {
            DictationEvent::Recorded => r == DictationAction::Transcribe(
                stt_choice(*config, style_for(*config, app_view(target_app))),
            ),
            DictationEvent::Transcribed(raw) => if trim_spec(raw@).len() == 0 {
                r == DictationAction::Fail(GlideError::EmptyTranscription)
            } else {
                match llm_choice(*config, style_for(*config, app_view(target_app))) {
                    None => r matches DictationAction::Paste(t) && t@ == trim_spec(
                        strip_from(apply_rules(raw@, config.dictionary.replacements@), 0),
                    ),
                    Some(sel) => r matches DictationAction::CleanUp { selection, style_prompt, text } && selection
                        == sel && text@ == apply_rules(raw@, config.dictionary.replacements@) && style_prompt
                        == match style_for(*config, app_view(target_app)) {
                        Some(st) => Some(st.prompt),
                        None => None,
                    },
                }
            },
            DictationEvent::CleanedUp(c) => r matches DictationAction::Paste(t) && t@ == trim_spec(strip_from(c@, 0)),
        },
{
    let style = matched_style(config, target_app);
    match event {
        DictationEvent::Recorded => DictationAction::Transcribe(effective_stt_selection(config, style).duplicate()),
        DictationEvent::Transcribed(raw) => match finish_transcript(raw.as_str(), config.dictionary.replacements.as_slice()) {
            Err(e) => DictationAction::Fail(e),
            Ok(text) => match effective_llm_selection(config, style) {
                None => DictationAction::Paste(strip_model_reasoning(text.as_str())),
                Some(sel) => DictationAction::CleanUp {
                    selection: sel.duplicate(),
                    style_prompt: match style {
                        Some(st) => Some(st.prompt.clone()),
                        None => None,
                    },
                    text,
                },
            },
        },
        DictationEvent::CleanedUp(c) => DictationAction::Paste(strip_model_reasoning(c.as_str())),
    }
}

} // verus!
