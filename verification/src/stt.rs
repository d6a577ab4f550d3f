//! Request details of the transcription providers that do not depend on the
//! network: the vocabulary hint and the model name a provider expects.
use vstd::prelude::*;

use crate::error::GlideError;
use crate::local_models::apple_speech_locale_id;
use crate::provider::Provider;
use crate::text::{chars_of, string_from_chars, trim_spec, trim_string};

verus! {

/// The non-blank vocabulary terms, trimmed, in order.
pub open spec fn vocabulary_terms(v: Seq<String>) -> Seq<Seq<char>>
    decreases v.len(),
{
    if v.len() == 0 {
        Seq::empty()
    } else {
        let t = vocabulary_terms(v.drop_last());
        let w = trim_spec(v.last()@);
        if w.len() == 0 {
            t
        } else {
            t.push(w)
        }
    }
}

/// `parts` joined with `sep` between neighbours.
pub open spec fn join_with(parts: Seq<Seq<char>>, sep: Seq<char>) -> Seq<char>
    decreases parts.len(),
{
    if parts.len() == 0 {
        Seq::empty()
    } else if parts.len() == 1 {
        parts[0]
    } else {
        join_with(parts.drop_last(), sep) + sep + parts.last()
    }
}

/// The transcription prompt for a vocabulary: its terms joined by `", "`,
/// or nothing when no term is left.
pub fn vocabulary_prompt(vocabulary: &[String]) -> (r: Option<String>)
    ensures
        match r {
            Some(p) => vocabulary_terms(vocabulary@).len() > 0 && p@ == join_with(
                vocabulary_terms(vocabulary@),
                ", "@,
            ),
            None => vocabulary_terms(vocabulary@).len() == 0,
        },
{
    let mut out = String::new();
    let mut count: usize = 0;
    let mut i: usize = 0;
    proof {
        assert(vocabulary@.take(0) =~= Seq::<String>::empty());
    }
    while i < vocabulary.len()
        invariant
            i <= vocabulary@.len(),
            count == vocabulary_terms(vocabulary@.take(i as int)).len(),
            count <= i,
            out@ == join_with(vocabulary_terms(vocabulary@.take(i as int)), ", "@),
        decreases vocabulary@.len() - i,
    {
        proof {
            assert(vocabulary@.take(i + 1).drop_last() =~= vocabulary@.take(i as int));
            assert(vocabulary@.take(i + 1).last() == vocabulary@[i as int]);
        }
        let term = trim_string(vocabulary[i].as_str());
        let ghost before = vocabulary_terms(vocabulary@.take(i as int));
        if term.as_str().unicode_len() != 0 {
            proof {
                assert(vocabulary_terms(vocabulary@.take(i + 1)) == before.push(term@));
                assert(before.push(term@).drop_last() =~= before);
            }
            if count > 0 {
                out.append(", ");
            }
            out.append(term.as_str());
            count = count + 1;
        }
        i = i + 1;
    }
    proof {
        assert(vocabulary@.take(vocabulary@.len() as int) =~= vocabulary@);
    }
    if count == 0 {
        None
    } else {
        Some(out)
    }
}

/// The part of `model` after its last `/` (all of it when there is none).
pub open spec fn last_segment(model: Seq<char>) -> Seq<char>
    decreases model.len(),
{
    if model.len() == 0 {
        model
    } else if model.last() == '/' {
        Seq::empty()
    } else {
        last_segment(model.drop_last()).push(model.last())
    }
}

/// The model name sent with a transcription request: Fireworks takes the
/// last path segment of an `accounts/.../models/...` name, others the name.
pub open spec fn transcription_model_name(provider: Provider, model: Seq<char>) -> Seq<char> {
    if provider == Provider::Fireworks {
        last_segment(model)
    } else {
        model
    }
}

pub fn stt_model_name(provider: Provider, model: &str) -> (r: String)
    ensures
        r@ == transcription_model_name(provider, model@),
{
    if provider != Provider::Fireworks {
        return String::from_str(model);
    }
    let cs = chars_of(model);
    let n = cs.len();
    let mut b = n;
    proof {
        assert(cs@.subrange(0, n as int) =~= cs@);
        assert(cs@.subrange(n as int, n as int) =~= Seq::<char>::empty());
    }
    while b > 0 && cs[b - 1] != '/'
        invariant
            b <= n == cs@.len(),
            forall|k: int| b <= k < n ==> cs@[k] != '/',
            last_segment(cs@) == last_segment(cs@.subrange(0, b as int)) + cs@.subrange(b as int, n as int),
        decreases b,
    {
        proof {
            let s = cs@.subrange(0, b as int);
            assert(s.drop_last() =~= cs@.subrange(0, b - 1));
            assert(cs@.subrange(b - 1, n as int) =~= seq![s.last()] + cs@.subrange(b as int, n as int));
            assert(last_segment(cs@.subrange(0, b - 1)).push(s.last()) + cs@.subrange(b as int, n as int)
                =~= last_segment(cs@.subrange(0, b - 1)) + cs@.subrange(b - 1, n as int));
        }
        b = b - 1;
    }
    proof {
        let s = cs@.subrange(0, b as int);
        if b > 0 {
            assert(s.last() == '/');
        }
        assert(last_segment(s) =~= Seq::<char>::empty());
    }
    string_from_chars(&cs, b, n)
}

/// On-device transcription with Apple Speech for one locale model.
#[derive(Debug, Clone)]
pub struct AppleSpeechProvider {
    pub model_id: String,
}

impl AppleSpeechProvider {
    /// A provider for `model_id`, which must name an Apple Speech locale.
    pub fn new(model_id: &str) -> (r: Result<AppleSpeechProvider, GlideError>)
        ensures
            match r {
                Ok(p) => crate::local_models::locale_of(model_id@) is Some && p.model_id@ == model_id@,
                Err(e) => crate::local_models::locale_of(model_id@) is None && (e matches GlideError::UnknownAppleSpeechModel(m) && m@ == model_id@),
            },
    {
        match apple_speech_locale_id(model_id) {
            Some(_) => Ok(AppleSpeechProvider { model_id: String::from_str(model_id) }),
            None => Err(GlideError::UnknownAppleSpeechModel(String::from_str(model_id))),
        }
    }
}

/// Whether `provider` takes the API key as the whole `Authorization`
/// header (Fireworks) rather than as a bearer token.
pub fn uses_plain_authorization(provider: Provider) -> (r: bool)
    ensures
        r == (provider == Provider::Fireworks),
{
    match provider {
        Provider::Fireworks => true,
        _ => false,
    }
}

/// The `prompt` field of a transcription upload: the vocabulary prompt,
/// unless there is none or it is empty.
pub fn upload_prompt(prompt: &Option<String>) -> (r: Option<String>)
    ensures
        match *prompt {
            Some(p) => if p@.len() > 0 {
                r == Some(p)
            } else {
                r is None
            },
            None => r is None,
        },
{
    match prompt {
        Some(p) => if p.as_str().unicode_len() > 0 {
            Some(p.clone())
        } else {
            None
        },
        None => None,
    }
}

/// The transcript a provider's answer carries, trimmed.
pub fn transcript_text(text: &str) -> (r: String)
    ensures
        r@ == trim_spec(text@),
{
    trim_string(text)
}

} // verus!
