//! The check that the models Glide ships are still offered by the providers:
//! which models each provider is expected to list, which of them a live
//! listing lacks, and what that means for the check.
use vstd::prelude::*;

use crate::catalog::{known_llm_views, known_remote_llm_models, known_remote_stt_models, known_stt_views, views};
use crate::defaults::{cand_views, llm_remote_defaults, llm_remote_defaults_spec, stt_remote_defaults, stt_remote_defaults_spec};
use crate::provider::{label_of, Provider};
use crate::sorting::{lemma_lex_antisymmetric, lemma_lex_total, lemma_lex_transitive, lex_le};
use crate::text::{chars_of, str_eq};

verus! {

broadcast use vstd::seq_lib::group_seq_properties;

/// `a` sorts strictly before `b`.
pub open spec fn lex_lt(a: Seq<char>, b: Seq<char>) -> bool {
    lex_le(a, b) && a != b
}

/// The characters of a list of strings.
pub open spec fn names(v: Seq<String>) -> Seq<Seq<char>> {
    v.map_values(|s: String| s@)
}

/// Sorted without repetition.
pub open spec fn strictly_sorted(s: Seq<Seq<char>>) -> bool {
    forall|i: int, j: int| 0 <= i < j < s.len() ==> lex_lt(#[trigger] s[i], #[trigger] s[j])
}

fn lex_le_str(a: &str, b: &str) -> (r: bool)
    ensures
        r == lex_le(a@, b@),
{
    let ac = chars_of(a);
    let bc = chars_of(b);
    let mut i: usize = 0;
    while i < ac.len() && i < bc.len() && ac[i] == bc[i]
        invariant
            ac@ == a@,
            bc@ == b@,
            i <= ac@.len(),
            i <= bc@.len(),
            lex_le(a@, b@) == lex_le(a@.skip(i as int), b@.skip(i as int)),
        decreases ac@.len() - i,
    {
        proof {
            assert(a@.skip(i as int).drop_first() =~= a@.skip(i + 1));
            assert(b@.skip(i as int).drop_first() =~= b@.skip(i + 1));
        }
        i = i + 1;
    }
    if i == ac.len() {
        true
    } else if i == bc.len() {
        false
    } else {
        proof {
            assert(a@.skip(i as int)[0] == a@[i as int]);
            assert(b@.skip(i as int)[0] == b@[i as int]);
        }
        ac[i] < bc[i]
    }
}

/// Adds `x` to a sorted list without repetition, keeping it so.
fn insert_sorted_unique(v: &mut Vec<String>, x: String)
    requires
        strictly_sorted(names(old(v)@)),
    ensures
        strictly_sorted(names(final(v)@)),
        forall|y: Seq<char>| names(final(v)@).contains(y) <==> (names(old(v)@).contains(y) || y == x@),
{
    let ghost s = names(v@);
    let mut pos: usize = 0;
    while pos < v.len() && !lex_le_str(x.as_str(), v[pos].as_str())
        invariant
            pos <= v@.len(),
            s == names(v@),
            forall|k: int| 0 <= k < pos ==> lex_lt(#[trigger] s[k], x@),
        decreases v@.len() - pos,
    {
        proof {
            lemma_lex_total(x@, s[pos as int]);
            if s[pos as int] == x@ {
                crate::sorting::lemma_lex_reflexive(x@);
            }
        }
        pos = pos + 1;
    }
    if pos < v.len() && str_eq(v[pos].as_str(), x.as_str()) {
        proof {
            assert forall|y: Seq<char>| s.contains(y) <==> (s.contains(y) || y == x@) by {
                if y == x@ {
                    assert(s[pos as int] == y);
                }
            }
        }
        return;
    }
    proof {
        if pos < s.len() {
            assert(lex_le(x@, s[pos as int]) && s[pos as int] != x@);
        }
    }
    v.insert(pos, x);
    proof {
        let t = names(v@);
        assert(t =~= s.insert(pos as int, x@));
        assert forall|i: int, j: int| 0 <= i < j < t.len() implies lex_lt(#[trigger] t[i], #[trigger] t[j]) by {
            if j < pos {
                assert(t[i] == s[i] && t[j] == s[j]);
            } else if j == pos {
                assert(t[i] == s[i] && t[j] == x@);
            } else if i < pos {
                assert(t[i] == s[i] && t[j] == s[j - 1]);
                assert(lex_lt(s[i], s[j - 1]));
            } else if i == pos {
                assert(t[i] == x@ && t[j] == s[j - 1]);
                if j - 1 > pos {
                    assert(lex_lt(s[pos as int], s[j - 1]));
                    lemma_lex_transitive(x@, s[pos as int], s[j - 1]);
                    if x@ == s[j - 1] {
                        lemma_lex_antisymmetric(x@, s[pos as int]);
                    }
                }
            } else {
                assert(t[i] == s[i - 1] && t[j] == s[j - 1]);
            }
        }
        assert forall|y: Seq<char>| t.contains(y) <==> (s.contains(y) || y == x@) by {
            if t.contains(y) {
                let k = choose|k: int| 0 <= k < t.len() && t[k] == y;
                if k < pos {
                    assert(s[k] == y);
                } else if k > pos {
                    assert(s[k - 1] == y);
                }
            }
            if s.contains(y) {
                let k = choose|k: int| 0 <= k < s.len() && s[k] == y;
                if k < pos {
                    assert(t[k] == y);
                } else {
                    assert(t[k + 1] == y);
                }
            }
            if y == x@ {
                assert(t[pos as int] == y);
            }
        }
    }
}

/// Whether Glide ships model `id` for `provider`: as one of its defaults or
/// in the picker's built-in list.
pub open spec fn ships(provider: Provider, id: Seq<char>) -> bool {
    (stt_remote_defaults_spec() + llm_remote_defaults_spec()).contains((provider, id)) || exists|k: int|
        0 <= k < (known_stt_views() + known_llm_views()).len() && (#[trigger] (known_stt_views()
            + known_llm_views())[k]).provider == label_of(provider) && (known_stt_views() + known_llm_views())[k].id
            == id
}

/// Every model Glide ships for `provider`, sorted, each once.
pub fn shipped_models(provider: Provider) -> (r: Vec<String>)
    ensures
        strictly_sorted(names(r@)),
        forall|id: Seq<char>| names(r@).contains(id) <==> ships(provider, id),
{
    let mut defaults = stt_remote_defaults();
    let mut more = llm_remote_defaults();
    defaults.append(&mut more);
    let mut known = known_remote_stt_models();
    let mut known_llm = known_remote_llm_models();
    known.append(&mut known_llm);
    let ghost ds = cand_views(defaults@);
    let ghost ks = views(known@);
    proof {
        assert(ds =~= stt_remote_defaults_spec() + llm_remote_defaults_spec());
        assert(ks =~= known_stt_views() + known_llm_views());
    }
    let label = provider.label();
    let mut r: Vec<String> = Vec::new();
    let mut i: usize = 0;
    while i < defaults.len()
        invariant
            i <= defaults@.len(),
            ds == cand_views(defaults@),
            strictly_sorted(names(r@)),
            forall|id: Seq<char>|
                names(r@).contains(id) <==> exists|k: int| 0 <= k < i && #[trigger] ds[k] == (provider, id),
        decreases defaults@.len() - i,
    {
        let (p, m) = defaults[i];
        let ghost before = names(r@);
        if p == provider {
            insert_sorted_unique(&mut r, String::from_str(m));
        }
        proof {
            assert(ds[i as int] == (p, m@));
            assert forall|id: Seq<char>|
                (exists|k: int| 0 <= k < i + 1 && #[trigger] ds[k] == (provider, id)) implies names(r@).contains(id) by {
                let k = choose|k: int| 0 <= k < i + 1 && #[trigger] ds[k] == (provider, id);
                if k < i {
                    assert(exists|k2: int| 0 <= k2 < i && #[trigger] ds[k2] == (provider, id));
                    assert(before.contains(id));
                }
            }
        }
        i = i + 1;
    }
    let mut j: usize = 0;
    while j < known.len()
        invariant
            j <= known@.len(),
            ks == views(known@),
            label@ == label_of(provider),
            strictly_sorted(names(r@)),
            forall|id: Seq<char>|
                names(r@).contains(id) <==> (ds.contains((provider, id)) || exists|k: int|
                    0 <= k < j && (#[trigger] ks[k]).provider == label_of(provider) && ks[k].id == id),
        decreases known@.len() - j,
    {
        let ghost before = names(r@);
        if str_eq(known[j].provider.as_str(), label) {
            insert_sorted_unique(&mut r, known[j].id.clone());
        }
        proof {
            assert(ks[j as int] == known@[j as int]@);
            assert forall|id: Seq<char>|
                (ds.contains((provider, id)) || exists|k: int|
                    0 <= k < j + 1 && (#[trigger] ks[k]).provider == label_of(provider) && ks[k].id == id) implies names(
                    r@,
                ).contains(id) by {
                if !ds.contains((provider, id)) {
                    let k = choose|k: int|
                        0 <= k < j + 1 && (#[trigger] ks[k]).provider == label_of(provider) && ks[k].id == id;
                    if k < j {
                        assert(exists|k2: int|
                            0 <= k2 < j && (#[trigger] ks[k2]).provider == label_of(provider) && ks[k2].id == id);
                        assert(before.contains(id));
                    }
                }
            }
            assert forall|id: Seq<char>|
                names(r@).contains(id) ==> (ds.contains((provider, id)) || exists|k: int|
                    0 <= k < j + 1 && (#[trigger] ks[k]).provider == label_of(provider) && ks[k].id == id) by {
                if names(r@).contains(id) && !before.contains(id) {
                    assert(ks[j as int].provider == label_of(provider) && ks[j as int].id == id);
                }
                if before.contains(id) && !ds.contains((provider, id)) {
                    let k = choose|k: int|
                        0 <= k < j && (#[trigger] ks[k]).provider == label_of(provider) && ks[k].id == id;
                    assert(0 <= k < j + 1);
                }
            }
        }
        j = j + 1;
    }
    r
}

/// The shipped models a listing lacks, in the order they were given.
pub open spec fn missing_from(shipped: Seq<Seq<char>>, available: Seq<Seq<char>>) -> Seq<Seq<char>>
    decreases shipped.len(),
{
    if shipped.len() == 0 {
        Seq::empty()
    } else {
        let rest = missing_from(shipped.drop_last(), available);
        if available.contains(shipped.last()) {
            rest
        } else {
            rest.push(shipped.last())
        }
    }
}

fn listed(available: &[String], id: &str) -> (r: bool)
    ensures
        r == names(available@).contains(id@),
{
    let mut i: usize = 0;
    while i < available.len()
        invariant
            i <= available@.len(),
            forall|k: int| 0 <= k < i ==> (#[trigger] available@[k])@ != id@,
        decreases available@.len() - i,
    {
        if str_eq(available[i].as_str(), id) {
            proof {
                assert(names(available@)[i as int] == id@);
            }
            return true;
        }
        i = i + 1;
    }
    proof {
        if names(available@).contains(id@) {
            let k = choose|k: int| 0 <= k < names(available@).len() && names(available@)[k] == id@;
            assert(available@[k]@ == id@);
        }
    }
    false
}

pub fn missing_models(shipped: &[String], available: &[String]) -> (r: Vec<String>)
    ensures
        names(r@) == missing_from(names(shipped@), names(available@)),
{
    let ghost s = names(shipped@);
    let mut r: Vec<String> = Vec::new();
    let mut i: usize = 0;
    while i < shipped.len()
        invariant
            i <= shipped@.len(),
            s == names(shipped@),
            names(r@) == missing_from(s.take(i as int), names(available@)),
        decreases shipped@.len() - i,
    {
        proof {
            assert(s.take(i + 1).drop_last() =~= s.take(i as int));
            assert(s.take(i + 1).last() == s[i as int]);
        }
        if !listed(available, shipped[i].as_str()) {
            let ghost before = names(r@);
            r.push(shipped[i].clone());
            proof {
                assert(names(r@) =~= before.push(s[i as int]));
            }
        }
        i = i + 1;
    }
    proof {
        assert(s.take(s.len() as int) =~= s);
    }
    r
}

/// The providers checked, with the variable holding their API key and
/// whether their listing names every live model (Fireworks' leaves out its
/// serverless models, so its gaps are reported but do not fail the check).
pub fn model_checks() -> (r: Vec<(Provider, &'static str, bool)>)
    ensures
        r@.len() == 4,
        r@[0].0 == Provider::Groq && r@[0].1@ == "GROQ_API_KEY"@ && r@[0].2,
        r@[1].0 == Provider::OpenAi && r@[1].1@ == "OPENAI_API_KEY"@ && r@[1].2,
        r@[2].0 == Provider::Cerebras && r@[2].1@ == "CEREBRAS_API_KEY"@ && r@[2].2,
        r@[3].0 == Provider::Fireworks && r@[3].1@ == "FIREWORKS_API_KEY"@ && !r@[3].2,
{
    vec![
        (Provider::Groq, "GROQ_API_KEY", true),
        (Provider::OpenAi, "OPENAI_API_KEY", true),
        (Provider::Cerebras, "CEREBRAS_API_KEY", true),
        (Provider::Fireworks, "FIREWORKS_API_KEY", false),
    ]
}

/// What one provider's listing means for the check.
#[derive(Debug, Clone, Copy, PartialEq, Eq, Structural)]
pub enum ProviderCheck {
    /// Every shipped model is listed.
    AllLive,
    /// Shipped models are missing from a listing that names every live model.
    Missing,
    /// Shipped models are missing from a listing that leaves some out.
    NotListed,
}

pub fn provider_check(missing: &[String], authoritative: bool) -> (r: ProviderCheck)
    ensures
        missing@.len() == 0 ==> r == ProviderCheck::AllLive,
        missing@.len() > 0 && authoritative ==> r == ProviderCheck::Missing,
        missing@.len() > 0 && !authoritative ==> r == ProviderCheck::NotListed,
{
    if missing.len() == 0 {
        ProviderCheck::AllLive
    } else if authoritative {
        ProviderCheck::Missing
    } else {
        ProviderCheck::NotListed
    }
}

/// Why the check failed.
#[derive(Debug, Clone, Copy, PartialEq, Eq, Structural)]
pub enum ModelCheckFailure {
    /// No provider could be checked: no API key was set.
    NoKeys,
    /// A listing that names every live model lacks shipped models.
    MissingModels,
}

/// How the run ends: at least one provider must have been looked at, and no
/// authoritative listing may lack a shipped model.
pub fn model_check_result(checked: usize, failures: usize) -> (r: Result<(), ModelCheckFailure>)
    ensures
        checked == 0 ==> r == Err::<(), ModelCheckFailure>(ModelCheckFailure::NoKeys),
        checked > 0 && failures > 0 ==> r == Err::<(), ModelCheckFailure>(ModelCheckFailure::MissingModels),
        checked > 0 && failures == 0 ==> r is Ok,
{
    if checked == 0 {
        Err(ModelCheckFailure::NoKeys)
    } else if failures > 0 {
        Err(ModelCheckFailure::MissingModels)
    } else {
        Ok(())
    }
}

} // verus!
