//! The API keys Glide keeps in the system keychain: which keys are stored,
//! how a stored table is read back, and how it fills the providers' settings.
//! A key table is a list of (key identifier, key) pairs, one per identifier.
use vstd::prelude::*;

use crate::config::GlideConfig;
use crate::local_models::{first_index, lemma_first_index_full};
use crate::provider::{
    key_id_of, provider_with_key_id, remote_at, Provider, ProviderCredentials, ProvidersConfig,
    REMOTE_PROVIDER_COUNT, law_key_id_names_one_provider,
};
use crate::config::hotkey::{decimal_digits, push_decimal};
use crate::text::{is_blank, str_eq, trim_spec};

verus! {

/// A key table by its characters.
pub open spec fn table_view(keys: Seq<(String, String)>) -> Seq<(Seq<char>, Seq<char>)> {
    keys.map_values(|e: (String, String)| (e.0@, e.1@))
}

/// Whether a key is blank, so not worth storing.
pub open spec fn blank_key(key: Seq<char>) -> bool {
    trim_spec(key).len() == 0
}

/// Whether a table entry is stored under `id`.
pub open spec fn key_is(id: Seq<char>) -> spec_fn((Seq<char>, Seq<char>)) -> bool {
    |e: (Seq<char>, Seq<char>)| e.0 == id
}

/// The position of identifier `id` in a table, if it is there.
pub open spec fn position_of(t: Seq<(Seq<char>, Seq<char>)>, id: Seq<char>) -> Option<int> {
    first_index(t, key_is(id))
}

/// The key stored under `id`, if any.
pub open spec fn lookup(t: Seq<(Seq<char>, Seq<char>)>, id: Seq<char>) -> Option<Seq<char>> {
    match position_of(t, id) {
        Some(i) => Some(t[i].1),
        None => None,
    }
}

/// The table with `key` stored under `id`: replacing the key stored there,
/// or added at the end.
pub open spec fn with_key(t: Seq<(Seq<char>, Seq<char>)>, id: Seq<char>, key: Seq<char>) -> Seq<
    (Seq<char>, Seq<char>),
> {
    match position_of(t, id) {
        Some(i) => t.update(i, (id, key)),
        None => t.push((id, key)),
    }
}

/// Storing `key` under `id` answers it for `id` and leaves other
/// identifiers alone.
pub proof fn lemma_with_key(t: Seq<(Seq<char>, Seq<char>)>, id: Seq<char>, key: Seq<char>, other: Seq<char>)
    ensures
        lookup(with_key(t, id, key), id) == Some(key),
        other != id ==> lookup(with_key(t, id, key), other) == lookup(t, other),
{
    let p_id = key_is(id);
    let p_other = key_is(other);
    let u = with_key(t, id, key);
    lemma_first_index_full(t, p_id);
    lemma_first_index_full(t, p_other);
    lemma_first_index_full(u, p_id);
    lemma_first_index_full(u, p_other);
    match position_of(t, id) {
        Some(i) => {
            assert(p_id(u[i]));
            if let Some(j) = position_of(u, id) {
                if j < i {
                    assert(u[j] == t[j]);
                    assert(!p_id(t[j]));
                }
            }
            if other != id {
                match position_of(t, other) {
                    Some(k) => {
                        assert(u[k] == t[k] || k == i);
                        assert(p_other(u[k]));
                        if let Some(j) = position_of(u, other) {
                            if j < k {
                                assert(!p_other(t[j]));
                                assert(u[j] == t[j] || j == i);
                            }
                        }
                    },
                    None => {
                        if let Some(j) = position_of(u, other) {
                            assert(u[j] == t[j] || j == i);
                            assert(!p_other(t[j]));
                        }
                    },
                }
            }
        },
        None => {
            assert(p_id(u[t.len() as int]));
            if let Some(j) = position_of(u, id) {
                if j < t.len() {
                    assert(u[j] == t[j]);
                    assert(!p_id(t[j]));
                }
            }
            if other != id {
                match position_of(t, other) {
                    Some(k) => {
                        assert(u[k] == t[k]);
                        assert(p_other(u[k]));
                        if let Some(j) = position_of(u, other) {
                            if j < k {
                                assert(u[j] == t[j]);
                                assert(!p_other(t[j]));
                            }
                        }
                    },
                    None => {
                        if let Some(j) = position_of(u, other) {
                            if j < t.len() {
                                assert(u[j] == t[j]);
                                assert(!p_other(t[j]));
                            }
                        }
                    },
                }
            }
        },
    }
}

/// Where `id` is stored in `keys`, if it is.
fn find_key(keys: &Vec<(String, String)>, id: &str) -> (r: Option<usize>)
    ensures
        match r {
            Some(i) => i < keys@.len() && position_of(table_view(keys@), id@) == Some(i as int),
            None => position_of(table_view(keys@), id@) is None,
        },
{
    let ghost t = table_view(keys@);
    let ghost pred = key_is(id@);
    let mut i: usize = 0;
    while i < keys.len()
        invariant
            i <= keys@.len(),
            t == table_view(keys@),
            t.len() == keys@.len(),
            pred == key_is(id@),
            forall|k: int| 0 <= k < i ==> !pred(#[trigger] t[k]),
        decreases keys@.len() - i,
    {
        if str_eq(keys[i].0.as_str(), id) {
            proof {
                lemma_first_index_full(t, pred);
                assert(pred(t[i as int]));
                let j = first_index(t, pred);
                if j is Some {
                    let jj = j.unwrap();
                    if jj < i {
                        assert(!pred(t[jj]));
                    } else if jj > i {
                        assert(pred(t[i as int]));
                    }
                }
            }
            return Some(i);
        }
        proof {
            assert(!pred(t[i as int]));
        }
        i = i + 1;
    }
    proof {
        lemma_first_index_full(t, pred);
        if first_index(t, pred) is Some {
            let j = first_index(t, pred).unwrap();
            assert(pred(t[j]));
        }
    }
    None
}

/// Stores `key` under identifier `provider`, unless the key is blank.
pub fn insert_provider_key(keys: &mut Vec<(String, String)>, provider: &str, key: &str)
    ensures
        table_view(final(keys)@) == if blank_key(key@) {
            table_view(old(keys)@)
        } else {
            with_key(table_view(old(keys)@), provider@, key@)
        },
{
    if is_blank(key) {
        return;
    }
    let ghost t = table_view(keys@);
    match find_key(keys, provider) {
        Some(i) => {
            keys.set(i, (String::from_str(provider), String::from_str(key)));
            proof {
                assert(table_view(keys@) =~= t.update(i as int, (provider@, key@)));
            }
        },
        None => {
            keys.push((String::from_str(provider), String::from_str(key)));
            proof {
                assert(table_view(keys@) =~= t.push((provider@, key@)));
            }
        },
    }
}

/// The table of the non-blank keys of the remote providers in slots `0..n`.
pub open spec fn stored_keys(providers: ProvidersConfig, n: int) -> Seq<(Seq<char>, Seq<char>)>
    decreases n,
{
    if n <= 0 {
        Seq::empty()
    } else {
        let t = stored_keys(providers, n - 1);
        let p = remote_at(n - 1);
        let key = providers.credentials_of(p).unwrap().api_key@;
        if blank_key(key) {
            t
        } else {
            with_key(t, key_id_of(p).unwrap(), key)
        }
    }
}

/// The keys to keep in the keychain: every remote provider's non-blank key,
/// under the provider's key identifier.
pub fn provider_keys_from_config(config: &GlideConfig) -> (r: Vec<(String, String)>)
    ensures
        table_view(r@) == stored_keys(config.providers, REMOTE_PROVIDER_COUNT as int),
{
    let credentials = config.providers.remote_credentials();
    let mut keys: Vec<(String, String)> = Vec::new();
    let mut i: usize = 0;
    while i < credentials.len()
        invariant
            i <= credentials@.len(),
            credentials@.len() == REMOTE_PROVIDER_COUNT,
            forall|j: int|
                0 <= j < REMOTE_PROVIDER_COUNT ==> #[trigger] credentials@[j] == (
                    remote_at(j),
                    config.providers.credentials_of(remote_at(j)).unwrap(),
                ),
            table_view(keys@) == stored_keys(config.providers, i as int),
        decreases credentials@.len() - i,
    {
        proof {
            assert(credentials@[i as int] == (
                remote_at(i as int),
                config.providers.credentials_of(remote_at(i as int)).unwrap(),
            ));
        }
        let provider = credentials[i].0;
        if let Some(key_id) = provider.key_id() {
            insert_provider_key(&mut keys, key_id, credentials[i].1.api_key.as_str());
        }
        i = i + 1;
    }
    keys
}

/// The non-blank entries of a table, in order.
pub open spec fn non_blank_entries(t: Seq<(Seq<char>, Seq<char>)>) -> Seq<(Seq<char>, Seq<char>)>
    decreases t.len(),
{
    if t.len() == 0 {
        Seq::empty()
    } else {
        let rest = non_blank_entries(t.drop_last());
        if blank_key(t.last().1) {
            rest
        } else {
            rest.push(t.last())
        }
    }
}

/// What goes into the keychain: the non-blank entries, or nothing at all
/// (the keychain entry is removed) when none is left.
pub fn provider_keys_to_store(keys: &Vec<(String, String)>) -> (r: Option<Vec<(String, String)>>)
    ensures
        match r {
            Some(v) => non_blank_entries(table_view(keys@)).len() > 0 && table_view(v@) == non_blank_entries(
                table_view(keys@),
            ),
            None => non_blank_entries(table_view(keys@)).len() == 0,
        },
{
    let ghost t = table_view(keys@);
    let mut out: Vec<(String, String)> = Vec::new();
    let mut i: usize = 0;
    while i < keys.len()
        invariant
            i <= keys@.len(),
            t == table_view(keys@),
            table_view(out@) == non_blank_entries(t.take(i as int)),
        decreases keys@.len() - i,
    {
        proof {
            assert(t.take(i + 1).drop_last() =~= t.take(i as int));
            assert(t.take(i + 1).last() == t[i as int]);
        }
        if !is_blank(keys[i].1.as_str()) {
            let ghost before = table_view(out@);
            out.push((keys[i].0.clone(), keys[i].1.clone()));
            proof {
                assert(table_view(out@) =~= before.push(t[i as int]));
            }
        }
        i = i + 1;
    }
    proof {
        assert(t.take(keys@.len() as int) =~= t);
    }
    if out.len() == 0 {
        None
    } else {
        Some(out)
    }
}

/// A decoded keychain table, normalised: entries under an identifier that
/// names no remote provider, and blank keys, are dropped.
pub open spec fn normalized_keys(t: Seq<(Seq<char>, Seq<char>)>) -> Seq<(Seq<char>, Seq<char>)>
    decreases t.len(),
{
    if t.len() == 0 {
        Seq::empty()
    } else {
        let rest = normalized_keys(t.drop_last());
        let e = t.last();
        match provider_with_key_id(e.0) {
            Some(p) => match key_id_of(p) {
                Some(id) => if blank_key(e.1) {
                    rest
                } else {
                    with_key(rest, id, e.1)
                },
                None => rest,
            },
            None => rest,
        }
    }
}

pub fn normalize_provider_keys(decoded: Vec<(String, String)>) -> (r: Vec<(String, String)>)
    ensures
        table_view(r@) == normalized_keys(table_view(decoded@)),
{
    let ghost t = table_view(decoded@);
    let mut out: Vec<(String, String)> = Vec::new();
    let mut i: usize = 0;
    while i < decoded.len()
        invariant
            i <= decoded@.len(),
            t == table_view(decoded@),
            table_view(out@) == normalized_keys(t.take(i as int)),
        decreases decoded@.len() - i,
    {
        proof {
            assert(t.take(i + 1).drop_last() =~= t.take(i as int));
            assert(t.take(i + 1).last() == t[i as int]);
        }
        if let Some(provider) = Provider::from_key_id(decoded[i].0.as_str()) {
            if let Some(key_id) = provider.key_id() {
                insert_provider_key(&mut out, key_id, decoded[i].1.as_str());
            }
        }
        i = i + 1;
    }
    proof {
        assert(t.take(decoded@.len() as int) =~= t);
    }
    out
}

/// The key a table gives remote provider `p`: the key stored under its
/// identifier, or none.
pub open spec fn key_for(t: Seq<(Seq<char>, Seq<char>)>, p: Provider) -> Seq<char> {
    match lookup(t, key_id_of(p).unwrap()) {
        Some(k) => k,
        None => Seq::empty(),
    }
}

fn key_from_table(keys: &Vec<(String, String)>, provider: Provider) -> (r: String)
    requires
        key_id_of(provider) is Some,
    ensures
        r@ == key_for(table_view(keys@), provider),
{
    match provider.key_id() {
        Some(id) => match find_key(keys, id) {
            Some(i) => keys[i].1.clone(),
            None => String::new(),
        },
        None => String::new(),
    }
}

/// Sets every remote provider's key from a keychain table; providers with
/// no stored key get none. Endpoints are kept.
pub fn apply_provider_keys(providers: &mut ProvidersConfig, keys: &Vec<(String, String)>)
    ensures
        forall|p: Provider|
            #![trigger final(providers).credentials_of(p)]
            key_id_of(p) is Some ==> final(providers).credentials_of(p).unwrap().api_key@ == key_for(
                table_view(keys@),
                p,
            ) && final(providers).credentials_of(p).unwrap().base_url == old(
                providers,
            ).credentials_of(p).unwrap().base_url,
{
    providers.openai.api_key = key_from_table(keys, Provider::OpenAi);
    providers.groq.api_key = key_from_table(keys, Provider::Groq);
    providers.cerebras.api_key = key_from_table(keys, Provider::Cerebras);
    providers.fireworks.api_key = key_from_table(keys, Provider::Fireworks);
    providers.elevenlabs.api_key = key_from_table(keys, Provider::ElevenLabs);
}

/// Looking up in a table with one more entry at its end.
proof fn lemma_lookup_push(t: Seq<(Seq<char>, Seq<char>)>, e: (Seq<char>, Seq<char>), id: Seq<char>)
    ensures
        lookup(t.push(e), id) == match lookup(t, id) {
            Some(k) => Some(k),
            None => if e.0 == id {
                Some(e.1)
            } else {
                None
            },
        },
{
    let u = t.push(e);
    assert(u.drop_last() =~= t);
    lemma_first_index_full(t, key_is(id));
    if let Some(i) = position_of(t, id) {
        assert(u[i] == t[i]);
    }
}

/// A table as the keychain should hold it: each entry under the key
/// identifier of a remote provider, no key blank, no identifier twice.
pub open spec fn well_formed_table(t: Seq<(Seq<char>, Seq<char>)>) -> bool {
    &&& forall|i: int|
        0 <= i < t.len() ==> (provider_with_key_id((#[trigger] t[i]).0) matches Some(p) && key_id_of(p) == Some(
            t[i].0,
        ))
    &&& forall|i: int| 0 <= i < t.len() ==> !blank_key((#[trigger] t[i]).1)
    &&& forall|i: int, j: int| 0 <= i < j < t.len() ==> (#[trigger] t[i]).0 != (#[trigger] t[j]).0
}

/// Normalising a well-formed table answers every lookup as the table does.
proof fn lemma_normalized_lookup(t: Seq<(Seq<char>, Seq<char>)>, id: Seq<char>)
    requires
        well_formed_table(t),
    ensures
        lookup(normalized_keys(t), id) == lookup(t, id),
    decreases t.len(),
{
    if t.len() > 0 {
        let s = t.drop_last();
        let e = t.last();
        assert(well_formed_table(s)) by {
            assert forall|i: int| 0 <= i < s.len() implies provider_with_key_id((#[trigger] s[i]).0) matches Some(p)
                && key_id_of(p) == Some(s[i].0) by {
                assert(s[i] == t[i]);
            }
            assert forall|i: int| 0 <= i < s.len() implies !blank_key((#[trigger] s[i]).1) by {
                assert(s[i] == t[i]);
            }
            assert forall|i: int, j: int| 0 <= i < j < s.len() implies (#[trigger] s[i]).0 != (#[trigger] s[j]).0 by {
                assert(s[i] == t[i] && s[j] == t[j]);
            }
        }
        lemma_normalized_lookup(s, id);
        assert(t =~= s.push(e));
        lemma_lookup_push(s, e, id);
        assert(provider_with_key_id(t[t.len() - 1].0) is Some);
        let p = provider_with_key_id(e.0).unwrap();
        assert(key_id_of(p) == Some(e.0));
        assert(!blank_key(e.1));
        lemma_with_key(normalized_keys(s), e.0, e.1, id);
        if e.0 == id {
            lemma_first_index_full(s, key_is(id));
            if let Some(i) = position_of(s, id) {
                assert(s[i] == t[i]);
                assert(t[i].0 != t[t.len() - 1].0);
            }
        }
    }
}

/// The key the stored table holds under `id`, slot by slot.
proof fn lemma_stored_lookup(providers: ProvidersConfig, n: int, j: int)
    requires
        0 <= j < REMOTE_PROVIDER_COUNT,
        n <= REMOTE_PROVIDER_COUNT,
    ensures
        lookup(stored_keys(providers, n), key_id_of(remote_at(j)).unwrap()) == if j < n && !blank_key(
            providers.credentials_of(remote_at(j)).unwrap().api_key@,
        ) {
            Some(providers.credentials_of(remote_at(j)).unwrap().api_key@)
        } else {
            None
        },
    decreases n,
{
    let id = key_id_of(remote_at(j)).unwrap();
    if n > 0 {
        lemma_stored_lookup(providers, n - 1, j);
        let q = remote_at(n - 1);
        law_key_id_names_one_provider(q);
        law_key_id_names_one_provider(remote_at(j));
        let key = providers.credentials_of(q).unwrap().api_key@;
        if !blank_key(key) {
            lemma_with_key(stored_keys(providers, n - 1), key_id_of(q).unwrap(), key, id);
        }
    } else {
        assert(stored_keys(providers, n).len() == 0);
    }
}

/// The stored table is well formed.
proof fn lemma_stored_well_formed(providers: ProvidersConfig, n: int)
    requires
        n <= REMOTE_PROVIDER_COUNT,
    ensures
        well_formed_table(stored_keys(providers, n)),
        forall|i: int|
            0 <= i < stored_keys(providers, n).len() ==> exists|j: int|
                0 <= j < n && (#[trigger] stored_keys(providers, n)[i]).0 == key_id_of(remote_at(j)).unwrap(),
    decreases n,
{
    if n > 0 {
        lemma_stored_well_formed(providers, n - 1);
        let t = stored_keys(providers, n - 1);
        let q = remote_at(n - 1);
        law_key_id_names_one_provider(q);
        let key = providers.credentials_of(q).unwrap().api_key@;
        if !blank_key(key) {
            let id = key_id_of(q).unwrap();
            assert(position_of(t, id) is None) by {
                lemma_first_index_full(t, key_is(id));
                if let Some(i) = position_of(t, id) {
                    let j = choose|j: int| 0 <= j < n - 1 && t[i].0 == key_id_of(remote_at(j)).unwrap();
                    law_key_id_names_one_provider(remote_at(j));
                }
            }
            let u = t.push((id, key));
            assert(stored_keys(providers, n) == u);
            assert forall|i: int| 0 <= i < u.len() implies exists|j: int|
                0 <= j < n && (#[trigger] u[i]).0 == key_id_of(remote_at(j)).unwrap() by {
                if i < t.len() {
                    assert(u[i] == t[i]);
                    let j = choose|j: int| 0 <= j < n - 1 && t[i].0 == key_id_of(remote_at(j)).unwrap();
                    assert(u[i].0 == key_id_of(remote_at(j)).unwrap());
                } else {
                    assert(u[i].0 == key_id_of(remote_at(n - 1)).unwrap());
                }
            }
            assert forall|i: int, k: int| 0 <= i < k < u.len() implies (#[trigger] u[i]).0 != (#[trigger] u[k]).0 by {
                if k == t.len() {
                    lemma_first_index_full(t, key_is(id));
                    assert(u[i] == t[i]);
                    assert(!key_is(id)(t[i]));
                } else {
                    assert(u[i] == t[i] && u[k] == t[k]);
                }
            }
            assert forall|i: int| 0 <= i < u.len() implies provider_with_key_id((#[trigger] u[i]).0) matches Some(p)
                && key_id_of(p) == Some(u[i].0) by {
                if i < t.len() {
                    assert(u[i] == t[i]);
                }
            }
            assert forall|i: int| 0 <= i < u.len() implies !blank_key((#[trigger] u[i]).1) by {
                if i < t.len() {
                    assert(u[i] == t[i]);
                }
            }
        } else {
            assert forall|i: int| 0 <= i < t.len() implies exists|j: int|
                0 <= j < n && (#[trigger] t[i]).0 == key_id_of(remote_at(j)).unwrap() by {
                let j = choose|j: int| 0 <= j < n - 1 && t[i].0 == key_id_of(remote_at(j)).unwrap();
            }
        }
    }
}

/// Saving then loading the keys restores them: the keys stored for a
/// configuration, read back from the keychain and normalised, give every
/// remote provider its key when it was not blank, and no key otherwise.
pub proof fn law_stored_keys_round_trip(providers: ProvidersConfig, p: Provider)
    requires
        key_id_of(p) is Some,
    ensures
        key_for(normalized_keys(stored_keys(providers, REMOTE_PROVIDER_COUNT as int)), p) == if blank_key(
            providers.credentials_of(p).unwrap().api_key@,
        ) {
            Seq::<char>::empty()
        } else {
            providers.credentials_of(p).unwrap().api_key@
        },
{
    let j: int = match p {
        Provider::OpenAi => 0,
        Provider::Groq => 1,
        Provider::Cerebras => 2,
        Provider::Fireworks => 3,
        _ => 4,
    };
    assert(remote_at(j) == p);
    lemma_stored_well_formed(providers, REMOTE_PROVIDER_COUNT as int);
    lemma_stored_lookup(providers, REMOTE_PROVIDER_COUNT as int, j);
    lemma_normalized_lookup(stored_keys(providers, REMOTE_PROVIDER_COUNT as int), key_id_of(p).unwrap());
}

/// What Glide last knows the keychain holds: unknown, or the payload it
/// last read or wrote (none when the entry is absent).
#[derive(Debug, Clone, PartialEq, Eq)]
pub enum KeyringMirror {
    Unknown,
    Synced(Option<String>),
}

/// What to do with the keychain on save.
#[derive(Debug, Clone, PartialEq, Eq)]
pub enum KeyringAction {
    /// The keychain already holds this payload.
    Skip,
    /// Write this payload.
    Store(String),
    /// Remove the entry: no key is left to keep.
    Delete,
}

/// How the keychain answered a write.
#[derive(Debug, Clone, Copy, PartialEq, Eq, Structural)]
pub enum KeyringReply {
    Done,
    /// The entry to remove was not there.
    NoEntry,
    Failed,
}

/// A payload by its characters.
pub open spec fn payload_view(p: Option<String>) -> Option<Seq<char>> {
    match p {
        Some(s) => Some(s@),
        None => None,
    }
}

/// Whether the keychain is known to hold `payload`.
pub open spec fn holds(mirror: KeyringMirror, payload: Option<String>) -> bool {
    match mirror {
        KeyringMirror::Synced(current) => payload_view(current) == payload_view(payload),
        KeyringMirror::Unknown => false,
    }
}

/// The write a save needs: none when the keychain is known to hold the
/// payload already (so no authorisation prompt is shown), else the payload
/// is written, or the entry removed when there is no payload.
pub open spec fn keyring_action_spec(mirror: KeyringMirror, payload: Option<String>) -> KeyringAction {
    if holds(mirror, payload) {
        KeyringAction::Skip
    } else {
        match payload {
            Some(p) => KeyringAction::Store(p),
            None => KeyringAction::Delete,
        }
    }
}

fn same_payload(a: &Option<String>, b: &Option<String>) -> (r: bool)
    ensures
        r == (payload_view(*a) == payload_view(*b)),
{
    match (a, b) {
        (Some(x), Some(y)) => str_eq(x.as_str(), y.as_str()),
        (None, None) => true,
        _ => false,
    }
}

pub fn keyring_action(mirror: &KeyringMirror, payload: Option<String>) -> (r: KeyringAction)
    ensures
        r == keyring_action_spec(*mirror, payload),
{
    let synced = match mirror {
        KeyringMirror::Synced(current) => same_payload(current, &payload),
        KeyringMirror::Unknown => false,
    };
    if synced {
        KeyringAction::Skip
    } else {
        match payload {
            Some(p) => KeyringAction::Store(p),
            None => KeyringAction::Delete,
        }
    }
}

/// What Glide knows of the keychain after a write: a stored payload is held;
/// a removed (or already absent) entry is absent; a failed removal leaves the
/// keychain unknown; a failed store changes nothing.
pub open spec fn mirror_after_spec(mirror: KeyringMirror, action: KeyringAction, reply: KeyringReply) -> KeyringMirror {
    match action {
        KeyringAction::Skip => mirror,
        KeyringAction::Store(p) => if reply == KeyringReply::Done {
            KeyringMirror::Synced(Some(p))
        } else {
            mirror
        },
        KeyringAction::Delete => if reply == KeyringReply::Failed {
            KeyringMirror::Unknown
        } else {
            KeyringMirror::Synced(None)
        },
    }
}

pub fn mirror_after_write(mirror: KeyringMirror, action: KeyringAction, reply: KeyringReply) -> (r: KeyringMirror)
    ensures
        r == mirror_after_spec(mirror, action, reply),
{
    match action {
        KeyringAction::Skip => mirror,
        KeyringAction::Store(p) => match reply {
            KeyringReply::Done => KeyringMirror::Synced(Some(p)),
            _ => mirror,
        },
        KeyringAction::Delete => match reply {
            KeyringReply::Failed => KeyringMirror::Unknown,
            _ => KeyringMirror::Synced(None),
        },
    }
}

/// Once a payload is written (or removed) successfully, saving the same
/// payload again touches the keychain no more.
pub proof fn law_keyring_written_once(mirror: KeyringMirror, payload: Option<String>, reply: KeyringReply)
    requires
        reply != KeyringReply::Failed,
        payload is Some ==> reply == KeyringReply::Done,
    ensures
        keyring_action_spec(
            mirror_after_spec(mirror, keyring_action_spec(mirror, payload), reply),
            payload,
        ) == KeyringAction::Skip,
{
}

/// The name a corrupt configuration file is moved to: its name (or
/// `config.toml`) and the time, in seconds since the Unix epoch.
pub open spec fn backup_name(file_name: Option<Seq<char>>, timestamp: u64) -> Seq<char> {
    (match file_name {
        Some(n) => n,
        None => "config.toml"@,
    }) + ".corrupt-"@ + decimal_digits(timestamp as nat) + ".bak"@
}

pub fn backup_file_name(file_name: Option<&str>, timestamp: u64) -> (r: String)
    ensures
        r@ == backup_name(
            match file_name {
                Some(n) => Some(n@),
                None => None,
            },
            timestamp,
        ),
{
    let mut r = match file_name {
        Some(n) => String::from_str(n),
        None => String::from_str("config.toml"),
    };
    r.append(".corrupt-");
    push_decimal(&mut r, timestamp);
    r.append(".bak");
    r
}

} // verus!
