//! Sorting model entries by provider and id, in the order `String` compares
//! in: character by character, by code point, a prefix before its extensions.
use vstd::prelude::*;

use crate::catalog::ModelInfo;
use crate::text::chars_of;
use vstd::multiset::Multiset;

verus! {

broadcast use vstd::seq_lib::group_seq_properties;

/// `a` comes no later than `b`, lexicographically by code point.
pub open spec fn lex_le(a: Seq<char>, b: Seq<char>) -> bool
    decreases a.len(),
{
    if a.len() == 0 {
        true
    } else if b.len() == 0 {
        false
    } else if a[0] < b[0] {
        true
    } else if a[0] == b[0] {
        lex_le(a.drop_first(), b.drop_first())
    } else {
        false
    }
}

pub proof fn lemma_lex_reflexive(a: Seq<char>)
    ensures
        lex_le(a, a),
    decreases a.len(),
{
    if a.len() > 0 {
        lemma_lex_reflexive(a.drop_first());
    }
}

pub proof fn lemma_lex_total(a: Seq<char>, b: Seq<char>)
    ensures
        lex_le(a, b) || lex_le(b, a),
    decreases a.len(),
{
    if a.len() > 0 && b.len() > 0 {
        if a[0] == b[0] {
            lemma_lex_total(a.drop_first(), b.drop_first());
        } else {
            assert(a[0] < b[0] || b[0] < a[0]);
        }
    }
}

pub proof fn lemma_lex_antisymmetric(a: Seq<char>, b: Seq<char>)
    requires
        lex_le(a, b),
        lex_le(b, a),
    ensures
        a == b,
    decreases a.len(),
{
    if a.len() > 0 && b.len() > 0 {
        if a[0] == b[0] {
            lemma_lex_antisymmetric(a.drop_first(), b.drop_first());
            assert(a =~= seq![a[0]] + a.drop_first());
            assert(b =~= seq![b[0]] + b.drop_first());
        }
    } else {
        assert(a.len() == 0 && b.len() == 0);
        assert(a =~= b);
    }
}

pub proof fn lemma_lex_transitive(a: Seq<char>, b: Seq<char>, c: Seq<char>)
    requires
        lex_le(a, b),
        lex_le(b, c),
    ensures
        lex_le(a, c),
    decreases a.len(),
{
    if a.len() > 0 && b.len() > 0 && c.len() > 0 && a[0] == b[0] && b[0] == c[0] {
        lemma_lex_transitive(a.drop_first(), b.drop_first(), c.drop_first());
    }
}

/// `x` sorts no later than `y`: by provider label, then by id.
pub open spec fn entry_le(x: ModelInfo, y: ModelInfo) -> bool {
    if x.provider@ == y.provider@ {
        lex_le(x.id@, y.id@)
    } else {
        lex_le(x.provider@, y.provider@)
    }
}

pub proof fn lemma_entry_total(x: ModelInfo, y: ModelInfo)
    ensures
        entry_le(x, y) || entry_le(y, x),
{
    lemma_lex_total(x.id@, y.id@);
    lemma_lex_total(x.provider@, y.provider@);
}

pub proof fn lemma_entry_transitive(x: ModelInfo, y: ModelInfo, z: ModelInfo)
    requires
        entry_le(x, y),
        entry_le(y, z),
    ensures
        entry_le(x, z),
{
    if x.provider@ == y.provider@ && y.provider@ == z.provider@ {
        lemma_lex_transitive(x.id@, y.id@, z.id@);
    } else if x.provider@ == y.provider@ {
        lemma_lex_reflexive(x.provider@);
    } else if y.provider@ == z.provider@ {
        lemma_lex_reflexive(x.provider@);
    } else {
        lemma_lex_transitive(x.provider@, y.provider@, z.provider@);
        if x.provider@ == z.provider@ {
            lemma_lex_antisymmetric(x.provider@, y.provider@);
        }
    }
}

/// Whether `s` is sorted by provider and id.
pub open spec fn sorted_entries(s: Seq<ModelInfo>) -> bool {
    forall|i: int, j: int| 0 <= i < j < s.len() ==> entry_le(#[trigger] s[i], #[trigger] s[j])
}

/// `lex_le` on two character vectors.
fn lex_le_exec(a: &Vec<char>, b: &Vec<char>) -> (r: bool)
    ensures
        r == lex_le(a@, b@),
{
    let mut i: usize = 0;
    while i < a.len() && i < b.len() && a[i] == b[i]
        invariant
            i <= a@.len(),
            i <= b@.len(),
            forall|k: int| 0 <= k < i ==> a@[k] == b@[k],
            lex_le(a@, b@) == lex_le(a@.skip(i as int), b@.skip(i as int)),
        decreases a@.len() - i,
    {
        proof {
            assert(a@.skip(i as int).drop_first() =~= a@.skip(i + 1));
            assert(b@.skip(i as int).drop_first() =~= b@.skip(i + 1));
        }
        i = i + 1;
    }
    if i == a.len() {
        true
    } else if i == b.len() {
        false
    } else {
        proof {
            assert(a@.skip(i as int)[0] == a@[i as int]);
            assert(b@.skip(i as int)[0] == b@[i as int]);
        }
        a[i] < b[i]
    }
}

/// `entry_le` on two entries.
fn entry_le_exec(x: &ModelInfo, y: &ModelInfo) -> (r: bool)
    ensures
        r == entry_le(*x, *y),
{
    let xp = chars_of(x.provider.as_str());
    let yp = chars_of(y.provider.as_str());
    let same_provider = lex_le_exec(&xp, &yp) && lex_le_exec(&yp, &xp);
    proof {
        if lex_le(xp@, yp@) && lex_le(yp@, xp@) {
            lemma_lex_antisymmetric(xp@, yp@);
        }
        if xp@ == yp@ {
            lemma_lex_reflexive(xp@);
        }
    }
    if same_provider {
        let xi = chars_of(x.id.as_str());
        let yi = chars_of(y.id.as_str());
        lex_le_exec(&xi, &yi)
    } else {
        lex_le_exec(&xp, &yp)
    }
}

/// Inserting `x` after the entries that sort no later than it, and before
/// one that sorts after it, keeps a sorted sequence sorted.
proof fn lemma_insert_sorted(s: Seq<ModelInfo>, pos: int, x: ModelInfo)
    requires
        sorted_entries(s),
        0 <= pos <= s.len(),
        forall|k: int| 0 <= k < pos ==> entry_le(#[trigger] s[k], x),
        pos < s.len() ==> !entry_le(s[pos], x),
    ensures
        sorted_entries(s.insert(pos, x)),
{
    let t = s.insert(pos, x);
    if pos < s.len() {
        lemma_entry_total(s[pos], x);
    }
    assert forall|i: int, j: int| 0 <= i < j < t.len() implies entry_le(#[trigger] t[i], #[trigger] t[j]) by {
        if i < pos && j < pos {
            assert(t[i] == s[i] && t[j] == s[j]);
        } else if i < pos && j == pos {
            assert(t[i] == s[i] && t[j] == x);
        } else if i < pos {
            assert(t[i] == s[i] && t[j] == s[j - 1]);
        } else if i == pos {
            assert(t[i] == x && t[j] == s[j - 1]);
            if j - 1 > pos {
                assert(entry_le(s[pos], s[j - 1]));
                lemma_entry_transitive(x, s[pos], s[j - 1]);
            }
        } else {
            assert(t[i] == s[i - 1] && t[j] == s[j - 1]);
        }
    }
}

/// Whether two entries sort as equals: same provider and same id.
pub open spec fn same_key(a: ModelInfo, b: ModelInfo) -> bool {
    a.provider@ == b.provider@ && a.id@ == b.id@
}

/// The entries of `s` that sort as equals of `x`, in their order in `s`.
pub open spec fn key_class(s: Seq<ModelInfo>, x: ModelInfo) -> Seq<ModelInfo> {
    s.filter(|e: ModelInfo| same_key(e, x))
}

proof fn lemma_key_class_single(x: ModelInfo, k: ModelInfo)
    ensures
        key_class(seq![x], k) == (if same_key(x, k) {
            seq![x]
        } else {
            Seq::<ModelInfo>::empty()
        }),
{
    let pred = |e: ModelInfo| same_key(e, k);
    Seq::<ModelInfo>::empty().lemma_filter_push(x, pred);
    assert(Seq::<ModelInfo>::empty().filter(pred) =~= Seq::<ModelInfo>::empty()) by {
        reveal(Seq::filter);
    }
    assert(Seq::<ModelInfo>::empty().push(x) =~= seq![x]);
}

/// One insertion step keeps, for every key, the entries of that key in
/// their input order: `x`, taken from the front of the input, lands after
/// the sorted part's entries of its key.
proof fn lemma_key_class_step(out: Seq<ModelInfo>, input: Seq<ModelInfo>, pos: int, k: ModelInfo)
    requires
        sorted_entries(out),
        0 <= pos <= out.len(),
        input.len() > 0,
        pos < out.len() ==> !entry_le(out[pos], input[0]),
    ensures
        key_class(out.insert(pos, input[0]), k) + key_class(input.remove(0), k) == key_class(out, k) + key_class(
            input,
            k,
        ),
{
    let x = input[0];
    let pred = |e: ModelInfo| same_key(e, k);
    let a = out.subrange(0, pos);
    let b = out.subrange(pos, out.len() as int);
    let rest = input.remove(0);
    assert(out =~= a + b);
    assert(out.insert(pos, x) =~= a + seq![x] + b);
    assert(input =~= seq![x] + rest);
    Seq::filter_distributes_over_add(a, b, pred);
    Seq::filter_distributes_over_add(a + seq![x], b, pred);
    Seq::filter_distributes_over_add(a, seq![x], pred);
    rest.lemma_filter_prepend(x, pred);
    lemma_key_class_single(x, k);
    if same_key(x, k) {
        assert forall|j: int| 0 <= j < b.len() implies !pred(#[trigger] b[j]) by {
            if pred(b[j]) {
                lemma_lex_reflexive(x.id@);
                assert(entry_le(b[j], x));
                if j > 0 {
                    assert(entry_le(out[pos], out[pos + j]));
                    lemma_entry_transitive(out[pos], out[pos + j], x);
                }
            }
        }
        b.lemma_all_neg_filter_empty(pred);
        assert(b.filter(pred) =~= Seq::<ModelInfo>::empty());
        assert(key_class(out.insert(pos, x), k) + key_class(rest, k) =~= key_class(out, k) + key_class(input, k));
    } else {
        assert(key_class(out.insert(pos, x), k) + key_class(rest, k) =~= key_class(out, k) + key_class(input, k));
    }
}

/// Sorts `v` by provider and id; entries with the same provider and id
/// keep their order.
pub fn sort_entries(v: &mut Vec<ModelInfo>)
    ensures
        final(v)@.to_multiset() == old(v)@.to_multiset(),
        sorted_entries(final(v)@),
        forall|k: ModelInfo| #[trigger] key_class(final(v)@, k) == key_class(old(v)@, k),
{
    broadcast use vstd::multiset::group_multiset_properties;
    broadcast use vstd::seq_lib::to_multiset_remove, vstd::seq_lib::to_multiset_insert;

    let mut input: Vec<ModelInfo> = Vec::new();
    std::mem::swap(&mut input, v);
    let ghost orig = input@;
    let mut out: Vec<ModelInfo> = Vec::new();
    proof {
        assert(out@.to_multiset() =~= Multiset::empty());
        assert(out@.to_multiset().add(input@.to_multiset()) =~= orig.to_multiset());
        assert forall|k: ModelInfo| #[trigger] key_class(orig, k) == key_class(out@, k) + key_class(input@, k) by {
            assert(out@.filter(|e: ModelInfo| same_key(e, k)) =~= Seq::<ModelInfo>::empty()) by {
                reveal(Seq::filter);
            }
            assert(key_class(out@, k) + key_class(input@, k) =~= key_class(input@, k));
        }
    }
    while input.len() > 0
        invariant
            out@.to_multiset().add(input@.to_multiset()) == orig.to_multiset(),
            sorted_entries(out@),
            forall|k: ModelInfo| #[trigger] key_class(orig, k) == key_class(out@, k) + key_class(input@, k),
        decreases input@.len(),
    {
        let ghost before_in = input@;
        let ghost before_out = out@;
        let x = input.remove(0);
        let mut pos: usize = 0;
        while pos < out.len() && entry_le_exec(&out[pos], &x)
            invariant
                pos <= out@.len(),
                forall|k: int| 0 <= k < pos ==> entry_le(#[trigger] out@[k], x),
            decreases out@.len() - pos,
        {
            pos = pos + 1;
        }
        proof {
            lemma_insert_sorted(out@, pos as int, x);
            assert forall|k: ModelInfo| #[trigger] key_class(orig, k) == key_class(out@.insert(pos as int, x), k)
                + key_class(input@, k) by {
                lemma_key_class_step(out@, before_in, pos as int, k);
            }
        }
        out.insert(pos, x);
        proof {
            assert(before_in.remove(0).to_multiset() == before_in.to_multiset().remove(before_in[0]));
            assert(before_out.insert(pos as int, x).to_multiset() == before_out.to_multiset().insert(x));
            assert(before_in.to_multiset().count(x) > 0) by {
                vstd::seq_lib::to_multiset_contains(before_in, x);
                assert(before_in.contains(x)) by {
                    assert(before_in[0] == x);
                }
            }
            assert(out@.to_multiset().add(input@.to_multiset()) =~= orig.to_multiset());
        }
    }
    proof {
        assert(input@.to_multiset() =~= Multiset::empty());
        assert(out@.to_multiset() =~= orig.to_multiset());
        assert forall|k: ModelInfo| #[trigger] key_class(out@, k) == key_class(orig, k) by {
            assert(input@.filter(|e: ModelInfo| same_key(e, k)) =~= Seq::<ModelInfo>::empty()) by {
                reveal(Seq::filter);
            }
            assert(key_class(out@, k) + key_class(input@, k) =~= key_class(out@, k));
        }
    }
    *v = out;
}

impl crate::remote::DiscoveredModels {
    /// Orders both lists by provider and id; entries with the same provider
    /// and id keep their order.
    pub fn sort(&mut self)
        ensures
            final(self).stt@.to_multiset() == old(self).stt@.to_multiset(),
            final(self).llm@.to_multiset() == old(self).llm@.to_multiset(),
            sorted_entries(final(self).stt@),
            sorted_entries(final(self).llm@),
            forall|k: ModelInfo| #[trigger] key_class(final(self).stt@, k) == key_class(old(self).stt@, k),
            forall|k: ModelInfo| #[trigger] key_class(final(self).llm@, k) == key_class(old(self).llm@, k),
    {
        sort_entries(&mut self.stt);
        sort_entries(&mut self.llm);
    }
}

} // verus!
