//! Character-level string helpers shared by the text-processing parts of the
//! library. Strings are modelled by their `Seq<char>` view.
use vstd::prelude::*;

verus! {

/// `String::push`: appends one character.
#[verifier::external_body]
pub(crate) fn push_char(s: &mut String, c: char)
    ensures
        final(s)@ == old(s)@.push(c),
{
    s.push(c);
}

/// The characters of `s`, in order.
pub fn chars_of(s: &str) -> (r: Vec<char>)
    ensures
        r@ == s@,
{
    let n = s.unicode_len();
    let mut v: Vec<char> = Vec::new();
    let mut i: usize = 0;
    while i < n
        invariant
            n == s@.len(),
            i <= n,
            v@ == s@.subrange(0, i as int),
        decreases n - i,
    {
        v.push(s.get_char(i));
        i = i + 1;
        assert(v@ =~= s@.subrange(0, i as int));
    }
    assert(v@ =~= s@);
    v
}

/// A `String` holding exactly the characters `cs[from..to]`.
pub fn string_from_chars(cs: &Vec<char>, from: usize, to: usize) -> (r: String)
    requires
        from <= to <= cs@.len(),
    ensures
        r@ == cs@.subrange(from as int, to as int),
{
    let mut out = String::new();
    let mut i = from;
    while i < to
        invariant
            from <= i <= to <= cs@.len(),
            out@ == cs@.subrange(from as int, i as int),
        decreases to - i,
    {
        push_char(&mut out, cs[i]);
        i = i + 1;
        assert(out@ =~= cs@.subrange(from as int, i as int));
    }
    out
}

/// Appends `cs[from..to]` to `out`.
pub fn push_chars(out: &mut String, cs: &Vec<char>, from: usize, to: usize)
    requires
        from <= to <= cs@.len(),
    ensures
        final(out)@ == old(out)@ + cs@.subrange(from as int, to as int),
{
    let mut i = from;
    while i < to
        invariant
            from <= i <= to <= cs@.len(),
            out@ == old(out)@ + cs@.subrange(from as int, i as int),
        decreases to - i,
    {
        push_char(out, cs[i]);
        i = i + 1;
        assert(out@ =~= old(out)@ + cs@.subrange(from as int, i as int));
    }
}

/// A copy of a list of strings.
pub fn copy_strings(v: &Vec<String>) -> (r: Vec<String>)
    ensures
        r@ == v@,
{
    let mut r: Vec<String> = Vec::new();
    let mut i: usize = 0;
    while i < v.len()
        invariant
            i <= v@.len(),
            r@ == v@.take(i as int),
        decreases v@.len() - i,
    {
        r.push(v[i].clone());
        i = i + 1;
        assert(r@ =~= v@.take(i as int));
    }
    assert(v@.take(v@.len() as int) =~= v@);
    r
}

/// Equality of two string slices by their characters.
pub fn str_eq(a: &str, b: &str) -> (r: bool)
    ensures
        r == (a@ == b@),
{
    let ac = chars_of(a);
    let bc = chars_of(b);
    seq_eq(&ac, &bc)
}

/// Equality of two character vectors.
pub fn seq_eq(a: &Vec<char>, b: &Vec<char>) -> (r: bool)
    ensures
        r == (a@ == b@),
{
    if a.len() != b.len() {
        return false;
    }
    let mut i: usize = 0;
    while i < a.len()
        invariant
            a@.len() == b@.len(),
            i <= a@.len(),
            forall|k: int| 0 <= k < i ==> a@[k] == b@[k],
        decreases a@.len() - i,
    {
        if a[i] != b[i] {
            return false;
        }
        i = i + 1;
    }
    assert(a@ =~= b@);
    true
}

/// Whether `c` has the Unicode `White_Space` property, as `char::is_whitespace`
/// documents it.
pub open spec fn is_white_space(c: char) -> bool {
    let u = c as u32;
    ||| (0x9 <= u && u <= 0xD)
    ||| u == 0x20
    ||| u == 0x85
    ||| u == 0xA0
    ||| u == 0x1680
    ||| (0x2000 <= u && u <= 0x200A)
    ||| u == 0x2028
    ||| u == 0x2029
    ||| u == 0x202F
    ||| u == 0x205F
    ||| u == 0x3000
}

pub fn char_is_whitespace(c: char) -> (r: bool)
    ensures
        r == is_white_space(c),
{
    let u = c as u32;
    (0x9 <= u && u <= 0xD) || u == 0x20 || u == 0x85 || u == 0xA0 || u == 0x1680 || (0x2000 <= u
        && u <= 0x200A) || u == 0x2028 || u == 0x2029 || u == 0x202F || u == 0x205F || u == 0x3000
}

/// Number of leading white-space characters of `s`.
pub open spec fn leading_ws(s: Seq<char>) -> nat
    decreases s.len(),
{
    if s.len() > 0 && is_white_space(s[0]) {
        1 + leading_ws(s.drop_first())
    } else {
        0
    }
}

/// Number of trailing white-space characters of `s`.
pub open spec fn trailing_ws(s: Seq<char>) -> nat
    decreases s.len(),
{
    if s.len() > 0 && is_white_space(s.last()) {
        1 + trailing_ws(s.drop_last())
    } else {
        0
    }
}

/// `str::trim_end`: `s` without its trailing white space.
pub open spec fn trim_end_spec(s: Seq<char>) -> Seq<char> {
    s.subrange(0, s.len() - trailing_ws(s))
}

/// `str::trim_start`: `s` without its leading white space.
pub open spec fn trim_start_spec(s: Seq<char>) -> Seq<char> {
    s.subrange(leading_ws(s) as int, s.len() as int)
}

/// `str::trim`: `s` without leading and trailing white space.
pub open spec fn trim_spec(s: Seq<char>) -> Seq<char> {
    trim_end_spec(trim_start_spec(s))
}

pub proof fn lemma_leading_ws_bound(s: Seq<char>)
    ensures
        leading_ws(s) <= s.len(),
        forall|k: int| 0 <= k < leading_ws(s) ==> is_white_space(#[trigger] s[k]),
        leading_ws(s) < s.len() ==> !is_white_space(s[leading_ws(s) as int]),
    decreases s.len(),
{
    if s.len() > 0 && is_white_space(s[0]) {
        lemma_leading_ws_bound(s.drop_first());
        assert forall|k: int| 0 <= k < leading_ws(s) implies is_white_space(#[trigger] s[k]) by {
            if k > 0 {
                assert(s[k] == s.drop_first()[k - 1]);
            }
        }
    }
}

pub proof fn lemma_trailing_ws_bound(s: Seq<char>)
    ensures
        trailing_ws(s) <= s.len(),
        forall|k: int|
            s.len() - trailing_ws(s) <= k < s.len() ==> is_white_space(#[trigger] s[k]),
        trailing_ws(s) < s.len() ==> !is_white_space(s[s.len() - trailing_ws(s) - 1]),
    decreases s.len(),
{
    if s.len() > 0 && is_white_space(s.last()) {
        lemma_trailing_ws_bound(s.drop_last());
        assert forall|k: int| s.len() - trailing_ws(s) <= k < s.len() implies is_white_space(
            #[trigger] s[k],
        ) by {
            if k < s.len() - 1 {
                assert(s[k] == s.drop_last()[k]);
            }
        }
    }
}

/// The leading white-space count characterised by position.
pub proof fn lemma_leading_ws_unique(s: Seq<char>, n: int)
    requires
        0 <= n <= s.len(),
        forall|k: int| 0 <= k < n ==> is_white_space(#[trigger] s[k]),
        n < s.len() ==> !is_white_space(s[n]),
    ensures
        leading_ws(s) == n,
    decreases s.len(),
{
    if n > 0 {
        assert(is_white_space(s[0]));
        assert forall|k: int| 0 <= k < n - 1 implies is_white_space(#[trigger] s.drop_first()[k]) by {
            assert(s.drop_first()[k] == s[k + 1]);
        }
        if n - 1 < s.drop_first().len() {
            assert(s.drop_first()[n - 1] == s[n]);
        }
        lemma_leading_ws_unique(s.drop_first(), n - 1);
    } else {
        if s.len() > 0 {
            assert(!is_white_space(s[0]));
        }
    }
}

/// The trailing white-space count characterised by position.
pub proof fn lemma_trailing_ws_unique(s: Seq<char>, n: int)
    requires
        0 <= n <= s.len(),
        forall|k: int| s.len() - n <= k < s.len() ==> is_white_space(#[trigger] s[k]),
        n < s.len() ==> !is_white_space(s[s.len() - n - 1]),
    ensures
        trailing_ws(s) == n,
    decreases s.len(),
{
    if n > 0 {
        assert(is_white_space(s[s.len() - 1]));
        let t = s.drop_last();
        assert forall|k: int| t.len() - (n - 1) <= k < t.len() implies is_white_space(
            #[trigger] t[k],
        ) by {
            assert(t[k] == s[k]);
        }
        if n - 1 < t.len() {
            assert(t[t.len() - (n - 1) - 1] == s[s.len() - n - 1]);
        }
        lemma_trailing_ws_unique(t, n - 1);
    } else {
        if s.len() > 0 {
            assert(!is_white_space(s.last()));
        }
    }
}

/// Index just past the last non-white-space character of `cs[from..to]`.
pub fn trimmed_end_index(cs: &Vec<char>, from: usize, to: usize) -> (r: usize)
    requires
        from <= to <= cs@.len(),
    ensures
        from <= r <= to,
        r == to - trailing_ws(cs@.subrange(from as int, to as int)),
{
    let mut e = to;
    while e > from && char_is_whitespace(cs[e - 1])
        invariant
            from <= e <= to <= cs@.len(),
            forall|k: int| e <= k < to ==> is_white_space(#[trigger] cs@[k]),
        decreases e - from,
    {
        e = e - 1;
    }
    proof {
        let s = cs@.subrange(from as int, to as int);
        let n = (to - e) as int;
        assert forall|k: int| s.len() - n <= k < s.len() implies is_white_space(#[trigger] s[k]) by {
            assert(s[k] == cs@[from + k]);
        }
        if n < s.len() {
            assert(s[s.len() - n - 1] == cs@[e - 1]);
        }
        lemma_trailing_ws_unique(s, n);
    }
    e
}

/// Index of the first non-white-space character of `cs[from..to]` (or `to`).
pub fn trimmed_start_index(cs: &Vec<char>, from: usize, to: usize) -> (r: usize)
    requires
        from <= to <= cs@.len(),
    ensures
        from <= r <= to,
        r == from + leading_ws(cs@.subrange(from as int, to as int)),
{
    let mut b = from;
    while b < to && char_is_whitespace(cs[b])
        invariant
            from <= b <= to <= cs@.len(),
            forall|k: int| from <= k < b ==> is_white_space(#[trigger] cs@[k]),
        decreases to - b,
    {
        b = b + 1;
    }
    proof {
        let s = cs@.subrange(from as int, to as int);
        let n = (b - from) as int;
        assert forall|k: int| 0 <= k < n implies is_white_space(#[trigger] s[k]) by {
            assert(s[k] == cs@[from + k]);
        }
        if n < s.len() {
            assert(s[n] == cs@[b as int]);
        }
        lemma_leading_ws_unique(s, n);
    }
    b
}

/// `s.trim()` as a new `String`.
pub fn trim_string(s: &str) -> (r: String)
    ensures
        r@ == trim_spec(s@),
{
    let cs = chars_of(s);
    let b = trimmed_start_index(&cs, 0, cs.len());
    let e = trimmed_end_index(&cs, b, cs.len());
    proof {
        assert(cs@.subrange(0, cs@.len() as int) =~= cs@);
        let st = trim_start_spec(s@);
        assert(st =~= cs@.subrange(b as int, cs@.len() as int));
    }
    let r = string_from_chars(&cs, b, e);
    proof {
        assert(r@ =~= trim_spec(s@));
    }
    r
}

/// `s.trim_end()`, as a slice of `s`.
pub fn trimmed_end_str(s: &str) -> (r: &str)
    ensures
        r@ == trim_end_spec(s@),
{
    let cs = chars_of(s);
    let e = trimmed_end_index(&cs, 0, cs.len());
    proof {
        assert(cs@.subrange(0, cs@.len() as int) =~= cs@);
    }
    s.substring_char(0, e)
}

/// Trimming trailing white space twice changes nothing.
pub proof fn lemma_trim_end_idempotent(s: Seq<char>)
    ensures
        trim_end_spec(trim_end_spec(s)) == trim_end_spec(s),
{
    lemma_trailing_ws_bound(s);
    let t = trim_end_spec(s);
    if t.len() > 0 {
        assert(t[t.len() - 1] == s[s.len() - trailing_ws(s) - 1]);
    }
    lemma_trailing_ws_unique(t, 0);
    assert(t.subrange(0, t.len() as int) =~= t);
}

/// Whether `s` has a non-white-space character (`!s.trim().is_empty()`).
pub fn is_blank(s: &str) -> (r: bool)
    ensures
        r == (trim_spec(s@).len() == 0),
{
    let t = trim_string(s);
    t.as_str().unicode_len() == 0
}

/// Whether `needle` occurs in `hay` at character position `i`, exactly.
pub open spec fn occurs_at(hay: Seq<char>, i: int, needle: Seq<char>) -> bool {
    0 <= i && i + needle.len() <= hay.len() && hay.subrange(i, i + needle.len()) == needle
}

/// `str::contains` with a string pattern.
pub open spec fn contains_spec(hay: Seq<char>, needle: Seq<char>) -> bool {
    exists|i: int| occurs_at(hay, i, needle)
}

/// `str::starts_with` with a string pattern.
pub open spec fn starts_with_spec(hay: Seq<char>, needle: Seq<char>) -> bool {
    occurs_at(hay, 0, needle)
}

/// `str::ends_with` with a string pattern.
pub open spec fn ends_with_spec(hay: Seq<char>, needle: Seq<char>) -> bool {
    occurs_at(hay, hay.len() - needle.len(), needle)
}

fn occurs_at_exec(hay: &Vec<char>, i: usize, needle: &Vec<char>) -> (r: bool)
    ensures
        r == occurs_at(hay@, i as int, needle@),
{
    if needle.len() > hay.len() || i > hay.len() - needle.len() {
        return false;
    }
    let hl = hay.len();
    let mut k: usize = 0;
    while k < needle.len()
        invariant
            hl == hay@.len(),
            i + needle@.len() <= hay@.len(),
            k <= needle@.len(),
            forall|j: int| 0 <= j < k ==> hay@[i + j] == needle@[j],
        decreases needle@.len() - k,
    {
        if hay[i + k] != needle[k] {
            proof {
                assert(hay@.subrange(i as int, i + needle@.len())[k as int] != needle@[k as int]);
            }
            return false;
        }
        k = k + 1;
    }
    proof {
        assert(hay@.subrange(i as int, i + needle@.len()) =~= needle@);
    }
    true
}

pub fn contains_str(hay: &str, needle: &str) -> (r: bool)
    ensures
        r == contains_spec(hay@, needle@),
{
    let h = chars_of(hay);
    let n = chars_of(needle);
    let mut i: usize = 0;
    while i < h.len()
        invariant
            i <= h@.len(),
            h@ == hay@,
            n@ == needle@,
            forall|j: int| 0 <= j < i ==> !#[trigger] occurs_at(hay@, j, needle@),
        decreases h@.len() - i,
    {
        if occurs_at_exec(&h, i, &n) {
            return true;
        }
        i = i + 1;
    }
    if occurs_at_exec(&h, i, &n) {
        return true;
    }
    proof {
        assert forall|j: int| !#[trigger] occurs_at(hay@, j, needle@) by {
            if 0 <= j && j > hay@.len() {
                assert(j + needle@.len() > hay@.len());
            }
        }
    }
    false
}

pub fn starts_with_str(hay: &str, needle: &str) -> (r: bool)
    ensures
        r == starts_with_spec(hay@, needle@),
{
    let h = chars_of(hay);
    let n = chars_of(needle);
    occurs_at_exec(&h, 0, &n)
}

pub fn ends_with_str(hay: &str, needle: &str) -> (r: bool)
    ensures
        r == ends_with_spec(hay@, needle@),
{
    let h = chars_of(hay);
    let n = chars_of(needle);
    if n.len() > h.len() {
        return false;
    }
    occurs_at_exec(&h, h.len() - n.len(), &n)
}

/// What `str::to_lowercase` yields for `s`: its full Unicode lowercase form.
pub uninterp spec fn str_lowercase(s: Seq<char>) -> Seq<char>;

/// `str::to_lowercase`. The result is `str_lowercase(s)`.
#[verifier::external_body]
pub(crate) fn lowercase_str(s: &str) -> (r: String)
    ensures
        r@ == str_lowercase(s@),
{
    s.to_lowercase()
}

/// What `char::to_lowercase` yields for `c`: its full Unicode lowercase
/// mapping, one or more characters.
pub uninterp spec fn char_lowercase(c: char) -> Seq<char>;

/// The lowercase mapping Unicode gives an ASCII character: the letter
/// `A`..`Z` becomes `a`..`z`; every other ASCII character has none and
/// stays as it is.
pub open spec fn ascii_char_lowercase(c: char) -> char {
    if 'A' <= c && c <= 'Z' {
        ((c as u32) + 32) as char
    } else {
        c
    }
}

/// `char::to_lowercase`, collected. The result is `char_lowercase(c)`; std
/// documents it as the character's Unicode lowercase mapping, or the
/// character itself where it has none, so an ASCII character maps to one
/// character, its ASCII lowercase.
#[verifier::external_body]
pub(crate) fn lowercase_of(c: char) -> (r: Vec<char>)
    ensures
        r@ == char_lowercase(c),
        c <= '\x7f' ==> r@ == seq![ascii_char_lowercase(c)],
{
    c.to_lowercase().collect()
}

/// Whether two characters are equal, or, when `case_sensitive` is false,
/// have the same lowercase mapping.
pub open spec fn chars_match(a: char, b: char, case_sensitive: bool) -> bool {
    if case_sensitive {
        a == b
    } else {
        char_lowercase(a) == char_lowercase(b)
    }
}

/// Whether `needle` occurs in `hay` at character position `i`.
pub open spec fn matches_at(hay: Seq<char>, i: int, needle: Seq<char>, case_sensitive: bool) -> bool {
    &&& 0 <= i
    &&& i + needle.len() <= hay.len()
    &&& forall|k: int| 0 <= k < needle.len() ==> chars_match(#[trigger] hay[i + k], needle[k], case_sensitive)
}

/// The lowercase mapping of each character of `cs`.
pub fn lowercase_each(cs: &Vec<char>) -> (r: Vec<Vec<char>>)
    ensures
        r@.len() == cs@.len(),
        forall|k: int| 0 <= k < cs@.len() ==> (#[trigger] r@[k])@ == char_lowercase(cs@[k]),
{
    let mut r: Vec<Vec<char>> = Vec::new();
    let mut i: usize = 0;
    while i < cs.len()
        invariant
            i <= cs@.len(),
            r@.len() == i,
            forall|k: int| 0 <= k < i ==> (#[trigger] r@[k])@ == char_lowercase(cs@[k]),
        decreases cs@.len() - i,
    {
        r.push(lowercase_of(cs[i]));
        i = i + 1;
    }
    r
}

/// Whether `needle` occurs in `hay` at `i`; `needle_lower` holds the
/// lowercase mapping of each needle character.
pub fn match_at(
    hay: &Vec<char>,
    i: usize,
    needle: &Vec<char>,
    needle_lower: &Vec<Vec<char>>,
    case_sensitive: bool,
) -> (r: bool)
    requires
        needle_lower@.len() == needle@.len(),
        forall|k: int| 0 <= k < needle@.len() ==> (#[trigger] needle_lower@[k])@ == char_lowercase(needle@[k]),
    ensures
        r == matches_at(hay@, i as int, needle@, case_sensitive),
{
    if needle.len() > hay.len() || i > hay.len() - needle.len() {
        return false;
    }
    let hl = hay.len();
    let mut k: usize = 0;
    while k < needle.len()
        invariant
            hl == hay@.len(),
            i + needle@.len() <= hay@.len(),
            k <= needle@.len(),
            needle_lower@.len() == needle@.len(),
            forall|j: int| 0 <= j < needle@.len() ==> (#[trigger] needle_lower@[j])@ == char_lowercase(needle@[j]),
            forall|j: int| 0 <= j < k ==> chars_match(#[trigger] hay@[i + j], needle@[j], case_sensitive),
        decreases needle@.len() - k,
    {
        assert(i + k < hay@.len());
        let ok = if case_sensitive {
            hay[i + k] == needle[k]
        } else {
            let lc = lowercase_of(hay[i + k]);
            seq_eq(&lc, &needle_lower[k])
        };
        if !ok {
            return false;
        }
        k = k + 1;
    }
    true
}

/// The first position at or after `from` where `needle` occurs in `hay`.
pub fn find_match(
    hay: &Vec<char>,
    from: usize,
    needle: &Vec<char>,
    needle_lower: &Vec<Vec<char>>,
    case_sensitive: bool,
) -> (r: Option<usize>)
    requires
        from <= hay@.len(),
        needle_lower@.len() == needle@.len(),
        forall|k: int| 0 <= k < needle@.len() ==> (#[trigger] needle_lower@[k])@ == char_lowercase(needle@[k]),
    ensures
        match r {
            Some(i) => from <= i && matches_at(hay@, i as int, needle@, case_sensitive) && forall|j: int|
                from <= j < i ==> !#[trigger] matches_at(hay@, j, needle@, case_sensitive),
            None => forall|j: int| from <= j ==> !#[trigger] matches_at(hay@, j, needle@, case_sensitive),
        },
{
    let mut i = from;
    while i < hay.len()
        invariant
            from <= i <= hay@.len(),
            needle_lower@.len() == needle@.len(),
            forall|k: int| 0 <= k < needle@.len() ==> (#[trigger] needle_lower@[k])@ == char_lowercase(needle@[k]),
            forall|j: int| from <= j < i ==> !#[trigger] matches_at(hay@, j, needle@, case_sensitive),
        decreases hay@.len() - i,
    {
        if match_at(hay, i, needle, needle_lower, case_sensitive) {
            return Some(i);
        }
        i = i + 1;
    }
    if match_at(hay, i, needle, needle_lower, case_sensitive) {
        return Some(i);
    }
    proof {
        assert forall|j: int| from <= j implies !#[trigger] matches_at(hay@, j, needle@, case_sensitive) by {
            if j > i {
                assert(j + needle@.len() > hay@.len());
            }
        }
    }
    None
}

} // verus!
