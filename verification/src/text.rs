//! Character- and string-level helpers shared by the server and the client.
use vstd::prelude::*;

verus! {

broadcast use vstd::string::group_string_axioms;

/// Unicode `White_Space`: the characters for which `char::is_whitespace` holds.
pub open spec fn is_white_space(c: char) -> bool {
    let u = c as u32;
    ||| 0x09 <= u <= 0x0d
    ||| u == 0x20
    ||| u == 0x85
    ||| u == 0xa0
    ||| u == 0x1680
    ||| 0x2000 <= u <= 0x200a
    ||| u == 0x2028
    ||| u == 0x2029
    ||| u == 0x202f
    ||| u == 0x205f
    ||| u == 0x3000
}

/// Whether every character of `s` is white space (so `s.trim()` is empty).
pub open spec fn is_blank(s: Seq<char>) -> bool {
    forall|i: int| 0 <= i < s.len() ==> is_white_space(#[trigger] s[i])
}

/// The code point of `c` with ASCII upper-case letters mapped to lower case.
pub open spec fn ascii_fold(c: char) -> u32 {
    let u = c as u32;
    if 0x41 <= u <= 0x5a {
        (u + 0x20) as u32
    } else {
        u
    }
}

/// `a` and `b` are equal when ASCII letters are compared without case.
pub open spec fn eq_ignore_ascii_case(a: Seq<char>, b: Seq<char>) -> bool {
    &&& a.len() == b.len()
    &&& forall|i: int| 0 <= i < a.len() ==> ascii_fold(#[trigger] a[i]) == ascii_fold(b[i])
}

/// `p` is a prefix of `s`.
pub open spec fn has_prefix(s: Seq<char>, p: Seq<char>) -> bool {
    p.len() <= s.len() && s.take(p.len() as int) == p
}

/// Strict lexicographic order on character sequences, by code point.
///
/// This is the order of `String`'s `Ord`: UTF-8 keeps the order of code points.
pub open spec fn lex_lt(a: Seq<char>, b: Seq<char>) -> bool
    decreases a.len(),
{
    if b.len() == 0 {
        false
    } else if a.len() == 0 {
        true
    } else if (a[0] as int) < (b[0] as int) {
        true
    } else if a[0] == b[0] {
        lex_lt(a.drop_first(), b.drop_first())
    } else {
        false
    }
}

/// `a` comes no later than `b` in lexicographic order.
pub open spec fn lex_le(a: Seq<char>, b: Seq<char>) -> bool {
    a == b || lex_lt(a, b)
}

/// The views of a sequence of strings.
pub open spec fn views(v: Seq<String>) -> Seq<Seq<char>> {
    v.map_values(|s: String| s@)
}

/// `x` inserted into `s` after the last element that is not greater than `x`.
pub open spec fn insert_sorted(s: Seq<Seq<char>>, x: Seq<char>) -> Seq<Seq<char>>
    decreases s.len(),
{
    if s.len() == 0 || !lex_lt(x, s.last()) {
        s.push(x)
    } else {
        insert_sorted(s.drop_last(), x).push(s.last())
    }
}

/// `s` in lexicographic order (insertion sort).
pub open spec fn sort_views(s: Seq<Seq<char>>) -> Seq<Seq<char>>
    decreases s.len(),
{
    if s.len() == 0 {
        seq![]
    } else {
        insert_sorted(sort_views(s.drop_last()), s.last())
    }
}

/// `s` is in lexicographic order.
pub open spec fn is_sorted(s: Seq<Seq<char>>) -> bool {
    forall|i: int, j: int| 0 <= i < j < s.len() ==> lex_le(#[trigger] s[i], #[trigger] s[j])
}

proof fn lemma_insert_at(s: Seq<Seq<char>>, x: Seq<char>, pos: int)
    requires
        0 <= pos <= s.len(),
        forall|j: int| pos <= j < s.len() ==> lex_lt(x, #[trigger] s[j]),
        pos == 0 || !lex_lt(x, s[pos - 1]),
    ensures
        insert_sorted(s, x) == s.take(pos) + seq![x] + s.skip(pos),
    decreases s.len(),
{
    if pos == s.len() {
        assert(s.take(pos) + seq![x] + s.skip(pos) =~= s.push(x));
    } else {
        assert(lex_lt(x, s.last()));
        lemma_insert_at(s.drop_last(), x, pos);
        assert(s.drop_last().take(pos) + seq![x] + s.drop_last().skip(pos) + seq![s.last()] =~= s.take(
            pos,
        ) + seq![x] + s.skip(pos));
    }
}

proof fn lemma_lex_lt_transitive(a: Seq<char>, b: Seq<char>, c: Seq<char>)
    requires
        lex_lt(a, b),
        lex_lt(b, c),
    ensures
        lex_lt(a, c),
    decreases a.len(),
{
    if a.len() > 0 && b.len() > 0 && c.len() > 0 && a[0] == b[0] && b[0] == c[0] {
        lemma_lex_lt_transitive(a.drop_first(), b.drop_first(), c.drop_first());
    }
}

proof fn lemma_lex_lt_total(a: Seq<char>, b: Seq<char>)
    requires
        a != b,
    ensures
        lex_lt(a, b) || lex_lt(b, a),
    decreases a.len(),
{
    if a.len() == 0 && b.len() == 0 {
        assert(a =~= b);
    } else if a.len() > 0 && b.len() > 0 {
        if a[0] == b[0] {
            if a.drop_first() == b.drop_first() {
                assert(a =~= seq![a[0]] + a.drop_first());
                assert(b =~= seq![b[0]] + b.drop_first());
            }
            lemma_lex_lt_total(a.drop_first(), b.drop_first());
        } else {
            let x = a[0];
            let y = b[0];
            assert((x as int) != (y as int));
        }
    }
}

proof fn lemma_insert_sorted_props(s: Seq<Seq<char>>, x: Seq<char>)
    requires
        is_sorted(s),
    ensures
        is_sorted(insert_sorted(s, x)),
        insert_sorted(s, x).to_multiset() == s.to_multiset().insert(x),
        insert_sorted(s, x).len() == s.len() + 1,
    decreases s.len(),
{
    broadcast use vstd::multiset::group_multiset_axioms;
    let r = insert_sorted(s, x);
    if s.len() == 0 || !lex_lt(x, s.last()) {
        broadcast use vstd::seq_lib::group_seq_properties;
        assert forall|i: int, j: int| 0 <= i < j < r.len() implies lex_le(
            #[trigger] r[i],
            #[trigger] r[j],
        ) by {
            assert(r[i] == s[i]);
            if j == s.len() {
                assert(r[j] == x);
                let l = s.last();
                assert(lex_le(l, x)) by {
                    if l != x {
                        lemma_lex_lt_total(l, x);
                    }
                }
                assert(lex_le(s[i], l)) by {
                    if i < s.len() - 1 {
                        assert(lex_le(s[i], s[s.len() - 1]));
                    }
                }
                if s[i] != l && l != x {
                    lemma_lex_lt_transitive(s[i], l, x);
                }
            } else {
                assert(r[j] == s[j]);
            }
        }
    } else {
        let t = insert_sorted(s.drop_last(), x);
        assert(is_sorted(s.drop_last()));
        lemma_insert_sorted_props(s.drop_last(), x);
        broadcast use vstd::seq_lib::group_seq_properties;
        assert(t.to_multiset().contains(x));
        assert forall|i: int, j: int| 0 <= i < j < r.len() implies lex_le(
            #[trigger] r[i],
            #[trigger] r[j],
        ) by {
            if j == t.len() {
                let e = t[i];
                assert(t.to_multiset().contains(e));
                assert(s.drop_last().to_multiset().insert(x).contains(e));
                if e != x {
                    assert(s.drop_last().to_multiset().contains(e));
                    assert(s.drop_last().contains(e));
                    let k = choose|k: int| 0 <= k < s.drop_last().len() && s.drop_last()[k] == e;
                    assert(s[k] == e);
                    assert(lex_le(s[k], s[s.len() - 1]));
                }
            }
        }
        assert(s.drop_last().push(s.last()) =~= s);
    }
}

/// Insertion sort orders its input and keeps its elements: the result is the
/// sorted permutation of `s`, the one `sort` on strings yields.
pub proof fn lemma_sort_views(s: Seq<Seq<char>>)
    ensures
        is_sorted(sort_views(s)),
        sort_views(s).to_multiset() == s.to_multiset(),
        sort_views(s).len() == s.len(),
    decreases s.len(),
{
    broadcast use vstd::multiset::group_multiset_axioms;
    if s.len() == 0 {
        broadcast use vstd::seq_lib::group_seq_properties;
    } else {
        lemma_sort_views(s.drop_last());
        lemma_insert_sorted_props(sort_views(s.drop_last()), s.last());
        broadcast use vstd::seq_lib::group_seq_properties;
        assert(s.drop_last().push(s.last()) =~= s);
    }
}

/// The strings of `v` in lexicographic order.
pub fn sorted_strings(v: &Vec<String>) -> (r: Vec<String>)
    ensures
        views(r@) == sort_views(views(v@)),
{
    let mut out: Vec<String> = Vec::new();
    let mut i: usize = 0;
    while i < v.len()
        invariant
            i <= v.len(),
            views(out@) == sort_views(views(v@.take(i as int))),
        decreases v.len() - i,
    {
        let x = v[i].clone();
        let mut pos = out.len();
        while pos > 0 && str_lt(x.as_str(), out[pos - 1].as_str())
            invariant
                pos <= out.len(),
                forall|j: int| pos <= j < out.len() ==> lex_lt(x@, #[trigger] out@[j]@),
            decreases pos,
        {
            pos = pos - 1;
        }
        let ghost before = views(out@);
        proof {
            assert forall|j: int| pos <= j < before.len() implies lex_lt(x@, #[trigger] before[j]) by {
                assert(before[j] == out@[j]@);
            }
            if pos > 0 {
                assert(before[pos - 1] == out@[pos - 1]@);
            }
            lemma_insert_at(before, x@, pos as int);
            assert(views(v@.take(i + 1)).drop_last() =~= views(v@.take(i as int)));
            assert(views(v@.take(i + 1)).last() == x@);
        }
        out.insert(pos, x);
        assert(views(out@) =~= before.take(pos as int) + seq![x@] + before.skip(pos as int));
        i = i + 1;
    }
    assert(v@.take(v.len() as int) =~= v@);
    out
}

/// The decimal digit for `d`, which is below ten.
pub open spec fn digit_char(d: nat) -> char {
    if d == 0 {
        '0'
    } else if d == 1 {
        '1'
    } else if d == 2 {
        '2'
    } else if d == 3 {
        '3'
    } else if d == 4 {
        '4'
    } else if d == 5 {
        '5'
    } else if d == 6 {
        '6'
    } else if d == 7 {
        '7'
    } else if d == 8 {
        '8'
    } else {
        '9'
    }
}

/// The decimal notation of `n`, as `to_string` writes it.
pub open spec fn decimal(n: nat) -> Seq<char>
    decreases n,
{
    if n < 10 {
        seq![digit_char(n)]
    } else {
        decimal(n / 10).push(digit_char(n % 10))
    }
}

fn digit(d: u64) -> (c: char)
    requires
        d < 10,
    ensures
        c == digit_char(d as nat),
{
    if d == 0 {
        '0'
    } else if d == 1 {
        '1'
    } else if d == 2 {
        '2'
    } else if d == 3 {
        '3'
    } else if d == 4 {
        '4'
    } else if d == 5 {
        '5'
    } else if d == 6 {
        '6'
    } else if d == 7 {
        '7'
    } else if d == 8 {
        '8'
    } else {
        '9'
    }
}

/// The decimal digits of `n`.
pub fn decimal_chars(n: u64) -> (v: Vec<char>)
    ensures
        v@ == decimal(n as nat),
    decreases n,
{
    if n < 10 {
        vec![digit(n)]
    } else {
        let mut v = decimal_chars(n / 10);
        v.push(digit(n % 10));
        v
    }
}

/// Appends the characters of `s` to `v`.
pub fn push_str_chars(v: &mut Vec<char>, s: &str)
    ensures
        final(v)@ == old(v)@ + s@,
{
    let cs = chars_of(s);
    let mut i: usize = 0;
    while i < cs.len()
        invariant
            i <= cs.len(),
            v@ == old(v)@ + cs@.take(i as int),
        decreases cs.len() - i,
    {
        v.push(cs[i]);
        assert(cs@.take(i + 1) =~= cs@.take(i as int).push(cs@[i as int]));
        i = i + 1;
    }
    assert(cs@.take(cs.len() as int) =~= cs@);
}

/// The characters of a string slice, in order.
///
/// Their UTF-8 length fits in a `usize`, as the length of any string does.
pub fn chars_of(s: &str) -> (v: Vec<char>)
    ensures
        v@ == s@,
        utf8_len(v@) <= usize::MAX,
{
    // The byte length of `s` is a `usize`.
    let _byte_len = str_byte_len(s);
    let mut v: Vec<char> = Vec::new();
    for c in it: s.chars()
        invariant
            v@ == it.seq().take(it.index() as int),
            it.seq() == s@,
    {
        v.push(c);
    }
    v
}

/// Builds a `String` from its characters.
///
/// Trusted: calls `FromIterator<char>` for `String`, which std documents as
/// appending the characters in order.
#[verifier::external_body]
pub(crate) fn string_from_chars(v: &[char]) -> (s: String)
    ensures
        s@ == v@,
{
    v.iter().collect()
}

/// Appends one character to a `String`.
///
/// Trusted: calls `String::push`, which std documents as appending `c` at the end.
#[verifier::external_body]
pub(crate) fn string_push(s: &mut String, c: char)
    ensures
        final(s)@ == old(s)@.push(c),
{
    s.push(c)
}

/// Removes the last character of a `String`.
///
/// Trusted: calls `String::pop`, which std documents as removing and returning
/// the last character, or returning `None` when the string is empty.
#[verifier::external_body]
pub(crate) fn string_pop(s: &mut String) -> (r: Option<char>)
    ensures
        old(s)@.len() == 0 ==> r is None && final(s)@ == old(s)@,
        old(s)@.len() > 0 ==> r == Some(old(s)@.last()) && final(s)@ == old(s)@.drop_last(),
{
    s.pop()
}

/// The full Unicode lower-case mapping of a string, as `str::to_lowercase` computes it.
pub uninterp spec fn unicode_lowercase(s: Seq<char>) -> Seq<char>;

/// Lower-cases a string.
///
/// Trusted: calls `str::to_lowercase`. Its result is a function of the string
/// alone (std applies the Unicode case tables without a locale); this contract
/// names that function. Of its value it states only the ASCII case: a string
/// of ASCII characters is mapped character for character, `A`-`Z` to
/// `a`-`z`, as the Unicode lower-case mapping does; the rest of the mapping
/// is left unsaid.
#[verifier::external_body]
pub(crate) fn to_lowercase(s: &str) -> (r: String)
    ensures
        r@ == unicode_lowercase(s@),
        (forall|i: int| 0 <= i < s@.len() ==> (#[trigger] s@[i] as u32) < 0x80) ==> {
            &&& r@.len() == s@.len()
            &&& forall|i: int| 0 <= i < r@.len() ==> (#[trigger] r@[i] as u32) == ascii_fold(s@[i])
        },
{
    s.to_lowercase()
}

/// Whether `c` is white space, as `char::is_whitespace` decides.
pub fn char_is_white_space(c: char) -> (r: bool)
    ensures
        r == is_white_space(c),
{
    let u = c as u32;
    (0x09 <= u && u <= 0x0d) || u == 0x20 || u == 0x85 || u == 0xa0 || u == 0x1680 || (0x2000
        <= u && u <= 0x200a) || u == 0x2028 || u == 0x2029 || u == 0x202f || u == 0x205f || u
        == 0x3000
}

/// Whether `s` holds only white space, that is whether `s.trim()` is empty.
pub fn str_is_blank(s: &str) -> (r: bool)
    ensures
        r == is_blank(s@),
{
    let v = chars_of(s);
    let mut i: usize = 0;
    while i < v.len()
        invariant
            v@ == s@,
            i <= v.len(),
            forall|j: int| 0 <= j < i ==> is_white_space(#[trigger] v@[j]),
        decreases v.len() - i,
    {
        if !char_is_white_space(v[i]) {
            return false;
        }
        i = i + 1;
    }
    true
}

fn fold_ascii(c: char) -> (r: u32)
    ensures
        r == ascii_fold(c),
{
    let u = c as u32;
    if 0x41 <= u && u <= 0x5a {
        u + 0x20
    } else {
        u
    }
}

/// `str::eq_ignore_ascii_case`: equality with ASCII letters compared without case.
pub fn str_eq_ignore_ascii_case(a: &str, b: &str) -> (r: bool)
    ensures
        r == eq_ignore_ascii_case(a@, b@),
{
    let va = chars_of(a);
    let vb = chars_of(b);
    if va.len() != vb.len() {
        return false;
    }
    let mut i: usize = 0;
    while i < va.len()
        invariant
            va@ == a@,
            vb@ == b@,
            va.len() == vb.len(),
            i <= va.len(),
            forall|j: int| 0 <= j < i ==> ascii_fold(#[trigger] va@[j]) == ascii_fold(vb@[j]),
        decreases va.len() - i,
    {
        if fold_ascii(va[i]) != fold_ascii(vb[i]) {
            return false;
        }
        i = i + 1;
    }
    true
}

/// Whether two strings are equal.
pub fn str_eq(a: &str, b: &str) -> (r: bool)
    ensures
        r == (a@ == b@),
{
    let va = chars_of(a);
    let vb = chars_of(b);
    if va.len() != vb.len() {
        return false;
    }
    let mut i: usize = 0;
    while i < va.len()
        invariant
            va@ == a@,
            vb@ == b@,
            va.len() == vb.len(),
            i <= va.len(),
            forall|j: int| 0 <= j < i ==> va@[j] == vb@[j],
        decreases va.len() - i,
    {
        if va[i] != vb[i] {
            return false;
        }
        i = i + 1;
    }
    assert(va@ =~= vb@);
    true
}

/// Whether `p` is a prefix of `s`.
pub fn str_starts_with(s: &str, p: &str) -> (r: bool)
    ensures
        r == has_prefix(s@, p@),
{
    let vs = chars_of(s);
    let vp = chars_of(p);
    if vp.len() > vs.len() {
        return false;
    }
    let mut i: usize = 0;
    while i < vp.len()
        invariant
            vs@ == s@,
            vp@ == p@,
            vp.len() <= vs.len(),
            i <= vp.len(),
            forall|j: int| 0 <= j < i ==> vs@[j] == vp@[j],
        decreases vp.len() - i,
    {
        if vs[i] != vp[i] {
            return false;
        }
        i = i + 1;
    }
    assert(s@.take(p@.len() as int) =~= p@);
    true
}

proof fn lemma_lex_lt_prefix(a: Seq<char>, b: Seq<char>, k: int)
    requires
        0 <= k <= a.len(),
        k <= b.len(),
        a.take(k) == b.take(k),
    ensures
        lex_lt(a, b) == lex_lt(a.skip(k), b.skip(k)),
    decreases k,
{
    if k > 0 {
        assert(a[0] == a.take(k)[0]);
        assert(b[0] == b.take(k)[0]);
        assert(a.drop_first().take(k - 1) =~= a.take(k).drop_first());
        assert(b.drop_first().take(k - 1) =~= b.take(k).drop_first());
        lemma_lex_lt_prefix(a.drop_first(), b.drop_first(), k - 1);
        assert(a.drop_first().skip(k - 1) =~= a.skip(k));
        assert(b.drop_first().skip(k - 1) =~= b.skip(k));
    } else {
        assert(a.skip(0) =~= a);
        assert(b.skip(0) =~= b);
    }
}

/// The code point of a character.
pub fn code_point(c: char) -> (u: u32)
    ensures
        u == c as int,
{
    c as u32
}

/// Whether `a` comes strictly before `b`, as `<` on `String` decides.
pub fn str_lt(a: &str, b: &str) -> (r: bool)
    ensures
        r == lex_lt(a@, b@),
{
    let va = chars_of(a);
    let vb = chars_of(b);
    let mut i: usize = 0;
    while i < va.len() && i < vb.len()
        invariant
            va@ == a@,
            vb@ == b@,
            i <= va.len(),
            i <= vb.len(),
            va@.take(i as int) == vb@.take(i as int),
        decreases va.len() - i,
    {
        if va[i] != vb[i] {
            proof {
                lemma_lex_lt_prefix(va@, vb@, i as int);
            }
            return code_point(va[i]) < code_point(vb[i]);
        }
        assert(va@.take(i + 1) =~= va@.take(i as int).push(va@[i as int]));
        assert(vb@.take(i + 1) =~= vb@.take(i as int).push(vb@[i as int]));
        i = i + 1;
    }
    proof {
        lemma_lex_lt_prefix(va@, vb@, i as int);
    }
    i < vb.len()
}


/// The number of bytes that `c` takes in UTF-8.
pub open spec fn char_width(c: char) -> nat {
    let u = c as u32;
    if u <= 0x7f {
        1
    } else if u <= 0x7ff {
        2
    } else if u <= 0xffff {
        3
    } else {
        4
    }
}

/// The number of bytes of the UTF-8 encoding of `s`: its length as a `str`.
pub open spec fn utf8_len(s: Seq<char>) -> nat {
    vstd::utf8::encode_utf8(s).len()
}

/// `s` cut at byte `b`, as `String::truncate` cuts it: unchanged when `b` is
/// not below its length, `None` when `b` falls inside a character.
pub open spec fn truncated(s: Seq<char>, b: nat) -> Option<Seq<char>> {
    if b >= utf8_len(s) {
        Some(s)
    } else if exists|k: int| 0 <= k <= s.len() && #[trigger] utf8_len(s.take(k)) == b {
        Some(s.take(choose|k: int| 0 <= k <= s.len() && #[trigger] utf8_len(s.take(k)) == b))
    } else {
        None
    }
}

proof fn lemma_encode_concat(a: Seq<char>, b: Seq<char>)
    ensures
        vstd::utf8::encode_utf8(a + b) == vstd::utf8::encode_utf8(a) + vstd::utf8::encode_utf8(b),
    decreases a.len(),
{
    if a.len() == 0 {
        assert(a + b =~= b);
        assert(vstd::utf8::encode_utf8(a) =~= Seq::<u8>::empty());
        assert(vstd::utf8::encode_utf8(a) + vstd::utf8::encode_utf8(b) =~= vstd::utf8::encode_utf8(b));
    } else {
        lemma_encode_concat(a.drop_first(), b);
        assert((a + b)[0] == a[0]);
        assert((a + b).drop_first() =~= a.drop_first() + b);
        assert(vstd::utf8::encode_scalar(a[0] as u32) + (vstd::utf8::encode_utf8(a.drop_first())
            + vstd::utf8::encode_utf8(b)) =~= vstd::utf8::encode_scalar(a[0] as u32)
            + vstd::utf8::encode_utf8(a.drop_first()) + vstd::utf8::encode_utf8(b));
    }
}

/// Appending a character adds its width to the UTF-8 length.
pub proof fn lemma_utf8_push(a: Seq<char>, c: char)
    ensures
        utf8_len(a.push(c)) == utf8_len(a) + char_width(c),
        1 <= char_width(c) <= 4,
{
    lemma_encode_concat(a, seq![c]);
    assert(a + seq![c] =~= a.push(c));
    let e = seq![c];
    assert(e.drop_first() =~= Seq::<char>::empty());
    assert(e[0] == c);
    assert(vstd::utf8::is_scalar(c as u32)) by {
        vstd::utf8::char_is_scalar(c);
    }
    assert(vstd::utf8::encode_scalar(c as u32).len() == char_width(c));
    assert(vstd::utf8::encode_utf8(e.drop_first()) =~= Seq::<u8>::empty());
    assert(vstd::utf8::encode_utf8(e) == vstd::utf8::encode_scalar(e[0] as u32)
        + vstd::utf8::encode_utf8(e.drop_first()));
    assert(vstd::utf8::encode_utf8(e) =~= vstd::utf8::encode_scalar(c as u32));
}

/// The UTF-8 length of a prefix grows by at least one per character.
pub proof fn lemma_utf8_take_grows(s: Seq<char>, k: int, m: int)
    requires
        0 <= k <= m <= s.len(),
    ensures
        utf8_len(s.take(k)) + (m - k) <= utf8_len(s.take(m)),
    decreases m - k,
{
    if k < m {
        lemma_utf8_take_grows(s, k, m - 1);
        assert(s.take(m) =~= s.take(m - 1).push(s[m - 1]));
        lemma_utf8_push(s.take(m - 1), s[m - 1]);
    }
}

/// Cutting at the byte length of a prefix gives back that prefix.
pub proof fn lemma_truncated_at_prefix(s: Seq<char>, k: int)
    requires
        0 <= k <= s.len(),
    ensures
        truncated(s, utf8_len(s.take(k))) == Some(s.take(k)),
{
    let b = utf8_len(s.take(k));
    assert(s.take(s.len() as int) =~= s);
    if b >= utf8_len(s) {
        if k < s.len() {
            lemma_utf8_take_grows(s, k, s.len() as int);
        }
    } else {
        let j = choose|j: int| 0 <= j <= s.len() && #[trigger] utf8_len(s.take(j)) == b;
        if j < k {
            lemma_utf8_take_grows(s, j, k);
        } else if j > k {
            lemma_utf8_take_grows(s, k, j);
        }
    }
}

/// The number of bytes that `c` takes in UTF-8, as `char::len_utf8` gives it.
pub fn char_byte_width(c: char) -> (w: usize)
    ensures
        w == char_width(c),
{
    let u = code_point(c);
    if u <= 0x7f {
        1
    } else if u <= 0x7ff {
        2
    } else if u <= 0xffff {
        3
    } else {
        4
    }
}

/// The length of `s` in bytes.
pub fn str_byte_len(s: &str) -> (n: usize)
    ensures
        n == utf8_len(s@),
{
    let bytes = s.as_bytes();
    bytes.len()
}

/// The number of bytes of the first `k` characters of `v`.
pub fn prefix_byte_len(v: &Vec<char>, k: usize) -> (n: usize)
    requires
        k <= v.len(),
        utf8_len(v@) <= usize::MAX,
    ensures
        n == utf8_len(v@.take(k as int)),
{
    let mut n: usize = 0;
    let mut i: usize = 0;
    proof {
        assert(v@.take(0) =~= Seq::<char>::empty());
        assert(vstd::utf8::encode_utf8(Seq::<char>::empty()) =~= Seq::<u8>::empty());
    }
    while i < k
        invariant
            i <= k <= v.len(),
            utf8_len(v@) <= usize::MAX,
            n == utf8_len(v@.take(i as int)),
        decreases k - i,
    {
        let w = char_byte_width(v[i]);
        proof {
            assert(v@.take(i + 1) =~= v@.take(i as int).push(v@[i as int]));
            lemma_utf8_push(v@.take(i as int), v@[i as int]);
            lemma_utf8_take_grows(v@, i + 1, v@.len() as int);
            assert(v@.take(v@.len() as int) =~= v@);
        }
        n = n + w;
        i = i + 1;
    }
    n
}

/// Where `String::truncate(b)` cuts `v`, as a number of characters: all of
/// them when `b` is not below the byte length, `None` when `b` falls inside
/// a character.
pub fn truncation_point(v: &Vec<char>, b: usize) -> (r: Option<usize>)
    requires
        utf8_len(v@) <= usize::MAX,
    ensures
        match truncated(v@, b as nat) {
            Some(p) => r matches Some(k) && k <= v.len() && v@.take(k as int) == p,
            None => r is None,
        },
{
    let mut n: usize = 0;
    let mut i: usize = 0;
    proof {
        assert(v@.take(0) =~= Seq::<char>::empty());
        assert(vstd::utf8::encode_utf8(Seq::<char>::empty()) =~= Seq::<u8>::empty());
        assert(v@.take(v@.len() as int) =~= v@);
    }
    while i < v.len()
        invariant
            i <= v.len(),
            utf8_len(v@) <= usize::MAX,
            v@.take(v@.len() as int) == v@,
            n == utf8_len(v@.take(i as int)),
            n <= b,
            forall|j: int| 0 <= j < i ==> #[trigger] utf8_len(v@.take(j)) < b,
        decreases v.len() - i,
    {
        let w = char_byte_width(v[i]);
        proof {
            assert(v@.take(i + 1) =~= v@.take(i as int).push(v@[i as int]));
            lemma_utf8_push(v@.take(i as int), v@[i as int]);
            lemma_utf8_take_grows(v@, i + 1, v@.len() as int);
        }
        if n == b {
            proof {
                assert(b < utf8_len(v@));
                let k = choose|k: int| 0 <= k <= v@.len() && #[trigger] utf8_len(v@.take(k)) == b;
                if k < i {
                    assert(utf8_len(v@.take(k)) < b);
                } else if k > i {
                    lemma_utf8_take_grows(v@, i as int, k);
                }
            }
            return Some(i);
        }
        if w > b - n {
            proof {
                assert(b < utf8_len(v@));
                assert forall|k: int| 0 <= k <= v@.len() implies #[trigger] utf8_len(v@.take(k)) != b by {
                    if k < i {
                    } else if k == i {
                    } else {
                        lemma_utf8_take_grows(v@, i + 1, k);
                    }
                }
            }
            return None;
        }
        n = n + w;
        i = i + 1;
    }
    Some(v.len())
}
} // verus!
