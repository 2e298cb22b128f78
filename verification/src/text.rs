//! Character-level text utilities shared by the runtime's parsers and
//! formatters. Strings are modelled by their `Seq<char>` views.
use vstd::prelude::*;
use vstd::std_specs::iter::IteratorSpec;
use vstd::string::*;
use vstd::utf8::*;

verus! {

broadcast use vstd::utf8::encode_utf8_decode_utf8;

// ───────────────────────── byte-level views ─────────────────────────

/// Number of UTF-8 bytes of a character sequence (what `str::len` returns).
pub open spec fn byte_len(s: Seq<char>) -> nat {
    encode_utf8(s).len()
}

/// Whether byte offset `n` falls on a character boundary of `s`.
pub open spec fn char_boundary(s: Seq<char>, n: int) -> bool {
    is_char_boundary(encode_utf8(s), n)
}

/// The characters encoded by the first `n` bytes of `s`.
pub open spec fn byte_prefix(s: Seq<char>, n: int) -> Seq<char> {
    decode_utf8(encode_utf8(s).take(n))
}

/// Byte length of a string slice (`str::len`).
pub fn str_byte_len(s: &str) -> (n: usize)
    ensures
        n == byte_len(s@),
{
    let b = s.as_bytes();
    b.len()
}

/// The prefix of `s` made of its first `n` bytes; `n` must be a character boundary.
pub fn str_byte_prefix(s: &str, n: usize) -> (r: &str)
    requires
        n <= byte_len(s@),
        char_boundary(s@, n as int),
    ensures
        r@ == byte_prefix(s@, n as int),
{
    let (a, _b) = s.split_at(n);
    proof {
        assert(a.spec_bytes() =~= encode_utf8(s@).take(n as int));
        assert(decode_utf8(encode_utf8(a@)) == a@);
    }
    a
}

/// Appends one character to a string (`String::push`).
#[verifier::external_body]
pub(crate) fn push_char(s: &mut String, c: char)
    ensures
        final(s)@ == old(s)@.push(c),
{
    s.push(c);
}

/// Appends one character to a string.
pub fn push_char_pub(s: &mut String, c: char)
    ensures
        final(s)@ == old(s)@.push(c),
{
    push_char(s, c);
}

/// Decodes bytes as UTF-8 (`std::str::from_utf8`): `Some` exactly for valid
/// UTF-8, holding the decoded characters.
#[verifier::external_body]
pub(crate) fn utf8_text(bytes: &[u8]) -> (r: Option<String>)
    ensures
        r is Some <==> valid_utf8(bytes@),
        r matches Some(s) ==> s@ == decode_utf8(bytes@),
{
    match std::str::from_utf8(bytes) {
        Ok(s) => Some(s.to_string()),
        Err(_) => None,
    }
}

/// The text `String::from_utf8_lossy` makes of bytes: invalid sequences
/// become U+FFFD.
pub uninterp spec fn utf8_lossy(bytes: Seq<u8>) -> Seq<char>;

/// Decodes bytes as UTF-8, replacing invalid sequences
/// (`String::from_utf8_lossy`); valid UTF-8 decodes exactly.
#[verifier::external_body]
pub(crate) fn lossy_text(bytes: &[u8]) -> (r: String)
    ensures
        r@ == utf8_lossy(bytes@),
        valid_utf8(bytes@) ==> r@ == decode_utf8(bytes@),
{
    String::from_utf8_lossy(bytes).into_owned()
}

// ───────────────────────── char vectors ─────────────────────────

/// The characters of a string slice, in order.
pub fn chars_of(s: &str) -> (v: Vec<char>)
    ensures
        v@ == s@,
{
    let mut v: Vec<char> = Vec::new();
    for c in it: s.chars()
        invariant
            v@ == it.seq().take(it.index() as int),
    {
        v.push(c);
    }
    v
}

/// A string holding the given characters.
pub fn string_of(v: &[char]) -> (s: String)
    ensures
        s@ == v@,
{
    let mut s = String::new();
    let mut i: usize = 0;
    while i < v.len()
        invariant
            i <= v@.len(),
            s@ == v@.take(i as int),
        decreases v@.len() - i,
    {
        push_char(&mut s, v[i]);
        assert(v@.take(i + 1) =~= v@.take(i as int).push(v@[i as int]));
        i = i + 1;
    }
    assert(v@.take(v@.len() as int) =~= v@);
    s
}

/// Characters `from..to` of `v`.
pub fn sub_chars(v: &[char], from: usize, to: usize) -> (r: Vec<char>)
    requires
        from <= to <= v@.len(),
    ensures
        r@ == v@.subrange(from as int, to as int),
{
    let mut r: Vec<char> = Vec::new();
    let mut i = from;
    while i < to
        invariant
            from <= i <= to <= v@.len(),
            r@ == v@.subrange(from as int, i as int),
        decreases to - i,
    {
        r.push(v[i]);
        assert(v@.subrange(from as int, i + 1) =~= v@.subrange(from as int, i as int).push(
            v@[i as int],
        ));
        i = i + 1;
    }
    r
}

/// Character-wise equality of two character slices.
pub fn chars_eq(a: &[char], b: &[char]) -> (r: bool)
    ensures
        r == (a@ == b@),
{
    if a.len() != b.len() {
        return false;
    }
    let mut i: usize = 0;
    while i < a.len()
        invariant
            a@.len() == b@.len(),
            i <= a@.len(),
            forall|k: int| 0 <= k < i ==> a@[k] == b@[k],
        decreases a@.len() - i,
    {
        if a[i] != b[i] {
            return false;
        }
        i = i + 1;
    }
    assert(a@ =~= b@);
    true
}

/// Equality of two string slices.
pub fn str_eq(a: &str, b: &str) -> (r: bool)
    ensures
        r == (a@ == b@),
{
    let va = chars_of(a);
    let vb = chars_of(b);
    chars_eq(va.as_slice(), vb.as_slice())
}

// ───────────────────────── prefixes, suffixes, search ─────────────────────────

pub open spec fn has_prefix(s: Seq<char>, p: Seq<char>) -> bool {
    p.len() <= s.len() && s.take(p.len() as int) == p
}

pub open spec fn has_suffix(s: Seq<char>, p: Seq<char>) -> bool {
    p.len() <= s.len() && s.skip(s.len() - p.len()) == p
}

/// `p` occurs in `s` starting at index `i`.
pub open spec fn occurs_at(s: Seq<char>, p: Seq<char>, i: int) -> bool {
    0 <= i && i + p.len() <= s.len() && s.subrange(i, i + p.len()) == p
}

/// Whether `p` occurs anywhere in `s`.
pub open spec fn contains_seq(s: Seq<char>, p: Seq<char>) -> bool {
    exists|i: int| occurs_at(s, p, i)
}

/// The index of the first occurrence of `p` in `s`, if any.
#[verifier::opaque]
pub open spec fn find_seq(s: Seq<char>, p: Seq<char>) -> Option<int> {
    if contains_seq(s, p) {
        Some(choose|i: int| occurs_at(s, p, i) && forall|j: int| 0 <= j < i ==> !occurs_at(s, p, j))
    } else {
        None
    }
}

proof fn lemma_min_occurrence(s: Seq<char>, p: Seq<char>, k: int)
    requires
        occurs_at(s, p, k),
    ensures
        exists|i: int| occurs_at(s, p, i) && forall|j: int| 0 <= j < i ==> !occurs_at(s, p, j),
    decreases k,
{
    if exists|j: int| 0 <= j < k && occurs_at(s, p, j) {
        let j = choose|j: int| 0 <= j < k && occurs_at(s, p, j);
        lemma_min_occurrence(s, p, j);
    } else {
        assert(occurs_at(s, p, k) && forall|j: int| 0 <= j < k ==> !occurs_at(s, p, j));
    }
}

/// `find_seq` yields the first occurrence.
pub proof fn lemma_find_seq(s: Seq<char>, p: Seq<char>)
    ensures
        find_seq(s, p) matches Some(i) ==> occurs_at(s, p, i) && forall|j: int|
            0 <= j < i ==> !occurs_at(s, p, j),
        find_seq(s, p) is None ==> forall|j: int| !occurs_at(s, p, j),
{
    reveal(find_seq);
    if contains_seq(s, p) {
        let k = choose|k: int| occurs_at(s, p, k);
        lemma_min_occurrence(s, p, k);
    }
}

/// Where `find_seq` finds `p`, `p` fits in `s`.
pub proof fn lemma_find_bounds(s: Seq<char>, p: Seq<char>)
    ensures
        find_seq(s, p) matches Some(i) ==> 0 <= i && i + p.len() <= s.len(),
{
    lemma_find_seq(s, p);
}

/// No proper suffix of `p` is also a prefix of it.
pub open spec fn borderless(p: Seq<char>) -> bool {
    forall|k: int| 0 < k < p.len() ==> #[trigger] p.skip(k) != p.take(p.len() - k)
}

/// A pattern whose first character does not occur again in it is borderless.
pub proof fn lemma_borderless(p: Seq<char>)
    requires
        forall|k: int| 0 < k < p.len() ==> #[trigger] p[k] != p[0],
    ensures
        borderless(p),
{
    assert forall|k: int| 0 < k < p.len() implies #[trigger] p.skip(k) != p.take(p.len() - k) by {
        assert(p.skip(k)[0] == p[k]);
        assert(p.take(p.len() - k)[0] == p[0]);
    }
}

/// `p` is found at the start of `p + t`.
pub proof fn lemma_find_at_start(p: Seq<char>, t: Seq<char>)
    requires
        p.len() > 0,
    ensures
        find_seq(p + t, p) == Some(0int),
{
    let s = p + t;
    assert(s.subrange(0, p.len() as int) =~= p);
    assert(occurs_at(s, p, 0));
    lemma_find_seq(s, p);
}

/// A borderless `p` that does not occur in `a` is first found in `a + p + t`
/// just after `a`.
pub proof fn lemma_find_after(a: Seq<char>, p: Seq<char>, t: Seq<char>)
    requires
        p.len() > 0,
        borderless(p),
        forall|j: int| !occurs_at(a, p, j),
    ensures
        find_seq(a + p + t, p) == Some(a.len() as int),
{
    let s = a + p + t;
    let n = a.len() as int;
    assert(s.subrange(n, n + p.len()) =~= p);
    assert(occurs_at(s, p, n));
    assert forall|j: int| 0 <= j < n implies !occurs_at(s, p, j) by {
        if occurs_at(s, p, j) {
            if j + p.len() <= n {
                assert(s.subrange(j, j + p.len()) =~= a.subrange(j, j + p.len()));
                assert(occurs_at(a, p, j));
            } else {
                let k = n - j;
                assert(0 < k < p.len());
                assert(s.subrange(j, j + p.len()).skip(k) =~= p.take(p.len() - k));
                assert(p.skip(k) =~= s.subrange(j, j + p.len()).skip(k));
                assert(p.skip(k) == p.take(p.len() - k));
            }
        }
    }
    lemma_find_seq(s, p);
    let f = find_seq(s, p)->0;
    if f < n {
    } else if f > n {
    }
}

/// A character that does not begin `p` shifts the first occurrence of `p` by one.
pub proof fn lemma_find_shift(c: char, r: Seq<char>, p: Seq<char>)
    requires
        p.len() > 0,
        c != p[0],
    ensures
        find_seq(seq![c] + r, p) == match find_seq(r, p) {
            Some(i) => Some(i + 1),
            None => None::<int>,
        },
{
    let s = seq![c] + r;
    assert forall|j: int| occurs_at(s, p, j) <==> (j >= 1 && occurs_at(r, p, j - 1)) by {
        if j >= 1 && 0 <= j && j + p.len() <= s.len() {
            assert(s.subrange(j, j + p.len()) =~= r.subrange(j - 1, j - 1 + p.len()));
        }
        if j == 0 && occurs_at(s, p, 0) {
            assert(s.subrange(0, p.len() as int)[0] == c);
        }
    }
    lemma_find_seq(s, p);
    lemma_find_seq(r, p);
    match find_seq(r, p) {
        Some(i) => {
            assert(occurs_at(s, p, i + 1));
            let f = find_seq(s, p)->0;
            if f < i + 1 {
                assert(occurs_at(r, p, f - 1));
            } else if f > i + 1 {
            }
        },
        None => {
            if find_seq(s, p) is Some {
                let f = find_seq(s, p)->0;
                assert(occurs_at(r, p, f - 1));
            }
        },
    }
}

/// A pattern without the separator character occurs in `x + [sep] + y` only
/// within `x` or within `y`.
pub proof fn lemma_no_occurrence_across(x: Seq<char>, sep: char, y: Seq<char>, p: Seq<char>)
    requires
        forall|i: int| 0 <= i < p.len() ==> p[i] != sep,
        forall|j: int| !occurs_at(x, p, j),
        forall|j: int| !occurs_at(y, p, j),
    ensures
        forall|j: int| !occurs_at(x + seq![sep] + y, p, j),
{
    let s = x + seq![sep] + y;
    let n = x.len() as int;
    assert forall|j: int| !occurs_at(s, p, j) by {
        if occurs_at(s, p, j) {
            if j + p.len() <= n {
                assert(s.subrange(j, j + p.len()) =~= x.subrange(j, j + p.len()));
                assert(occurs_at(x, p, j));
            } else if j > n {
                assert(s.subrange(j, j + p.len()) =~= y.subrange(j - n - 1, j - n - 1 + p.len()));
                assert(occurs_at(y, p, j - n - 1));
            } else {
                assert(s.subrange(j, j + p.len())[n - j] == sep);
                assert(p[n - j] == sep);
            }
        }
    }
}

/// The index of the first occurrence of character `c` in `s`, if any.
pub open spec fn find_char(s: Seq<char>, c: char) -> Option<int> {
    find_seq(s, seq![c])
}

pub fn starts_with_chars(s: &[char], p: &[char]) -> (r: bool)
    ensures
        r == has_prefix(s@, p@),
{
    if p.len() > s.len() {
        return false;
    }
    let mut i: usize = 0;
    while i < p.len()
        invariant
            p@.len() <= s@.len(),
            i <= p@.len(),
            forall|k: int| 0 <= k < i ==> s@[k] == p@[k],
        decreases p@.len() - i,
    {
        if s[i] != p[i] {
            assert(s@.take(p@.len() as int)[i as int] != p@[i as int]);
            return false;
        }
        i = i + 1;
    }
    assert(s@.take(p@.len() as int) =~= p@);
    true
}

pub fn ends_with_chars(s: &[char], p: &[char]) -> (r: bool)
    ensures
        r == has_suffix(s@, p@),
{
    if p.len() > s.len() {
        return false;
    }
    let sl = s.len();
    let off = s.len() - p.len();
    let mut i: usize = 0;
    while i < p.len()
        invariant
            sl == s@.len(),
            p@.len() <= s@.len(),
            off + p@.len() == s@.len(),
            off == s@.len() - p@.len(),
            i <= p@.len(),
            forall|k: int| 0 <= k < i ==> s@[off + k] == p@[k],
        decreases p@.len() - i,
    {
        if s[off + i] != p[i] {
            assert(s@.skip(off as int)[i as int] != p@[i as int]);
            return false;
        }
        i = i + 1;
    }
    assert(s@.skip(off as int) =~= p@);
    true
}

/// Whether `p` occurs in `s` at index `i` (executable check).
pub fn occurs_at_exec(s: &[char], p: &[char], i: usize) -> (r: bool)
    ensures
        r == occurs_at(s@, p@, i as int),
{
    if i > s.len() || p.len() > s.len() - i {
        return false;
    }
    let sl = s.len();
    let mut k: usize = 0;
    while k < p.len()
        invariant
            sl == s@.len(),
            i + p@.len() <= s@.len(),
            k <= p@.len(),
            forall|m: int| 0 <= m < k ==> s@[i + m] == p@[m],
        decreases p@.len() - k,
    {
        if s[i + k] != p[k] {
            assert(s@.subrange(i as int, i + p@.len())[k as int] != p@[k as int]);
            return false;
        }
        k = k + 1;
    }
    assert(s@.subrange(i as int, i + p@.len()) =~= p@);
    true
}

/// The index of the first occurrence of `p` in `s` at or after `from`.
pub fn find_chars_from(s: &[char], p: &[char], from: usize) -> (r: Option<usize>)
    ensures
        r matches Some(i) ==> from <= i && occurs_at(s@, p@, i as int) && forall|j: int|
            from <= j < i ==> !occurs_at(s@, p@, j),
        r is None ==> forall|j: int| from <= j ==> !occurs_at(s@, p@, j),
{
    let n = s.len();
    if from > n {
        return None;
    }
    let mut i = from;
    while i < n
        invariant
            n == s@.len(),
            from <= i <= n,
            forall|j: int| from <= j < i ==> !occurs_at(s@, p@, j),
        decreases n - i,
    {
        if occurs_at_exec(s, p, i) {
            return Some(i);
        }
        i = i + 1;
    }
    if occurs_at_exec(s, p, n) {
        return Some(n);
    }
    None
}

/// The index of the first occurrence of `p` in `s`.
pub fn find_chars(s: &[char], p: &[char]) -> (r: Option<usize>)
    ensures
        r matches Some(i) ==> find_seq(s@, p@) == Some(i as int),
        r is None ==> find_seq(s@, p@) is None,
{
    let r = find_chars_from(s, p, 0);
    proof {
        reveal(find_seq);
    }
    match r {
        Some(i) => {
            proof {
                let w = choose|w: int|
                    occurs_at(s@, p@, w) && forall|j: int| 0 <= j < w ==> !occurs_at(s@, p@, j);
                assert(occurs_at(s@, p@, i as int));
                assert(w == i) by {
                    if w < i {
                    } else if w > i {
                    }
                }
            }
        },
        None => {},
    }
    r
}

// ───────────────────────── whitespace and trimming ─────────────────────────

/// Unicode `White_Space`, the set `char::is_whitespace` and `str::trim` use.
pub open spec fn is_white(c: char) -> bool {
    let u = c as u32;
    (0x09 <= u <= 0x0D) || u == 0x20 || u == 0x85 || u == 0xA0 || u == 0x1680 || (0x2000 <= u
        <= 0x200A) || u == 0x2028 || u == 0x2029 || u == 0x202F || u == 0x205F || u == 0x3000
}

pub fn is_white_exec(c: char) -> (r: bool)
    ensures
        r == is_white(c),
{
    let u = c as u32;
    (0x09 <= u && u <= 0x0D) || u == 0x20 || u == 0x85 || u == 0xA0 || u == 0x1680 || (0x2000
        <= u && u <= 0x200A) || u == 0x2028 || u == 0x2029 || u == 0x202F || u == 0x205F || u
        == 0x3000
}

/// `s` with leading white space removed.
pub open spec fn trim_start(s: Seq<char>) -> Seq<char>
    decreases s.len(),
{
    if s.len() > 0 && is_white(s[0]) {
        trim_start(s.drop_first())
    } else {
        s
    }
}

/// `s` with trailing white space removed.
pub open spec fn trim_end(s: Seq<char>) -> Seq<char>
    decreases s.len(),
{
    if s.len() > 0 && is_white(s.last()) {
        trim_end(s.drop_last())
    } else {
        s
    }
}

/// `s` with white space removed at both ends (`str::trim`).
pub open spec fn trim(s: Seq<char>) -> Seq<char> {
    trim_end(trim_start(s))
}

proof fn lemma_trim_start_skip(s: Seq<char>, i: int)
    requires
        0 <= i <= s.len(),
        forall|k: int| 0 <= k < i ==> is_white(s[k]),
    ensures
        trim_start(s) == trim_start(s.skip(i)),
    decreases i,
{
    if i > 0 {
        assert(s.drop_first().skip(i - 1) =~= s.skip(i));
        lemma_trim_start_skip(s.drop_first(), i - 1);
    } else {
        assert(s.skip(0) =~= s);
    }
}

proof fn lemma_trim_end_take(s: Seq<char>, j: int)
    requires
        0 <= j <= s.len(),
        forall|k: int| j <= k < s.len() ==> is_white(s[k]),
    ensures
        trim_end(s) == trim_end(s.take(j)),
    decreases s.len() - j,
{
    if j < s.len() {
        assert(s.drop_last().take(j) =~= s.take(j));
        lemma_trim_end_take(s.drop_last(), j);
    } else {
        assert(s.take(j) =~= s);
    }
}

/// The bounds `(a, b)` such that `trim(v) == v[a..b]`.
pub fn trim_bounds(v: &[char]) -> (r: (usize, usize))
    ensures
        r.0 <= r.1 <= v@.len(),
        trim(v@) == v@.subrange(r.0 as int, r.1 as int),
        trim_start(v@) == v@.skip(r.0 as int),
{
    let n = v.len();
    let mut i: usize = 0;
    while i < n && is_white_exec(v[i])
        invariant
            i <= n == v@.len(),
            forall|k: int| 0 <= k < i ==> is_white(v@[k]),
        decreases n - i,
    {
        i = i + 1;
    }
    proof {
        lemma_trim_start_skip(v@, i as int);
    }
    let ghost t = v@.skip(i as int);
    assert(trim_start(t) == t);
    let mut j: usize = n;
    while j > i && is_white_exec(v[j - 1])
        invariant
            i <= j <= n == v@.len(),
            t == v@.skip(i as int),
            forall|k: int| j <= k < n ==> is_white(v@[k]),
        decreases j,
    {
        j = j - 1;
    }
    proof {
        lemma_trim_end_take(t, j - i);
        let u = t.take(j - i);
        assert(u =~= v@.subrange(i as int, j as int));
        if u.len() > 0 {
            assert(u.last() == v@[j - 1]);
        }
        assert(trim_end(u) == u);
    }
    (i, j)
}

/// `v` with white space removed at both ends.
pub fn trim_chars(v: &[char]) -> (r: Vec<char>)
    ensures
        r@ == trim(v@),
{
    let (a, b) = trim_bounds(v);
    sub_chars(v, a, b)
}

/// A string slice with white space removed at both ends (`str::trim`).
pub fn trim_str(s: &str) -> (r: String)
    ensures
        r@ == trim(s@),
{
    let v = chars_of(s);
    let t = trim_chars(v.as_slice());
    string_of(t.as_slice())
}

// ───────────────────────── decimal numbers ─────────────────────────

pub open spec fn is_digit(c: char) -> bool {
    '0' <= c <= '9'
}

pub open spec fn all_digits(s: Seq<char>) -> bool {
    forall|i: int| 0 <= i < s.len() ==> is_digit(s[i])
}

/// The value of a string of decimal digits.
pub open spec fn digits_value(s: Seq<char>) -> nat
    decreases s.len(),
{
    if s.len() == 0 {
        0
    } else {
        digits_value(s.drop_last()) * 10 + ((s.last() as u32) - ('0' as u32)) as nat
    }
}

/// The digits part of an unsigned literal accepted by `FromStr` for unsigned
/// integers: an optional leading `+` followed by at least one digit.
pub open spec fn unsigned_digits(s: Seq<char>) -> Option<Seq<char>> {
    let d = unsigned_body(s);
    if d.len() > 0 && all_digits(d) {
        Some(d)
    } else {
        None
    }
}

/// `s` without one leading `+`.
pub open spec fn unsigned_body(s: Seq<char>) -> Seq<char> {
    if s.len() > 0 && s[0] == '+' {
        s.drop_first()
    } else {
        s
    }
}

/// What `s.parse::<uN>()` yields for an integer type whose maximum is `max`.
pub open spec fn parse_unsigned(s: Seq<char>, max: nat) -> Option<nat> {
    match unsigned_digits(s) {
        Some(d) => if digits_value(d) <= max {
            Some(digits_value(d))
        } else {
            None
        },
        None => None,
    }
}

proof fn lemma_digits_value_push(s: Seq<char>, c: char)
    ensures
        digits_value(s.push(c)) == digits_value(s) * 10 + ((c as u32) - ('0' as u32)) as nat,
{
    assert(s.push(c).drop_last() =~= s);
}

/// Parses an unsigned decimal literal whose value must not exceed `max`.
pub fn parse_unsigned_exec(v: &[char], max: u64) -> (r: Option<u64>)
    ensures
        r matches Some(x) ==> parse_unsigned(v@, max as nat) == Some(x as nat),
        r is None ==> parse_unsigned(v@, max as nat) is None,
{
    let start: usize = if v.len() > 0 && v[0] == '+' {
        1
    } else {
        0
    };
    let ghost d = unsigned_body(v@);
    assert(d =~= v@.skip(start as int));
    if start >= v.len() {
        assert(d.len() == 0);
        return None;
    }
    let mut acc: u64 = 0;
    let mut i = start;
    let mut overflow = false;
    while i < v.len()
        invariant
            start <= i <= v@.len(),
            d == v@.skip(start as int),
            d == unsigned_body(v@),
            all_digits(v@.subrange(start as int, i as int)),
            !overflow ==> acc as nat == digits_value(v@.subrange(start as int, i as int)),
            !overflow ==> acc <= max,
            overflow ==> digits_value(v@.subrange(start as int, i as int)) > max,
        decreases v@.len() - i,
    {
        let c = v[i];
        if !('0' <= c && c <= '9') {
            assert(d[i - start] == c);
            assert(!is_digit(d[i - start]));
            assert(!all_digits(d));
            return None;
        }
        let dv = (c as u32 - '0' as u32) as u64;
        proof {
            let pre = v@.subrange(start as int, i as int);
            assert(v@.subrange(start as int, i + 1) =~= pre.push(c));
            lemma_digits_value_push(pre, c);
        }
        if overflow || dv > max || acc > (max - dv) / 10 {
            proof {
                let pre = v@.subrange(start as int, i as int);
                let dvn = ((c as u32) - ('0' as u32)) as nat;
                if !overflow {
                    if dv > max {
                        assert(digits_value(pre) * 10 + dvn > max) by (nonlinear_arith)
                            requires dvn == dv, dv > max;
                    } else {
                        assert(acc * 10 + dv > max) by (nonlinear_arith)
                            requires
                                acc > (max - dv) / 10,
                                dv <= max,
                        ;
                    }
                } else {
                    assert(digits_value(pre) * 10 + dvn > max) by (nonlinear_arith)
                        requires digits_value(pre) > max;
                }
            }
            overflow = true;
        } else {
            proof {
                assert(acc * 10 + dv <= max) by (nonlinear_arith)
                    requires
                        acc <= (max - dv) / 10,
                        dv <= max,
                ;
            }
            acc = acc * 10 + dv;
        }
        i = i + 1;
    }
    assert(v@.subrange(start as int, v@.len() as int) =~= d);
    if overflow {
        None
    } else {
        Some(acc)
    }
}

/// What `s.parse::<i32>()` yields: an optional sign (`+` or `-`) and at
/// least one digit, within `i32`'s range.
pub open spec fn parse_i32(s: Seq<char>) -> Option<int> {
    if s.len() > 0 && s[0] == '-' {
        let d = s.drop_first();
        if d.len() > 0 && all_digits(d) && digits_value(d) <= 0x8000_0000 {
            Some(-digits_value(d))
        } else {
            None
        }
    } else {
        match parse_unsigned(s, 0x7fff_ffff) {
            Some(n) => Some(n as int),
            None => None,
        }
    }
}

/// Parses a signed decimal `i32` literal.
pub fn parse_i32_exec(v: &[char]) -> (r: Option<i32>)
    ensures
        r matches Some(x) ==> parse_i32(v@) == Some(x as int),
        r is None ==> parse_i32(v@) is None,
{
    if v.len() > 0 && v[0] == '-' {
        let d = sub_chars(v, 1, v.len());
        assert(d@ =~= v@.drop_first());
        if d.len() > 0 && d[0] == '+' {
            assert(!is_digit(d@[0]));
            return None;
        }
        assert(unsigned_body(d@) == d@);
        match parse_unsigned_exec(d.as_slice(), 0x8000_0000) {
            Some(n) => {
                let x: i64 = 0i64 - (n as i64);
                Some(x as i32)
            },
            None => None,
        }
    } else {
        match parse_unsigned_exec(v, 0x7fff_ffff) {
            Some(n) => Some(n as i32),
            None => None,
        }
    }
}

/// The index of the first occurrence of character `c` in `v`.
pub fn find_char_exec(v: &[char], c: char) -> (r: Option<usize>)
    ensures
        r matches Some(i) ==> find_char(v@, c) == Some(i as int) && i < v@.len() && v@[i as int]
            == c,
        r is None ==> find_char(v@, c) is None,
{
    let n = v.len();
    let mut i: usize = 0;
    proof {
        reveal(find_seq);
    }
    while i < n
        invariant
            n == v@.len(),
            i <= n,
            forall|j: int| 0 <= j < i ==> v@[j] != c,
        decreases n - i,
    {
        if v[i] == c {
            proof {
                reveal(find_seq);
                assert(v@.subrange(i as int, i + 1) =~= seq![c]);
                assert forall|j: int| 0 <= j < i implies !occurs_at(v@, seq![c], j) by {
                    if occurs_at(v@, seq![c], j) {
                        assert(v@.subrange(j, j + 1)[0] == v@[j]);
                    }
                }
                let w = choose|w: int|
                    occurs_at(v@, seq![c], w) && forall|j: int|
                        0 <= j < w ==> !occurs_at(v@, seq![c], j);
                assert(occurs_at(v@, seq![c], i as int));
                if w < i {
                } else if w > i {
                }
            }
            return Some(i);
        }
        i = i + 1;
    }
    proof {
        reveal(find_seq);
        assert forall|j: int| !occurs_at(v@, seq![c], j) by {
            if occurs_at(v@, seq![c], j) {
                assert(v@.subrange(j, j + 1)[0] == v@[j]);
            }
        }
    }
    None
}

// ───────────────────────── number formatting and padding ─────────────────────────

/// The decimal digit character for `d < 10`.
pub open spec fn digit_char(d: nat) -> char {
    ((d + 48) as u32) as char
}

/// The decimal representation of `n` (what `{}` prints for an unsigned integer).
pub open spec fn decimal(n: nat) -> Seq<char>
    decreases n,
{
    if n < 10 {
        seq![digit_char(n)]
    } else {
        decimal(n / 10).push(digit_char(n % 10))
    }
}

fn digit_char_exec(d: u64) -> (c: char)
    requires
        d < 10,
    ensures
        c == digit_char(d as nat),
{
    let b: u8 = (d as u8) + 48;
    let c = b as char;
    assert(c == digit_char(d as nat)) by {
        assert((b as u32) == d + 48);
    }
    c
}

/// Writes `n` in decimal.
pub fn decimal_string(n: u64) -> (s: String)
    ensures
        s@ == decimal(n as nat),
    decreases n,
{
    if n < 10 {
        let mut s = String::new();
        push_char(&mut s, digit_char_exec(n));
        s
    } else {
        let mut s = decimal_string(n / 10);
        push_char(&mut s, digit_char_exec(n % 10));
        s
    }
}

/// `s` padded with spaces on the right to at least `w` characters (`{:<w}`).
pub open spec fn pad_right(s: Seq<char>, w: nat) -> Seq<char> {
    if s.len() < w {
        s + Seq::new((w - s.len()) as nat, |i: int| ' ')
    } else {
        s
    }
}

/// Appends `s` padded with spaces to at least `w` characters.
pub fn push_padded(out: &mut String, s: &str, w: usize)
    ensures
        final(out)@ == old(out)@ + pad_right(s@, w as nat),
{
    let ghost o = out@;
    out.append(s);
    let n = s.unicode_len();
    if n < w {
        let mut k = n;
        while k < w
            invariant
                n <= k <= w,
                n == s@.len(),
                out@ == o + s@ + Seq::new((k - n) as nat, |i: int| ' '),
            decreases w - k,
        {
            push_char(out, ' ');
            assert(Seq::new((k + 1 - n) as nat, |i: int| ' ') =~= Seq::new(
                (k - n) as nat,
                |i: int| ' ',
            ).push(' '));
            k = k + 1;
        }
        assert(out@ =~= o + pad_right(s@, w as nat));
    } else {
        assert(out@ =~= o + pad_right(s@, w as nat));
    }
}

} // verus!
