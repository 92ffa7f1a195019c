//! Character classes and string helpers.
//!
//! Every helper works on the `Seq<char>` view of a string: the specification
//! functions here are what the contracts of the rest of the library speak of.

use vstd::prelude::*;

verus! {

// ── Character classes ───────────────────────────────────────────────────────

/// Unicode `White_Space`: the characters `char::is_whitespace` accepts, and
/// the ones `str::trim` removes.
pub open spec fn spec_is_whitespace(c: char) -> bool {
    let u = c as u32;
    (0x09 <= u && u <= 0x0d) || u == 0x20 || u == 0x85 || u == 0xa0 || u == 0x1680 || (0x2000
        <= u && u <= 0x200a) || u == 0x2028 || u == 0x2029 || u == 0x202f || u == 0x205f || u
        == 0x3000
}

/// General category `Cc`: what `char::is_control` accepts.
pub open spec fn spec_is_control(c: char) -> bool {
    let u = c as u32;
    u <= 0x1f || (0x7f <= u && u <= 0x9f)
}

pub open spec fn spec_is_ascii_digit(c: char) -> bool {
    let u = c as u32;
    0x30 <= u && u <= 0x39
}

pub open spec fn spec_is_ascii_upper(c: char) -> bool {
    let u = c as u32;
    0x41 <= u && u <= 0x5a
}

pub open spec fn spec_is_ascii_lower(c: char) -> bool {
    let u = c as u32;
    0x61 <= u && u <= 0x7a
}

pub open spec fn spec_is_ascii_alphanumeric(c: char) -> bool {
    spec_is_ascii_digit(c) || spec_is_ascii_upper(c) || spec_is_ascii_lower(c)
}

pub open spec fn spec_is_ascii_hexdigit(c: char) -> bool {
    let u = c as u32;
    spec_is_ascii_digit(c) || (0x41 <= u && u <= 0x46) || (0x61 <= u && u <= 0x66)
}

pub open spec fn spec_ascii_lower(c: char) -> char {
    if spec_is_ascii_upper(c) {
        ((c as u32) + 32) as char
    } else {
        c
    }
}

pub open spec fn spec_ascii_upper(c: char) -> char {
    if spec_is_ascii_lower(c) {
        ((c as u32) - 32) as char
    } else {
        c
    }
}

pub fn is_whitespace(c: char) -> (b: bool)
    ensures
        b == spec_is_whitespace(c),
{
    let u = c as u32;
    (0x09 <= u && u <= 0x0d) || u == 0x20 || u == 0x85 || u == 0xa0 || u == 0x1680 || (0x2000
        <= u && u <= 0x200a) || u == 0x2028 || u == 0x2029 || u == 0x202f || u == 0x205f || u
        == 0x3000
}

pub fn is_control(c: char) -> (b: bool)
    ensures
        b == spec_is_control(c),
{
    let u = c as u32;
    u <= 0x1f || (0x7f <= u && u <= 0x9f)
}

pub fn is_ascii_digit(c: char) -> (b: bool)
    ensures
        b == spec_is_ascii_digit(c),
{
    let u = c as u32;
    0x30 <= u && u <= 0x39
}

pub fn is_ascii_alphanumeric(c: char) -> (b: bool)
    ensures
        b == spec_is_ascii_alphanumeric(c),
{
    let u = c as u32;
    (0x30 <= u && u <= 0x39) || (0x41 <= u && u <= 0x5a) || (0x61 <= u && u <= 0x7a)
}

pub fn is_ascii_hexdigit(c: char) -> (b: bool)
    ensures
        b == spec_is_ascii_hexdigit(c),
{
    let u = c as u32;
    (0x30 <= u && u <= 0x39) || (0x41 <= u && u <= 0x46) || (0x61 <= u && u <= 0x66)
}

pub fn is_ascii_lowercase(c: char) -> (b: bool)
    ensures
        b == spec_is_ascii_lower(c),
{
    let u = c as u32;
    0x61 <= u && u <= 0x7a
}

pub fn ascii_lower(c: char) -> (r: char)
    ensures
        r == spec_ascii_lower(c),
{
    let u = c as u32;
    if 0x41 <= u && u <= 0x5a {
        let b = u as u8;
        assert(b as u32 == u) by (bit_vector)
            requires
                b == u as u8,
                u <= 0x5a,
        ;
        (b + 32) as char
    } else {
        c
    }
}

pub fn ascii_upper(c: char) -> (r: char)
    ensures
        r == spec_ascii_upper(c),
{
    let u = c as u32;
    if 0x61 <= u && u <= 0x7a {
        let b = u as u8;
        assert(b as u32 == u) by (bit_vector)
            requires
                b == u as u8,
                u <= 0x7a,
        ;
        (b - 32) as char
    } else {
        c
    }
}

// ── Conversions ─────────────────────────────────────────────────────────────

/// Copies the characters of a string slice into a vector.
pub fn to_chars(s: &str) -> (v: Vec<char>)
    ensures
        v@ == s@,
{
    let mut v: Vec<char> = Vec::new();
    for c in it: s.chars()
        invariant
            v@ == it.seq().take(it.index() as int),
            it.seq() == s@,
    {
        v.push(c);
    }
    v
}

/// `String::push`.
#[verifier::external_body]
fn push_char(s: &mut String, c: char)
    ensures
        final(s)@ == old(s)@.push(c),
{
    s.push(c);
}

/// Builds a string from characters.
pub fn from_chars(v: &[char]) -> (s: String)
    ensures
        s@ == v@,
{
    let mut s = String::new();
    let mut i: usize = 0;
    while i < v.len()
        invariant
            i <= v@.len(),
            s@ == v@.take(i as int),
        decreases v@.len() - i,
    {
        push_char(&mut s, v[i]);
        i += 1;
        assert(s@ =~= v@.take(i as int));
    }
    assert(v@.take(i as int) =~= v@);
    s
}

// ── Trimming ────────────────────────────────────────────────────────────────

/// Number of leading characters that satisfy `White_Space`.
pub open spec fn lead_ws(s: Seq<char>) -> nat
    decreases s.len(),
{
    if s.len() == 0 || !spec_is_whitespace(s[0]) {
        0
    } else {
        1 + lead_ws(s.drop_first())
    }
}

/// Number of trailing characters that satisfy `White_Space`.
pub open spec fn trail_ws(s: Seq<char>) -> nat
    decreases s.len(),
{
    if s.len() == 0 || !spec_is_whitespace(s.last()) {
        0
    } else {
        1 + trail_ws(s.drop_last())
    }
}

pub open spec fn trim_start(s: Seq<char>) -> Seq<char> {
    s.skip(lead_ws(s) as int)
}

pub open spec fn trim_end(s: Seq<char>) -> Seq<char> {
    s.take(s.len() - trail_ws(s))
}

/// `str::trim`.
pub open spec fn trim(s: Seq<char>) -> Seq<char> {
    trim_end(trim_start(s))
}

pub proof fn lemma_lead_ws(s: Seq<char>, k: int)
    requires
        0 <= k <= s.len(),
        forall|j: int| 0 <= j < k ==> spec_is_whitespace(#[trigger] s[j]),
        k == s.len() || !spec_is_whitespace(s[k]),
    ensures
        lead_ws(s) == k,
    decreases k,
{
    if k > 0 {
        assert(spec_is_whitespace(s[0]));
        let t = s.drop_first();
        assert forall|j: int| 0 <= j < k - 1 implies spec_is_whitespace(#[trigger] t[j]) by {
            assert(t[j] == s[j + 1]);
        }
        if k - 1 < t.len() {
            assert(t[k - 1] == s[k]);
        }
        lemma_lead_ws(t, k - 1);
    }
}

pub proof fn lemma_trail_ws(s: Seq<char>, k: int)
    requires
        0 <= k <= s.len(),
        forall|j: int| s.len() - k <= j < s.len() ==> spec_is_whitespace(#[trigger] s[j]),
        k == s.len() || !spec_is_whitespace(s[s.len() - k - 1]),
    ensures
        trail_ws(s) == k,
    decreases k,
{
    if k > 0 {
        assert(spec_is_whitespace(s[s.len() - 1]));
        let t = s.drop_last();
        assert forall|j: int| t.len() - (k - 1) <= j < t.len() implies spec_is_whitespace(
            #[trigger] t[j],
        ) by {
            assert(t[j] == s[j]);
        }
        if k - 1 < t.len() {
            assert(t[t.len() - (k - 1) - 1] == s[s.len() - k - 1]);
        }
        lemma_trail_ws(t, k - 1);
    }
}

pub proof fn lemma_lead_ws_bound(s: Seq<char>)
    ensures
        lead_ws(s) <= s.len(),
    decreases s.len(),
{
    if s.len() > 0 && spec_is_whitespace(s[0]) {
        lemma_lead_ws_bound(s.drop_first());
    }
}

pub proof fn lemma_trail_ws_bound(s: Seq<char>)
    ensures
        trail_ws(s) <= s.len(),
    decreases s.len(),
{
    if s.len() > 0 && spec_is_whitespace(s.last()) {
        lemma_trail_ws_bound(s.drop_last());
    }
}

/// The characters `from..to` of a sequence.
pub fn slice(v: &[char], from: usize, to: usize) -> (r: Vec<char>)
    requires
        from <= to <= v@.len(),
    ensures
        r@ == v@.subrange(from as int, to as int),
{
    let mut r: Vec<char> = Vec::new();
    let mut i = from;
    while i < to
        invariant
            from <= i <= to <= v@.len(),
            r@ == v@.subrange(from as int, i as int),
        decreases to - i,
    {
        r.push(v[i]);
        i += 1;
        assert(r@ =~= v@.subrange(from as int, i as int));
    }
    r
}

/// `str::trim` on characters.
pub fn trim_chars(v: &[char]) -> (r: Vec<char>)
    ensures
        r@ == trim(v@),
{
    let n = v.len();
    let mut i: usize = 0;
    while i < n && is_whitespace(v[i])
        invariant
            i <= n == v@.len(),
            forall|j: int| 0 <= j < i ==> spec_is_whitespace(#[trigger] v@[j]),
        decreases n - i,
    {
        i += 1;
    }
    proof {
        lemma_lead_ws(v@, i as int);
    }
    let mut k: usize = n;
    while k > i && is_whitespace(v[k - 1])
        invariant
            i <= k <= n == v@.len(),
            forall|j: int| k <= j < n ==> spec_is_whitespace(#[trigger] v@[j]),
        decreases k,
    {
        k -= 1;
    }
    let ghost t = v@.skip(i as int);
    proof {
        assert(t.len() == n - i);
        assert forall|j: int| t.len() - (n - k) <= j < t.len() implies spec_is_whitespace(
            #[trigger] t[j],
        ) by {
            assert(t[j] == v@[j + i]);
        }
        if n - k < t.len() {
            assert(t[t.len() - (n - k) - 1] == v@[k - 1]);
        }
        lemma_trail_ws(t, (n - k) as int);
        assert(t.take(t.len() - trail_ws(t)) =~= v@.subrange(i as int, k as int));
    }
    slice(v, i, k)
}

// ── Comparisons and searches ────────────────────────────────────────────────

pub open spec fn spec_starts_with(s: Seq<char>, p: Seq<char>) -> bool {
    p.len() <= s.len() && s.take(p.len() as int) == p
}

pub open spec fn spec_ends_with(s: Seq<char>, p: Seq<char>) -> bool {
    p.len() <= s.len() && s.skip(s.len() - p.len()) == p
}

/// `needle` occurs in `hay` at index `i`.
pub open spec fn occurs_at(hay: Seq<char>, needle: Seq<char>, i: int) -> bool {
    0 <= i && i + needle.len() <= hay.len() && hay.subrange(i, i + needle.len()) == needle
}

pub open spec fn spec_contains(hay: Seq<char>, needle: Seq<char>) -> bool {
    exists|i: int| occurs_at(hay, needle, i)
}

pub fn eq_chars(a: &[char], b: &[char]) -> (r: bool)
    ensures
        r == (a@ == b@),
{
    if a.len() != b.len() {
        return false;
    }
    let mut i: usize = 0;
    while i < a.len()
        invariant
            i <= a@.len() == b@.len(),
            forall|j: int| 0 <= j < i ==> a@[j] == b@[j],
        decreases a@.len() - i,
    {
        if a[i] != b[i] {
            return false;
        }
        i += 1;
    }
    assert(a@ =~= b@);
    true
}

/// Whether `p` occurs in `s` at index `at`.
pub fn matches_at(s: &[char], p: &[char], at: usize) -> (r: bool)
    ensures
        r == occurs_at(s@, p@, at as int),
{
    if at > s.len() || p.len() > s.len() - at {
        return false;
    }
    let mut i: usize = 0;
    while i < p.len()
        invariant
            at + p@.len() <= s@.len(),
            s@.len() == s.len(),
            i <= p@.len(),
            forall|j: int| 0 <= j < i ==> s@[at + j] == p@[j],
        decreases p@.len() - i,
    {
        if s[at + i] != p[i] {
            assert(s@.subrange(at as int, at + p@.len())[i as int] == s@[at + i]);
            return false;
        }
        i += 1;
    }
    assert(s@.subrange(at as int, at + p@.len()) =~= p@);
    true
}

pub fn starts_with(s: &[char], p: &[char]) -> (r: bool)
    ensures
        r == spec_starts_with(s@, p@),
{
    let r = matches_at(s, p, 0);
    assert(s@.subrange(0, p@.len() as int) =~= s@.take(p@.len() as int));
    r
}

pub fn ends_with(s: &[char], p: &[char]) -> (r: bool)
    ensures
        r == spec_ends_with(s@, p@),
{
    if p.len() > s.len() {
        return false;
    }
    let r = matches_at(s, p, s.len() - p.len());
    assert(s@.subrange(s@.len() - p@.len(), s@.len() as int) =~= s@.skip(
        s@.len() - p@.len(),
    ));
    r
}

/// Index of the first occurrence of `needle` in `hay` at or after `from`.
pub open spec fn first_occurrence_from(hay: Seq<char>, needle: Seq<char>, from: int, i: int) -> bool {
    from <= i && occurs_at(hay, needle, i) && forall|j: int|
        from <= j < i ==> !occurs_at(hay, needle, j)
}

pub fn find_from(hay: &[char], needle: &[char], from: usize) -> (r: Option<usize>)
    ensures
        r matches Some(i) ==> first_occurrence_from(hay@, needle@, from as int, i as int),
        r is None ==> forall|j: int| from <= j ==> !occurs_at(hay@, needle@, j),
{
    if needle.len() > hay.len() || from > hay.len() - needle.len() {
        return None;
    }
    let last = hay.len() - needle.len();
    let mut i = from;
    loop
        invariant
            last + needle@.len() == hay@.len(),
            from <= i <= last,
            forall|j: int| from <= j < i ==> !occurs_at(hay@, needle@, j),
        decreases last - i,
    {
        if matches_at(hay, needle, i) {
            return Some(i);
        }
        if i == last {
            return None;
        }
        i += 1;
    }
}

pub fn find(hay: &[char], needle: &[char]) -> (r: Option<usize>)
    ensures
        r matches Some(i) ==> first_occurrence_from(hay@, needle@, 0, i as int),
        r is None ==> !spec_contains(hay@, needle@),
{
    find_from(hay, needle, 0)
}

pub fn contains(hay: &[char], needle: &[char]) -> (r: bool)
    ensures
        r == spec_contains(hay@, needle@),
{
    match find(hay, needle) {
        Some(i) => {
            assert(occurs_at(hay@, needle@, i as int));
            true
        },
        None => false,
    }
}

/// Index of the first `c` in `s` at or after `from`, if any.
pub open spec fn first_index_of(s: Seq<char>, c: char, i: int) -> bool {
    0 <= i < s.len() && s[i] == c && forall|j: int| 0 <= j < i ==> s[j] != c
}

pub fn index_of(s: &[char], c: char) -> (r: Option<usize>)
    ensures
        r matches Some(i) ==> first_index_of(s@, c, i as int),
        r is None ==> !s@.contains(c),
{
    let mut i: usize = 0;
    while i < s.len()
        invariant
            i <= s@.len(),
            forall|j: int| 0 <= j < i ==> s@[j] != c,
        decreases s@.len() - i,
    {
        if s[i] == c {
            return Some(i);
        }
        i += 1;
    }
    None
}

// ── Building ────────────────────────────────────────────────────────────────

/// Appends the characters of a string slice.
pub fn push_str(v: &mut Vec<char>, s: &str)
    ensures
        final(v)@ == old(v)@ + s@,
{
    let c = to_chars(s);
    push_all(v, &c);
}

/// Appends characters.
pub fn push_all(v: &mut Vec<char>, s: &[char])
    ensures
        final(v)@ == old(v)@ + s@,
{
    let ghost start = v@;
    let mut i: usize = 0;
    while i < s.len()
        invariant
            i <= s@.len(),
            v@ == start + s@.take(i as int),
        decreases s@.len() - i,
    {
        v.push(s[i]);
        i += 1;
        assert(v@ =~= start + s@.take(i as int));
    }
    assert(s@.take(i as int) =~= s@);
}

/// ASCII lower-casing of every character (`str::to_ascii_lowercase`).
pub open spec fn lower_seq(s: Seq<char>) -> Seq<char> {
    s.map_values(|c: char| spec_ascii_lower(c))
}

pub open spec fn upper_seq(s: Seq<char>) -> Seq<char> {
    s.map_values(|c: char| spec_ascii_upper(c))
}

pub fn to_ascii_lowercase(s: &[char]) -> (r: Vec<char>)
    ensures
        r@ == lower_seq(s@),
{
    let mut r: Vec<char> = Vec::new();
    let mut i: usize = 0;
    while i < s.len()
        invariant
            i <= s@.len(),
            r@ == lower_seq(s@.take(i as int)),
        decreases s@.len() - i,
    {
        let c = ascii_lower(s[i]);
        r.push(c);
        i += 1;
        assert(r@ =~= lower_seq(s@.take(i as int)));
    }
    assert(s@.take(i as int) =~= s@);
    r
}

pub fn to_ascii_uppercase(s: &[char]) -> (r: Vec<char>)
    ensures
        r@ == upper_seq(s@),
{
    let mut r: Vec<char> = Vec::new();
    let mut i: usize = 0;
    while i < s.len()
        invariant
            i <= s@.len(),
            r@ == upper_seq(s@.take(i as int)),
        decreases s@.len() - i,
    {
        let c = ascii_upper(s[i]);
        r.push(c);
        i += 1;
        assert(r@ =~= upper_seq(s@.take(i as int)));
    }
    assert(s@.take(i as int) =~= s@);
    r
}


// ── Trimming one character ──────────────────────────────────────────────────

pub open spec fn lead_char(s: Seq<char>, c: char) -> nat
    decreases s.len(),
{
    if s.len() == 0 || s[0] != c {
        0
    } else {
        1 + lead_char(s.drop_first(), c)
    }
}

pub open spec fn trail_char(s: Seq<char>, c: char) -> nat
    decreases s.len(),
{
    if s.len() == 0 || s.last() != c {
        0
    } else {
        1 + trail_char(s.drop_last(), c)
    }
}

/// `str::trim_end_matches(c)`.
pub open spec fn trim_end_char(s: Seq<char>, c: char) -> Seq<char> {
    s.take(s.len() - trail_char(s, c))
}

/// `str::trim_matches(c)`.
pub open spec fn trim_char(s: Seq<char>, c: char) -> Seq<char> {
    let t = s.skip(lead_char(s, c) as int);
    trim_end_char(t, c)
}

pub proof fn lemma_lead_char(s: Seq<char>, c: char, k: int)
    requires
        0 <= k <= s.len(),
        forall|j: int| 0 <= j < k ==> #[trigger] s[j] == c,
        k == s.len() || s[k] != c,
    ensures
        lead_char(s, c) == k,
    decreases k,
{
    if k > 0 {
        let t = s.drop_first();
        assert forall|j: int| 0 <= j < k - 1 implies #[trigger] t[j] == c by {
            assert(t[j] == s[j + 1]);
        }
        if k - 1 < t.len() {
            assert(t[k - 1] == s[k]);
        }
        lemma_lead_char(t, c, k - 1);
    }
}

pub proof fn lemma_trail_char(s: Seq<char>, c: char, k: int)
    requires
        0 <= k <= s.len(),
        forall|j: int| s.len() - k <= j < s.len() ==> #[trigger] s[j] == c,
        k == s.len() || s[s.len() - k - 1] != c,
    ensures
        trail_char(s, c) == k,
    decreases k,
{
    if k > 0 {
        let t = s.drop_last();
        assert forall|j: int| t.len() - (k - 1) <= j < t.len() implies #[trigger] t[j] == c by {
            assert(t[j] == s[j]);
        }
        if k - 1 < t.len() {
            assert(t[t.len() - (k - 1) - 1] == s[s.len() - k - 1]);
        }
        lemma_trail_char(t, c, k - 1);
    }
}

pub fn trim_end_matches(v: &[char], c: char) -> (r: Vec<char>)
    ensures
        r@ == trim_end_char(v@, c),
{
    let n = v.len();
    let mut k: usize = n;
    while k > 0 && v[k - 1] == c
        invariant
            k <= n == v@.len(),
            forall|j: int| k <= j < n ==> #[trigger] v@[j] == c,
        decreases k,
    {
        k -= 1;
    }
    proof {
        lemma_trail_char(v@, c, (n - k) as int);
        assert(v@.take(k as int) =~= v@.subrange(0, k as int));
    }
    slice(v, 0, k)
}

pub fn trim_matches(v: &[char], c: char) -> (r: Vec<char>)
    ensures
        r@ == trim_char(v@, c),
{
    let n = v.len();
    let mut i: usize = 0;
    while i < n && v[i] == c
        invariant
            i <= n == v@.len(),
            forall|j: int| 0 <= j < i ==> #[trigger] v@[j] == c,
        decreases n - i,
    {
        i += 1;
    }
    proof {
        lemma_lead_char(v@, c, i as int);
        assert(v@.skip(i as int) =~= v@.subrange(i as int, n as int));
    }
    let t = slice(v, i, n);
    trim_end_matches(&t, c)
}

// ── Filtering, taking, escaping ─────────────────────────────────────────────

/// The characters of `s` that are not control characters.
pub open spec fn without_controls(s: Seq<char>) -> Seq<char>
    decreases s.len(),
{
    if s.len() == 0 {
        s
    } else {
        let p = without_controls(s.drop_last());
        if spec_is_control(s.last()) {
            p
        } else {
            p.push(s.last())
        }
    }
}

/// The characters of `s` that are not in `bad`.
pub open spec fn without_chars(s: Seq<char>, bad: Seq<char>) -> Seq<char>
    decreases s.len(),
{
    if s.len() == 0 {
        s
    } else {
        let p = without_chars(s.drop_last(), bad);
        if bad.contains(s.last()) {
            p
        } else {
            p.push(s.last())
        }
    }
}

pub fn remove_controls(v: &[char]) -> (r: Vec<char>)
    ensures
        r@ == without_controls(v@),
{
    let mut r: Vec<char> = Vec::new();
    let mut i: usize = 0;
    while i < v.len()
        invariant
            i <= v@.len(),
            r@ == without_controls(v@.take(i as int)),
        decreases v@.len() - i,
    {
        assert(v@.take(i + 1).drop_last() =~= v@.take(i as int));
        if !is_control(v[i]) {
            r.push(v[i]);
        }
        i += 1;
    }
    assert(v@.take(i as int) =~= v@);
    r
}

pub fn remove_chars(v: &[char], bad: &[char]) -> (r: Vec<char>)
    ensures
        r@ == without_chars(v@, bad@),
{
    let mut r: Vec<char> = Vec::new();
    let mut i: usize = 0;
    while i < v.len()
        invariant
            i <= v@.len(),
            r@ == without_chars(v@.take(i as int), bad@),
        decreases v@.len() - i,
    {
        assert(v@.take(i + 1).drop_last() =~= v@.take(i as int));
        if index_of(bad, v[i]).is_none() {
            r.push(v[i]);
        } else {
            assert(bad@.contains(v@[i as int]));
        }
        i += 1;
    }
    assert(v@.take(i as int) =~= v@);
    r
}

pub open spec fn min_nat(a: nat, b: nat) -> nat {
    if a <= b {
        a
    } else {
        b
    }
}

/// The first `n` characters (all of them when there are fewer).
pub open spec fn take_chars(s: Seq<char>, n: nat) -> Seq<char> {
    s.take(min_nat(n, s.len()) as int)
}

pub fn take_prefix(v: &[char], n: usize) -> (r: Vec<char>)
    ensures
        r@ == take_chars(v@, n as nat),
{
    let k = if n < v.len() {
        n
    } else {
        v.len()
    };
    assert(v@.take(k as int) =~= v@.subrange(0, k as int));
    slice(v, 0, k)
}

// ── Replacing ───────────────────────────────────────────────────────────────

/// `s[i..]` with every non-overlapping occurrence of `needle`, scanning left
/// to right, replaced by `with` (`str::replace`, for a non-empty needle).
pub open spec fn replace_from(s: Seq<char>, needle: Seq<char>, with: Seq<char>, i: int) -> Seq<
    char,
>
    decreases s.len() - i,
{
    if i < 0 || i >= s.len() || needle.len() == 0 {
        if 0 <= i <= s.len() {
            s.skip(i)
        } else {
            Seq::empty()
        }
    } else if occurs_at(s, needle, i) {
        with + replace_from(s, needle, with, i + needle.len())
    } else {
        seq![s[i]] + replace_from(s, needle, with, i + 1)
    }
}

pub open spec fn replace_all(s: Seq<char>, needle: Seq<char>, with: Seq<char>) -> Seq<char> {
    replace_from(s, needle, with, 0)
}

pub fn replace(s: &[char], needle: &[char], with: &[char]) -> (r: Vec<char>)
    requires
        needle@.len() > 0,
    ensures
        r@ == replace_all(s@, needle@, with@),
{
    let mut out: Vec<char> = Vec::new();
    let mut i: usize = 0;
    while i < s.len()
        invariant
            i <= s@.len(),
            needle@.len() > 0,
            replace_all(s@, needle@, with@) == out@ + replace_from(s@, needle@, with@, i as int),
        decreases s@.len() - i,
    {
        if matches_at(s, needle, i) {
            let ghost before = out@;
            push_all(&mut out, with);
            assert(before + (with@ + replace_from(s@, needle@, with@, i + needle@.len()))
                =~= out@ + replace_from(s@, needle@, with@, i + needle@.len()));
            i = i + needle.len();
        } else {
            let ghost before = out@;
            out.push(s[i]);
            assert(before + (seq![s@[i as int]] + replace_from(s@, needle@, with@, i + 1))
                =~= out@ + replace_from(s@, needle@, with@, i + 1));
            i += 1;
        }
    }
    assert(replace_from(s@, needle@, with@, i as int) =~= Seq::<char>::empty());
    assert(out@ + Seq::<char>::empty() =~= out@);
    out
}


// ── Splitting ───────────────────────────────────────────────────────────────

/// `str::split` on any character of `seps`: the pieces between separators,
/// always at least one.
pub open spec fn split_seq(s: Seq<char>, seps: Seq<char>) -> Seq<Seq<char>>
    decreases s.len(),
{
    if s.len() == 0 {
        seq![Seq::empty()]
    } else {
        let prev = split_seq(s.drop_last(), seps);
        if seps.contains(s.last()) {
            prev.push(Seq::empty())
        } else {
            prev.update(prev.len() - 1, prev.last().push(s.last()))
        }
    }
}

pub proof fn lemma_split_nonempty(s: Seq<char>, seps: Seq<char>)
    ensures
        split_seq(s, seps).len() >= 1,
    decreases s.len(),
{
    if s.len() > 0 {
        lemma_split_nonempty(s.drop_last(), seps);
    }
}

pub open spec fn views(v: Seq<Vec<char>>) -> Seq<Seq<char>> {
    v.map_values(|p: Vec<char>| p@)
}

pub fn split(s: &[char], seps: &[char]) -> (r: Vec<Vec<char>>)
    ensures
        views(r@) == split_seq(s@, seps@),
{
    let mut pieces: Vec<Vec<char>> = Vec::new();
    let mut cur: Vec<char> = Vec::new();
    let mut i: usize = 0;
    while i < s.len()
        invariant
            i <= s@.len(),
            views(pieces@).push(cur@) == split_seq(s@.take(i as int), seps@),
        decreases s@.len() - i,
    {
        proof {
            assert(s@.take(i + 1).drop_last() =~= s@.take(i as int));
            lemma_split_nonempty(s@.take(i as int), seps@);
        }
        let ghost prev = views(pieces@).push(cur@);
        if index_of(seps, s[i]).is_some() {
            let done = cur;
            pieces.push(done);
            cur = Vec::new();
            assert(views(pieces@).push(cur@) =~= prev.push(Seq::empty()));
        } else {
            assert(!seps@.contains(s@[i as int]));
            cur.push(s[i]);
            assert(views(pieces@).push(cur@) =~= prev.update(
                prev.len() - 1,
                prev.last().push(s@[i as int]),
            ));
        }
        i += 1;
    }
    assert(s@.take(i as int) =~= s@);
    pieces.push(cur);
    pieces
}

/// Splits at the first `c`: what comes before and what comes after it.
pub fn split_once(s: &[char], c: char) -> (r: Option<(Vec<char>, Vec<char>)>)
    ensures
        r is None ==> !s@.contains(c),
        r matches Some(p) ==> exists|i: int|
            first_index_of(s@, c, i) && p.0@ == s@.take(i) && p.1@ == s@.skip(i + 1),
{
    match index_of(s, c) {
        None => None,
        Some(i) => {
            assert(i < s.len());
            let a = slice(s, 0, i);
            let b = slice(s, i + 1, s.len());
            assert(a@ =~= s@.take(i as int));
            assert(b@ =~= s@.skip(i + 1));
            Some((a, b))
        },
    }
}

/// The line of `s` split at `\n`, a `\r` before the `\n` dropped, and no
/// empty line after a final `\n` (`str::lines`).
pub open spec fn strip_cr(s: Seq<char>) -> Seq<char> {
    if s.len() > 0 && s.last() == '\r' {
        s.drop_last()
    } else {
        s
    }
}

pub open spec fn lines_seq(s: Seq<char>) -> Seq<Seq<char>> {
    let parts = split_seq(s, seq!['\n']);
    let kept = if parts.last().len() == 0 {
        parts.drop_last()
    } else {
        parts
    };
    Seq::new(
        kept.len(),
        |i: int|
            if i < parts.len() - 1 {
                strip_cr(kept[i])
            } else {
                kept[i]
            },
    )
}

pub fn lines(s: &[char]) -> (r: Vec<Vec<char>>)
    ensures
        views(r@) == lines_seq(s@),
{
    let nl = vec!['\n'];
    let parts = split(s, &nl);
    proof {
        lemma_split_nonempty(s@, seq!['\n']);
        assert(nl@ =~= seq!['\n']);
    }
    let n = parts.len();
    let kept = if parts[n - 1].len() == 0 {
        n - 1
    } else {
        n
    };
    let mut r: Vec<Vec<char>> = Vec::new();
    let mut i: usize = 0;
    while i < kept
        invariant
            kept <= n == parts@.len(),
            n >= 1,
            views(parts@) == split_seq(s@, seq!['\n']),
            kept == lines_seq(s@).len(),
            i <= kept,
            views(r@) == lines_seq(s@).take(i as int),
        decreases kept - i,
    {
        let piece = &parts[i];
        let line = if i + 1 < n && piece.len() > 0 && piece[piece.len() - 1] == '\r' {
            slice(piece, 0, piece.len() - 1)
        } else {
            slice(piece, 0, piece.len())
        };
        proof {
            assert(views(parts@)[i as int] == piece@);
            assert(piece@.subrange(0, piece@.len() as int) =~= piece@);
            if piece@.len() > 0 {
                assert(piece@.subrange(0, piece@.len() - 1) =~= piece@.drop_last());
            }
            assert(lines_seq(s@)[i as int] == line@);
        }
        let ghost before = views(r@);
        r.push(line);
        assert(views(r@) =~= before.push(line@));
        i += 1;
        assert(views(r@) =~= lines_seq(s@).take(i as int));
    }
    assert(lines_seq(s@).take(i as int) =~= lines_seq(s@));
    r
}

// ── Numbers ─────────────────────────────────────────────────────────────────

pub open spec fn all_digits(s: Seq<char>) -> bool {
    forall|i: int| 0 <= i < s.len() ==> spec_is_ascii_digit(#[trigger] s[i])
}

pub open spec fn digit_value(c: char) -> nat {
    ((c as u32) - 0x30) as nat
}

/// The decimal value of a run of digits.
pub open spec fn digits_value(s: Seq<char>) -> nat
    decreases s.len(),
{
    if s.len() == 0 {
        0
    } else {
        digits_value(s.drop_last()) * 10 + digit_value(s.last())
    }
}

/// The digits after an optional leading `+`.
pub open spec fn unsigned_body(s: Seq<char>) -> Seq<char> {
    if s.len() > 0 && s[0] == '+' {
        s.drop_first()
    } else {
        s
    }
}

/// `u64::from_str`: an optional `+`, then at least one digit, in range.
pub open spec fn spec_parse_u64(s: Seq<char>) -> Option<u64> {
    let b = unsigned_body(s);
    if b.len() > 0 && all_digits(b) && digits_value(b) <= u64::MAX {
        Some(digits_value(b) as u64)
    } else {
        None
    }
}

/// `u32::from_str`.
pub open spec fn spec_parse_u32(s: Seq<char>) -> Option<u32> {
    let b = unsigned_body(s);
    if b.len() > 0 && all_digits(b) && digits_value(b) <= u32::MAX {
        Some(digits_value(b) as u32)
    } else {
        None
    }
}

/// `i64::from_str`: an optional sign, then at least one digit, in range.
pub open spec fn spec_parse_i64(s: Seq<char>) -> Option<i64> {
    if s.len() > 0 && s[0] == '-' {
        let b = s.drop_first();
        if b.len() > 0 && all_digits(b) && digits_value(b) <= 0x8000_0000_0000_0000 {
            Some((0 - digits_value(b)) as i64)
        } else {
            None
        }
    } else {
        let b = unsigned_body(s);
        if b.len() > 0 && all_digits(b) && digits_value(b) <= i64::MAX {
            Some(digits_value(b) as i64)
        } else {
            None
        }
    }
}

pub proof fn lemma_digits_prefix(s: Seq<char>, k: int)
    requires
        0 <= k <= s.len(),
    ensures
        digits_value(s.take(k)) <= digits_value(s),
    decreases s.len(),
{
    if k < s.len() {
        assert(s.drop_last().take(k) =~= s.take(k));
        lemma_digits_prefix(s.drop_last(), k);
        let v = digits_value(s.drop_last());
        assert(v <= v * 10) by (nonlinear_arith);
    } else {
        assert(s.take(k) =~= s);
    }
}

/// Value of a run of digits, or `None` above `limit`.
fn digits_up_to(s: &[char], limit: u64) -> (r: Option<u64>)
    requires
        all_digits(s@),
        limit >= 9,
    ensures
        r matches Some(v) ==> v == digits_value(s@) && v <= limit,
        r is None ==> digits_value(s@) > limit,
{
    let mut acc: u64 = 0;
    let mut i: usize = 0;
    while i < s.len()
        invariant
            i <= s@.len(),
            all_digits(s@),
            limit >= 9,
            acc == digits_value(s@.take(i as int)),
            acc <= limit,
        decreases s@.len() - i,
    {
        assert(s@.take(i + 1).drop_last() =~= s@.take(i as int));
        assert(spec_is_ascii_digit(s@[i as int]));
        let u = s[i] as u32;
        assert(0x30 <= u <= 0x39);
        let d = (u - 0x30) as u64;
        if acc > (limit - d) / 10 {
            proof {
                assert(acc * 10 + d > limit) by (nonlinear_arith)
                    requires
                        acc > (limit - d) / 10,
                        d <= limit,
                ;
                lemma_digits_prefix(s@, i + 1);
            }
            return None;
        }
        proof {
            assert(acc * 10 + d <= limit) by (nonlinear_arith)
                requires
                    acc <= (limit - d) / 10,
                    d <= limit,
            ;
        }
        acc = acc * 10 + d;
        i += 1;
    }
    assert(s@.take(i as int) =~= s@);
    Some(acc)
}

fn all_digits_exec(s: &[char]) -> (r: bool)
    ensures
        r == all_digits(s@),
{
    let mut i: usize = 0;
    while i < s.len()
        invariant
            i <= s@.len(),
            forall|j: int| 0 <= j < i ==> spec_is_ascii_digit(#[trigger] s@[j]),
        decreases s@.len() - i,
    {
        if !is_ascii_digit(s[i]) {
            return false;
        }
        i += 1;
    }
    true
}

fn unsigned_digits(s: &[char]) -> (r: Vec<char>)
    ensures
        r@ == unsigned_body(s@),
{
    if s.len() > 0 && s[0] == '+' {
        let r = slice(s, 1, s.len());
        assert(r@ =~= s@.drop_first());
        r
    } else {
        let r = slice(s, 0, s.len());
        assert(r@ =~= s@);
        r
    }
}

pub fn parse_u64(s: &[char]) -> (r: Option<u64>)
    ensures
        r == spec_parse_u64(s@),
{
    let b = unsigned_digits(s);
    if b.len() == 0 || !all_digits_exec(&b) {
        return None;
    }
    digits_up_to(&b, u64::MAX)
}

pub fn parse_u32(s: &[char]) -> (r: Option<u32>)
    ensures
        r == spec_parse_u32(s@),
{
    let b = unsigned_digits(s);
    if b.len() == 0 || !all_digits_exec(&b) {
        return None;
    }
    match digits_up_to(&b, 0xffff_ffff) {
        Some(v) => Some(v as u32),
        None => None,
    }
}

pub fn parse_i64(s: &[char]) -> (r: Option<i64>)
    ensures
        r == spec_parse_i64(s@),
{
    if s.len() > 0 && s[0] == '-' {
        let b = slice(s, 1, s.len());
        assert(b@ =~= s@.drop_first());
        if b.len() == 0 || !all_digits_exec(&b) {
            return None;
        }
        match digits_up_to(&b, 0x8000_0000_0000_0000) {
            Some(v) => {
                if v == 0x8000_0000_0000_0000 {
                    Some(i64::MIN)
                } else {
                    Some(0 - (v as i64))
                }
            },
            None => None,
        }
    } else {
        let b = unsigned_digits(s);
        if b.len() == 0 || !all_digits_exec(&b) {
            return None;
        }
        match digits_up_to(&b, 0x7fff_ffff_ffff_ffff) {
            Some(v) => Some(v as i64),
            None => None,
        }
    }
}

pub open spec fn digit_char(d: nat) -> char {
    if d < 10 {
        (0x30 + d) as char
    } else {
        (0x61 + d - 10) as char
    }
}

/// Digits of `n` in `base` (10 or 16, lower-case), most significant first,
/// without leading zeros: what `format!("{n}")` and `format!("{n:x}")` write.
pub open spec fn radix_seq(n: nat, base: nat) -> Seq<char>
    decreases n,
{
    if base < 2 || n < base {
        seq![digit_char(n)]
    } else {
        proof {
            assert(n / base < n) by (nonlinear_arith)
                requires
                    base >= 2,
                    n >= base,
            ;
        }
        radix_seq(n / base, base).push(digit_char(n % base))
    }
}

pub open spec fn dec_seq(n: nat) -> Seq<char> {
    radix_seq(n, 10)
}

pub open spec fn hex_seq(n: nat) -> Seq<char> {
    radix_seq(n, 16)
}

fn digit_to_char(d: u64) -> (c: char)
    requires
        d < 16,
    ensures
        c == digit_char(d as nat),
{
    let b = d as u8;
    if d < 10 {
        (b + 0x30) as char
    } else {
        (b + 0x61 - 10) as char
    }
}

pub fn push_radix(v: &mut Vec<char>, n: u64, base: u64)
    requires
        base == 10 || base == 16,
    ensures
        final(v)@ == old(v)@ + radix_seq(n as nat, base as nat),
    decreases n,
{
    if n < base {
        v.push(digit_to_char(n));
        assert(seq![digit_char(n as nat)] =~= radix_seq(n as nat, base as nat));
    } else {
        let ghost start = v@;
        push_radix(v, n / base, base);
        v.push(digit_to_char(n % base));
        assert(v@ =~= start + radix_seq(n as nat, base as nat));
    }
}

/// Decimal writing of `n`.
pub fn dec_chars(n: u64) -> (r: Vec<char>)
    ensures
        r@ == dec_seq(n as nat),
{
    let mut v: Vec<char> = Vec::new();
    push_radix(&mut v, n, 10);
    assert(v@ =~= dec_seq(n as nat));
    v
}

/// Lower-case hexadecimal writing of `n`.
pub fn hex_chars(n: u64) -> (r: Vec<char>)
    ensures
        r@ == hex_seq(n as nat),
{
    let mut v: Vec<char> = Vec::new();
    push_radix(&mut v, n, 16);
    assert(v@ =~= hex_seq(n as nat));
    v
}

// ── Unicode case and ordering ───────────────────────────────────────────────

/// What `str::to_lowercase` gives for `s` (full Unicode lower-casing).
pub uninterp spec fn unicode_lower(s: Seq<char>) -> Seq<char>;

/// `str::to_lowercase`, as characters.
#[verifier::external_body]
pub(crate) fn to_lowercase(s: &str) -> (r: Vec<char>)
    ensures
        r@ == unicode_lower(s@),
{
    s.to_lowercase().chars().collect()
}

/// `a` comes after `b` in the order of `str`'s `Ord`: lexicographic by code
/// point (the byte order of UTF-8 is the code point order).
pub open spec fn chars_gt(a: Seq<char>, b: Seq<char>) -> bool
    decreases a.len(),
{
    if a.len() == 0 {
        false
    } else if b.len() == 0 {
        true
    } else if a[0] != b[0] {
        (a[0] as u32) > (b[0] as u32)
    } else {
        chars_gt(a.drop_first(), b.drop_first())
    }
}

pub fn chars_greater(a: &[char], b: &[char]) -> (r: bool)
    ensures
        r == chars_gt(a@, b@),
{
    let mut i: usize = 0;
    assert(a@.skip(0) =~= a@);
    assert(b@.skip(0) =~= b@);
    while i < a.len() && i < b.len()
        invariant
            i <= a@.len(),
            i <= b@.len(),
            chars_gt(a@, b@) == chars_gt(a@.skip(i as int), b@.skip(i as int)),
        decreases a@.len() - i,
    {
        if a[i] != b[i] {
            return (a[i] as u32) > (b[i] as u32);
        }
        assert(a@.skip(i as int).drop_first() =~= a@.skip(i + 1));
        assert(b@.skip(i as int).drop_first() =~= b@.skip(i + 1));
        i += 1;
    }
    i < a.len()
}

proof fn lemma_digit_char_injective(a: nat, b: nat)
    requires
        a < 16,
        b < 16,
        digit_char(a) == digit_char(b),
    ensures
        a == b,
{
    assert((digit_char(a) as u32) == (if a < 10 { 0x30 + a as int } else { 0x61 + a - 10 }));
    assert((digit_char(b) as u32) == (if b < 10 { 0x30 + b as int } else { 0x61 + b - 10 }));
}

pub proof fn lemma_radix_nonempty(n: nat, base: nat)
    ensures
        radix_seq(n, base).len() >= 1,
        n >= base && base >= 2 ==> radix_seq(n, base).len() >= 2,
    decreases n,
{
    if base >= 2 && n >= base {
        assert(n / base < n) by (nonlinear_arith)
            requires
                base >= 2,
                n >= base,
        ;
        lemma_radix_nonempty(n / base, base);
    }
}

/// Different numbers are written differently.
pub proof fn lemma_radix_injective(a: nat, b: nat, base: nat)
    requires
        base == 10 || base == 16,
        radix_seq(a, base) == radix_seq(b, base),
    ensures
        a == b,
    decreases a,
{
    lemma_radix_nonempty(a, base);
    lemma_radix_nonempty(b, base);
    if a < base && b < base {
        assert(radix_seq(a, base)[0] == digit_char(a));
        assert(radix_seq(b, base)[0] == digit_char(b));
        lemma_digit_char_injective(a, b);
    } else if a >= base && b >= base {
        let ra = radix_seq(a, base);
        let rb = radix_seq(b, base);
        assert(ra.drop_last() =~= radix_seq(a / base, base));
        assert(rb.drop_last() =~= radix_seq(b / base, base));
        assert(a / base < a) by (nonlinear_arith)
            requires
                base >= 2,
                a >= base,
        ;
        lemma_radix_injective(a / base, b / base, base);
        assert(ra.last() == digit_char(a % base));
        assert(rb.last() == digit_char(b % base));
        lemma_digit_char_injective(a % base, b % base);
        assert(a == base * (a / base) + a % base) by (nonlinear_arith)
            requires
                base >= 2,
        ;
        assert(b == base * (b / base) + b % base) by (nonlinear_arith)
            requires
                base >= 2,
        ;
    }
}

/// There is one first occurrence.
pub proof fn lemma_first_occurrence_unique(hay: Seq<char>, needle: Seq<char>, from: int, i: int, j: int)
    requires
        first_occurrence_from(hay, needle, from, i),
        first_occurrence_from(hay, needle, from, j),
    ensures
        i == j,
{
}

/// What holds of every character still holds after trimming.
pub proof fn lemma_trim_keeps(s: Seq<char>, p: spec_fn(char) -> bool)
    requires
        forall|i: int| 0 <= i < s.len() ==> p(#[trigger] s[i]),
    ensures
        forall|i: int| 0 <= i < trim(s).len() ==> p(#[trigger] trim(s)[i]),
        trim(s).len() <= s.len(),
{
    lemma_lead_ws_bound(s);
    let a = trim_start(s);
    lemma_trail_ws_bound(a);
    assert forall|i: int| 0 <= i < a.len() implies p(#[trigger] a[i]) by {
        assert(a[i] == s[i + lead_ws(s)]);
    }
}

/// No control character is left.
pub proof fn lemma_without_controls_clean(s: Seq<char>)
    ensures
        forall|i: int|
            0 <= i < without_controls(s).len() ==> !spec_is_control(
                #[trigger] without_controls(s)[i],
            ),
        without_controls(s).len() <= s.len(),
    decreases s.len(),
{
    if s.len() > 0 {
        lemma_without_controls_clean(s.drop_last());
    }
}


// ── Views of strings ────────────────────────────────────────────────────────

pub open spec fn string_views(v: Seq<String>) -> Seq<Seq<char>> {
    v.map_values(|s: String| s@)
}

pub open spec fn opt_view(s: Option<String>) -> Option<Seq<char>> {
    match s {
        Some(t) => Some(t@),
        None => None,
    }
}

pub open spec fn str_opt(s: Option<&str>) -> Option<Seq<char>> {
    match s {
        Some(t) => Some(t@),
        None => None,
    }
}

/// A copy of an optional string.
pub fn copy_opt(s: &Option<String>) -> (r: Option<String>)
    ensures
        r == *s,
{
    match s {
        Some(t) => Some(t.clone()),
        None => None,
    }
}

} // verus!
