//! Character-level text utilities with exact specifications.

use vstd::prelude::*;

verus! {

/// Unicode `White_Space` code points, as `char::is_whitespace` classifies them.
pub open spec fn is_white(c: char) -> bool {
    let u = c as u32;
    ||| 0x09 <= u <= 0x0d
    ||| u == 0x20
    ||| u == 0x85
    ||| u == 0xa0
    ||| u == 0x1680
    ||| 0x2000 <= u <= 0x200a
    ||| u == 0x2028
    ||| u == 0x2029
    ||| u == 0x202f
    ||| u == 0x205f
    ||| u == 0x3000
}

/// The sequence without its leading white space.
pub open spec fn trim_start(s: Seq<char>) -> Seq<char>
    decreases s.len(),
{
    if s.len() > 0 && is_white(s[0]) {
        trim_start(s.subrange(1, s.len() as int))
    } else {
        s
    }
}

/// The sequence without its trailing white space.
pub open spec fn trim_end(s: Seq<char>) -> Seq<char>
    decreases s.len(),
{
    if s.len() > 0 && is_white(s.last()) {
        trim_end(s.drop_last())
    } else {
        s
    }
}

/// The sequence without leading and trailing white space (`str::trim`).
pub open spec fn trimmed(s: Seq<char>) -> Seq<char> {
    trim_end(trim_start(s))
}

/// Whether `c` is a white-space character.
pub fn is_whitespace(c: char) -> (r: bool)
    ensures
        r == is_white(c),
{
    let u = c as u32;
    (0x09 <= u && u <= 0x0d) || u == 0x20 || u == 0x85 || u == 0xa0 || u == 0x1680 || (0x2000
        <= u && u <= 0x200a) || u == 0x2028 || u == 0x2029 || u == 0x202f || u == 0x205f || u
        == 0x3000
}

/// Appends one character to a string (`String::push`).
#[verifier::external_body]
pub(crate) fn push_char(s: &mut String, c: char)
    ensures
        final(s)@ == old(s)@.push(c),
{
    s.push(c);
}

/// The characters of `s`, in order.
pub fn chars_of(s: &str) -> (v: Vec<char>)
    ensures
        v@ == s@,
{
    let mut v: Vec<char> = Vec::new();
    for c in it: s.chars()
        invariant
            v@ == it.seq().take(it.index() as int),
    {
        v.push(c);
    }
    v
}


/// A string holding exactly the given characters.
pub fn string_of(v: &[char]) -> (s: String)
    ensures
        s@ == v@,
{
    let mut s = String::new();
    let mut i: usize = 0;
    while i < v.len()
        invariant
            i <= v.len(),
            s@ == v@.subrange(0, i as int),
        decreases v.len() - i,
    {
        push_char(&mut s, v[i]);
        assert(v@.subrange(0, i + 1) =~= v@.subrange(0, i as int).push(v@[i as int]));
        i += 1;
    }
    assert(v@.subrange(0, v.len() as int) =~= v@);
    s
}

/// Whether the two texts hold the same characters.
pub fn same_text(a: &str, b: &str) -> (r: bool)
    ensures
        r == (a@ == b@),
{
    let x = chars_of(a);
    let y = chars_of(b);
    same_chars(&x, &y)
}

/// Whether the two character slices are equal.
pub fn same_chars(x: &[char], y: &[char]) -> (r: bool)
    ensures
        r == (x@ == y@),
{
    if x.len() != y.len() {
        return false;
    }
    let mut i: usize = 0;
    while i < x.len()
        invariant
            i <= x.len(),
            x.len() == y.len(),
            forall|k: int| 0 <= k < i ==> x@[k] == y@[k],
        decreases x.len() - i,
    {
        if x[i] != y[i] {
            return false;
        }
        i += 1;
    }
    assert(x@ =~= y@);
    true
}

proof fn lemma_trim_start_step(s: Seq<char>, i: int)
    requires
        0 <= i < s.len(),
        is_white(s[i]),
    ensures
        trim_start(s.subrange(i, s.len() as int)) == trim_start(s.subrange(i + 1, s.len() as int)),
{
    let t = s.subrange(i, s.len() as int);
    assert(t.subrange(1, t.len() as int) =~= s.subrange(i + 1, s.len() as int));
}

proof fn lemma_trim_end_step(s: Seq<char>, j: int)
    requires
        0 < j <= s.len(),
        is_white(s[j - 1]),
    ensures
        trim_end(s.subrange(0, j)) == trim_end(s.subrange(0, j - 1)),
{
    let t = s.subrange(0, j);
    assert(t.drop_last() =~= s.subrange(0, j - 1));
}

/// The characters of `s` without leading and trailing white space.
pub fn trim_chars(s: &str) -> (v: Vec<char>)
    ensures
        v@ == trimmed(s@),
{
    let c = chars_of(s);
    let n = c.len();
    let mut i: usize = 0;
    assert(c@.subrange(0, n as int) =~= c@);
    while i < n && is_whitespace(c[i])
        invariant
            i <= n,
            n == c@.len(),
            trim_start(c@) == trim_start(c@.subrange(i as int, n as int)),
        decreases n - i,
    {
        proof {
            lemma_trim_start_step(c@, i as int);
        }
        i += 1;
    }
    let ghost start = c@.subrange(i as int, n as int);
    assert(trim_start(c@) == start);
    let mut j: usize = n;
    assert(start.subrange(0, (n - i) as int) =~= start);
    while j > i && is_whitespace(c[j - 1])
        invariant
            i <= j <= n,
            n == c@.len(),
            start == c@.subrange(i as int, n as int),
            trim_end(start) == trim_end(start.subrange(0, (j - i) as int)),
        decreases j,
    {
        proof {
            lemma_trim_end_step(start, (j - i) as int);
        }
        j -= 1;
    }
    let mut v: Vec<char> = Vec::new();
    let mut k: usize = i;
    while k < j
        invariant
            i <= k <= j <= n,
            n == c@.len(),
            v@ == c@.subrange(i as int, k as int),
        decreases j - k,
    {
        v.push(c[k]);
        assert(c@.subrange(i as int, k + 1) =~= c@.subrange(i as int, k as int).push(c@[k as int]));
        k += 1;
    }
    assert(start.subrange(0, (j - i) as int) =~= c@.subrange(i as int, j as int));
    v
}

/// Whether one of `items` is the text `key`.
pub fn contains_string(items: &Vec<String>, key: &str) -> (r: bool)
    ensures
        r == items@.map_values(|k: String| k@).contains(key@),
{
    let ghost names = items@.map_values(|k: String| k@);
    let mut i: usize = 0;
    while i < items.len()
        invariant
            i <= items@.len(),
            names == items@.map_values(|k: String| k@),
            forall|j: int| 0 <= j < i ==> names[j] != key@,
        decreases items.len() - i,
    {
        if same_text(items[i].as_str(), key) {
            assert(names[i as int] == key@);
            return true;
        }
        i += 1;
    }
    false
}

/// `str::trim`, as an owned string.
pub fn trim(s: &str) -> (r: String)
    ensures
        r@ == trimmed(s@),
{
    let v = trim_chars(s);
    string_of(&v)
}

/// Control characters (general category Cc), as `char::is_control` classifies them.
pub open spec fn is_ctrl(c: char) -> bool {
    (c as u32) <= 0x1f || (0x7f <= (c as u32) && (c as u32) <= 0x9f)
}

/// The text holds a control character.
pub open spec fn has_ctrl(s: Seq<char>) -> bool {
    exists|i: int| 0 <= i < s.len() && is_ctrl(#[trigger] s[i])
}

/// Whether `c` is a control character.
pub fn is_control(c: char) -> (r: bool)
    ensures
        r == is_ctrl(c),
{
    let u = c as u32;
    u <= 0x1f || (0x7f <= u && u <= 0x9f)
}

/// Whether the characters hold a control character.
pub fn any_control(v: &[char]) -> (r: bool)
    ensures
        r == has_ctrl(v@),
{
    let mut i: usize = 0;
    while i < v.len()
        invariant
            i <= v.len(),
            forall|k: int| 0 <= k < i ==> !is_ctrl(v@[k]),
        decreases v.len() - i,
    {
        if is_control(v[i]) {
            assert(is_ctrl(v@[i as int]));
            return true;
        }
        i += 1;
    }
    false
}

/// ASCII letters and digits.
pub open spec fn is_ascii_alnum(c: char) -> bool {
    ('0' <= c && c <= '9') || ('a' <= c && c <= 'z') || ('A' <= c && c <= 'Z')
}

/// Whether `c` is an ASCII letter or digit.
pub fn ascii_alnum(c: char) -> (r: bool)
    ensures
        r == is_ascii_alnum(c),
{
    ('0' <= c && c <= '9') || ('a' <= c && c <= 'z') || ('A' <= c && c <= 'Z')
}

/// `needle` occurs in `hay` at position `i`.
pub open spec fn occurs_at(hay: Seq<char>, needle: Seq<char>, i: int) -> bool {
    0 <= i && i + needle.len() <= hay.len() && hay.subrange(i, i + needle.len()) == needle
}

/// `needle` occurs somewhere in `hay` (`str::contains`).
pub open spec fn contains_text(hay: Seq<char>, needle: Seq<char>) -> bool {
    exists|i: int| occurs_at(hay, needle, i)
}

/// `prefix` begins `s`.
pub open spec fn starts_with(s: Seq<char>, prefix: Seq<char>) -> bool {
    prefix.len() <= s.len() && s.subrange(0, prefix.len() as int) == prefix
}

/// Whether `needle` occurs in `hay` at position `i`.
pub fn matches_at(hay: &[char], needle: &[char], i: usize) -> (r: bool)
    ensures
        r == occurs_at(hay@, needle@, i as int),
{
    if needle.len() > hay.len() || i > hay.len() - needle.len() {
        return false;
    }
    let mut k: usize = 0;
    while k < needle.len()
        invariant
            k <= needle.len(),
            i + needle.len() <= hay.len(),
            forall|m: int| 0 <= m < k ==> hay@[i + m] == needle@[m],
        decreases needle.len() - k,
    {
        if hay[i + k] != needle[k] {
            assert(hay@.subrange(i as int, i + needle.len())[k as int] != needle@[k as int]);
            return false;
        }
        k += 1;
    }
    assert(hay@.subrange(i as int, i + needle.len()) =~= needle@);
    true
}

/// Whether `needle` occurs in `hay`.
pub fn contains_chars(hay: &[char], needle: &[char]) -> (r: bool)
    ensures
        r == contains_text(hay@, needle@),
{
    if needle.len() > hay.len() {
        return false;
    }
    if needle.len() == 0 {
        assert(hay@.subrange(0, 0) =~= needle@);
        assert(occurs_at(hay@, needle@, 0));
        return true;
    }
    let last = hay.len() - needle.len();
    let mut i: usize = 0;
    while i <= last
        invariant
            last == hay.len() - needle.len(),
            needle.len() > 0,
            last + needle.len() == hay.len(),
            i <= last + 1,
            forall|m: int| 0 <= m < i ==> !occurs_at(hay@, needle@, m),
        decreases last + 1 - i,
    {
        if matches_at(hay, needle, i) {
            return true;
        }
        i += 1;
    }
    false
}

/// Whether `prefix` begins `s`.
pub fn has_prefix(s: &[char], prefix: &[char]) -> (r: bool)
    ensures
        r == starts_with(s@, prefix@),
{
    let r = matches_at(s, prefix, 0);
    proof {
        if prefix@.len() <= s@.len() {
            assert(s@.subrange(0, prefix@.len() as int) == s@.subrange(0, (0 + prefix@.len()) as int));
        }
    }
    r
}

/// The Unicode lower-case mapping of a text (`str::to_lowercase`).
pub uninterp spec fn lowercase(s: Seq<char>) -> Seq<char>;

/// Calls `str::to_lowercase`; the result is the lower-case mapping of the
/// argument, named [`lowercase`] and otherwise left unstated.
#[verifier::external_body]
pub(crate) fn to_lowercase(s: &str) -> (r: String)
    ensures
        r@ == lowercase(s@),
{
    s.to_lowercase()
}

/// Whether the lower-cased `hay` contains the lower-cased `needle`.
pub fn contains_ignoring_case(hay: &str, needle: &str) -> (r: bool)
    ensures
        r == contains_text(lowercase(hay@), lowercase(needle@)),
{
    let h = to_lowercase(hay);
    let n = to_lowercase(needle);
    let hc = chars_of(h.as_str());
    let nc = chars_of(n.as_str());
    contains_chars(&hc, &nc)
}

/// The decimal digit character for `d` (`d < 10`).
pub open spec fn digit_char(d: nat) -> char {
    ((48 + d) as u32) as char
}

/// The decimal representation of `n`, without leading zeros.
pub open spec fn decimal(n: nat) -> Seq<char>
    decreases n,
{
    if n < 10 {
        seq![digit_char(n)]
    } else {
        decimal(n / 10).push(digit_char(n % 10))
    }
}

fn digit(d: u64) -> (c: char)
    requires
        d < 10,
    ensures
        c == digit_char(d as nat),
{
    let b: u8 = 48 + (d as u8);
    b as char
}

/// The decimal representation of `n` (`u64::to_string`).
pub fn decimal_string(n: u64) -> (s: String)
    ensures
        s@ == decimal(n as nat),
    decreases n,
{
    if n < 10 {
        let mut s = String::new();
        push_char(&mut s, digit(n));
        assert(s@ =~= seq![digit_char(n as nat)]);
        s
    } else {
        let mut s = decimal_string(n / 10);
        push_char(&mut s, digit(n % 10));
        s
    }
}

/// The characters of an optional string.
pub open spec fn opt_view(o: Option<String>) -> Option<Seq<char>> {
    match o {
        Some(s) => Some(s@),
        None => None,
    }
}

/// A copy of an optional string.
pub fn clone_opt(o: &Option<String>) -> (r: Option<String>)
    ensures
        opt_view(r) == opt_view(*o),
{
    match o {
        Some(s) => Some(s.clone()),
        None => None,
    }
}

/// A string holding the characters of `s`.
pub fn owned(s: &str) -> (r: String)
    ensures
        r@ == s@,
{
    s.to_owned()
}

/// The text without any leading `c` (`str::trim_start_matches` with a char).
pub open spec fn without_leading(s: Seq<char>, c: char) -> Seq<char>
    decreases s.len(),
{
    if s.len() > 0 && s[0] == c {
        without_leading(s.subrange(1, s.len() as int), c)
    } else {
        s
    }
}

/// `s` without any leading `c`.
pub fn strip_leading(s: &str, c: char) -> (r: String)
    ensures
        r@ == without_leading(s@, c),
{
    let v = chars_of(s);
    let n = v.len();
    let mut i: usize = 0;
    assert(v@.subrange(0, n as int) =~= v@);
    while i < n && v[i] == c
        invariant
            i <= n,
            n == v@.len(),
            without_leading(v@, c) == without_leading(v@.subrange(i as int, n as int), c),
        decreases n - i,
    {
        let ghost t = v@.subrange(i as int, n as int);
        assert(t.subrange(1, t.len() as int) =~= v@.subrange(i + 1, n as int));
        i += 1;
    }
    let mut r = String::new();
    let mut k: usize = i;
    while k < n
        invariant
            i <= k <= n,
            n == v@.len(),
            r@ == v@.subrange(i as int, k as int),
        decreases n - k,
    {
        push_char(&mut r, v[k]);
        assert(v@.subrange(i as int, k + 1) =~= v@.subrange(i as int, k as int).push(v@[k as int]));
        k += 1;
    }
    r
}

/// The value of the first pair whose key is `key`.
pub open spec fn pair_value(pairs: Seq<(String, String)>, key: Seq<char>) -> Option<Seq<char>>
    decreases pairs.len(),
{
    if pairs.len() == 0 {
        None
    } else if pairs[0].0@ == key {
        Some(pairs[0].1@)
    } else {
        pair_value(pairs.subrange(1, pairs.len() as int), key)
    }
}

/// The value of the first pair whose key is `key`.
pub fn find_pair_value(pairs: &Vec<(String, String)>, key: &str) -> (r: Option<String>)
    ensures
        opt_view(r) == pair_value(pairs@, key@),
{
    let mut i: usize = 0;
    let n = pairs.len();
    assert(pairs@.subrange(0, n as int) =~= pairs@);
    while i < n
        invariant
            i <= n,
            n == pairs@.len(),
            pair_value(pairs@, key@) == pair_value(pairs@.subrange(i as int, n as int), key@),
        decreases n - i,
    {
        let ghost t = pairs@.subrange(i as int, n as int);
        if same_text(pairs[i].0.as_str(), key) {
            assert(t[0] == pairs@[i as int]);
            return Some(pairs[i].1.clone());
        }
        assert(t.subrange(1, t.len() as int) =~= pairs@.subrange(i + 1, n as int));
        i += 1;
    }
    None
}

/// The index of the last `c` in `s`, or -1.
pub open spec fn last_index(s: Seq<char>, c: char) -> int
    decreases s.len(),
{
    if s.len() == 0 {
        -1
    } else if s.last() == c {
        s.len() - 1
    } else {
        last_index(s.drop_last(), c)
    }
}

/// What precedes the last `c` in `s`, if `s` holds one (the first part of
/// `str::rsplit_once`).
pub open spec fn before_last(s: Seq<char>, c: char) -> Option<Seq<char>> {
    if last_index(s, c) >= 0 {
        Some(s.subrange(0, last_index(s, c)))
    } else {
        None
    }
}

/// What precedes the last `c` in `s`, if `s` holds one.
pub fn split_before_last(s: &str, c: char) -> (r: Option<String>)
    ensures
        opt_view(r) == before_last(s@, c),
{
    let v = chars_of(s);
    let mut j: usize = v.len();
    assert(v@.subrange(0, j as int) =~= v@);
    while j > 0 && v[j - 1] != c
        invariant
            j <= v@.len(),
            last_index(v@, c) == last_index(v@.subrange(0, j as int), c),
        decreases j,
    {
        assert(v@.subrange(0, j as int).drop_last() =~= v@.subrange(0, j - 1));
        j -= 1;
    }
    if j == 0 {
        assert(v@.subrange(0, 0) =~= Seq::<char>::empty());
        return None;
    }
    let ghost t = v@.subrange(0, j as int);
    assert(t.last() == c);
    assert(last_index(v@, c) == j - 1);
    let mut r = String::new();
    let mut k: usize = 0;
    while k < j - 1
        invariant
            k <= j - 1,
            j <= v@.len(),
            r@ == v@.subrange(0, k as int),
        decreases j - 1 - k,
    {
        push_char(&mut r, v[k]);
        assert(v@.subrange(0, k + 1) =~= v@.subrange(0, k as int).push(v@[k as int]));
        k += 1;
    }
    Some(r)
}

/// The text of an optional string, empty when missing.
pub open spec fn text_or_empty(o: Option<String>) -> Seq<char> {
    match o {
        Some(s) => s@,
        None => Seq::empty(),
    }
}

/// A copy of an optional string, or an empty string.
pub fn clone_or_empty(o: &Option<String>) -> (r: String)
    ensures
        r@ == text_or_empty(*o),
{
    match o {
        Some(s) => s.clone(),
        None => String::new(),
    }
}


/// Lexicographic order on texts by character code (the order of `str`).
pub open spec fn lex_le(a: Seq<char>, b: Seq<char>) -> bool
    decreases a.len(),
{
    if a.len() == 0 {
        true
    } else if b.len() == 0 {
        false
    } else if a[0] != b[0] {
        a[0] < b[0]
    } else {
        lex_le(a.drop_first(), b.drop_first())
    }
}

/// Any two texts are ordered one way or the other.
pub proof fn lemma_lex_total(a: Seq<char>, b: Seq<char>)
    ensures
        lex_le(a, b) || lex_le(b, a),
    decreases a.len(),
{
    if a.len() > 0 && b.len() > 0 && a[0] == b[0] {
        lemma_lex_total(a.drop_first(), b.drop_first());
    }
}

/// The lexicographic order is transitive.
pub proof fn lemma_lex_transitive(a: Seq<char>, b: Seq<char>, c: Seq<char>)
    requires
        lex_le(a, b),
        lex_le(b, c),
    ensures
        lex_le(a, c),
    decreases a.len(),
{
    if a.len() > 0 && b.len() > 0 && c.len() > 0 && a[0] == b[0] && b[0] == c[0] {
        lemma_lex_transitive(a.drop_first(), b.drop_first(), c.drop_first());
    }
}

/// Whether `x` comes before `y` or equals it, character by character.
pub fn chars_le(x: &[char], y: &[char]) -> (r: bool)
    ensures
        r == lex_le(x@, y@),
{
    let mut i: usize = 0;
    assert(x@.skip(0) =~= x@);
    assert(y@.skip(0) =~= y@);
    while i < x.len()
        invariant
            i <= x@.len(),
            lex_le(x@, y@) == lex_le(x@.skip(i as int), y@.skip(i as int)),
            i <= y@.len(),
            x@.take(i as int) == y@.take(i as int),
        decreases x.len() - i,
    {
        if i == y.len() {
            assert(y@.skip(i as int).len() == 0);
            return false;
        }
        let a = x[i];
        let b = y[i];
        assert(x@.skip(i as int)[0] == a);
        assert(y@.skip(i as int)[0] == b);
        if a != b {
            return a < b;
        }
        assert(x@.skip(i as int).drop_first() =~= x@.skip(i + 1));
        assert(y@.skip(i as int).drop_first() =~= y@.skip(i + 1));
        assert(x@.take(i + 1) =~= x@.take(i as int).push(a));
        assert(y@.take(i + 1) =~= y@.take(i as int).push(b));
        i += 1;
    }
    assert(x@.skip(i as int).len() == 0);
    true
}


/// Trimming leaves no white space at the front.
pub proof fn lemma_trim_start_front(s: Seq<char>)
    ensures
        trim_start(s).len() == 0 || !is_white(trim_start(s)[0]),
        trim_start(s).len() <= s.len(),
    decreases s.len(),
{
    if s.len() > 0 && is_white(s[0]) {
        lemma_trim_start_front(s.subrange(1, s.len() as int));
    }
}

/// Trimming the end keeps a prefix with no white space at its end.
pub proof fn lemma_trim_end_prefix(s: Seq<char>)
    ensures
        trim_end(s).len() <= s.len(),
        trim_end(s) == s.subrange(0, trim_end(s).len() as int),
        trim_end(s).len() == 0 || !is_white(trim_end(s).last()),
    decreases s.len(),
{
    if s.len() > 0 && is_white(s.last()) {
        lemma_trim_end_prefix(s.drop_last());
        assert(s.drop_last().subrange(0, trim_end(s).len() as int) =~= s.subrange(0, trim_end(s).len() as int));
    } else {
        assert(s.subrange(0, s.len() as int) =~= s);
    }
}

/// Trimming a trimmed text changes nothing.
pub proof fn law_trimmed_idempotent(s: Seq<char>)
    ensures
        trimmed(trimmed(s)) == trimmed(s),
{
    let x = trim_start(s);
    lemma_trim_start_front(s);
    let y = trim_end(x);
    lemma_trim_end_prefix(x);
    if y.len() > 0 {
        assert(y[0] == x[0]);
    }
    assert(trim_start(y) == y);
    lemma_trim_end_prefix(y);
    assert(trim_end(y) == y);
}

} // verus!
