//! Character-level string helpers with exact specifications.
use vstd::prelude::*;
use vstd::string::*;

verus! {

broadcast use vstd::string::group_string_axioms;

// ---------------------------------------------------------------------------
// Conversions between strings and character vectors
// ---------------------------------------------------------------------------

/// The characters of `s`, in order.
pub fn chars_of(s: &str) -> (res: Vec<char>)
    ensures
        res@ == s@,
{
    let mut v: Vec<char> = Vec::new();
    for c in it: s.chars()
        invariant
            it.seq() == s@,
            v@ == it.seq().take(it.index() as int),
    {
        v.push(c);
    }
    v
}

/// Collects characters into a `String` (std `FromIterator<char> for String`);
/// the result holds exactly the given characters in order.
#[verifier::external_body]
pub(crate) fn string_from_chars(cs: &[char]) -> (res: String)
    ensures
        res@ == cs@,
{
    cs.iter().collect()
}

/// Name for the characters that `String::from_utf8_lossy` produces from a
/// byte sequence (invalid sequences become U+FFFD).
pub uninterp spec fn lossy_utf8(bytes: Seq<u8>) -> Seq<char>;

/// Decodes bytes as UTF-8, replacing invalid sequences
/// (std `String::from_utf8_lossy`); valid UTF-8 is decoded as it is.
#[verifier::external_body]
pub(crate) fn from_utf8_lossy(bytes: &[u8]) -> (res: String)
    ensures
        res@ == lossy_utf8(bytes@),
        vstd::utf8::valid_utf8(bytes@) ==> res@ == vstd::utf8::decode_utf8(bytes@),
{
    String::from_utf8_lossy(bytes).into_owned()
}

/// Name for the characters that std `str::to_lowercase` produces.
pub uninterp spec fn lowercase(s: Seq<char>) -> Seq<char>;

/// Unicode lower-casing of a whole string (std `str::to_lowercase`).
#[verifier::external_body]
pub(crate) fn to_lowercase(s: &str) -> (res: String)
    ensures
        res@ == lowercase(s@),
{
    s.to_lowercase()
}

// ---------------------------------------------------------------------------
// Whitespace and trimming
// ---------------------------------------------------------------------------

/// The Unicode `White_Space` property, which `char::is_whitespace` tests.
pub open spec fn is_white_space(c: char) -> bool {
    let u = c as u32;
    ||| 0x09 <= u <= 0x0D
    ||| u == 0x20
    ||| u == 0x85
    ||| u == 0xA0
    ||| u == 0x1680
    ||| 0x2000 <= u <= 0x200A
    ||| u == 0x2028
    ||| u == 0x2029
    ||| u == 0x202F
    ||| u == 0x205F
    ||| u == 0x3000
}

pub fn white_space(c: char) -> (res: bool)
    ensures
        res == is_white_space(c),
{
    let u = c as u32;
    (0x09 <= u && u <= 0x0D) || u == 0x20 || u == 0x85 || u == 0xA0 || u == 0x1680 || (0x2000
        <= u && u <= 0x200A) || u == 0x2028 || u == 0x2029 || u == 0x202F || u == 0x205F || u
        == 0x3000
}

/// Number of leading white-space characters of `s`.
pub open spec fn lead_ws(s: Seq<char>) -> nat
    decreases s.len(),
{
    if s.len() > 0 && is_white_space(s[0]) {
        1 + lead_ws(s.skip(1))
    } else {
        0
    }
}

/// Number of trailing white-space characters of `s`.
pub open spec fn trail_ws(s: Seq<char>) -> nat
    decreases s.len(),
{
    if s.len() > 0 && is_white_space(s.last()) {
        1 + trail_ws(s.drop_last())
    } else {
        0
    }
}

/// `s` without leading and trailing white space (what `str::trim` returns).
pub open spec fn trimmed(s: Seq<char>) -> Seq<char> {
    let t = s.skip(lead_ws(s) as int);
    t.take(t.len() - trail_ws(t))
}

proof fn lemma_lead_ws(s: Seq<char>, i: int)
    requires
        0 <= i <= s.len(),
        forall|j: int| 0 <= j < i ==> is_white_space(#[trigger] s[j]),
        i == s.len() || !is_white_space(s[i]),
    ensures
        lead_ws(s) == i,
    decreases i,
{
    if i > 0 {
        lemma_lead_ws(s.skip(1), i - 1);
    }
}

proof fn lemma_trail_ws(s: Seq<char>, k: int)
    requires
        0 <= k <= s.len(),
        forall|j: int| s.len() - k <= j < s.len() ==> is_white_space(#[trigger] s[j]),
        k == s.len() || !is_white_space(s[s.len() - k - 1]),
    ensures
        trail_ws(s) == k,
    decreases k,
{
    if k > 0 {
        assert(s.drop_last().len() == s.len() - 1);
        assert forall|j: int|
            s.drop_last().len() - (k - 1) <= j < s.drop_last().len() implies is_white_space(
            #[trigger] s.drop_last()[j],
        ) by {
            assert(s.drop_last()[j] == s[j]);
        }
        lemma_trail_ws(s.drop_last(), k - 1);
    }
}

/// The characters of `s` without leading and trailing white space.
pub fn trim_chars(s: &[char]) -> (res: Vec<char>)
    ensures
        res@ == trimmed(s@),
{
    let n = s.len();
    let mut i: usize = 0;
    while i < n && white_space(s[i])
        invariant
            i <= n == s@.len(),
            forall|j: int| 0 <= j < i ==> is_white_space(#[trigger] s@[j]),
        decreases n - i,
    {
        i = i + 1;
    }
    proof {
        lemma_lead_ws(s@, i as int);
    }
    let mut e: usize = n;
    while e > i && white_space(s[e - 1])
        invariant
            i <= e <= n == s@.len(),
            forall|j: int| e <= j < n ==> is_white_space(#[trigger] s@[j]),
        decreases e,
    {
        e = e - 1;
    }
    let ghost t = s@.skip(i as int);
    proof {
        assert forall|j: int| t.len() - (n - e) <= j < t.len() implies is_white_space(
            #[trigger] t[j],
        ) by {
            assert(t[j] == s@[j + i]);
        }
        if e > i {
            assert(t[t.len() - (n - e) - 1] == s@[e - 1]);
        }
        lemma_trail_ws(t, (n - e) as int);
    }
    let mut out: Vec<char> = Vec::new();
    let mut k: usize = i;
    while k < e
        invariant
            i <= k <= e <= n == s@.len(),
            out@ == s@.subrange(i as int, k as int),
        decreases e - k,
    {
        out.push(s[k]);
        k = k + 1;
    }
    assert(out@ == t.take(t.len() - trail_ws(t)));
    out
}

/// `s` without its trailing newline characters (what
/// `str::trim_end_matches('\n')` returns).
pub open spec fn strip_trailing_newlines(s: Seq<char>) -> Seq<char>
    decreases s.len(),
{
    if s.len() > 0 && s.last() == '\n' {
        strip_trailing_newlines(s.drop_last())
    } else {
        s
    }
}

pub fn trim_trailing_newlines(s: &[char]) -> (res: Vec<char>)
    ensures
        res@ == strip_trailing_newlines(s@),
{
    let mut e: usize = s.len();
    assert(s@.take(e as int) == s@);
    while e > 0 && s[e - 1] == '\n'
        invariant
            e <= s@.len(),
            strip_trailing_newlines(s@.take(e as int)) == strip_trailing_newlines(s@),
        decreases e,
    {
        assert(s@.take(e as int).drop_last() == s@.take(e - 1));
        e = e - 1;
    }
    let mut out: Vec<char> = Vec::new();
    let mut k: usize = 0;
    while k < e
        invariant
            k <= e <= s@.len(),
            out@ == s@.take(k as int),
        decreases e - k,
    {
        out.push(s[k]);
        k = k + 1;
    }
    assert(out@ == s@.take(e as int));
    out
}

// ---------------------------------------------------------------------------
// Substring search
// ---------------------------------------------------------------------------

/// `needle` occurs in `hay` at position `i`.
pub open spec fn occurs_at(hay: Seq<char>, needle: Seq<char>, i: int) -> bool {
    0 <= i && i + needle.len() <= hay.len() && hay.subrange(i, i + needle.len()) == needle
}

/// `needle` occurs somewhere in `hay` (what `str::contains` tests).
pub open spec fn contains_chars(hay: Seq<char>, needle: Seq<char>) -> bool {
    exists|i: int| occurs_at(hay, needle, i)
}

fn matches_at(hay: &[char], needle: &[char], i: usize) -> (res: bool)
    requires
        i + needle@.len() <= hay@.len(),
    ensures
        res == occurs_at(hay@, needle@, i as int),
{
    let m = needle.len();
    let n = hay.len();
    let mut j: usize = 0;
    while j < m
        invariant
            j <= m == needle@.len(),
            n == hay@.len(),
            i + m <= hay@.len(),
            forall|k: int| 0 <= k < j ==> hay@[i + k] == needle@[k],
        decreases m - j,
    {
        if hay[i + j] != needle[j] {
            assert(hay@.subrange(i as int, i + m)[j as int] != needle@[j as int]);
            return false;
        }
        j = j + 1;
    }
    assert(hay@.subrange(i as int, i + m) =~= needle@);
    true
}

/// Whether `needle` occurs in `hay`.
pub fn contains_slice(hay: &[char], needle: &[char]) -> (res: bool)
    ensures
        res == contains_chars(hay@, needle@),
{
    let n = hay.len();
    let m = needle.len();
    if m > n {
        return false;
    }
    let mut i: usize = 0;
    loop
        invariant
            m <= n,
            i <= n - m,
            n == hay@.len(),
            m == needle@.len(),
            forall|k: int| 0 <= k < i ==> !occurs_at(hay@, needle@, k),
        decreases n - m - i,
    {
        if matches_at(hay, needle, i) {
            return true;
        }
        if i == n - m {
            assert forall|k: int| #![auto] !occurs_at(hay@, needle@, k) by {
                if k > i {
                }
            }
            return false;
        }
        i = i + 1;
    }
}

/// Whether the string `needle` occurs in the string `hay`.
pub fn str_contains(hay: &str, needle: &str) -> (res: bool)
    ensures
        res == contains_chars(hay@, needle@),
{
    let h = chars_of(hay);
    let n = chars_of(needle);
    contains_slice(h.as_slice(), n.as_slice())
}

/// Whether two strings hold the same characters.
pub fn str_eq(a: &str, b: &str) -> (res: bool)
    ensures
        res == (a@ == b@),
{
    let x = a.to_owned();
    let y = b.to_owned();
    x == y
}

// ---------------------------------------------------------------------------
// Lists of strings
// ---------------------------------------------------------------------------

/// The views of a sequence of strings.
pub open spec fn views(v: Seq<String>) -> Seq<Seq<char>> {
    v.map_values(|s: String| s@)
}

/// Whether some string of `v` holds the characters of `s`.
pub fn contains_string(v: &Vec<String>, s: &str) -> (res: bool)
    ensures
        res == views(v@).contains(s@),
{
    let n = v.len();
    let mut i: usize = 0;
    while i < n
        invariant
            i <= n == v@.len(),
            forall|j: int| 0 <= j < i ==> v@[j]@ != s@,
        decreases n - i,
    {
        if str_eq(v[i].as_str(), s) {
            assert(views(v@)[i as int] == s@);
            return true;
        }
        i = i + 1;
    }
    assert forall|j: int| 0 <= j < views(v@).len() implies views(v@)[j] != s@ by {
        assert(views(v@)[j] == v@[j]@);
    }
    false
}

/// Copies a list of strings.
pub fn copy_strings(v: &Vec<String>) -> (res: Vec<String>)
    ensures
        views(res@) == views(v@),
        res@.len() == v@.len(),
{
    let n = v.len();
    let mut out: Vec<String> = Vec::new();
    let mut i: usize = 0;
    while i < n
        invariant
            i <= n == v@.len(),
            views(out@) == views(v@).take(i as int),
            out@.len() == i,
        decreases n - i,
    {
        out.push(v[i].clone());
        assert(views(out@) =~= views(v@).take(i + 1));
        i = i + 1;
    }
    assert(views(v@).take(n as int) =~= views(v@));
    out
}

// ---------------------------------------------------------------------------
// Relative paths and bounded snippets
// ---------------------------------------------------------------------------

/// `s` without a leading `./`.
pub open spec fn without_dot_slash(s: Seq<char>) -> Seq<char> {
    if s.len() >= 2 && s[0] == '.' && s[1] == '/' {
        s.skip(2)
    } else {
        s
    }
}

/// Removes one leading `./` from a relative path.
pub fn clean_rel(s: &str) -> (res: String)
    ensures
        res@ == without_dot_slash(s@),
{
    let cs = chars_of(s);
    if cs.len() >= 2 && cs[0] == '.' && cs[1] == '/' {
        let mut out: Vec<char> = Vec::new();
        let mut k: usize = 2;
        while k < cs.len()
            invariant
                2 <= k <= cs@.len(),
                out@ == cs@.subrange(2, k as int),
            decreases cs@.len() - k,
        {
            out.push(cs[k]);
            k = k + 1;
        }
        assert(out@ == cs@.skip(2));
        string_from_chars(out.as_slice())
    } else {
        s.to_owned()
    }
}

/// The marker appended to a shortened text.
pub open spec fn truncation_mark() -> Seq<char> {
    seq!['\u{2026}', '[', 't', 'r', 'u', 'n', 'c', 'a', 't', 'e', 'd', ']']
}

/// `s` bounded to `n` characters: unchanged when it fits; cut to `n`
/// characters when `n` is at most 16; otherwise its first `n - 14`
/// characters followed by the truncation mark.
pub open spec fn truncated(s: Seq<char>, n: nat) -> Seq<char> {
    if s.len() <= n {
        s
    } else if n <= 16 {
        s.take(n as int)
    } else {
        s.take(n - 14) + truncation_mark()
    }
}

/// A bounded text never exceeds its bound, a text that fits is kept as it
/// is, and a shortened one keeps a prefix of the given text.
pub proof fn law_truncated_fits(s: Seq<char>, n: nat)
    ensures
        s.len() <= n ==> truncated(s, n) == s,
        truncated(s, n).len() <= n,
        s.len() > n && n > 16 ==> truncated(s, n) == s.take(n - 14) + truncation_mark(),
{
}

/// Bounds a character sequence as [`truncated`] says.
pub fn truncate_char_vec(s: &[char], n: usize) -> (res: Vec<char>)
    ensures
        res@ == truncated(s@, n as nat),
{
    let len = s.len();
    let keep: usize = if len <= n {
        len
    } else if n <= 16 {
        n
    } else {
        n - 14
    };
    let mut out: Vec<char> = Vec::new();
    let mut k: usize = 0;
    while k < keep
        invariant
            k <= keep <= len == s@.len(),
            out@ == s@.take(k as int),
        decreases keep - k,
    {
        out.push(s[k]);
        k = k + 1;
    }
    if len > n && n > 16 {
        out.push('\u{2026}');
        out.push('[');
        out.push('t');
        out.push('r');
        out.push('u');
        out.push('n');
        out.push('c');
        out.push('a');
        out.push('t');
        out.push('e');
        out.push('d');
        out.push(']');
        assert(out@ =~= s@.take(n - 14) + truncation_mark());
    } else {
        assert(out@ =~= truncated(s@, n as nat));
    }
    out
}

/// Bounds a string to at most `n` characters, marking the cut.
pub fn truncate_chars(s: &str, n: usize) -> (res: String)
    ensures
        res@ == truncated(s@, n as nat),
{
    let cs = chars_of(s);
    let out = truncate_char_vec(cs.as_slice(), n);
    string_from_chars(out.as_slice())
}

// ---------------------------------------------------------------------------
// Decimal numbers
// ---------------------------------------------------------------------------

pub open spec fn digit_char(d: nat) -> char {
    ((48 + d) as u32) as char
}

/// The decimal digits of `n` (what `usize::to_string` writes).
pub open spec fn decimal(n: nat) -> Seq<char>
    decreases n,
{
    if n < 10 {
        seq![digit_char(n)]
    } else {
        decimal(n / 10).push(digit_char(n % 10))
    }
}

fn digit(d: usize) -> (c: char)
    requires
        d < 10,
    ensures
        c == digit_char(d as nat),
{
    if d == 0 {
        '0'
    } else if d == 1 {
        '1'
    } else if d == 2 {
        '2'
    } else if d == 3 {
        '3'
    } else if d == 4 {
        '4'
    } else if d == 5 {
        '5'
    } else if d == 6 {
        '6'
    } else if d == 7 {
        '7'
    } else if d == 8 {
        '8'
    } else {
        '9'
    }
}

fn push_decimal(n: usize, out: &mut Vec<char>)
    ensures
        final(out)@ == old(out)@ + decimal(n as nat),
    decreases n,
{
    if n < 10 {
        out.push(digit(n));
    } else {
        push_decimal(n / 10, out);
        out.push(digit(n % 10));
    }
}

/// The decimal representation of `n`.
pub fn decimal_string(n: usize) -> (res: String)
    ensures
        res@ == decimal(n as nat),
{
    let mut v: Vec<char> = Vec::new();
    push_decimal(n, &mut v);
    assert(v@ =~= decimal(n as nat));
    string_from_chars(v.as_slice())
}

pub open spec fn is_ascii_digit(c: char) -> bool {
    '0' <= c && c <= '9'
}

/// Value of a run of decimal digits.
pub open spec fn digits_value(s: Seq<char>) -> nat
    decreases s.len(),
{
    if s.len() == 0 {
        0
    } else {
        digits_value(s.drop_last()) * 10 + ((s.last() as u32) - 48) as nat
    }
}

/// `s` without one leading `+`.
pub open spec fn without_plus(s: Seq<char>) -> Seq<char> {
    if s.len() > 0 && s[0] == '+' {
        s.skip(1)
    } else {
        s
    }
}

/// The value of `d` when it is one or more decimal digits whose value fits
/// in `usize`.
pub open spec fn digits_usize(d: Seq<char>) -> Option<usize> {
    if d.len() > 0 && (forall|i: int| 0 <= i < d.len() ==> is_ascii_digit(#[trigger] d[i]))
        && digits_value(d) <= usize::MAX {
        Some(digits_value(d) as usize)
    } else {
        None
    }
}

/// What `str::parse::<usize>` accepts and returns: an optional `+` and one
/// or more decimal digits whose value fits in `usize`.
pub open spec fn parsed_usize(s: Seq<char>) -> Option<usize> {
    digits_usize(without_plus(s))
}

proof fn lemma_digits_value_mono(s: Seq<char>, k: int)
    requires
        0 <= k <= s.len(),
        forall|i: int| 0 <= i < s.len() ==> is_ascii_digit(#[trigger] s[i]),
    ensures
        digits_value(s.take(k)) <= digits_value(s),
    decreases s.len() - k,
{
    if k < s.len() {
        lemma_digits_value_mono(s, k + 1);
        assert(s.take(k + 1).drop_last() == s.take(k));
        assert(digits_value(s.take(k + 1)) == digits_value(s.take(k)) * 10 + ((s[k] as u32)
            - 48) as nat);
    } else {
        assert(s.take(k) == s);
    }
}

/// Parses a decimal `usize` as `str::parse::<usize>` does.
pub fn parse_usize(s: &[char]) -> (res: Option<usize>)
    ensures
        res == parsed_usize(s@),
{
    let n = s.len();
    let start: usize = if n > 0 && s[0] == '+' {
        1
    } else {
        0
    };
    let ghost d = without_plus(s@);
    assert(d == s@.skip(start as int));
    if start >= n {
        return None;
    }
    let mut v: usize = 0;
    let mut i: usize = start;
    while i < n
        invariant
            start <= i <= n == s@.len(),
            d == s@.skip(start as int),
            d == without_plus(s@),
            forall|k: int| 0 <= k < i - start ==> is_ascii_digit(#[trigger] d[k]),
            v as nat == digits_value(d.take(i - start)),
        decreases n - i,
    {
        let c = s[i];
        if !('0' <= c && c <= '9') {
            assert(d[i - start] == c);
            assert(!is_ascii_digit(d[i - start]));
            assert(!(forall|k: int| 0 <= k < d.len() ==> is_ascii_digit(#[trigger] d[k])));
            return None;
        }
        let dv = (c as u32 - 48) as usize;
        assert(d.take(i + 1 - start).drop_last() == d.take(i - start));
        assert(d.take(i + 1 - start).last() == c);
        let next = match v.checked_mul(10) {
            Some(v10) => v10.checked_add(dv),
            None => None,
        };
        match next {
            Some(nv) => {
                v = nv;
            },
            None => {
                proof {
                    assert(digits_value(d.take(i + 1 - start)) == v * 10 + dv);
                    assert(v * 10 + dv > usize::MAX);
                    if forall|k: int| 0 <= k < d.len() ==> is_ascii_digit(#[trigger] d[k]) {
                        lemma_digits_value_mono(d, i + 1 - start);
                        assert(digits_value(d) > usize::MAX);
                    }
                }
                return None;
            },
        }
        i = i + 1;
    }
    assert(d.take(n - start) == d);
    Some(v)
}

// ---------------------------------------------------------------------------
// Splitting
// ---------------------------------------------------------------------------

/// Index of the first `c` in `s`.
pub open spec fn first_index_of(s: Seq<char>, c: char) -> Option<int>
    decreases s.len(),
{
    if s.len() == 0 {
        None
    } else if s[0] == c {
        Some(0)
    } else {
        match first_index_of(s.skip(1), c) {
            Some(i) => Some(i + 1),
            None => None,
        }
    }
}

proof fn lemma_first_index_of(s: Seq<char>, c: char, i: int)
    requires
        0 <= i <= s.len(),
        forall|j: int| 0 <= j < i ==> s[j] != c,
    ensures
        i < s.len() && s[i] == c ==> first_index_of(s, c) == Some(i),
        i == s.len() ==> first_index_of(s, c) is None,
    decreases i,
{
    if i > 0 {
        lemma_first_index_of(s.skip(1), c, i - 1);
    }
}

/// Position of the first `c` at or after `from`.
pub fn find_char(s: &[char], from: usize, c: char) -> (res: Option<usize>)
    requires
        from <= s@.len(),
    ensures
        match first_index_of(s@.skip(from as int), c) {
            Some(i) => res matches Some(k) && k == from + i,
            None => res is None,
        },
        res matches Some(k) ==> from <= k < s@.len() && s@[k as int] == c,
{
    let n = s.len();
    let mut i: usize = from;
    let ghost t = s@.skip(from as int);
    while i < n
        invariant
            from <= i <= n == s@.len(),
            t == s@.skip(from as int),
            forall|j: int| 0 <= j < i - from ==> t[j] != c,
        decreases n - i,
    {
        if s[i] == c {
            proof {
                lemma_first_index_of(t, c, i - from);
            }
            return Some(i);
        }
        i = i + 1;
    }
    proof {
        lemma_first_index_of(t, c, n - from);
    }
    None
}

/// The characters `s[a..b]`.
pub fn sub_chars(s: &[char], a: usize, b: usize) -> (res: Vec<char>)
    requires
        a <= b <= s@.len(),
    ensures
        res@ == s@.subrange(a as int, b as int),
{
    let mut out: Vec<char> = Vec::new();
    let mut k: usize = a;
    while k < b
        invariant
            a <= k <= b <= s@.len(),
            out@ == s@.subrange(a as int, k as int),
        decreases b - k,
    {
        out.push(s[k]);
        assert(s@.subrange(a as int, k + 1) =~= s@.subrange(a as int, k as int).push(s@[k as int]));
        k = k + 1;
    }
    out
}

/// `s` cut at its first two tabs into three fields (what
/// `splitn(3, '\t')` yields when it yields three fields).
pub open spec fn split3(s: Seq<char>) -> Option<(Seq<char>, Seq<char>, Seq<char>)> {
    match first_index_of(s, '\t') {
        None => None,
        Some(i) => {
            let rest = s.skip(i + 1);
            match first_index_of(rest, '\t') {
                None => None,
                Some(j) => Some((s.take(i), rest.take(j), rest.skip(j + 1))),
            }
        },
    }
}

/// A line `f TAB n TAB t`, with no tab in `f` or `n`, splits into `f`, `n`
/// and the whole of `t`, tabs in `t` included: only the first two tabs
/// separate fields.
pub proof fn law_split3_keeps_text(f: Seq<char>, n: Seq<char>, t: Seq<char>)
    requires
        forall|i: int| 0 <= i < f.len() ==> f[i] != '\t',
        forall|i: int| 0 <= i < n.len() ==> n[i] != '\t',
    ensures
        split3(f + seq!['\t'] + n + seq!['\t'] + t) == Some((f, n, t)),
{
    let s = f + seq!['\t'] + n + seq!['\t'] + t;
    assert forall|j: int| 0 <= j < f.len() implies s[j] != '\t' by {
        assert(s[j] == f[j]);
    }
    assert(s[f.len() as int] == '\t');
    lemma_first_index_of(s, '\t', f.len() as int);
    let rest = s.skip(f.len() + 1int);
    assert(rest =~= n + seq!['\t'] + t);
    assert forall|j: int| 0 <= j < n.len() implies rest[j] != '\t' by {
        assert(rest[j] == n[j]);
    }
    assert(rest[n.len() as int] == '\t');
    lemma_first_index_of(rest, '\t', n.len() as int);
    assert(s.take(f.len() as int) =~= f);
    assert(rest.take(n.len() as int) =~= n);
    assert(rest.skip(n.len() + 1int) =~= t);
}

/// Splits at the first two tabs.
pub fn split_three(s: &[char]) -> (res: Option<(Vec<char>, Vec<char>, Vec<char>)>)
    ensures
        match split3(s@) {
            None => res is None,
            Some((a, b, c)) => res matches Some((x, y, z)) && x@ == a && y@ == b && z@ == c,
        },
{
    let n = s.len();
    assert(s@.skip(0) =~= s@);
    let i = match find_char(s, 0, '\t') {
        Some(i) => i,
        None => {
            assert(first_index_of(s@, '\t') is None);
            return None;
        },
    };
    assert(first_index_of(s@, '\t') == Some(i as int));
    let ghost rest = s@.skip(i + 1);
    let j = match find_char(s, i + 1, '\t') {
        Some(j) => j,
        None => {
            assert(first_index_of(rest, '\t') is None);
            assert(split3(s@) is None);
            return None;
        },
    };
    assert(first_index_of(rest, '\t') == Some(j - i - 1));
    assert(rest.skip((j - i - 1) as int) =~= s@.skip(j as int));
    let a = sub_chars(s, 0, i);
    let b = sub_chars(s, i + 1, j);
    let c = sub_chars(s, j + 1, n);
    assert(a@ =~= s@.take(i as int));
    assert(b@ =~= rest.take(j - i - 1));
    assert(c@ =~= rest.skip(j - i - 1 + 1));
    Some((a, b, c))
}

// ---------------------------------------------------------------------------
// Joining
// ---------------------------------------------------------------------------

/// The parts joined, with `sep` between each two.
pub open spec fn joined(parts: Seq<Seq<char>>, sep: Seq<char>) -> Seq<char>
    decreases parts.len(),
{
    if parts.len() == 0 {
        seq![]
    } else if parts.len() == 1 {
        parts[0]
    } else {
        joined(parts.drop_last(), sep) + sep + parts.last()
    }
}

/// What stands between two texts occurs in their concatenation.
pub proof fn lemma_contains_middle(a: Seq<char>, x: Seq<char>, b: Seq<char>)
    ensures
        contains_chars(a + x + b, x),
{
    assert((a + x + b).subrange(a.len() as int, (a.len() + x.len()) as int) =~= x);
    assert(occurs_at(a + x + b, x, a.len() as int));
}

/// Occurring in a text that occurs in `z` is occurring in `z`.
pub proof fn lemma_contains_trans(z: Seq<char>, y: Seq<char>, x: Seq<char>)
    requires
        contains_chars(z, y),
        contains_chars(y, x),
    ensures
        contains_chars(z, x),
{
    let i = choose|i: int| occurs_at(z, y, i);
    let j = choose|j: int| occurs_at(y, x, j);
    assert forall|k: int| 0 <= k < x.len() implies z.subrange(i + j, i + j + x.len())[k] == x[k] by {
        assert(z.subrange(i, i + y.len())[j + k] == y[j + k]);
        assert(y.subrange(j, j + x.len())[k] == x[k]);
    }
    assert(z.subrange(i + j, i + j + x.len()) =~= x);
    assert(occurs_at(z, x, i + j));
}

/// Every part occurs in the parts joined.
pub proof fn lemma_joined_contains(parts: Seq<Seq<char>>, sep: Seq<char>, i: int)
    requires
        0 <= i < parts.len(),
    ensures
        contains_chars(joined(parts, sep), parts[i]),
    decreases parts.len(),
{
    if parts.len() == 1 {
        lemma_contains_middle(seq![], parts[0], seq![]);
        assert(Seq::<char>::empty() + parts[0] + Seq::<char>::empty() =~= parts[0]);
    } else if i == parts.len() - 1 {
        lemma_contains_middle(joined(parts.drop_last(), sep) + sep, parts.last(), seq![]);
        assert(joined(parts.drop_last(), sep) + sep + parts.last() + Seq::<char>::empty() =~= joined(parts, sep));
    } else {
        lemma_joined_contains(parts.drop_last(), sep, i);
        let j = joined(parts.drop_last(), sep);
        lemma_contains_middle(seq![], j, sep + parts.last());
        assert(Seq::<char>::empty() + j + (sep + parts.last()) =~= joined(parts, sep));
        lemma_contains_trans(joined(parts, sep), j, parts[i]);
    }
}

/// Joins strings with a separator between each two.
pub fn join_strings(parts: &Vec<String>, sep: &str) -> (res: String)
    ensures
        res@ == joined(views(parts@), sep@),
{
    let n = parts.len();
    if n == 0 {
        return String::new();
    }
    let mut out = parts[0].clone();
    let mut i: usize = 1;
    assert(views(parts@).take(1) =~= seq![parts@[0]@]);
    while i < n
        invariant
            1 <= i <= n == parts@.len(),
            out@ == joined(views(parts@).take(i as int), sep@),
        decreases n - i,
    {
        let ghost before = views(parts@).take(i as int);
        out = out.concat(sep).concat(parts[i].as_str());
        assert(views(parts@).take(i + 1).drop_last() =~= before);
        i = i + 1;
    }
    assert(views(parts@).take(n as int) =~= views(parts@));
    out
}

} // verus!
