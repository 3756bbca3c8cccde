//! Character-level text utilities shared by the record codec, the filename
//! classifier, the converter-output parsers and the HTML renderer: decimal
//! digit strings, ASCII lowering, trimming, splitting and number parsing.

use vstd::prelude::*;

use vstd::multiset::Multiset;

verus! {

/// Relies on `String::push`: appends the given character to the end of the string.
#[verifier::external_body]
pub fn push_char(s: &mut String, c: char)
    ensures
        final(s)@ == old(s)@.push(c),
{
    s.push(c);
}

pub open spec fn is_digit(c: char) -> bool {
    48 <= c as u32 <= 57
}

pub open spec fn digit_val(c: char) -> nat {
    (c as u32 - 48) as nat
}

pub open spec fn digit_char(d: nat) -> char {
    if d == 0 {
        '0'
    } else if d == 1 {
        '1'
    } else if d == 2 {
        '2'
    } else if d == 3 {
        '3'
    } else if d == 4 {
        '4'
    } else if d == 5 {
        '5'
    } else if d == 6 {
        '6'
    } else if d == 7 {
        '7'
    } else if d == 8 {
        '8'
    } else {
        '9'
    }
}

pub proof fn lemma_digit_char_val(d: nat)
    requires
        d < 10,
    ensures
        is_digit(digit_char(d)),
        digit_val(digit_char(d)) == d,
{
}

/// The decimal digit string of `n`, most significant digit first.
pub open spec fn spec_digits(n: nat) -> Seq<char>
    decreases n,
{
    if n < 10 {
        seq![digit_char(n)]
    } else {
        spec_digits(n / 10).push(digit_char(n % 10))
    }
}

fn digit_char_exec(d: u8) -> (c: char)
    requires
        d < 10,
    ensures
        c == digit_char(d as nat),
{
    match d {
        0 => '0',
        1 => '1',
        2 => '2',
        3 => '3',
        4 => '4',
        5 => '5',
        6 => '6',
        7 => '7',
        8 => '8',
        _ => '9',
    }
}

/// Appends the decimal digit string of `n` to `s`.
pub fn push_decimal(s: &mut String, n: u128)
    ensures
        final(s)@ == old(s)@ + spec_digits(n as nat),
    decreases n,
{
    if n < 10 {
        push_char(s, digit_char_exec(n as u8));
        assert(final(s)@ =~= old(s)@ + spec_digits(n as nat));
    } else {
        push_decimal(s, n / 10);
        push_char(s, digit_char_exec((n % 10) as u8));
        assert(final(s)@ =~= old(s)@ + spec_digits(n as nat));
    }
}

/// The decimal digit string of `n` as a fresh string.
pub fn decimal_string(n: u128) -> (r: String)
    ensures
        r@ == spec_digits(n as nat),
{
    let mut s = String::new();
    push_decimal(&mut s, n);
    assert(s@ =~= spec_digits(n as nat));
    s
}

/// ASCII lowering of one character; other characters are unchanged.
pub open spec fn lower_char(c: char) -> char {
    match c {
        'A' => 'a',
        'B' => 'b',
        'C' => 'c',
        'D' => 'd',
        'E' => 'e',
        'F' => 'f',
        'G' => 'g',
        'H' => 'h',
        'I' => 'i',
        'J' => 'j',
        'K' => 'k',
        'L' => 'l',
        'M' => 'm',
        'N' => 'n',
        'O' => 'o',
        'P' => 'p',
        'Q' => 'q',
        'R' => 'r',
        'S' => 's',
        'T' => 't',
        'U' => 'u',
        'V' => 'v',
        'W' => 'w',
        'X' => 'x',
        'Y' => 'y',
        'Z' => 'z',
        _ => c,
    }
}

pub fn lower_char_exec(c: char) -> (r: char)
    ensures
        r == lower_char(c),
{
    match c {
        'A' => 'a',
        'B' => 'b',
        'C' => 'c',
        'D' => 'd',
        'E' => 'e',
        'F' => 'f',
        'G' => 'g',
        'H' => 'h',
        'I' => 'i',
        'J' => 'j',
        'K' => 'k',
        'L' => 'l',
        'M' => 'm',
        'N' => 'n',
        'O' => 'o',
        'P' => 'p',
        'Q' => 'q',
        'R' => 'r',
        'S' => 's',
        'T' => 't',
        'U' => 'u',
        'V' => 'v',
        'W' => 'w',
        'X' => 'x',
        'Y' => 'y',
        'Z' => 'z',
        _ => c,
    }
}

/// The Unicode white-space characters, as trimming and tokenizing
/// recognize them: the code points with the White_Space property.
pub open spec fn is_space(c: char) -> bool {
    let u = c as u32;
    ||| u == 0x20
    ||| 0x09 <= u <= 0x0d
    ||| u == 0x85
    ||| u == 0xa0
    ||| u == 0x1680
    ||| 0x2000 <= u <= 0x200a
    ||| u == 0x2028
    ||| u == 0x2029
    ||| u == 0x202f
    ||| u == 0x205f
    ||| u == 0x3000
}

pub fn is_space_exec(c: char) -> (r: bool)
    ensures
        r == is_space(c),
{
    let u = c as u32;
    u == 0x20 || (0x09 <= u && u <= 0x0d) || u == 0x85 || u == 0xa0 || u == 0x1680 || (0x2000 <= u
        && u <= 0x200a) || u == 0x2028 || u == 0x2029 || u == 0x202f || u == 0x205f || u == 0x3000
}

pub open spec fn trim_start(s: Seq<char>) -> Seq<char>
    decreases s.len(),
{
    if s.len() > 0 && is_space(s[0]) {
        trim_start(s.skip(1))
    } else {
        s
    }
}

pub open spec fn trim_end(s: Seq<char>) -> Seq<char>
    decreases s.len(),
{
    if s.len() > 0 && is_space(s[s.len() - 1]) {
        trim_end(s.drop_last())
    } else {
        s
    }
}

/// The input without its leading and trailing whitespace.
pub open spec fn spec_trim(s: Seq<char>) -> Seq<char> {
    trim_end(trim_start(s))
}

/// Trims leading and trailing whitespace, as `spec_trim` describes.
pub fn trim_str<'a>(s: &'a str) -> (r: &'a str)
    ensures
        r@ == spec_trim(s@),
{
    let n = s.unicode_len();
    let mut i: usize = 0;
    assert(s@.skip(0) =~= s@);
    while i < n && is_space_exec(s.get_char(i))
        invariant
            0 <= i <= n,
            n == s@.len(),
            trim_start(s@) == trim_start(s@.skip(i as int)),
        decreases n - i,
    {
        assert(s@.skip(i as int)[0] == s@[i as int]);
        assert(s@.skip(i as int).skip(1) =~= s@.skip(i + 1));
        i = i + 1;
    }
    if i < n {
        assert(s@.skip(i as int)[0] == s@[i as int]);
    }
    assert(trim_start(s@) == s@.skip(i as int));
    let mut j: usize = n;
    while j > i && is_space_exec(s.get_char(j - 1))
        invariant
            i <= j <= n,
            n == s@.len(),
            trim_start(s@) == s@.skip(i as int),
            trim_end(s@.skip(i as int)) == trim_end(s@.subrange(i as int, j as int)),
        decreases j,
    {
        let ghost t = s@.subrange(i as int, j as int);
        assert(t[t.len() - 1] == s@[j - 1]);
        assert(t.drop_last() =~= s@.subrange(i as int, j - 1));
        j = j - 1;
    }
    let ghost t = s@.subrange(i as int, j as int);
    if j > i {
        assert(t[t.len() - 1] == s@[j - 1]);
    }
    assert(trim_end(t) == t);
    assert(s@.skip(i as int) =~= s@.subrange(i as int, n as int));
    s.substring_char(i, j)
}

/// The index of the first occurrence of `c` in `s`, if any.
pub open spec fn find_char(s: Seq<char>, c: char) -> Option<int>
    decreases s.len(),
{
    if s.len() == 0 {
        None
    } else if s[0] == c {
        Some(0int)
    } else {
        match find_char(s.skip(1), c) {
            None => None,
            Some(j) => Some(j + 1),
        }
    }
}

pub proof fn lemma_find_char_some(s: Seq<char>, c: char)
    ensures
        match find_char(s, c) {
            None => forall|k: int| 0 <= k < s.len() ==> s[k] != c,
            Some(j) => 0 <= j < s.len() && s[j] == c && forall|k: int| 0 <= k < j ==> s[k] != c,
        },
    decreases s.len(),
{
    if s.len() > 0 && s[0] != c {
        lemma_find_char_some(s.skip(1), c);
        assert forall|k: int| 1 <= k < s.len() implies s[k] == s.skip(1)[k - 1] by {}
    }
}

/// Pins the first occurrence of `c` to a known position.
pub proof fn lemma_find_char_at(s: Seq<char>, c: char, i: int)
    requires
        0 <= i < s.len(),
        s[i] == c,
        forall|k: int| 0 <= k < i ==> s[k] != c,
    ensures
        find_char(s, c) == Some(i),
    decreases i,
{
    if i == 0 {
    } else {
        assert(s[0] != c);
        assert forall|k: int| 0 <= k < i - 1 implies s.skip(1)[k] != c by {
            assert(s.skip(1)[k] == s[k + 1]);
        }
        assert(s.skip(1)[i - 1] == s[i]);
        lemma_find_char_at(s.skip(1), c, i - 1);
    }
}

/// Finds the first occurrence of `c`, as `find_char` describes.
pub fn find_char_exec(s: &str, c: char) -> (r: Option<usize>)
    ensures
        match r {
            None => find_char(s@, c) is None,
            Some(i) => find_char(s@, c) == Some(i as int),
        },
{
    let n = s.unicode_len();
    let mut i: usize = 0;
    assert(s@.skip(0) =~= s@);
    while i < n
        invariant
            0 <= i <= n,
            n == s@.len(),
            find_char(s@, c) == match find_char(s@.skip(i as int), c) {
                None => None::<int>,
                Some(j) => Some(j + i),
            },
        decreases n - i,
    {
        assert(s@.skip(i as int)[0] == s@[i as int]);
        if s.get_char(i) == c {
            return Some(i);
        }
        assert(s@.skip(i as int).skip(1) =~= s@.skip(i + 1));
        i = i + 1;
    }
    assert(s@.skip(n as int) =~= Seq::<char>::empty());
    None
}

/// The pieces of `s` between occurrences of the separator `sep`.
/// Splitting never yields an empty sequence: a string without the
/// separator is one piece, and separators at the ends yield empty pieces.
pub open spec fn spec_split(s: Seq<char>, sep: char) -> Seq<Seq<char>>
    decreases s.len(),
    via spec_split_decreases
{
    match find_char(s, sep) {
        None => seq![s],
        Some(i) => seq![s.take(i)] + spec_split(s.skip(i + 1), sep),
    }
}

#[via_fn]
proof fn spec_split_decreases(s: Seq<char>, sep: char) {
    lemma_find_char_some(s, sep);
}

/// Splits on a separator character, as `spec_split` describes.
pub fn split_str(s: &str, sep: char) -> (r: Vec<String>)
    ensures
        r.deep_view() == spec_split(s@, sep),
    decreases s@.len(),
{
    proof {
        lemma_find_char_some(s@, sep);
    }
    match find_char_exec(s, sep) {
        None => {
            let mut v: Vec<String> = Vec::new();
            v.push(String::from_str(s));
            assert(v.deep_view() =~= spec_split(s@, sep));
            v
        },
        Some(i) => {
            let n = s.unicode_len();
            let head = String::from_str(s.substring_char(0, i));
            let rest = s.substring_char(i + 1, n);
            assert(rest@ =~= s@.skip(i + 1));
            let mut v = split_str(rest, sep);
            v.insert(0, head);
            proof {
                assert(head@ =~= s@.take(i as int));
                assert(v.deep_view() =~= spec_split(s@, sep));
            }
            v
        },
    }
}

/// One line as `str::lines` reports it: without a trailing carriage return.
pub open spec fn strip_cr(l: Seq<char>) -> Seq<char> {
    if l.len() > 0 && l[l.len() - 1] == '\r' {
        l.drop_last()
    } else {
        l
    }
}

/// The lines of `s`: pieces between newlines, each without a trailing
/// carriage return, and without a final empty piece after a terminating
/// newline.
pub open spec fn spec_lines(s: Seq<char>) -> Seq<Seq<char>> {
    if s.len() == 0 {
        Seq::empty()
    } else {
        let parts = spec_split(s, '\n');
        let kept = if s[s.len() - 1] == '\n' {
            parts.drop_last()
        } else {
            parts
        };
        kept.map_values(|l: Seq<char>| strip_cr(l))
    }
}

fn strip_cr_string(l: &String) -> (r: String)
    ensures
        r@ == strip_cr(l@),
{
    let n = l.as_str().unicode_len();
    if n > 0 && l.as_str().get_char(n - 1) == '\r' {
        let r = String::from_str(l.as_str().substring_char(0, n - 1));
        assert(r@ =~= strip_cr(l@));
        r
    } else {
        let r = l.clone();
        assert(r@ =~= strip_cr(l@));
        r
    }
}

/// Splits into lines, as `spec_lines` describes.
pub fn lines_str(s: &str) -> (r: Vec<String>)
    ensures
        r.deep_view() == spec_lines(s@),
{
    let n = s.unicode_len();
    if n == 0 {
        let v: Vec<String> = Vec::new();
        assert(v.deep_view() =~= spec_lines(s@));
        return v;
    }
    let mut parts = split_str(s, '\n');
    proof {
        lemma_split_count(s@, '\n');
    }
    if s.get_char(n - 1) == '\n' {
        parts.pop();
        assert(parts.deep_view() =~= spec_split(s@, '\n').drop_last());
    }
    let mut out: Vec<String> = Vec::new();
    let ghost kept = parts.deep_view();
    let mut k: usize = 0;
    while k < parts.len()
        invariant
            0 <= k <= parts.len(),
            kept == parts.deep_view(),
            out.deep_view() =~= kept.take(k as int).map_values(|l: Seq<char>| strip_cr(l)),
        decreases parts.len() - k,
    {
        let piece = strip_cr_string(&parts[k]);
        assert(parts.deep_view()[k as int] == parts[k as int].deep_view());
        assert(piece@ == strip_cr(kept[k as int]));
        let ghost prev = out.deep_view();
        out.push(piece);
        proof {
            assert(out.deep_view() =~= prev.push(strip_cr(kept[k as int])));
            assert(out.deep_view() =~= kept.take(k + 1).map_values(|l: Seq<char>| strip_cr(l)));
        }
        k = k + 1;
    }
    assert(kept.take(kept.len() as int) =~= kept);
    out
}

/// Splitting always produces at least one piece.
pub proof fn lemma_split_count(s: Seq<char>, sep: char)
    ensures
        spec_split(s, sep).len() >= 1,
    decreases s.len(),
{
    match find_char(s, sep) {
        None => {},
        Some(i) => {
            lemma_find_char_some(s, sep);
            lemma_split_count(s.skip(i + 1), sep);
        },
    }
}

/// The maximal whitespace-free runs of `s`, in order.
pub open spec fn spec_tokens(s: Seq<char>) -> Seq<Seq<char>>
    decreases s.len(),
    via spec_tokens_decreases
{
    if s.len() == 0 {
        Seq::empty()
    } else if is_space(s[0]) {
        spec_tokens(s.skip(1))
    } else {
        let e = token_end(s);
        seq![s.take(e)] + spec_tokens(s.skip(e))
    }
}

#[via_fn]
proof fn spec_tokens_decreases(s: Seq<char>) {
    if s.len() > 0 && !is_space(s[0]) {
        lemma_token_end(s);
    }
}

/// The length of the whitespace-free prefix of `s`.
pub open spec fn token_end(s: Seq<char>) -> int
    decreases s.len(),
{
    if s.len() == 0 || is_space(s[0]) {
        0
    } else {
        1 + token_end(s.skip(1))
    }
}

pub proof fn lemma_token_end(s: Seq<char>)
    ensures
        0 <= token_end(s) <= s.len(),
        s.len() > 0 && !is_space(s[0]) ==> token_end(s) > 0,
    decreases s.len(),
{
    if s.len() > 0 && !is_space(s[0]) {
        lemma_token_end(s.skip(1));
    }
}

/// Pins the whitespace-free prefix length to a concrete boundary.
proof fn lemma_token_end_at(s: Seq<char>, e: int)
    requires
        0 <= e <= s.len(),
        forall|k: int| 0 <= k < e ==> !is_space(s[k]),
        e == s.len() || is_space(s[e]),
    ensures
        token_end(s) == e,
    decreases e,
{
    if e == 0 {
        if s.len() > 0 {
            assert(token_end(s) == 0);
        }
    } else {
        assert(!is_space(s[0]));
        assert forall|k: int| 0 <= k < e - 1 implies !is_space(s.skip(1)[k]) by {
            assert(s.skip(1)[k] == s[k + 1]);
        }
        if e - 1 < s.skip(1).len() {
            assert(s.skip(1)[e - 1] == s[e]);
        }
        lemma_token_end_at(s.skip(1), e - 1);
    }
}

/// Splits into whitespace-separated tokens, as `spec_tokens` describes.
pub fn tokens_str(s: &str) -> (r: Vec<String>)
    ensures
        r.deep_view() == spec_tokens(s@),
    decreases s@.len(),
{
    let n = s.unicode_len();
    if n == 0 {
        let v: Vec<String> = Vec::new();
        assert(v.deep_view() =~= spec_tokens(s@));
        return v;
    }
    if is_space_exec(s.get_char(0)) {
        let rest = s.substring_char(1, n);
        assert(rest@ =~= s@.skip(1));
        return tokens_str(rest);
    }
    let mut e: usize = 1;
    while e < n && !is_space_exec(s.get_char(e))
        invariant
            1 <= e <= n,
            n == s@.len(),
            forall|k: int| 0 <= k < e ==> !is_space(s@[k]),
        decreases n - e,
    {
        e = e + 1;
    }
    proof {
        lemma_token_end_at(s@, e as int);
    }
    let head = String::from_str(s.substring_char(0, e));
    let rest = s.substring_char(e, n);
    assert(rest@ =~= s@.skip(e as int));
    let mut v = tokens_str(rest);
    v.insert(0, head);
    proof {
        assert(head@ =~= s@.take(e as int));
        assert(v.deep_view() =~= spec_tokens(s@));
    }
    v
}

pub open spec fn all_digits(s: Seq<char>) -> bool {
    forall|k: int| 0 <= k < s.len() ==> is_digit(s[k])
}

/// The value of a digit string, most significant digit first.
pub open spec fn digits_value(s: Seq<char>) -> nat
    decreases s.len(),
{
    if s.len() == 0 {
        0
    } else {
        digits_value(s.drop_last()) * 10 + digit_val(s[s.len() - 1])
    }
}

pub proof fn lemma_digits_value_monotone(s: Seq<char>, i: int, j: int)
    requires
        0 <= i <= j <= s.len(),
    ensures
        digits_value(s.take(i)) <= digits_value(s.take(j)),
    decreases j - i,
{
    if i < j {
        lemma_digits_value_monotone(s, i, j - 1);
        assert(s.take(j).drop_last() =~= s.take(j - 1));
        assert(digits_value(s.take(j)) == digits_value(s.take(j - 1)) * 10 + digit_val(
            s.take(j)[j - 1],
        ));
    }
}

/// What `str::parse::<u32>` returns: an optional leading plus sign, then
/// one or more decimal digits whose value fits in the type.
pub open spec fn spec_parse_u32(s: Seq<char>) -> Option<u32> {
    let body = if s.len() > 0 && s[0] == '+' {
        s.skip(1)
    } else {
        s
    };
    if body.len() > 0 && all_digits(body) && digits_value(body) <= u32::MAX {
        Some(digits_value(body) as u32)
    } else {
        None
    }
}

/// Parses a decimal `u32`, as `spec_parse_u32` describes.
pub fn parse_u32(s: &str) -> (r: Option<u32>)
    ensures
        r == spec_parse_u32(s@),
{
    let n = s.unicode_len();
    let start: usize = if n > 0 && s.get_char(0) == '+' {
        1
    } else {
        0
    };
    let ghost body = if s@.len() > 0 && s@[0] == '+' {
        s@.skip(1)
    } else {
        s@
    };
    assert(body =~= s@.subrange(start as int, n as int));
    if start == n {
        return None;
    }
    let mut acc: u64 = 0;
    let mut i: usize = start;
    while i < n
        invariant
            start <= i <= n,
            n == s@.len(),
            start < n,
            body == (if s@.len() > 0 && s@[0] == '+' {
                s@.skip(1)
            } else {
                s@
            }),
            body == s@.subrange(start as int, n as int),
            all_digits(body.take(i - start)),
            acc == digits_value(body.take(i - start)),
            acc <= u32::MAX,
        decreases n - i,
    {
        let c = s.get_char(i);
        let cv = c as u32;
        if cv < 48 || cv > 57 {
            assert(body[i - start] == s@[i as int]);
            assert(!is_digit(body[i - start]));
            assert(!all_digits(body));
            return None;
        }
        let d = (cv - 48) as u64;
        let next: u64 = acc * 10 + d;
        proof {
            assert(body.take(i - start + 1).drop_last() =~= body.take(i - start));
            assert(body.take(i - start + 1)[i - start] == s@[i as int]);
            assert(is_digit(body[i - start]));
            assert(digit_val(s@[i as int]) == d as nat);
            assert(digits_value(body.take(i - start + 1)) == acc * 10 + d);
            assert(all_digits(body.take(i - start + 1)));
        }
        if next > u32::MAX as u64 {
            proof {
                lemma_digits_value_monotone(body, i - start + 1, body.len() as int);
                assert(body.take(body.len() as int) =~= body);
                assert(digits_value(body) > u32::MAX);
            }
            return None;
        }
        acc = next;
        i = i + 1;
    }
    assert(body.take(body.len() as int) =~= body);
    Some(acc as u32)
}

/// Lexicographic order on character sequences, by code point; the order
/// `str` comparison and sorting follow.
pub open spec fn chars_le(a: Seq<char>, b: Seq<char>) -> bool
    decreases a.len(),
{
    if a.len() == 0 {
        true
    } else if b.len() == 0 {
        false
    } else if (a[0] as u32) < (b[0] as u32) {
        true
    } else if (a[0] as u32) > (b[0] as u32) {
        false
    } else {
        chars_le(a.skip(1), b.skip(1))
    }
}

/// The order is total: any two sequences compare one way or the other.
pub proof fn lemma_chars_le_total(a: Seq<char>, b: Seq<char>)
    ensures
        chars_le(a, b) || chars_le(b, a),
    decreases a.len(),
{
    if a.len() > 0 && b.len() > 0 && a[0] as u32 == b[0] as u32 {
        lemma_chars_le_total(a.skip(1), b.skip(1));
    }
}

/// Compares two strings lexicographically, as `chars_le` describes.
pub fn str_le(a: &str, b: &str) -> (r: bool)
    ensures
        r == chars_le(a@, b@),
{
    let na = a.unicode_len();
    let nb = b.unicode_len();
    let mut i: usize = 0;
    assert(a@.skip(0) =~= a@);
    assert(b@.skip(0) =~= b@);
    while i < na && i < nb
        invariant
            0 <= i <= na,
            i <= nb,
            na == a@.len(),
            nb == b@.len(),
            chars_le(a@, b@) == chars_le(a@.skip(i as int), b@.skip(i as int)),
        decreases na - i,
    {
        let ca = a.get_char(i);
        let cb = b.get_char(i);
        assert(a@.skip(i as int)[0] == a@[i as int]);
        assert(b@.skip(i as int)[0] == b@[i as int]);
        if (ca as u32) < (cb as u32) {
            return true;
        }
        if (ca as u32) > (cb as u32) {
            return false;
        }
        assert(a@.skip(i as int).skip(1) =~= a@.skip(i + 1));
        assert(b@.skip(i as int).skip(1) =~= b@.skip(i + 1));
        i = i + 1;
    }
    assert(i == na || i == nb);
    if i == na {
        assert(a@.skip(i as int).len() == 0);
        true
    } else {
        assert(b@.skip(i as int).len() == 0);
        assert(a@.skip(i as int).len() > 0);
        false
    }
}

/// Each element is at most its successor.
pub open spec fn sorted_le(l: Seq<Seq<char>>) -> bool {
    forall|k: int| 0 <= k < l.len() - 1 ==> chars_le(#[trigger] l[k], l[k + 1])
}

/// `x` placed before the first element it is at most equal to.
pub open spec fn insert_ordered(x: Seq<char>, l: Seq<Seq<char>>) -> Seq<Seq<char>>
    decreases l.len(),
{
    if l.len() == 0 {
        seq![x]
    } else if chars_le(x, l[0]) {
        seq![x] + l
    } else {
        seq![l[0]] + insert_ordered(x, l.skip(1))
    }
}

/// The input sorted ascending, by repeated ordered insertion.
pub open spec fn spec_sort(l: Seq<Seq<char>>) -> Seq<Seq<char>>
    decreases l.len(),
{
    if l.len() == 0 {
        Seq::empty()
    } else {
        insert_ordered(l.last(), spec_sort(l.drop_last()))
    }
}

proof fn lemma_insert_ordered_sorted(x: Seq<char>, l: Seq<Seq<char>>)
    requires
        sorted_le(l),
    ensures
        sorted_le(insert_ordered(x, l)),
        insert_ordered(x, l).len() == l.len() + 1,
    decreases l.len(),
{
    if l.len() == 0 {
    } else if chars_le(x, l[0]) {
        let r = seq![x] + l;
        assert forall|k: int| 0 <= k < r.len() - 1 implies chars_le(#[trigger] r[k], r[k + 1]) by {
            if k == 0 {
                assert(r[0] == x && r[1] == l[0]);
            } else {
                assert(r[k] == l[k - 1] && r[k + 1] == l[k]);
            }
        }
    } else {
        lemma_chars_le_total(x, l[0]);
        assert forall|k: int| 0 <= k < l.skip(1).len() - 1 implies chars_le(
            #[trigger] l.skip(1)[k],
            l.skip(1)[k + 1],
        ) by {
            assert(l.skip(1)[k] == l[k + 1]);
            assert(l.skip(1)[k + 1] == l[k + 2]);
        }
        lemma_insert_ordered_sorted(x, l.skip(1));
        let r2 = insert_ordered(x, l.skip(1));
        let r = seq![l[0]] + r2;
        assert(chars_le(l[0], r2[0])) by {
            if l.skip(1).len() == 0 {
                assert(r2 =~= seq![x]);
            } else if chars_le(x, l.skip(1)[0]) {
                assert(r2 == seq![x] + l.skip(1));
                assert(r2[0] == x);
            } else {
                assert(r2 == seq![l.skip(1)[0]] + insert_ordered(x, l.skip(1).skip(1)));
                assert(r2[0] == l.skip(1)[0]);
                assert(l.skip(1)[0] == l[1]);
            }
        }
        assert forall|k: int| 0 <= k < r.len() - 1 implies chars_le(#[trigger] r[k], r[k + 1]) by {
            if k == 0 {
                assert(r[0] == l[0] && r[1] == r2[0]);
            } else {
                assert(r[k] == r2[k - 1] && r[k + 1] == r2[k]);
                assert(chars_le(r2[k - 1], r2[k]));
            }
        }
    }
}

proof fn lemma_insert_ordered_multiset(x: Seq<char>, l: Seq<Seq<char>>)
    ensures
        insert_ordered(x, l).to_multiset() == l.to_multiset().insert(x),
    decreases l.len(),
{
    broadcast use vstd::seq_lib::group_to_multiset_ensures;
    broadcast use vstd::multiset::group_multiset_axioms;

    if l.len() == 0 {
        assert(insert_ordered(x, l) =~= l.push(x));
    } else if chars_le(x, l[0]) {
        vstd::seq_lib::lemma_multiset_commutative(seq![x], l);
        assert(seq![x] =~= Seq::<Seq<char>>::empty().push(x));
        assert(Seq::<Seq<char>>::empty().to_multiset() =~= Multiset::<Seq<char>>::empty());
        assert(seq![x].to_multiset() =~= Multiset::<Seq<char>>::empty().insert(x));
        assert((seq![x] + l).to_multiset() =~= l.to_multiset().insert(x));
    } else {
        lemma_insert_ordered_multiset(x, l.skip(1));
        let r2 = insert_ordered(x, l.skip(1));
        vstd::seq_lib::lemma_multiset_commutative(seq![l[0]], r2);
        vstd::seq_lib::lemma_multiset_commutative(seq![l[0]], l.skip(1));
        assert(l =~= seq![l[0]] + l.skip(1));
        assert((seq![l[0]] + r2).to_multiset() =~= l.to_multiset().insert(x));
    }
}

/// The sorted sequence is ascending.
pub proof fn lemma_sort_sorted(l: Seq<Seq<char>>)
    ensures
        sorted_le(spec_sort(l)),
    decreases l.len(),
{
    if l.len() > 0 {
        lemma_sort_sorted(l.drop_last());
        lemma_insert_ordered_sorted(l.last(), spec_sort(l.drop_last()));
    }
}

/// Sorting permutes: the sorted sequence holds exactly the input's
/// elements, multiplicities included.
pub proof fn lemma_sort_permutes(l: Seq<Seq<char>>)
    ensures
        spec_sort(l).to_multiset() == l.to_multiset(),
    decreases l.len(),
{
    broadcast use vstd::seq_lib::group_to_multiset_ensures;

    if l.len() > 0 {
        lemma_sort_permutes(l.drop_last());
        lemma_insert_ordered_multiset(l.last(), spec_sort(l.drop_last()));
        assert(l.drop_last().push(l.last()) =~= l);
        assert(l.drop_last().push(l.last()).to_multiset() =~= l.drop_last().to_multiset().insert(
            l.last(),
        ));
    }
}

fn insert_string_ordered(x: String, l: Vec<String>) -> (r: Vec<String>)
    ensures
        r.deep_view() == insert_ordered(x@, l.deep_view()),
    decreases l@.len(),
{
    let ghost xv = x@;
    let ghost lv = l.deep_view();
    if l.len() == 0 {
        let mut v: Vec<String> = Vec::new();
        v.push(x);
        assert(v.deep_view() =~= seq![xv]);
        v
    } else if str_le(x.as_str(), l[0].as_str()) {
        assert(l[0int]@ == lv[0int]);
        let mut v = l;
        v.insert(0, x);
        assert(v.deep_view() =~= seq![xv] + lv);
        v
    } else {
        assert(l[0int]@ == lv[0int]);
        let mut v = l;
        let head = v.remove(0);
        assert(v.deep_view() =~= lv.skip(1));
        let ghost hv = head@;
        let mut r = insert_string_ordered(x, v);
        r.insert(0, head);
        assert(r.deep_view() =~= seq![hv] + insert_ordered(xv, lv.skip(1)));
        r
    }
}

/// Sorts strings ascending, as `spec_sort` describes.
pub fn sort_strings(names: &Vec<String>) -> (r: Vec<String>)
    ensures
        r.deep_view() == spec_sort(names.deep_view()),
{
    let ghost nv = names.deep_view();
    let mut out: Vec<String> = Vec::new();
    let n = names.len();
    let mut k: usize = 0;
    assert(out.deep_view() =~= spec_sort(nv.take(0int)));
    while k < n
        invariant
            0 <= k <= n,
            n == names@.len(),
            nv == names.deep_view(),
            nv.len() == n,
            out.deep_view() == spec_sort(nv.take(k as int)),
        decreases n - k,
    {
        assert(names[k as int]@ == nv[k as int]);
        out = insert_string_ordered(names[k].clone(), out);
        proof {
            assert(nv.take(k + 1).drop_last() =~= nv.take(k as int));
            assert(nv.take(k + 1).last() == nv[k as int]);
        }
        k = k + 1;
    }
    assert(nv.take(n as int) =~= nv);
    out
}

} // verus!
