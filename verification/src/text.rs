//! Character classes, trimming, decimal and hexadecimal formatting and integer
//! parsing on strings, each specified over the character sequence of the string.

use vstd::prelude::*;

verus! {

/// The Unicode `White_Space` property, which `char::is_whitespace` reports.
pub open spec fn is_unicode_whitespace(c: char) -> bool {
    ||| ('\u{9}' <= c && c <= '\u{d}')
    ||| c == ' '
    ||| c == '\u{85}'
    ||| c == '\u{a0}'
    ||| c == '\u{1680}'
    ||| ('\u{2000}' <= c && c <= '\u{200a}')
    ||| c == '\u{2028}'
    ||| c == '\u{2029}'
    ||| c == '\u{202f}'
    ||| c == '\u{205f}'
    ||| c == '\u{3000}'
}

/// The general category `Cc`, which `char::is_control` reports.
pub open spec fn is_control(c: char) -> bool {
    c <= '\u{1f}' || ('\u{7f}' <= c && c <= '\u{9f}')
}

pub fn is_whitespace_char(c: char) -> (r: bool)
    ensures
        r == is_unicode_whitespace(c),
{
    ('\u{9}' <= c && c <= '\u{d}') || c == ' ' || c == '\u{85}' || c == '\u{a0}' || c == '\u{1680}'
        || ('\u{2000}' <= c && c <= '\u{200a}') || c == '\u{2028}' || c == '\u{2029}' || c
        == '\u{202f}' || c == '\u{205f}' || c == '\u{3000}'
}

pub fn is_control_char(c: char) -> (r: bool)
    ensures
        r == is_control(c),
{
    c <= '\u{1f}' || ('\u{7f}' <= c && c <= '\u{9f}')
}

/// Number of leading characters of `s` that satisfy `p`.
pub open spec fn leading_count(s: Seq<char>, p: spec_fn(char) -> bool) -> nat
    decreases s.len(),
{
    if s.len() > 0 && p(s[0]) {
        1 + leading_count(s.drop_first(), p)
    } else {
        0
    }
}

/// Number of trailing characters of `s` that satisfy `p`.
pub open spec fn trailing_count(s: Seq<char>, p: spec_fn(char) -> bool) -> nat
    decreases s.len(),
{
    if s.len() > 0 && p(s.last()) {
        1 + trailing_count(s.drop_last(), p)
    } else {
        0
    }
}

/// `s` without its leading and trailing characters that satisfy `p`
/// (what `str::trim_matches` returns for a predicate).
pub open spec fn trim_by(s: Seq<char>, p: spec_fn(char) -> bool) -> Seq<char> {
    let front = leading_count(s, p);
    if front == s.len() {
        Seq::empty()
    } else {
        s.subrange(front as int, s.len() - trailing_count(s, p))
    }
}

pub open spec fn ws_pred() -> spec_fn(char) -> bool {
    |c: char| is_unicode_whitespace(c)
}

pub open spec fn dot_pred() -> spec_fn(char) -> bool {
    |c: char| c == '.'
}

/// `str::trim`: `s` without leading and trailing white space.
pub open spec fn trim_spec(s: Seq<char>) -> Seq<char> {
    trim_by(s, ws_pred())
}

proof fn lemma_leading_count_bound(s: Seq<char>, p: spec_fn(char) -> bool)
    ensures
        leading_count(s, p) <= s.len(),
        forall|i: int| 0 <= i < leading_count(s, p) ==> p(#[trigger] s[i]),
        leading_count(s, p) < s.len() ==> !p(s[leading_count(s, p) as int]),
    decreases s.len(),
{
    if s.len() > 0 && p(s[0]) {
        lemma_leading_count_bound(s.drop_first(), p);
        assert forall|i: int| 0 <= i < leading_count(s, p) implies p(#[trigger] s[i]) by {
            if i > 0 {
                assert(s[i] == s.drop_first()[i - 1]);
            }
        }
    }
}

proof fn lemma_trailing_count_bound(s: Seq<char>, p: spec_fn(char) -> bool)
    ensures
        trailing_count(s, p) <= s.len(),
        forall|i: int| s.len() - trailing_count(s, p) <= i < s.len() ==> p(#[trigger] s[i]),
        trailing_count(s, p) < s.len() ==> !p(s[s.len() - 1 - trailing_count(s, p)]),
    decreases s.len(),
{
    if s.len() > 0 && p(s.last()) {
        lemma_trailing_count_bound(s.drop_last(), p);
        assert forall|i: int| s.len() - trailing_count(s, p) <= i < s.len() implies p(
            #[trigger] s[i],
        ) by {
            if i < s.len() - 1 {
                assert(s[i] == s.drop_last()[i]);
            }
        }
    }
}

/// The count of leading characters is characterised by the first index that fails `p`.
/// Every character that trimming keeps is a character of the string.
pub proof fn lemma_trim_by_from(s: Seq<char>, p: spec_fn(char) -> bool)
    ensures
        forall|i: int| 0 <= i < trim_by(s, p).len() ==> s.contains(#[trigger] trim_by(s, p)[i]),
{
    lemma_leading_count_bound(s, p);
    lemma_trailing_count_bound(s, p);
    let front = leading_count(s, p);
    let back = trailing_count(s, p);
    if front < s.len() {
        if front + back > s.len() {
            assert(p(s[front as int]));
        }
        assert forall|i: int| 0 <= i < trim_by(s, p).len() implies s.contains(#[trigger] trim_by(s, p)[i]) by {
            assert(trim_by(s, p)[i] == s[front + i]);
        }
    }
}

proof fn lemma_leading_count_is(s: Seq<char>, p: spec_fn(char) -> bool, k: int)
    requires
        0 <= k <= s.len(),
        forall|i: int| 0 <= i < k ==> p(#[trigger] s[i]),
        k < s.len() ==> !p(s[k]),
    ensures
        leading_count(s, p) == k,
    decreases s.len(),
{
    if s.len() > 0 && p(s[0]) {
        assert forall|i: int| 0 <= i < k - 1 implies p(#[trigger] s.drop_first()[i]) by {
            assert(s.drop_first()[i] == s[i + 1]);
        }
        lemma_leading_count_is(s.drop_first(), p, k - 1);
    }
}

proof fn lemma_trailing_count_is(s: Seq<char>, p: spec_fn(char) -> bool, k: int)
    requires
        0 <= k <= s.len(),
        forall|i: int| s.len() - k <= i < s.len() ==> p(#[trigger] s[i]),
        k < s.len() ==> !p(s[s.len() - 1 - k]),
    ensures
        trailing_count(s, p) == k,
    decreases s.len(),
{
    if s.len() > 0 && p(s.last()) {
        assert forall|i: int| s.len() - 1 - (k - 1) <= i < s.len() - 1 implies p(
            #[trigger] s.drop_last()[i],
        ) by {
            assert(s.drop_last()[i] == s[i]);
        }
        lemma_trailing_count_is(s.drop_last(), p, k - 1);
    }
}

/// The characters of `s`, in order.
pub(crate) fn chars_of(s: &str) -> (r: Vec<char>)
    ensures
        r@ == s@,
{
    broadcast use vstd::string::axiom_spec_iter;

    let mut r: Vec<char> = Vec::new();
    for c in it: s.chars()
        invariant
            it.seq() == s@,
            r@ == it.seq().take(it.index() as int),
    {
        r.push(c);
    }
    r
}

/// `String: FromIterator<char>`, collecting characters into a string.  The contract
/// claims that the string's characters are those of `v`, in order.
#[verifier::external_body]
pub(crate) fn string_of_chars(v: &Vec<char>) -> (r: String)
    ensures
        r@ == v@,
{
    v.iter().collect()
}

fn char_matches(c: char, Ghost(p): Ghost<spec_fn(char) -> bool>, only_ws: bool, dot: char) -> (r: bool)
    requires
        only_ws ==> p == ws_pred(),
        !only_ws ==> p == (|c: char| c == dot),
    ensures
        r == p(c),
{
    if only_ws {
        is_whitespace_char(c)
    } else {
        c == dot
    }
}

fn leading_matches(v: &Vec<char>, Ghost(p): Ghost<spec_fn(char) -> bool>, only_ws: bool, dot: char) -> (k: usize)
    requires
        only_ws ==> p == ws_pred(),
        !only_ws ==> p == (|c: char| c == dot),
    ensures
        k == leading_count(v@, p),
{
    let mut k: usize = 0;
    while k < v.len() && char_matches(v[k], Ghost(p), only_ws, dot)
        invariant
            0 <= k <= v.len(),
            forall|i: int| 0 <= i < k ==> p(#[trigger] v@[i]),
            only_ws ==> p == ws_pred(),
            !only_ws ==> p == (|c: char| c == dot),
        decreases v.len() - k,
    {
        k = k + 1;
    }
    proof {
        lemma_leading_count_is(v@, p, k as int);
    }
    k
}

fn trailing_matches(v: &Vec<char>, Ghost(p): Ghost<spec_fn(char) -> bool>, only_ws: bool, dot: char) -> (k: usize)
    requires
        only_ws ==> p == ws_pred(),
        !only_ws ==> p == (|c: char| c == dot),
    ensures
        k == trailing_count(v@, p),
{
    let mut k: usize = 0;
    while k < v.len() && char_matches(v[v.len() - 1 - k], Ghost(p), only_ws, dot)
        invariant
            0 <= k <= v.len(),
            forall|i: int| v.len() - k <= i < v.len() ==> p(#[trigger] v@[i]),
            only_ws ==> p == ws_pred(),
            !only_ws ==> p == (|c: char| c == dot),
        decreases v.len() - k,
    {
        k = k + 1;
    }
    proof {
        lemma_trailing_count_is(v@, p, k as int);
    }
    k
}

fn subvec(v: &Vec<char>, from: usize, to: usize) -> (r: Vec<char>)
    requires
        from <= to <= v.len(),
    ensures
        r@ == v@.subrange(from as int, to as int),
{
    let mut r: Vec<char> = Vec::new();
    let mut i = from;
    while i < to
        invariant
            from <= i <= to <= v.len(),
            r@ == v@.subrange(from as int, i as int),
        decreases to - i,
    {
        r.push(v[i]);
        i = i + 1;
    }
    r
}

fn trim_vec(v: &Vec<char>, only_ws: bool, dot: char) -> (r: Vec<char>)
    ensures
        only_ws ==> r@ == trim_by(v@, ws_pred()),
        !only_ws ==> r@ == trim_by(v@, |c: char| c == dot),
{
    let ghost p: spec_fn(char) -> bool = if only_ws {
        ws_pred()
    } else {
        |c: char| c == dot
    };
    let front = leading_matches(v, Ghost(p), only_ws, dot);
    if front == v.len() {
        return Vec::new();
    }
    let back = trailing_matches(v, Ghost(p), only_ws, dot);
    proof {
        lemma_leading_count_bound(v@, p);
        lemma_trailing_count_bound(v@, p);
        if front + back > v.len() {
            let j = v.len() - 1 - back;
            assert(!p(v@[front as int]));
            assert(p(v@[front as int]));
        }
    }
    subvec(v, front, v.len() - back)
}

/// `str::trim`.
pub fn trim(s: &str) -> (r: String)
    ensures
        r@ == trim_spec(s@),
{
    let v = chars_of(s);
    let t = trim_vec(&v, true, ' ');
    string_of_chars(&t)
}

/// `str::trim_matches('.')`.
pub fn trim_dots(s: &str) -> (r: String)
    ensures
        r@ == trim_by(s@, dot_pred()),
{
    let v = chars_of(s);
    let t = trim_vec(&v, false, '.');
    proof {
        assert((|c: char| c == '.') == dot_pred());
    }
    string_of_chars(&t)
}


/// The character of a digit below sixteen, lower-case for the letters.
pub open spec fn digit_char(d: nat) -> char {
    if d == 0 { '0' } else if d == 1 { '1' } else if d == 2 { '2' } else if d == 3 { '3' }
    else if d == 4 { '4' } else if d == 5 { '5' } else if d == 6 { '6' } else if d == 7 { '7' }
    else if d == 8 { '8' } else if d == 9 { '9' } else if d == 10 { 'a' } else if d == 11 { 'b' }
    else if d == 12 { 'c' } else if d == 13 { 'd' } else if d == 14 { 'e' } else { 'f' }
}

/// The decimal representation of `n`, without sign or leading zeros (`{}`).
pub open spec fn decimal(n: nat) -> Seq<char>
    decreases n,
{
    if n < 10 {
        seq![digit_char(n)]
    } else {
        decimal(n / 10) + seq![digit_char(n % 10)]
    }
}

/// The lower-case hexadecimal representation of `n` without leading zeros (`{:x}`).
pub open spec fn hex_lower(n: nat) -> Seq<char>
    decreases n,
{
    if n < 16 {
        seq![digit_char(n)]
    } else {
        hex_lower(n / 16) + seq![digit_char(n % 16)]
    }
}

/// `s` padded on the left with `'0'` up to `width` characters (`{:0width$}`).
pub open spec fn zero_padded(s: Seq<char>, width: nat) -> Seq<char> {
    if s.len() < width {
        Seq::new((width - s.len()) as nat, |i: int| '0') + s
    } else {
        s
    }
}

/// The decimal representation of a signed integer (`{}` on `i64`).
pub open spec fn signed_decimal(n: int) -> Seq<char> {
    if n < 0 {
        seq!['-'] + decimal((-n) as nat)
    } else {
        decimal(n as nat)
    }
}

fn digit_char_exec(d: u64) -> (c: char)
    requires
        d < 16,
    ensures
        c == digit_char(d as nat),
{
    match d {
        0 => '0',
        1 => '1',
        2 => '2',
        3 => '3',
        4 => '4',
        5 => '5',
        6 => '6',
        7 => '7',
        8 => '8',
        9 => '9',
        10 => 'a',
        11 => 'b',
        12 => 'c',
        13 => 'd',
        14 => 'e',
        _ => 'f',
    }
}

fn push_decimal(n: u64, out: &mut Vec<char>)
    ensures
        final(out)@ == old(out)@ + decimal(n as nat),
    decreases n,
{
    if n < 10 {
        out.push(digit_char_exec(n));
        assert(final(out)@ =~= old(out)@ + decimal(n as nat)) by {
            assert(decimal(n as nat) == seq![digit_char(n as nat)]);
        }
    } else {
        push_decimal(n / 10, out);
        out.push(digit_char_exec(n % 10));
        assert(decimal(n as nat) == decimal((n / 10) as nat) + seq![digit_char((n % 10) as nat)]);
        assert(final(out)@ =~= old(out)@ + decimal(n as nat));
    }
}

fn push_hex(n: u64, out: &mut Vec<char>)
    ensures
        final(out)@ == old(out)@ + hex_lower(n as nat),
    decreases n,
{
    if n < 16 {
        out.push(digit_char_exec(n));
        assert(final(out)@ =~= old(out)@ + hex_lower(n as nat)) by {
            assert(hex_lower(n as nat) == seq![digit_char(n as nat)]);
        }
    } else {
        push_hex(n / 16, out);
        out.push(digit_char_exec(n % 16));
        assert(hex_lower(n as nat) == hex_lower((n / 16) as nat) + seq![digit_char((n % 16) as nat)]);
        assert(final(out)@ =~= old(out)@ + hex_lower(n as nat));
    }
}

/// `n.to_string()` for an unsigned integer of up to 64 bits.
pub fn u64_to_string(n: u64) -> (r: String)
    ensures
        r@ == decimal(n as nat),
{
    let mut v: Vec<char> = Vec::new();
    push_decimal(n, &mut v);
    assert(v@ =~= decimal(n as nat));
    string_of_chars(&v)
}

/// `n.to_string()` for an `i64`.
pub fn i64_to_string(n: i64) -> (r: String)
    ensures
        r@ == signed_decimal(n as int),
{
    let mut v: Vec<char> = Vec::new();
    if n < 0 {
        v.push('-');
        let m: u64 = if n == i64::MIN {
            9223372036854775808u64
        } else {
            (-n) as u64
        };
        push_decimal(m, &mut v);
        assert(v@ =~= signed_decimal(n as int));
    } else {
        push_decimal(n as u64, &mut v);
        assert(v@ =~= signed_decimal(n as int));
    }
    string_of_chars(&v)
}

/// `format!("{:x}", n)`.
pub fn u64_to_hex(n: u64) -> (r: String)
    ensures
        r@ == hex_lower(n as nat),
{
    let mut v: Vec<char> = Vec::new();
    push_hex(n, &mut v);
    assert(v@ =~= hex_lower(n as nat));
    string_of_chars(&v)
}

/// `format!("{:016x}", n)`.
pub fn u64_to_hex16(n: u64) -> (r: String)
    ensures
        r@ == zero_padded(hex_lower(n as nat), 16),
{
    let mut digits: Vec<char> = Vec::new();
    push_hex(n, &mut digits);
    assert(digits@ =~= hex_lower(n as nat));
    let mut v: Vec<char> = Vec::new();
    let mut i: usize = digits.len();
    while i < 16
        invariant
            digits.len() <= i <= 16 || (digits.len() > 16 && i == digits.len()),
            v@ == Seq::new((i - digits.len()) as nat, |k: int| '0'),
        decreases 16 - i,
    {
        v.push('0');
        i = i + 1;
        assert(v@ =~= Seq::new((i - digits.len()) as nat, |k: int| '0'));
    }
    let mut j: usize = 0;
    let ghost zeros = v@;
    while j < digits.len()
        invariant
            0 <= j <= digits.len(),
            v@ == zeros + digits@.subrange(0, j as int),
        decreases digits.len() - j,
    {
        v.push(digits[j]);
        j = j + 1;
        assert(v@ =~= zeros + digits@.subrange(0, j as int));
    }
    assert(v@ =~= zero_padded(hex_lower(n as nat), 16)) by {
        assert(digits@.subrange(0, digits.len() as int) =~= digits@);
        if digits.len() >= 16 {
            assert(zeros =~= Seq::<char>::empty());
        }
    }
    string_of_chars(&v)
}

/// Whether `c` is an ASCII decimal digit.
pub open spec fn is_digit(c: char) -> bool {
    '0' <= c && c <= '9'
}

pub open spec fn digit_value(c: char) -> int {
    (c as int) - ('0' as int)
}

/// Whether every character of `s` is a decimal digit.
pub open spec fn all_digits(s: Seq<char>) -> bool {
    forall|i: int| 0 <= i < s.len() ==> is_digit(#[trigger] s[i])
}

/// The value of a string of decimal digits, most significant first.
pub open spec fn digits_value(s: Seq<char>) -> int
    decreases s.len(),
{
    if s.len() == 0 {
        0
    } else {
        digits_value(s.drop_last()) * 10 + digit_value(s.last())
    }
}

/// What `str::parse` gives for an unsigned integer type whose largest value is `max`:
/// an optional `+`, then one or more decimal digits whose value is at most `max`.
pub open spec fn parse_unsigned(s: Seq<char>, max: int) -> Option<int> {
    let body = if s.len() > 0 && s[0] == '+' {
        s.drop_first()
    } else {
        s
    };
    if body.len() > 0 && all_digits(body) && digits_value(body) <= max {
        Some(digits_value(body))
    } else {
        None
    }
}

/// What `str::parse::<i64>` gives: an optional `+` or `-`, then one or more decimal
/// digits, the value within the range of `i64`.
pub open spec fn parse_i64_spec(s: Seq<char>) -> Option<int> {
    if s.len() > 0 && s[0] == '-' {
        let body = s.drop_first();
        if body.len() > 0 && all_digits(body) && digits_value(body) <= 9223372036854775808 {
            Some(-digits_value(body))
        } else {
            None
        }
    } else {
        parse_unsigned(s, 9223372036854775807)
    }
}

proof fn lemma_digits_value_nonneg(s: Seq<char>)
    requires
        all_digits(s),
    ensures
        digits_value(s) >= 0,
    decreases s.len(),
{
    if s.len() > 0 {
        assert(all_digits(s.drop_last())) by {
            assert forall|i: int| 0 <= i < s.drop_last().len() implies is_digit(
                #[trigger] s.drop_last()[i],
            ) by {
                assert(s.drop_last()[i] == s[i]);
            }
        }
        lemma_digits_value_nonneg(s.drop_last());
        assert(is_digit(s[s.len() - 1]));
    }
}

/// A prefix of a digit string never has a larger value than the whole string.
proof fn lemma_digits_value_prefix(s: Seq<char>, k: int)
    requires
        all_digits(s),
        0 <= k <= s.len(),
    ensures
        digits_value(s.subrange(0, k)) <= digits_value(s),
    decreases s.len(),
{
    if k < s.len() {
        let t = s.drop_last();
        assert(all_digits(t)) by {
            assert forall|i: int| 0 <= i < t.len() implies is_digit(#[trigger] t[i]) by {
                assert(t[i] == s[i]);
            }
        }
        lemma_digits_value_prefix(t, k);
        assert(t.subrange(0, k) =~= s.subrange(0, k));
        lemma_digits_value_nonneg(t);
        assert(is_digit(s[s.len() - 1]));
    } else {
        assert(s.subrange(0, k) =~= s);
    }
}

/// Value of the digits `v[from..]`, or `None` when a character is not a digit, there
/// is no digit, or the value exceeds `max`.
fn parse_digits(v: &Vec<char>, from: usize, max: u64) -> (r: Option<u64>)
    requires
        from <= v.len(),
    ensures
        ({
            let body = v@.subrange(from as int, v.len() as int);
            match r {
                Some(x) => body.len() > 0 && all_digits(body) && digits_value(body) <= max
                    && x == digits_value(body),
                None => !(body.len() > 0 && all_digits(body) && digits_value(body) <= max),
            }
        }),
{
    let ghost body = v@.subrange(from as int, v.len() as int);
    if from == v.len() {
        return None;
    }
    let mut acc: u64 = 0;
    let mut i = from;
    while i < v.len()
        invariant
            from <= i <= v.len(),
            body == v@.subrange(from as int, v.len() as int),
            all_digits(v@.subrange(from as int, i as int)),
            acc == digits_value(v@.subrange(from as int, i as int)),
            acc <= max,
        decreases v.len() - i,
    {
        let c = v[i];
        let ghost pre = v@.subrange(from as int, i as int);
        let ghost next = v@.subrange(from as int, i + 1);
        assert(next.drop_last() =~= pre);
        if !('0' <= c && c <= '9') {
            proof {
                assert(body[i - from] == c);
            }
            return None;
        }
        let d: u64 = (c as u32 - '0' as u32) as u64;
        let wide: u128 = (acc as u128) * 10 + (d as u128);
        assert(wide == digits_value(next));
        if wide > max as u128 {
            proof {
                assert(all_digits(next));
                if all_digits(body) {
                    lemma_digits_value_prefix(body, (i + 1 - from) as int);
                    assert(body.subrange(0, (i + 1 - from) as int) =~= next);
                }
            }
            return None;
        }
        acc = wide as u64;
        i = i + 1;
    }
    assert(v@.subrange(from as int, i as int) =~= body);
    Some(acc)
}

/// `s.parse::<u64>()` for an unsigned type whose largest value is `max`.
pub fn parse_unsigned_str(s: &str, max: u64) -> (r: Option<u64>)
    ensures
        match r {
            Some(x) => parse_unsigned(s@, max as int) == Some(x as int),
            None => parse_unsigned(s@, max as int) is None,
        },
{
    let v = chars_of(s);
    let from: usize = if v.len() > 0 && v[0] == '+' {
        1
    } else {
        0
    };
    proof {
        if from == 1 {
            assert(v@.subrange(1, v.len() as int) =~= s@.drop_first());
        } else {
            assert(v@.subrange(0, v.len() as int) =~= s@);
        }
    }
    parse_digits(&v, from, max)
}

/// `s.parse::<u16>().ok()`.
pub fn parse_u16(s: &str) -> (r: Option<u16>)
    ensures
        match r {
            Some(x) => parse_unsigned(s@, 65535) == Some(x as int),
            None => parse_unsigned(s@, 65535) is None,
        },
{
    match parse_unsigned_str(s, 65535) {
        Some(x) => Some(x as u16),
        None => None,
    }
}

/// `s.parse::<usize>().ok()`.
pub fn parse_usize(s: &str) -> (r: Option<usize>)
    ensures
        match r {
            Some(x) => parse_unsigned(s@, usize::MAX as int) == Some(x as int),
            None => parse_unsigned(s@, usize::MAX as int) is None,
        },
{
    match parse_unsigned_str(s, usize::MAX as u64) {
        Some(x) => Some(x as usize),
        None => None,
    }
}

/// `s.parse::<i64>().ok()`.
pub fn parse_i64(s: &str) -> (r: Option<i64>)
    ensures
        match r {
            Some(x) => parse_i64_spec(s@) == Some(x as int),
            None => parse_i64_spec(s@) is None,
        },
{
    let v = chars_of(s);
    if v.len() > 0 && v[0] == '-' {
        proof {
            assert(v@.subrange(1, v.len() as int) =~= s@.drop_first());
        }
        match parse_digits(&v, 1, 9223372036854775808u64) {
            Some(x) => {
                if x == 9223372036854775808u64 {
                    Some(i64::MIN)
                } else {
                    Some(-(x as i64))
                }
            },
            None => None,
        }
    } else {
        match parse_unsigned_str(s, 9223372036854775807u64) {
            Some(x) => Some(x as i64),
            None => None,
        }
    }
}

/// What `str::to_lowercase` gives for a string.
pub uninterp spec fn lowercase_of(s: Seq<char>) -> Seq<char>;

/// `str::to_lowercase`; the contract claims that the result is the named
/// `lowercase_of` of the argument (Unicode lower-casing, a function of the string).
#[verifier::external_body]
pub(crate) fn to_lowercase(s: &str) -> (r: String)
    ensures
        r@ == lowercase_of(s@),
{
    s.to_lowercase()
}

/// `k` is the length of a common prefix of `a` and `b`.
pub open spec fn common_prefix(a: Seq<char>, b: Seq<char>, k: int) -> bool {
    &&& 0 <= k <= a.len()
    &&& k <= b.len()
    &&& forall|i: int| 0 <= i < k ==> #[trigger] a[i] == b[i]
}

/// Lexicographic order of character sequences by code point, which is the order of
/// `String`'s `Ord` (UTF-8 preserves code point order).
pub open spec fn lex_lt(a: Seq<char>, b: Seq<char>) -> bool {
    exists|k: int|
        #[trigger] common_prefix(a, b, k) && ((k == a.len() && k < b.len()) || (k < a.len() && k
            < b.len() && (a[k] as u32) < (b[k] as u32)))
}

pub proof fn lemma_lex_lt_irreflexive(a: Seq<char>)
    ensures
        !lex_lt(a, a),
{
}

pub proof fn lemma_lex_lt_transitive(a: Seq<char>, b: Seq<char>, c: Seq<char>)
    requires
        lex_lt(a, b),
        lex_lt(b, c),
    ensures
        lex_lt(a, c),
{
    let k1 = choose|k: int|
        #[trigger] common_prefix(a, b, k) && ((k == a.len() && k < b.len()) || (k < a.len() && k
            < b.len() && (a[k] as u32) < (b[k] as u32)));
    let k2 = choose|k: int|
        #[trigger] common_prefix(b, c, k) && ((k == b.len() && k < c.len()) || (k < b.len() && k
            < c.len() && (b[k] as u32) < (c[k] as u32)));
    if k1 < k2 {
        assert(common_prefix(a, c, k1));
    } else if k2 < k1 {
        assert(common_prefix(a, c, k2));
        assert(a[k2] == b[k2]);
    } else {
        assert(common_prefix(a, c, k1));
    }
}

/// `a < b` on strings.
pub fn str_lt(a: &str, b: &str) -> (r: bool)
    ensures
        r == lex_lt(a@, b@),
{
    let x = chars_of(a);
    let y = chars_of(b);
    let mut i: usize = 0;
    while i < x.len() && i < y.len() && x[i] == y[i]
        invariant
            0 <= i <= x.len(),
            i <= y.len(),
            common_prefix(x@, y@, i as int),
        decreases x.len() - i,
    {
        i = i + 1;
    }
    let r = if i < x.len() && i < y.len() {
        (x[i] as u32) < (y[i] as u32)
    } else {
        i == x.len() && i < y.len()
    };
    proof {
        if r {
            assert(common_prefix(x@, y@, i as int));
        } else if lex_lt(x@, y@) {
            let k = choose|k: int|
                #[trigger] common_prefix(x@, y@, k) && ((k == x@.len() && k < y@.len()) || (k
                    < x@.len() && k < y@.len() && (x@[k] as u32) < (y@[k] as u32)));
            if k < i {
                assert(x@[k] == y@[k]);
            } else if k > i {
                assert(x@[i as int] == y@[i as int]);
            }
        }
    }
    r
}

/// `a == b` on strings.
pub fn str_eq(a: &str, b: &str) -> (r: bool)
    ensures
        r == (a@ == b@),
{
    let x = chars_of(a);
    let y = chars_of(b);
    if x.len() != y.len() {
        return false;
    }
    let mut i: usize = 0;
    while i < x.len()
        invariant
            x@ == a@,
            y@ == b@,
            x.len() == y.len(),
            0 <= i <= x.len(),
            forall|k: int| 0 <= k < i ==> x@[k] == y@[k],
        decreases x.len() - i,
    {
        if x[i] != y[i] {
            assert(x@[i as int] != y@[i as int]);
            return false;
        }
        i = i + 1;
    }
    assert(x@ =~= y@);
    true
}

/// `s.strip_prefix(prefix)`: the rest of `s` after `prefix`, where `s` starts with it.
pub fn strip_prefix(s: &str, prefix: &str) -> (r: Option<String>)
    ensures
        match r {
            Some(rest) => prefix@.is_prefix_of(s@) && rest@ == s@.skip(prefix@.len() as int),
            None => !prefix@.is_prefix_of(s@),
        },
{
    let x = chars_of(s);
    let p = chars_of(prefix);
    if p.len() > x.len() {
        return None;
    }
    let mut i: usize = 0;
    while i < p.len()
        invariant
            x@ == s@,
            p@ == prefix@,
            p.len() <= x.len(),
            0 <= i <= p.len(),
            forall|k: int| 0 <= k < i ==> x@[k] == p@[k],
        decreases p.len() - i,
    {
        if x[i] != p[i] {
            assert(x@[i as int] != p@[i as int]);
            return None;
        }
        i = i + 1;
    }
    let mut rest: Vec<char> = Vec::new();
    let mut j = p.len();
    while j < x.len()
        invariant
            x@ == s@,
            p@ == prefix@,
            p.len() <= j <= x.len(),
            rest@ == x@.subrange(p.len() as int, j as int),
        decreases x.len() - j,
    {
        rest.push(x[j]);
        j = j + 1;
    }
    assert(prefix@ =~= s@.subrange(0, prefix@.len() as int));
    Some(string_of_chars(&rest))
}

} // verus!
