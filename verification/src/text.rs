use vstd::prelude::*;
use vstd::string::{StringExecFns, StrSliceExecFns};

verus! {

/// The character of the decimal digit `d`.
pub open spec fn digit_char(d: nat) -> char {
    (d + 48) as char
}

/// The decimal numeral of `n`, without leading zeros.
pub open spec fn decimal(n: nat) -> Seq<char>
    decreases n,
{
    if n < 10 {
        seq![digit_char(n)]
    } else {
        decimal(n / 10).push(digit_char(n % 10))
    }
}

/// Appends `c` to `s` (`String::push`).
#[verifier::external_body]
pub(crate) fn push_char(s: &mut String, c: char)
    ensures
        final(s)@ == old(s)@.push(c),
{
    s.push(c);
}

/// Appends the decimal numeral of `n` to `s`.
pub fn push_decimal(s: &mut String, n: u32)
    ensures
        final(s)@ == old(s)@ + decimal(n as nat),
    decreases n,
{
    if n >= 10 {
        push_decimal(s, n / 10);
    }
    let d = (n % 10) as u8;
    let c = (d + 48) as char;
    push_char(s, c);
    assert(old(s)@ + decimal(n as nat) =~= if n >= 10 {
        (old(s)@ + decimal((n / 10) as nat)).push(digit_char((n % 10) as nat))
    } else {
        old(s)@.push(digit_char(n as nat))
    });
}

/// Appends the string `t` to `s`.
pub fn push_str(s: &mut String, t: &str)
    ensures
        final(s)@ == old(s)@ + t@,
{
    s.append(t);
}

/// The lower-case character of the hexadecimal digit `d`.
pub open spec fn hex_digit_char(d: nat) -> char {
    if d < 10 { (d + 48) as char } else { (d + 87) as char }
}

/// The lower-case hexadecimal numeral of `n`, without leading zeros.
pub open spec fn hex(n: nat) -> Seq<char>
    decreases n,
{
    if n < 16 {
        seq![hex_digit_char(n)]
    } else {
        hex(n / 16).push(hex_digit_char(n % 16))
    }
}

/// `digits` preceded by as many zeros as it takes to make `width` characters.
pub open spec fn zero_padded(digits: Seq<char>, width: nat) -> Seq<char> {
    if digits.len() < width {
        Seq::new((width - digits.len()) as nat, |i: int| '0') + digits
    } else {
        digits
    }
}

/// Appends the lower-case hexadecimal numeral of `n` to `s`.
pub fn push_hex(s: &mut String, n: u32)
    ensures
        final(s)@ == old(s)@ + hex(n as nat),
    decreases n,
{
    if n >= 16 {
        push_hex(s, n / 16);
    }
    let d = (n % 16) as u8;
    let c = if d < 10 { (d + 48) as char } else { (d + 87) as char };
    push_char(s, c);
    assert(old(s)@ + hex(n as nat) =~= if n >= 16 {
        (old(s)@ + hex((n / 16) as nat)).push(hex_digit_char((n % 16) as nat))
    } else {
        old(s)@.push(hex_digit_char(n as nat))
    });
}

/// Appends `count` zeros to `s`.
pub fn push_zeros(s: &mut String, count: usize)
    ensures
        final(s)@ == old(s)@ + Seq::new(count as nat, |i: int| '0'),
{
    let ghost start = s@;
    let mut i: usize = 0;
    while i < count
        invariant
            i <= count,
            s@ == start + Seq::new(i as nat, |k: int| '0'),
        decreases count - i,
    {
        push_char(s, '0');
        i = i + 1;
        assert(start + Seq::new(i as nat, |k: int| '0') =~= (start + Seq::new((i - 1) as nat, |k: int| '0')).push('0'));
    }
}

/// Bounds on the number of decimal digits of `n`.
pub proof fn lemma_decimal_len(n: nat)
    ensures
        decimal(n).len() >= 1,
        n < 10 ==> decimal(n).len() == 1,
        n < 100 ==> decimal(n).len() <= 2,
        n < 1000 ==> decimal(n).len() <= 3,
    decreases n,
{
    if n >= 10 {
        lemma_decimal_len(n / 10);
    }
}

/// Bounds on the number of hexadecimal digits of `n`.
pub proof fn lemma_hex_len(n: nat)
    ensures
        hex(n).len() >= 1,
        n < 16 ==> hex(n).len() == 1,
        n < 256 ==> hex(n).len() <= 2,
        n < 4096 ==> hex(n).len() <= 3,
        n < 65536 ==> hex(n).len() <= 4,
    decreases n,
{
    if n >= 16 {
        lemma_hex_len(n / 16);
    }
}

/// Appends the decimal numeral of `n`, zero-padded to three characters, to `s`.
pub fn push_decimal3(s: &mut String, n: u8)
    ensures
        final(s)@ == old(s)@ + zero_padded(decimal(n as nat), 3),
{
    proof {
        lemma_decimal_len(n as nat);
    }
    let zeros: usize = if n < 10 { 2 } else if n < 100 { 1 } else { 0 };
    let ghost start = s@;
    push_zeros(s, zeros);
    push_decimal(s, n as u32);
    proof {
        if n >= 100 {
            assert(decimal(n as nat).len() == 3) by {
                reveal_with_fuel(decimal, 3);
            }
        } else if n >= 10 {
            assert(decimal(n as nat).len() == 2) by {
                reveal_with_fuel(decimal, 2);
            }
        }
        assert(s@ =~= start + zero_padded(decimal(n as nat), 3));
    }
}

/// Appends the lower-case hexadecimal numeral of `n`, zero-padded to four characters, to `s`.
pub fn push_hex4(s: &mut String, n: u16)
    ensures
        final(s)@ == old(s)@ + zero_padded(hex(n as nat), 4),
{
    proof {
        lemma_hex_len(n as nat);
    }
    let zeros: usize = if n < 16 { 3 } else if n < 256 { 2 } else if n < 4096 { 1 } else { 0 };
    let ghost start = s@;
    push_zeros(s, zeros);
    push_hex(s, n as u32);
    proof {
        if n >= 4096 {
            assert(hex(n as nat).len() == 4) by {
                reveal_with_fuel(hex, 4);
            }
        } else if n >= 256 {
            assert(hex(n as nat).len() == 3) by {
                reveal_with_fuel(hex, 3);
            }
        } else if n >= 16 {
            assert(hex(n as nat).len() == 2) by {
                reveal_with_fuel(hex, 2);
            }
        }
        assert(s@ =~= start + zero_padded(hex(n as nat), 4));
    }
}

/// `s` without its leading `0x` prefixes (`str::trim_start_matches("0x")`).
pub open spec fn strip_hex_prefix(s: Seq<char>) -> Seq<char>
    decreases s.len(),
{
    if s.len() >= 2 && s[0] == '0' && s[1] == 'x' {
        strip_hex_prefix(s.skip(2))
    } else {
        s
    }
}

/// The value of a hexadecimal digit of either case.
pub open spec fn hex_digit_value(c: char) -> Option<nat> {
    if '0' <= c && c <= '9' {
        Some((c as nat - 48) as nat)
    } else if 'a' <= c && c <= 'f' {
        Some((c as nat - 87) as nat)
    } else if 'A' <= c && c <= 'F' {
        Some((c as nat - 55) as nat)
    } else {
        None
    }
}

pub open spec fn all_hex_digits(s: Seq<char>) -> bool {
    forall|i: int| 0 <= i < s.len() ==> (#[trigger] hex_digit_value(s[i])) is Some
}

/// The number that the hexadecimal digits `s` denote.
pub open spec fn hex_value(s: Seq<char>) -> nat
    decreases s.len(),
{
    if s.len() == 0 {
        0
    } else {
        hex_value(s.drop_last()) * 16 + hex_digit_value(s.last()).unwrap()
    }
}

/// What `u16::from_str_radix(s, 16)` accepts: an optional `+`, then one or more hexadecimal
/// digits whose value fits in 16 bits.
pub open spec fn parse_hex_u16(s: Seq<char>) -> Option<u16> {
    let body = if s.len() > 0 && s[0] == '+' { s.drop_first() } else { s };
    if body.len() > 0 && all_hex_digits(body) && hex_value(body) <= 0xffff {
        Some(hex_value(body) as u16)
    } else {
        None
    }
}

fn hex_digit(c: char) -> (r: Option<u32>)
    ensures
        match hex_digit_value(c) {
            Some(v) => r == Some(v as u32),
            None => r is None,
        },
{
    if '0' <= c && c <= '9' {
        Some((c as u32) - 48)
    } else if 'a' <= c && c <= 'f' {
        Some((c as u32) - 87)
    } else if 'A' <= c && c <= 'F' {
        Some((c as u32) - 55)
    } else {
        None
    }
}

/// Capping the running value at 0x10000 before a hexadecimal step changes nothing.
proof fn lemma_capped_step(v: nat, d: nat)
    requires
        d < 16,
    ensures
        (if v * 16 + d < 0x10000 { v * 16 + d } else { 0x10000 }) == ({
            let c = if v < 0x10000 { v } else { 0x10000 };
            if c * 16 + d < 0x10000 { c * 16 + d } else { 0x10000 }
        }),
{
    if v >= 0x10000 {
        assert(v * 16 >= 0x10000 * 16) by (nonlinear_arith)
            requires
                v >= 0x10000,
        ;
    }
}

/// Parses a 16-bit hexadecimal id after removing its `0x` prefixes, as
/// `u16::from_str_radix(s.trim_start_matches("0x"), 16)` does.
pub fn parse_hex_id(s: &str) -> (r: Option<u16>)
    ensures
        r == parse_hex_u16(strip_hex_prefix(s@)),
{
    let n = s.unicode_len();
    let mut start: usize = 0;
    assert(s@.skip(0) =~= s@);
    while n - start >= 2 && s.get_char(start) == '0' && s.get_char(start + 1) == 'x'
        invariant
            n == s@.len(),
            start <= n,
            strip_hex_prefix(s@) == strip_hex_prefix(s@.skip(start as int)),
        decreases n - start,
    {
        assert(s@.skip(start as int).skip(2) =~= s@.skip(start + 2));
        start = start + 2;
    }
    let ghost rest = s@.skip(start as int);
    assert(strip_hex_prefix(s@) == rest);
    if start < n && s.get_char(start) == '+' {
        start = start + 1;
    }
    let ghost body = s@.skip(start as int);
    assert(body == if rest.len() > 0 && rest[0] == '+' { rest.drop_first() } else { rest });
    if start >= n {
        return None;
    }
    let mut acc: u32 = 0;
    let mut i: usize = start;
    while i < n
        invariant
            n == s@.len(),
            start <= i <= n,
            body == s@.skip(start as int),
            rest == strip_hex_prefix(s@),
            body == (if rest.len() > 0 && rest[0] == '+' { rest.drop_first() } else { rest }),
            all_hex_digits(s@.subrange(start as int, i as int)),
            acc == (if hex_value(s@.subrange(start as int, i as int)) < 0x10000 {
                hex_value(s@.subrange(start as int, i as int))
            } else {
                0x10000
            }),
        decreases n - i,
    {
        let c = s.get_char(i);
        match hex_digit(c) {
            None => {
                assert(body[i - start] == c);
                assert(hex_digit_value(body[i - start]) is None);
                assert(!all_hex_digits(body));
                assert(parse_hex_u16(rest) is None);
                return None;
            },
            Some(d) => {
                let ghost prev = s@.subrange(start as int, i as int);
                let ghost next = s@.subrange(start as int, i + 1);
                assert(next.drop_last() =~= prev);
                assert(next.last() == c);
                proof {
                    lemma_capped_step(hex_value(prev), d as nat);
                }
                let v = acc * 16 + d;
                acc = if v < 0x10000 { v } else { 0x10000 };
                i = i + 1;
                assert forall|k: int| 0 <= k < next.len() implies (#[trigger] hex_digit_value(next[k])) is Some by {
                    if k < prev.len() {
                        assert(next[k] == prev[k]);
                    }
                }
            },
        }
    }
    assert(s@.subrange(start as int, n as int) =~= body);
    if acc <= 0xffff {
        Some(acc as u16)
    } else {
        None
    }
}

/// `pat` occurs in `s` at position `i`.
pub open spec fn occurs_at(s: Seq<char>, pat: Seq<char>, i: int) -> bool {
    0 <= i && i + pat.len() <= s.len() && s.subrange(i, i + pat.len()) == pat
}

/// `pat` occurs somewhere in `s` (`str::contains`).
pub open spec fn contains_text(s: Seq<char>, pat: Seq<char>) -> bool {
    exists|i: int| #[trigger] occurs_at(s, pat, i)
}

/// The characters of `s`.
pub fn chars_of(s: &str) -> (v: Vec<char>)
    ensures
        v@ == s@,
{
    let n = s.unicode_len();
    let mut v: Vec<char> = Vec::new();
    let mut i: usize = 0;
    while i < n
        invariant
            n == s@.len(),
            i <= n,
            v@ == s@.take(i as int),
        decreases n - i,
    {
        v.push(s.get_char(i));
        i = i + 1;
        assert(s@.take(i as int) =~= s@.take(i - 1).push(s@[i - 1]));
    }
    assert(s@.take(i as int) =~= s@);
    v
}

/// Whether `pat` occurs in `s` at position `i`.
pub fn occurs_at_exec(s: &Vec<char>, pat: &Vec<char>, i: usize) -> (r: bool)
    ensures
        r == occurs_at(s@, pat@, i as int),
{
    let slen = s.len();
    if i > slen || pat.len() > slen - i {
        return false;
    }
    let mut k: usize = 0;
    while k < pat.len()
        invariant
            slen == s@.len(),
            i + pat@.len() <= s@.len(),
            k <= pat@.len(),
            forall|j: int| 0 <= j < k ==> s@[i + j] == pat@[j],
        decreases pat@.len() - k,
    {
        if s[i + k] != pat[k] {
            assert(s@.subrange(i as int, i + pat@.len())[k as int] != pat@[k as int]);
            return false;
        }
        k = k + 1;
    }
    assert(s@.subrange(i as int, i + pat@.len()) =~= pat@);
    true
}

/// Whether `pat` occurs in `s`.
pub fn contains_chars(s: &Vec<char>, pat: &Vec<char>) -> (r: bool)
    ensures
        r == contains_text(s@, pat@),
{
    let n = s.len();
    let mut i: usize = 0;
    while i < n
        invariant
            n == s@.len(),
            i <= n,
            forall|j: int| 0 <= j < i ==> !occurs_at(s@, pat@, j),
        decreases n - i,
    {
        if occurs_at_exec(s, pat, i) {
            return true;
        }
        i = i + 1;
    }
    if occurs_at_exec(s, pat, n) {
        return true;
    }
    assert forall|j: int| !(#[trigger] occurs_at(s@, pat@, j)) by {
        if 0 <= j < n {
        }
    }
    false
}

/// Whether `pat` occurs in `s`.
pub fn contains_str(s: &str, pat: &str) -> (r: bool)
    ensures
        r == contains_text(s@, pat@),
{
    contains_chars(&chars_of(s), &chars_of(pat))
}

/// The decimal numeral of a signed number, with a leading `-` where it is negative.
pub open spec fn signed_decimal(v: int) -> Seq<char> {
    if v < 0 { "-"@ + decimal((-v) as nat) } else { decimal(v as nat) }
}

/// Appends the decimal numeral of `v` to `s`.
pub fn push_signed_decimal(s: &mut String, v: i32)
    ensures
        final(s)@ == old(s)@ + signed_decimal(v as int),
{
    if v < 0 {
        push_str(s, "-");
        let m: i64 = 0i64 - (v as i64);
        push_decimal(s, m as u32);
    } else {
        push_decimal(s, v as u32);
    }
}

/// The characters that `char::is_whitespace` accepts.
pub open spec fn is_space(c: char) -> bool {
    ||| c == ' '
    ||| ('\t' <= c && c <= '\r')
    ||| c == '\u{85}'
    ||| c == '\u{a0}'
    ||| c == '\u{1680}'
    ||| ('\u{2000}' <= c && c <= '\u{200a}')
    ||| c == '\u{2028}'
    ||| c == '\u{2029}'
    ||| c == '\u{202f}'
    ||| c == '\u{205f}'
    ||| c == '\u{3000}'
}

pub fn is_space_exec(c: char) -> (r: bool)
    ensures
        r == is_space(c),
{
    c == ' ' || ('\t' <= c && c <= '\r') || c == '\u{85}' || c == '\u{a0}' || c == '\u{1680}'
        || ('\u{2000}' <= c && c <= '\u{200a}') || c == '\u{2028}' || c == '\u{2029}'
        || c == '\u{202f}' || c == '\u{205f}' || c == '\u{3000}'
}

/// The number of characters before the first whitespace character of `s`, or all of them.
pub open spec fn token_len(s: Seq<char>) -> nat
    decreases s.len(),
{
    if s.len() == 0 || is_space(s[0]) { 0 } else { 1 + token_len(s.drop_first()) }
}

/// A word is no longer than the text it starts, and a text that starts with a non-space
/// character starts with a word of at least one character.
pub proof fn lemma_token_len_bound(s: Seq<char>)
    ensures
        token_len(s) <= s.len(),
        s.len() > 0 && !is_space(s[0]) ==> token_len(s) >= 1,
    decreases s.len(),
{
    if s.len() > 0 && !is_space(s[0]) {
        lemma_token_len_bound(s.drop_first());
    }
}

/// The whitespace-separated words of `s` (`str::split_whitespace`).
pub open spec fn tokens(s: Seq<char>) -> Seq<Seq<char>>
    decreases s.len(),
{
    if s.len() == 0 {
        Seq::empty()
    } else if is_space(s[0]) {
        tokens(s.drop_first())
    } else {
        proof {
            lemma_token_len_bound(s);
        }
        seq![s.take(token_len(s) as int)] + tokens(s.skip(token_len(s) as int))
    }
}

/// What `str::parse::<u32>` accepts: an optional `+`, then one or more decimal digits whose
/// value fits in 32 bits.
pub open spec fn parse_u32(s: Seq<char>) -> Option<u32> {
    let body = if s.len() > 0 && s[0] == '+' { s.drop_first() } else { s };
    if body.len() > 0 && all_decimal_digits(body) && decimal_value(body) <= u32::MAX {
        Some(decimal_value(body) as u32)
    } else {
        None
    }
}

pub open spec fn is_digit(c: char) -> bool {
    '0' <= c && c <= '9'
}

pub open spec fn all_decimal_digits(s: Seq<char>) -> bool {
    forall|i: int| 0 <= i < s.len() ==> #[trigger] is_digit(s[i])
}

/// The number that the decimal digits `s` denote.
pub open spec fn decimal_value(s: Seq<char>) -> nat
    decreases s.len(),
{
    if s.len() == 0 {
        0
    } else {
        decimal_value(s.drop_last()) * 10 + (s.last() as nat - 48) as nat
    }
}

/// The decimal numeral of `n` consists of decimal digits and denotes `n`.
pub proof fn lemma_decimal_digits(n: nat)
    ensures
        all_decimal_digits(decimal(n)),
        decimal_value(decimal(n)) == n,
    decreases n,
{
    if n < 10 {
        assert(decimal(n)[0] == digit_char(n));
        assert(decimal(n).drop_last() =~= Seq::<char>::empty());
        assert(digit_char(n) as nat == n + 48);
        assert(decimal(n).last() == digit_char(n));
        assert(decimal_value(decimal(n)) == decimal_value(Seq::<char>::empty()) * 10 + (digit_char(n) as nat - 48) as nat);
    } else {
        lemma_decimal_digits(n / 10);
        let s = decimal(n);
        assert(digit_char(n % 10) as nat == n % 10 + 48);
        assert(s.drop_last() =~= decimal(n / 10));
        assert(s.last() == digit_char(n % 10));
        assert forall|i: int| 0 <= i < s.len() implies #[trigger] is_digit(s[i]) by {
            if i < s.len() - 1 {
                assert(s[i] == decimal(n / 10)[i]);
            }
        }
    }
}

/// The decimal numeral of `n` parses back to `n` (`str::parse::<u32>`).
pub proof fn lemma_decimal_parses(n: nat)
    requires
        n <= u32::MAX,
    ensures
        parse_u32(decimal(n)) == Some(n as u32),
{
    lemma_decimal_digits(n);
    assert(is_digit(decimal(n)[0]));
}

/// `s` ends with `suffix` (`str::ends_with`).
pub open spec fn ends_with(s: Seq<char>, suffix: Seq<char>) -> bool {
    s.len() >= suffix.len() && s.skip(s.len() - suffix.len()) == suffix
}

/// The number of characters of `s` before the first `c`, or all of them.
pub open spec fn char_index(s: Seq<char>, c: char) -> nat
    decreases s.len(),
{
    if s.len() == 0 || s[0] == c { 0 } else { 1 + char_index(s.drop_first(), c) }
}

/// `s` split at its first `c` (`str::split_once`): the text before and the text after, or `None`
/// where `s` holds no `c`.
pub open spec fn split_once(s: Seq<char>, c: char) -> Option<(Seq<char>, Seq<char>)> {
    let k = char_index(s, c);
    if k < s.len() { Some((s.take(k as int), s.skip(k + 1int))) } else { None }
}

/// Where the first `c` of `s` is at `k`, the text before `k` holds none.
pub proof fn lemma_char_index_at(s: Seq<char>, c: char, k: int)
    requires
        0 <= k < s.len(),
        s[k] == c,
        forall|i: int| 0 <= i < k ==> s[i] != c,
    ensures
        char_index(s, c) == k,
    decreases k,
{
    if k > 0 {
        assert forall|i: int| 0 <= i < k - 1 implies s.drop_first()[i] != c by {
            assert(s.drop_first()[i] == s[i + 1]);
        }
        lemma_char_index_at(s.drop_first(), c, k - 1);
    }
}

/// Capping the running value just above `u32::MAX` before a decimal step changes nothing.
proof fn lemma_capped_dec_step(v: nat, d: nat)
    requires
        d < 10,
    ensures
        (if v * 10 + d <= u32::MAX { v * 10 + d } else { 0x1_0000_0000nat }) == ({
            let c = if v <= u32::MAX { v } else { 0x1_0000_0000nat };
            if c * 10 + d <= u32::MAX { c * 10 + d } else { 0x1_0000_0000nat }
        }),
{
    if v > u32::MAX {
        assert(v * 10 >= (0x1_0000_0000nat) * 10) by (nonlinear_arith)
            requires
                v > u32::MAX,
        ;
    }
}

/// Parses `s[lo..hi]` as `str::parse::<u32>` does.
pub fn parse_u32_at(s: &Vec<char>, lo: usize, hi: usize) -> (r: Option<u32>)
    requires
        lo <= hi <= s@.len(),
    ensures
        r == parse_u32(s@.subrange(lo as int, hi as int)),
{
    let ghost whole = s@.subrange(lo as int, hi as int);
    let mut start = lo;
    if start < hi && s[start] == '+' {
        start = start + 1;
    }
    let ghost body = s@.subrange(start as int, hi as int);
    assert(body =~= if whole.len() > 0 && whole[0] == '+' { whole.drop_first() } else { whole });
    if start >= hi {
        return None;
    }
    let mut acc: u64 = 0;
    let mut i: usize = start;
    while i < hi
        invariant
            lo <= start <= i <= hi <= s@.len(),
            body == s@.subrange(start as int, hi as int),
            whole == s@.subrange(lo as int, hi as int),
            body == (if whole.len() > 0 && whole[0] == '+' { whole.drop_first() } else { whole }),
            all_decimal_digits(s@.subrange(start as int, i as int)),
            acc == (if decimal_value(s@.subrange(start as int, i as int)) <= u32::MAX {
                decimal_value(s@.subrange(start as int, i as int))
            } else {
                0x1_0000_0000nat
            }),
        decreases hi - i,
    {
        let c = s[i];
        if !('0' <= c && c <= '9') {
            assert(body[i - start] == c);
            assert(!is_digit(body[i - start]));
            assert(!all_decimal_digits(body));
            assert(parse_u32(whole) is None);
            return None;
        }
        let ghost prev = s@.subrange(start as int, i as int);
        let ghost next = s@.subrange(start as int, i + 1);
        assert(next.drop_last() =~= prev);
        assert(next.last() == c);
        let d = (c as u32 - 48) as u64;
        proof {
            lemma_capped_dec_step(decimal_value(prev), d as nat);
        }
        let v = acc * 10 + d;
        acc = if v <= 0xffff_ffff { v } else { 0x1_0000_0000 };
        i = i + 1;
        assert forall|k: int| 0 <= k < next.len() implies #[trigger] is_digit(next[k]) by {
            if k < prev.len() {
                assert(next[k] == prev[k]);
            }
        }
    }
    assert(s@.subrange(start as int, hi as int) =~= body);
    if acc <= 0xffff_ffff {
        Some(acc as u32)
    } else {
        None
    }
}

} // verus!
