//! Decimal digits as text: every date format in this crate is written with
//! them, and so are the counts of a date-math expression.

use vstd::prelude::*;
use vstd::string::*;
use vstd::utf8::is_ascii_chars;

verus! {

/// `String::push` appends the given character to the end of the string.
pub assume_specification[ String::push ](s: &mut String, c: char)
    ensures
        final(s)@ == old(s)@.push(c),
;

/// The character that is written for the digit `d`.
pub open spec fn digit_char(d: int) -> char
    recommends
        0 <= d <= 9,
{
    (d + 48) as char
}

/// Whether `c` is one of `0` to `9`.
pub open spec fn is_digit(c: char) -> bool {
    48 <= c as int <= 57
}

/// The digit that `c` is written for.
pub open spec fn digit_value(c: char) -> int
    recommends
        is_digit(c),
{
    c as int - 48
}

/// `n` in two digits, zero-padded.
pub open spec fn dec2(n: int) -> Seq<char>
    recommends
        0 <= n < 100,
{
    seq![digit_char(n / 10), digit_char(n % 10)]
}

/// `n` in three digits, zero-padded.
pub open spec fn dec3(n: int) -> Seq<char>
    recommends
        0 <= n < 1000,
{
    seq![digit_char(n / 100), digit_char(n / 10 % 10), digit_char(n % 10)]
}

/// `n` in four digits, zero-padded.
pub open spec fn dec4(n: int) -> Seq<char>
    recommends
        0 <= n < 10000,
{
    seq![
        digit_char(n / 1000),
        digit_char(n / 100 % 10),
        digit_char(n / 10 % 10),
        digit_char(n % 10),
    ]
}

/// Whether the `width` characters of `s` from `at` on are all digits.
pub open spec fn digits_at(s: Seq<char>, at: int, width: int) -> bool {
    forall|i: int| at <= i < at + width ==> is_digit(#[trigger] s[i])
}

/// The number that the two digits of `s` at `at` spell.
pub open spec fn num2(s: Seq<char>, at: int) -> int {
    digit_value(s[at]) * 10 + digit_value(s[at + 1])
}

/// The number that the three digits of `s` at `at` spell.
pub open spec fn num3(s: Seq<char>, at: int) -> int {
    digit_value(s[at]) * 100 + digit_value(s[at + 1]) * 10 + digit_value(s[at + 2])
}

/// The number that the four digits of `s` at `at` spell.
pub open spec fn num4(s: Seq<char>, at: int) -> int {
    digit_value(s[at]) * 1000 + digit_value(s[at + 1]) * 100 + digit_value(s[at + 2]) * 10
        + digit_value(s[at + 3])
}

/// `n` in decimal, with as many digits as it takes and no leading zero.
pub open spec fn dec(n: nat) -> Seq<char>
    decreases n,
{
    if n < 10 {
        seq![digit_char(n as int)]
    } else {
        dec(n / 10).push(digit_char((n % 10) as int))
    }
}

/// `n` in decimal, with a `-` in front when it is negative.
pub open spec fn signed_dec(n: int) -> Seq<char> {
    if n < 0 {
        seq!['-'] + dec((-n) as nat)
    } else {
        dec(n as nat)
    }
}

/// Whether every character of `s` is a digit.
pub open spec fn all_digits(s: Seq<char>) -> bool {
    forall|i: int| 0 <= i < s.len() ==> is_digit(#[trigger] s[i])
}

/// The number that the digits of `s` spell, most significant first.
pub open spec fn digits_value(s: Seq<char>) -> nat
    decreases s.len(),
{
    if s.len() == 0 {
        0
    } else {
        (digits_value(s.drop_last()) * 10 + digit_value(s.last())) as nat
    }
}

/// Whether `s` is a number the way `dec` writes one: digits only, at least
/// one, and no leading zero but for `0` itself.
pub open spec fn is_plain_number(s: Seq<char>) -> bool {
    &&& s.len() >= 1
    &&& all_digits(s)
    &&& (s.len() == 1 || s[0] != '0')
}

/// The integer that `s` is the text of, the way `signed_dec` writes one.
pub open spec fn signed_value(s: Seq<char>) -> Option<int> {
    if is_plain_number(s) {
        Some(digits_value(s) as int)
    } else if s.len() >= 2 && s[0] == '-' && is_plain_number(s.skip(1)) && s[1] != '0' {
        Some(-(digits_value(s.skip(1)) as int))
    } else {
        None
    }
}

/// `b` holds, byte for byte, the characters of `s`.
pub open spec fn spells(b: Seq<u8>, s: Seq<char>) -> bool {
    &&& b.len() == s.len()
    &&& forall|i: int| 0 <= i < s.len() ==> (#[trigger] b[i]) as int == s[i] as int
}

/// Two digits are written as they are read.
pub proof fn lemma_dec2_num2(n: int)
    requires
        0 <= n < 100,
    ensures
        dec2(n).len() == 2,
        digits_at(dec2(n), 0, 2),
        num2(dec2(n), 0) == n,
{
}

/// Three digits are written as they are read.
pub proof fn lemma_dec3_num3(n: int)
    requires
        0 <= n < 1000,
    ensures
        dec3(n).len() == 3,
        digits_at(dec3(n), 0, 3),
        num3(dec3(n), 0) == n,
{
}

/// Four digits are written as they are read.
pub proof fn lemma_dec4_num4(n: int)
    requires
        0 <= n < 10000,
    ensures
        dec4(n).len() == 4,
        digits_at(dec4(n), 0, 4),
        num4(dec4(n), 0) == n,
{
}

/// Two digits are read as they are written.
pub proof fn lemma_num2_dec2(s: Seq<char>, at: int)
    requires
        0 <= at,
        at + 2 <= s.len(),
        digits_at(s, at, 2),
    ensures
        0 <= num2(s, at) < 100,
        dec2(num2(s, at)) == s.subrange(at, at + 2),
{
    assert(is_digit(s[at]) && is_digit(s[at + 1]));
    assert(dec2(num2(s, at)) =~= s.subrange(at, at + 2));
}

/// Three digits are read as they are written.
pub proof fn lemma_num3_dec3(s: Seq<char>, at: int)
    requires
        0 <= at,
        at + 3 <= s.len(),
        digits_at(s, at, 3),
    ensures
        0 <= num3(s, at) < 1000,
        dec3(num3(s, at)) == s.subrange(at, at + 3),
{
    assert(is_digit(s[at]) && is_digit(s[at + 1]) && is_digit(s[at + 2]));
    assert(dec3(num3(s, at)) =~= s.subrange(at, at + 3));
}

/// Four digits are read as they are written.
pub proof fn lemma_num4_dec4(s: Seq<char>, at: int)
    requires
        0 <= at,
        at + 4 <= s.len(),
        digits_at(s, at, 4),
    ensures
        0 <= num4(s, at) < 10000,
        dec4(num4(s, at)) == s.subrange(at, at + 4),
{
    assert(is_digit(s[at]) && is_digit(s[at + 1]) && is_digit(s[at + 2]) && is_digit(s[at + 3]));
    let n = num4(s, at);
    lemma_four_digits(
        digit_value(s[at]),
        digit_value(s[at + 1]),
        digit_value(s[at + 2]),
        digit_value(s[at + 3]),
    );
    let t = dec4(n);
    let p = s.subrange(at, at + 4);
    assert(t[0] == p[0]);
    assert(t[1] == p[1]);
    assert(t[2] == p[2]);
    assert(t[3] == p[3]);
    assert(t =~= p);
}

/// The digits of a number of four digits, by division.
proof fn lemma_four_digits(a: int, b: int, c: int, d: int)
    requires
        0 <= a <= 9,
        0 <= b <= 9,
        0 <= c <= 9,
        0 <= d <= 9,
    ensures
        0 <= a * 1000 + b * 100 + c * 10 + d < 10000,
        (a * 1000 + b * 100 + c * 10 + d) / 1000 == a,
        (a * 1000 + b * 100 + c * 10 + d) / 100 % 10 == b,
        (a * 1000 + b * 100 + c * 10 + d) / 10 % 10 == c,
        (a * 1000 + b * 100 + c * 10 + d) % 10 == d,
{
    let n = a * 1000 + b * 100 + c * 10 + d;
    assert(n / 10 == a * 100 + b * 10 + c);
    assert(n / 100 == a * 10 + b);
}

/// Reading digits looks at those digits only: a number reads the same in
/// the middle of a text as it does alone.
pub proof fn lemma_digits_in_place(s: Seq<char>, at: int, width: int)
    requires
        0 <= at,
        0 <= width,
        at + width <= s.len(),
    ensures
        digits_at(s, at, width) == digits_at(s.subrange(at, at + width), 0, width),
        width == 2 ==> num2(s, at) == num2(s.subrange(at, at + width), 0),
        width == 3 ==> num3(s, at) == num3(s.subrange(at, at + width), 0),
        width == 4 ==> num4(s, at) == num4(s.subrange(at, at + width), 0),
{
    let p = s.subrange(at, at + width);
    if digits_at(s, at, width) {
        assert forall|i: int| 0 <= i < width implies is_digit(#[trigger] p[i]) by {
            assert(p[i] == s[at + i]);
        }
    }
    if digits_at(p, 0, width) {
        assert forall|i: int| at <= i < at + width implies is_digit(#[trigger] s[i]) by {
            assert(p[i - at] == s[i]);
        }
    }
}

/// The bytes of `s`, when every character of it is ASCII.
pub fn ascii_bytes(s: &str) -> (r: Option<&[u8]>)
    ensures
        match r {
            Some(b) => spells(b@, s@) && is_ascii_chars(s@),
            None => !is_ascii_chars(s@),
        },
{
    if s.is_ascii() {
        proof {
            is_ascii_spec_bytes(s);
        }
        let b = s.as_bytes();
        assert(spells(b@, s@)) by {
            assert forall|i: int| 0 <= i < s@.len() implies (#[trigger] b@[i]) as int
                == s@[i] as int by {
                assert('\0' <= s@[i] <= '\u{7f}');
            }
        }
        Some(b)
    } else {
        None
    }
}

/// The character of one digit.
pub fn char_of_digit(d: u8) -> (c: char)
    requires
        d <= 9,
    ensures
        c == digit_char(d as int),
{
    (d + 48) as char
}

/// Appends `n` in two digits.
pub fn push_dec2(out: &mut String, n: u32)
    requires
        n < 100,
    ensures
        final(out)@ == old(out)@ + dec2(n as int),
{
    out.push(char_of_digit((n / 10) as u8));
    out.push(char_of_digit((n % 10) as u8));
    assert(out@ =~= old(out)@ + dec2(n as int));
}

/// Appends `n` in three digits.
pub fn push_dec3(out: &mut String, n: u32)
    requires
        n < 1000,
    ensures
        final(out)@ == old(out)@ + dec3(n as int),
{
    out.push(char_of_digit((n / 100) as u8));
    out.push(char_of_digit((n / 10 % 10) as u8));
    out.push(char_of_digit((n % 10) as u8));
    assert(out@ =~= old(out)@ + dec3(n as int));
}

/// Appends `n` in four digits.
pub fn push_dec4(out: &mut String, n: u32)
    requires
        n < 10000,
    ensures
        final(out)@ == old(out)@ + dec4(n as int),
{
    out.push(char_of_digit((n / 1000) as u8));
    out.push(char_of_digit((n / 100 % 10) as u8));
    out.push(char_of_digit((n / 10 % 10) as u8));
    out.push(char_of_digit((n % 10) as u8));
    assert(out@ =~= old(out)@ + dec4(n as int));
}

/// Appends `n` in decimal.
pub fn push_dec(out: &mut String, n: u64)
    ensures
        final(out)@ == old(out)@ + dec(n as nat),
    decreases n,
{
    if n < 10 {
        out.push(char_of_digit(n as u8));
        assert(out@ =~= old(out)@ + dec(n as nat));
    } else {
        push_dec(out, n / 10);
        out.push(char_of_digit((n % 10) as u8));
        assert(out@ =~= old(out)@ + dec(n as nat));
    }
}

/// Appends `n` in decimal, with its sign when it is negative.
pub fn push_signed_dec(out: &mut String, n: i64)
    ensures
        final(out)@ == old(out)@ + signed_dec(n as int),
{
    if n < 0 {
        out.push('-');
        let magnitude: u64 = (-(n + 1)) as u64 + 1;
        push_dec(out, magnitude);
        assert(out@ =~= old(out)@ + signed_dec(n as int));
    } else {
        push_dec(out, n as u64);
    }
}

/// The digit at `at`, if the byte there is one.
pub(crate) fn read_digit(b: &[u8], at: usize, Ghost(s): Ghost<Seq<char>>) -> (r: Option<u32>)
    requires
        spells(b@, s),
        at < b.len(),
    ensures
        r == if is_digit(s[at as int]) {
            Some(digit_value(s[at as int]) as u32)
        } else {
            None
        },
{
    let c = b[at];
    if 48 <= c && c <= 57 {
        Some((c - 48) as u32)
    } else {
        None
    }
}

/// The number that two digits at `at` spell, if both bytes are digits.
pub(crate) fn read_num2(b: &[u8], at: usize, Ghost(s): Ghost<Seq<char>>) -> (r: Option<u32>)
    requires
        spells(b@, s),
        at + 2 <= b.len(),
    ensures
        r == if digits_at(s, at as int, 2) {
            Some(num2(s, at as int) as u32)
        } else {
            None
        },
{
    let d0 = read_digit(b, at, Ghost(s));
    let d1 = read_digit(b, at + 1, Ghost(s));
    match (d0, d1) {
        (Some(d0), Some(d1)) => Some(d0 * 10 + d1),
        _ => {
            assert(!is_digit(s[at as int]) || !is_digit(s[at + 1]));
            None
        },
    }
}

/// The number that three digits at `at` spell, if all three bytes are digits.
pub(crate) fn read_num3(b: &[u8], at: usize, Ghost(s): Ghost<Seq<char>>) -> (r: Option<u32>)
    requires
        spells(b@, s),
        at + 3 <= b.len(),
    ensures
        r == if digits_at(s, at as int, 3) {
            Some(num3(s, at as int) as u32)
        } else {
            None
        },
{
    let d0 = read_digit(b, at, Ghost(s));
    let d1 = read_digit(b, at + 1, Ghost(s));
    let d2 = read_digit(b, at + 2, Ghost(s));
    match (d0, d1, d2) {
        (Some(d0), Some(d1), Some(d2)) => Some(d0 * 100 + d1 * 10 + d2),
        _ => {
            assert(!is_digit(s[at as int]) || !is_digit(s[at + 1]) || !is_digit(s[at + 2]));
            None
        },
    }
}

/// The number that four digits at `at` spell, if all four bytes are digits.
pub(crate) fn read_num4(b: &[u8], at: usize, Ghost(s): Ghost<Seq<char>>) -> (r: Option<u32>)
    requires
        spells(b@, s),
        at + 4 <= b.len(),
    ensures
        r == if digits_at(s, at as int, 4) {
            Some(num4(s, at as int) as u32)
        } else {
            None
        },
{
    let d0 = read_digit(b, at, Ghost(s));
    let d1 = read_digit(b, at + 1, Ghost(s));
    let d2 = read_digit(b, at + 2, Ghost(s));
    let d3 = read_digit(b, at + 3, Ghost(s));
    match (d0, d1, d2, d3) {
        (Some(d0), Some(d1), Some(d2), Some(d3)) => Some(d0 * 1000 + d1 * 100 + d2 * 10 + d3),
        _ => {
            assert(!is_digit(s[at as int]) || !is_digit(s[at + 1]) || !is_digit(s[at + 2])
                || !is_digit(s[at + 3]));
            None
        },
    }
}

/// What `dec` writes is a plain number, and it spells `n`.
pub proof fn lemma_dec_is_plain(n: nat)
    ensures
        is_plain_number(dec(n)),
        digits_value(dec(n)) == n,
        n >= 1 ==> dec(n)[0] != '0',
    decreases n,
{
    let s = dec(n);
    if n < 10 {
        assert(s.drop_last() =~= Seq::<char>::empty());
        assert(digits_value(s.drop_last()) == 0);
    } else {
        lemma_dec_is_plain(n / 10);
        let p = dec(n / 10);
        assert(s.drop_last() =~= p);
        assert(s[0] == p[0]);
        assert forall|i: int| 0 <= i < s.len() implies is_digit(#[trigger] s[i]) by {
            if i < p.len() {
                assert(s[i] == p[i]);
            }
        }
    }
}

/// Digits that do not start with a zero spell a number that is not zero.
pub proof fn lemma_leading_digit(s: Seq<char>)
    requires
        s.len() >= 1,
        all_digits(s),
        s[0] != '0',
    ensures
        digits_value(s) >= 1,
    decreases s.len(),
{
    let p = s.drop_last();
    if s.len() == 1 {
        assert(digits_value(p) == 0);
        assert(is_digit(s[0]));
    } else {
        assert(all_digits(p)) by {
            assert forall|i: int| 0 <= i < p.len() implies is_digit(#[trigger] p[i]) by {
                assert(p[i] == s[i]);
            }
        }
        lemma_leading_digit(p);
        assert(is_digit(s[s.len() - 1]));
    }
}

/// A plain number is what `dec` writes for the number that it spells.
pub proof fn lemma_plain_is_dec(s: Seq<char>)
    requires
        is_plain_number(s),
    ensures
        dec(digits_value(s)) == s,
    decreases s.len(),
{
    let p = s.drop_last();
    let c = s.last();
    assert(is_digit(s[s.len() - 1]));
    if s.len() == 1 {
        assert(digits_value(p) == 0);
        assert(dec(digits_value(s)) =~= s);
    } else {
        assert(all_digits(p)) by {
            assert forall|i: int| 0 <= i < p.len() implies is_digit(#[trigger] p[i]) by {
                assert(p[i] == s[i]);
            }
        }
        assert(p[0] == s[0]);
        lemma_plain_is_dec(p);
        lemma_leading_digit(p);
        let n = digits_value(s);
        assert(n == digits_value(p) * 10 + digit_value(c));
        assert(n / 10 == digits_value(p));
        assert(n % 10 == digit_value(c));
        assert(dec(n) =~= s);
    }
}

/// The digits of a number spell no less than any of its prefixes does.
pub proof fn lemma_prefix_value(s: Seq<char>, k: int)
    requires
        all_digits(s),
        0 <= k <= s.len(),
    ensures
        digits_value(s.subrange(0, k)) <= digits_value(s),
    decreases s.len(),
{
    if k == s.len() {
        assert(s.subrange(0, k) =~= s);
    } else {
        let p = s.drop_last();
        assert(all_digits(p)) by {
            assert forall|i: int| 0 <= i < p.len() implies is_digit(#[trigger] p[i]) by {
                assert(p[i] == s[i]);
            }
        }
        lemma_prefix_value(p, k);
        assert(p.subrange(0, k) =~= s.subrange(0, k));
        assert(is_digit(s[s.len() - 1]));
    }
}

/// What `signed_dec` writes reads back as `n`.
pub proof fn lemma_signed_value_of_dec(n: int)
    ensures
        signed_value(signed_dec(n)) == Some(n),
{
    if n < 0 {
        let m = (-n) as nat;
        lemma_dec_is_plain(m);
        let s = signed_dec(n);
        assert(s.skip(1) =~= dec(m));
        assert(s[0] == '-');
        assert(s[1] == dec(m)[0]);
        assert(!is_plain_number(s)) by {
            assert(!is_digit(s[0]));
        }
    } else {
        lemma_dec_is_plain(n as nat);
    }
}

/// A text that reads as an integer is what `signed_dec` writes for it.
pub proof fn lemma_signed_dec_of_value(s: Seq<char>)
    requires
        signed_value(s) is Some,
    ensures
        signed_dec(signed_value(s).unwrap()) == s,
{
    if is_plain_number(s) {
        lemma_plain_is_dec(s);
    } else {
        let t = s.skip(1);
        lemma_plain_is_dec(t);
        assert(t[0] == s[1]);
        lemma_leading_digit(t);
        assert(seq!['-'] + t =~= s);
    }
}

/// The number that the bytes from `from` to the end spell, if they are a
/// plain number that is no more than `limit`.
pub(crate) fn read_number(b: &[u8], from: usize, limit: u64, Ghost(s): Ghost<Seq<char>>) -> (r: Option<
    u64,
>)
    requires
        spells(b@, s),
        from <= b.len(),
        limit <= 1_000_000_000_000_000_000,
    ensures
        r == if is_plain_number(s.skip(from as int)) && digits_value(s.skip(from as int))
            <= limit {
            Some(digits_value(s.skip(from as int)) as u64)
        } else {
            None
        },
{
    let n = b.len();
    let ghost t = s.skip(from as int);
    if from >= n {
        return None;
    }
    assert(t[0] == s[from as int]);
    if b[from] == 48 && n - from > 1 {
        return None;
    }
    let mut acc: u64 = 0;
    let mut i: usize = from;
    assert(t.subrange(0, 0) =~= Seq::<char>::empty());
    while i < n
        invariant
            from <= i <= n,
            n == b.len(),
            spells(b@, s),
            t == s.skip(from as int),
            all_digits(t.subrange(0, i - from)),
            acc == digits_value(t.subrange(0, i - from)),
            acc <= limit,
            limit <= 1_000_000_000_000_000_000,
            t.len() == 1 || t[0] != '0',
        decreases n - i,
    {
        let ghost k = i - from;
        assert(t[k] == s[i as int]);
        assert(t.subrange(0, k + 1).drop_last() =~= t.subrange(0, k));
        match read_digit(b, i, Ghost(s)) {
            None => {
                return None;
            },
            Some(d) => {
                let next: u64 = acc * 10 + d as u64;
                assert(next == digits_value(t.subrange(0, k + 1)));
                assert(all_digits(t.subrange(0, k + 1))) by {
                    assert forall|j: int| 0 <= j < k + 1 implies is_digit(
                        #[trigger] t.subrange(0, k + 1)[j],
                    ) by {
                        if j < k {
                            assert(t.subrange(0, k + 1)[j] == t.subrange(0, k)[j]);
                        }
                    }
                }
                if next > limit {
                    proof {
                        if all_digits(t) {
                            lemma_prefix_value(t, k + 1);
                        }
                    }
                    return None;
                }
                acc = next;
                i = i + 1;
            },
        }
    }
    assert(t.subrange(0, i - from) =~= t);
    Some(acc)
}

/// The integer that the bytes spell, if they are the text of one whose
/// magnitude is no more than `limit`.
pub(crate) fn read_signed(b: &[u8], limit: u64, Ghost(s): Ghost<Seq<char>>) -> (r: Option<i64>)
    requires
        spells(b@, s),
        limit <= 1_000_000_000_000_000_000,
    ensures
        r == match signed_value(s) {
            Some(v) => if -limit <= v <= limit {
                Some(v as i64)
            } else {
                None
            },
            None => None,
        },
{
    assert(s.skip(0) =~= s);
    if b.len() >= 2 && b[0] == 45 {
        assert(!is_plain_number(s)) by {
            assert(!is_digit(s[0]));
        }
        if b[1] == 48 {
            return None;
        }
        match read_number(b, 1, limit, Ghost(s)) {
            Some(m) => Some(-(m as i64)),
            None => None,
        }
    } else {
        proof {
            if s.len() >= 1 && s[0] == '-' {
                assert(!is_digit(s[0]));
            }
        }
        match read_number(b, 0, limit, Ghost(s)) {
            Some(m) => Some(m as i64),
            None => None,
        }
    }
}

} // verus!
