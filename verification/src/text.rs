use vstd::prelude::*;

verus! {

/// The ASCII digit for `d` (0-9).
pub open spec fn digit_char(d: int) -> char {
    if d == 0 { '0' }
    else if d == 1 { '1' }
    else if d == 2 { '2' }
    else if d == 3 { '3' }
    else if d == 4 { '4' }
    else if d == 5 { '5' }
    else if d == 6 { '6' }
    else if d == 7 { '7' }
    else if d == 8 { '8' }
    else { '9' }
}

pub open spec fn is_digit(c: char) -> bool {
    '0' <= c && c <= '9'
}

/// The value of an ASCII digit.
pub open spec fn digit_value(c: char) -> int {
    c as int - '0' as int
}

/// Decimal notation of `n` without leading zeros.
pub open spec fn dec(n: nat) -> Seq<char>
    decreases n,
{
    if n < 10 {
        seq![digit_char(n as int)]
    } else {
        dec(n / 10).push(digit_char((n % 10) as int))
    }
}

/// Decimal notation of `n`, left-padded with zeros to at least `width` characters.
pub open spec fn dec_padded(n: nat, width: nat) -> Seq<char> {
    let d = dec(n);
    if d.len() >= width {
        d
    } else {
        Seq::new((width - d.len()) as nat, |i: int| '0') + d
    }
}

/// All characters are ASCII digits and there is at least one.
pub open spec fn all_digits(s: Seq<char>) -> bool {
    s.len() > 0 && forall|i: int| 0 <= i < s.len() ==> is_digit(#[trigger] s[i])
}

/// The value of a string of digits.
pub open spec fn digits_value(s: Seq<char>) -> nat
    decreases s.len(),
{
    if s.len() == 0 {
        0
    } else {
        (digits_value(s.drop_last()) * 10 + digit_value(s.last())) as nat
    }
}

/// What the standard library's `from_str` for an unsigned integer type with
/// largest value `max` gives: an optional `+`, then one or more digits whose
/// value does not exceed `max`.
pub open spec fn parse_unsigned(s: Seq<char>, max: nat) -> Option<nat> {
    let t = if s.len() > 0 && s[0] == '+' { s.drop_first() } else { s };
    if all_digits(t) && digits_value(t) <= max {
        Some(digits_value(t))
    } else {
        None
    }
}

/// Appends one character (`String::push`).
#[verifier::external_body]
pub fn push_char(s: &mut String, c: char)
    ensures
        final(s)@ == old(s)@.push(c),
{
    s.push(c);
}

/// Appends a string slice.
pub fn push_str(s: &mut String, t: &str)
    ensures
        final(s)@ == old(s)@ + t@,
{
    s.append(t);
}

/// The text that `{:?}` shows for a string: the string in double quotes,
/// with the escapes of `str::escape_debug`.
pub uninterp spec fn debug_text(s: Seq<char>) -> Seq<char>;

/// Shows a string as `{:?}` does (`<str as Debug>::fmt`). The text is
/// named, not stated.
#[verifier::external_body]
pub fn debug_string(s: &str) -> (r: String)
    ensures
        r@ == debug_text(s@),
{
    format!("{:?}", s)
}

/// The digit written for each value 0 to 9 is the character with that
/// value, and it is a digit.
pub proof fn lemma_digit_char_value(d: int)
    requires
        0 <= d < 10,
    ensures
        digit_value(digit_char(d)) == d,
        is_digit(digit_char(d)),
{
}

pub fn digit_to_char(d: u64) -> (c: char)
    requires
        d < 10,
    ensures
        c == digit_char(d as int),
{
    if d == 0 { '0' }
    else if d == 1 { '1' }
    else if d == 2 { '2' }
    else if d == 3 { '3' }
    else if d == 4 { '4' }
    else if d == 5 { '5' }
    else if d == 6 { '6' }
    else if d == 7 { '7' }
    else if d == 8 { '8' }
    else { '9' }
}

pub proof fn lemma_dec_len(n: nat)
    ensures
        dec(n).len() >= 1,
        n >= 10 ==> dec(n).len() >= 2,
        n < 10 ==> dec(n).len() == 1,
    decreases n,
{
    if n >= 10 {
        lemma_dec_len(n / 10);
    }
}

/// The decimal notation of `n` reads back as `n`.
pub proof fn lemma_dec_digits(n: nat)
    ensures
        all_digits(dec(n)),
        digits_value(dec(n)) == n,
    decreases n,
{
    lemma_dec_len(n);
    if n < 10 {
        let d = dec(n);
        assert(d.drop_last() =~= Seq::<char>::empty());
        assert(digit_value(digit_char(n as int)) == n);
        assert(d.last() == digit_char(n as int));
        assert(digits_value(d) == digits_value(d.drop_last()) * 10 + digit_value(d.last()));
    } else {
        lemma_dec_digits(n / 10);
        let d = dec(n);
        let p = dec(n / 10);
        assert(d.drop_last() =~= p);
        let m = (n % 10) as int;
        assert(digit_value(digit_char(m)) == m);
        assert(d.last() == digit_char(m));
        assert(digits_value(d) == digits_value(d.drop_last()) * 10 + digit_value(d.last()));
        assert((n / 10) * 10 + n % 10 == n) by (nonlinear_arith);
        assert forall|i: int| 0 <= i < d.len() implies is_digit(#[trigger] d[i]) by {
            if i < p.len() {
                assert(d[i] == p[i]);
            }
        }
    }
}

/// Reading back the decimal notation of `n`, with any bound not below `n`.
pub proof fn lemma_parse_dec(n: nat, max: nat)
    requires
        n <= max,
    ensures
        parse_unsigned(dec(n), max) == Some(n),
{
    lemma_dec_digits(n);
    assert(is_digit(dec(n)[0]));
}

/// Appends the decimal notation of `n`.
pub fn push_decimal(s: &mut String, n: u64)
    ensures
        final(s)@ == old(s)@ + dec(n as nat),
{
    // Collect the digits, least significant first.
    let mut rev: Vec<char> = Vec::new();
    let mut m: u64 = n;
    loop
        invariant_except_break
            m <= n,
            dec(n as nat) == dec(m as nat) + Seq::new(rev@.len(), |i: int| rev@[rev@.len() - 1 - i]),
        ensures
            dec(n as nat) == Seq::new(rev@.len(), |i: int| rev@[rev@.len() - 1 - i]),
        decreases m,
    {
        let d = m % 10;
        let c = digit_to_char(d);
        proof {
            if m >= 10 {
                assert(dec(m as nat) == dec((m / 10) as nat).push(c));
            } else {
                assert(dec(m as nat) == seq![c]);
            }
        }
        let ghost old_rev = rev@;
        rev.push(c);
        m = m / 10;
        proof {
            let tail_old = Seq::new(old_rev.len(), |i: int| old_rev[old_rev.len() - 1 - i]);
            let tail_new = Seq::new(rev@.len(), |i: int| rev@[rev@.len() - 1 - i]);
            assert(tail_new =~= seq![c] + tail_old);
            if m > 0 {
                assert(dec(n as nat) =~= dec(m as nat) + tail_new);
            } else {
                assert(dec(n as nat) =~= tail_new);
            }
        }
        if m == 0 {
            break;
        }
    }
    let ghost start = s@;
    let len = rev.len();
    let mut i = len;
    while i > 0
        invariant
            i <= len,
            len == rev@.len(),
            s@ == start + Seq::new((len - i) as nat, |j: int| rev@[len - 1 - j]),
            dec(n as nat) == Seq::new(len as nat, |j: int| rev@[len - 1 - j]),
        decreases i,
    {
        i = i - 1;
        push_char(s, rev[i]);
        assert(s@ =~= start + Seq::new((len - i) as nat, |j: int| rev@[len - 1 - j]));
    }
    assert(s@ =~= start + dec(n as nat));
}

} // verus!

verus! {

/// Extending a string of digits never lowers its value.
pub proof fn lemma_digits_value_prefix(s: Seq<char>, k: int)
    requires
        0 <= k <= s.len(),
        forall|i: int| 0 <= i < s.len() ==> is_digit(#[trigger] s[i]),
    ensures
        digits_value(s.subrange(0, k)) <= digits_value(s),
    decreases s.len() - k,
{
    if k < s.len() {
        lemma_digits_value_prefix(s, k + 1);
        let p = s.subrange(0, k + 1);
        assert(p.drop_last() =~= s.subrange(0, k));
    } else {
        assert(s.subrange(0, k) =~= s);
    }
}

pub fn char_digit(c: char) -> (r: Option<u64>)
    ensures
        is_digit(c) ==> r == Some(digit_value(c) as u64),
        !is_digit(c) ==> r is None,
{
    if '0' <= c && c <= '9' {
        Some((c as u32 - '0' as u32) as u64)
    } else {
        None
    }
}

/// Reads an unsigned decimal number no larger than `max`, as the standard
/// library's `from_str` for unsigned integers does.
pub fn parse_unsigned_max(s: &str, max: u64) -> (r: Option<u64>)
    ensures
        r matches Some(v) ==> parse_unsigned(s@, max as nat) == Some(v as nat),
        r is None ==> parse_unsigned(s@, max as nat) is None,
{
    let n = s.unicode_len();
    let mut i: usize = 0;
    if n > 0 && s.get_char(0) == '+' {
        i = 1;
    }
    let ghost t = if s@.len() > 0 && s@[0] == '+' { s@.drop_first() } else { s@ };
    let start = i;
    assert(t =~= s@.subrange(start as int, n as int));
    if start == n {
        return None;
    }
    let mut acc: u64 = 0;
    while i < n
        invariant
            start <= i <= n,
            n == s@.len(),
            start < n,
            t =~= s@.subrange(start as int, n as int),
            t == (if s@.len() > 0 && s@[0] == '+' { s@.drop_first() } else { s@ }),
            forall|j: int| start <= j < i ==> is_digit(#[trigger] s@[j]),
            acc as nat == digits_value(s@.subrange(start as int, i as int)),
            acc <= max,
        decreases n - i,
    {
        let c = s.get_char(i);
        let d = match char_digit(c) {
            Some(d) => d,
            None => {
                assert(t[i - start] == s@[i as int]);
                assert(!is_digit(t[i - start]));
                assert(!all_digits(t));
                return None;
            },
        };
        proof {
            let p = s@.subrange(start as int, i + 1);
            assert(p.drop_last() =~= s@.subrange(start as int, i as int));
            assert(digits_value(p) == acc * 10 + d);
        }
        if d > max || acc > (max - d) / 10 {
            proof {
                let p = s@.subrange(start as int, i + 1);
                if d <= max {
                    assert(acc * 10 + d > max) by (nonlinear_arith)
                        requires
                            acc > (max - d) / 10,
                            d <= max,
                    ;
                }
                if forall|j: int| 0 <= j < t.len() ==> is_digit(#[trigger] t[j]) {
                    lemma_digits_value_prefix(t, i + 1 - start);
                    assert(t.subrange(0, i + 1 - start) =~= p);
                }
            }
            return None;
        }
        acc = acc * 10 + d;
        i = i + 1;
    }
    assert(s@.subrange(start as int, n as int) =~= t);
    Some(acc)
}

} // verus!

verus! {

/// Character-wise equality of two strings.
pub fn str_eq(a: &str, b: &str) -> (r: bool)
    ensures
        r == (a@ == b@),
{
    let n = a.unicode_len();
    let m = b.unicode_len();
    if n != m {
        return false;
    }
    let mut i: usize = 0;
    while i < n
        invariant
            0 <= i <= n,
            n == a@.len(),
            m == b@.len(),
            n == m,
            forall|j: int| 0 <= j < i ==> a@[j] == b@[j],
        decreases n - i,
    {
        if a.get_char(i) != b.get_char(i) {
            return false;
        }
        i = i + 1;
    }
    assert(a@ =~= b@);
    true
}

/// `a` starts with `p`.
pub fn starts_with(a: &str, p: &str) -> (r: bool)
    ensures
        r == (p@.len() <= a@.len() && a@.subrange(0, p@.len() as int) == p@),
{
    let n = a.unicode_len();
    let m = p.unicode_len();
    if m > n {
        return false;
    }
    let mut i: usize = 0;
    while i < m
        invariant
            0 <= i <= m,
            m <= n,
            n == a@.len(),
            m == p@.len(),
            forall|j: int| 0 <= j < i ==> a@[j] == p@[j],
        decreases m - i,
    {
        if a.get_char(i) != p.get_char(i) {
            assert(a@.subrange(0, m as int)[i as int] != p@[i as int]);
            return false;
        }
        i = i + 1;
    }
    assert(a@.subrange(0, m as int) =~= p@);
    true
}

} // verus!

verus! {

/// Decimal notation of a signed number.
pub open spec fn dec_signed(n: int) -> Seq<char> {
    if n < 0 {
        seq!['-'] + dec((-n) as nat)
    } else {
        dec(n as nat)
    }
}

/// Appends the decimal notation of a signed number.
pub fn push_signed_decimal(s: &mut String, n: i64)
    ensures
        final(s)@ == old(s)@ + dec_signed(n as int),
{
    if n < 0 {
        push_char(s, '-');
        let m: u64 = ((-(n + 1)) as u64) + 1;
        assert(m as int == -(n as int));
        push_decimal(s, m);
    } else {
        push_decimal(s, n as u64);
    }
}

/// The position of the first `c` in `s`, if any.
pub fn find_char(s: &str, c: char) -> (r: Option<usize>)
    ensures
        r matches Some(i) ==> i < s@.len() && s@[i as int] == c && forall|j: int|
            0 <= j < i ==> s@[j] != c,
        r is None ==> forall|j: int| 0 <= j < s@.len() ==> s@[j] != c,
{
    let n = s.unicode_len();
    let mut i: usize = 0;
    while i < n
        invariant
            0 <= i <= n,
            n == s@.len(),
            forall|j: int| 0 <= j < i ==> s@[j] != c,
        decreases n - i,
    {
        if s.get_char(i) == c {
            return Some(i);
        }
        i = i + 1;
    }
    None
}

} // verus!

verus! {

/// The characters with the Unicode property White_Space, which the standard
/// library's `char::is_whitespace` and `str::trim` go by.
pub open spec fn is_white_space(c: char) -> bool {
    ('\u{9}' <= c && c <= '\u{d}') || c == ' ' || c == '\u{85}' || c == '\u{a0}' || c
        == '\u{1680}' || ('\u{2000}' <= c && c <= '\u{200a}') || c == '\u{2028}' || c
        == '\u{2029}' || c == '\u{202f}' || c == '\u{205f}' || c == '\u{3000}'
}

pub fn is_white_space_char(c: char) -> (r: bool)
    ensures
        r == is_white_space(c),
{
    ('\u{9}' <= c && c <= '\u{d}') || c == ' ' || c == '\u{85}' || c == '\u{a0}' || c
        == '\u{1680}' || ('\u{2000}' <= c && c <= '\u{200a}') || c == '\u{2028}' || c
        == '\u{2029}' || c == '\u{202f}' || c == '\u{205f}' || c == '\u{3000}'
}

/// `s` without its leading white space.
pub open spec fn trim_start_spec(s: Seq<char>) -> Seq<char>
    decreases s.len(),
{
    if s.len() > 0 && is_white_space(s[0]) {
        trim_start_spec(s.drop_first())
    } else {
        s
    }
}

/// `s` without its trailing white space.
pub open spec fn trim_end_spec(s: Seq<char>) -> Seq<char>
    decreases s.len(),
{
    if s.len() > 0 && is_white_space(s.last()) {
        trim_end_spec(s.drop_last())
    } else {
        s
    }
}

/// `s` without leading and trailing white space (`str::trim`).
pub open spec fn trim_spec(s: Seq<char>) -> Seq<char> {
    trim_end_spec(trim_start_spec(s))
}

/// Removes leading and trailing white space.
pub fn trim(s: &str) -> (r: &str)
    ensures
        r@ == trim_spec(s@),
{
    let n = s.unicode_len();
    let mut a: usize = 0;
    assert(s@.skip(0) =~= s@);
    while a < n && is_white_space_char(s.get_char(a))
        invariant
            0 <= a <= n,
            n == s@.len(),
            trim_start_spec(s@) == trim_start_spec(s@.skip(a as int)),
        decreases n - a,
    {
        assert(s@.skip(a as int).drop_first() =~= s@.skip(a + 1));
        a = a + 1;
    }
    assert(trim_start_spec(s@.skip(a as int)) == s@.skip(a as int));
    let mut b: usize = n;
    while b > a && is_white_space_char(s.get_char(b - 1))
        invariant
            a <= b <= n,
            n == s@.len(),
            trim_end_spec(s@.skip(a as int)) == trim_end_spec(s@.subrange(a as int, b as int)),
        decreases b,
    {
        assert(s@.subrange(a as int, b as int).drop_last() =~= s@.subrange(a as int, b - 1));
        b = b - 1;
    }
    assert(s@.subrange(a as int, n as int) =~= s@.skip(a as int));
    s.substring_char(a, b)
}

/// `s` with every `,` taken out.
pub open spec fn without_commas(s: Seq<char>) -> Seq<char>
    decreases s.len(),
{
    if s.len() == 0 {
        s
    } else if s.last() == ',' {
        without_commas(s.drop_last())
    } else {
        without_commas(s.drop_last()).push(s.last())
    }
}

/// A copy of `s` with every `,` taken out.
pub fn remove_commas(s: &str) -> (r: String)
    ensures
        r@ == without_commas(s@),
{
    let n = s.unicode_len();
    let mut t = String::new();
    let mut i: usize = 0;
    while i < n
        invariant
            0 <= i <= n,
            n == s@.len(),
            t@ == without_commas(s@.take(i as int)),
        decreases n - i,
    {
        let c = s.get_char(i);
        assert(s@.take(i + 1).drop_last() =~= s@.take(i as int));
        if c != ',' {
            push_char(&mut t, c);
        }
        i = i + 1;
    }
    assert(s@.take(n as int) =~= s@);
    t
}

/// Reads a string made of decimal digits only whose value is at most `max`.
pub fn read_digits(s: &str, max: u64) -> (r: Option<u64>)
    ensures
        r matches Some(v) ==> all_digits(s@) && v == digits_value(s@) && v <= max,
        r is None ==> !(all_digits(s@) && digits_value(s@) <= max),
{
    if s.unicode_len() == 0 || !is_digit_char(s.get_char(0)) {
        return None;
    }
    parse_unsigned_max(s, max)
}

pub fn is_digit_char(c: char) -> (r: bool)
    ensures
        r == is_digit(c),
{
    '0' <= c && c <= '9'
}

} // verus!

verus! {

pub open spec fn pow10(n: nat) -> nat
    decreases n,
{
    if n == 0 {
        1
    } else {
        10 * pow10((n - 1) as nat)
    }
}

/// A string of `n` digits has a value below 10^n.
pub proof fn lemma_digits_value_lt(s: Seq<char>)
    requires
        forall|i: int| 0 <= i < s.len() ==> is_digit(#[trigger] s[i]),
    ensures
        digits_value(s) < pow10(s.len()),
    decreases s.len(),
{
    if s.len() > 0 {
        lemma_digits_value_lt(s.drop_last());
        assert(s[s.len() - 1] == s.last());
    }
}

/// Every character is a decimal digit, and there is at least one.
pub fn is_all_digits(s: &str) -> (r: bool)
    ensures
        r == all_digits(s@),
{
    let n = s.unicode_len();
    if n == 0 {
        return false;
    }
    let mut i: usize = 0;
    while i < n
        invariant
            0 <= i <= n,
            n == s@.len(),
            forall|j: int| 0 <= j < i ==> is_digit(#[trigger] s@[j]),
        decreases n - i,
    {
        if !is_digit_char(s.get_char(i)) {
            return false;
        }
        i = i + 1;
    }
    true
}

} // verus!

verus! {

/// The number of decimal digits of `n`.
pub fn decimal_len(n: u64) -> (r: usize)
    ensures
        r == dec(n as nat).len(),
        1 <= r <= 20,
{
    let mut m = n;
    let mut k: usize = 1;
    assert(m as nat * pow10((k - 1) as nat) <= n) by {
        assert(pow10(0) == 1);
        assert((k - 1) as nat == 0);
    }
    while m >= 10
        invariant
            1 <= k <= 20,
            m <= n,
            dec(n as nat).len() == dec(m as nat).len() + k - 1,
            m as nat * pow10((k - 1) as nat) <= n,
        decreases m,
    {
        proof {
            lemma_pow10_bound((k - 1) as nat, m as nat, n as nat);
        }
        assert(dec(m as nat) == dec((m / 10) as nat).push(digit_char((m % 10) as int)));
        assert(m as nat * pow10((k - 1) as nat) * 10 == (m as nat * 10) * pow10((k - 1) as nat)) by (nonlinear_arith);
        assert((m / 10) as nat * pow10(k as nat) <= m as nat * pow10((k - 1) as nat)) by (nonlinear_arith)
            requires
                pow10(k as nat) == 10 * pow10((k - 1) as nat),
        ;
        m = m / 10;
        k = k + 1;
    }
    proof {
        lemma_dec_len(m as nat);
    }
    k
}

proof fn lemma_pow10_bound(e: nat, m: nat, n: nat)
    requires
        m >= 10,
        m * pow10(e) <= n,
        n <= u64::MAX,
    ensures
        e <= 18,
{
    if e > 18 {
        lemma_pow10_monotone(19, e);
        reveal_with_fuel(pow10, 20);
        assert(m * pow10(e) >= 10 * pow10(19)) by (nonlinear_arith)
            requires
                m >= 10,
                pow10(e) >= pow10(19),
        ;
    }
}

proof fn lemma_pow10_monotone(a: nat, b: nat)
    requires
        a <= b,
    ensures
        pow10(a) <= pow10(b),
    decreases b,
{
    if a < b {
        lemma_pow10_monotone(a, (b - 1) as nat);
    }
}

/// Appends the decimal notation of `n`, left-padded with zeros to `width`
/// characters.
pub fn push_decimal_padded(s: &mut String, n: u64, width: usize)
    ensures
        final(s)@ == old(s)@ + dec_padded(n as nat, width as nat),
{
    let l = decimal_len(n);
    let ghost start = s@;
    if l < width {
        let mut i: usize = 0;
        while i < width - l
            invariant
                0 <= i <= width - l,
                l < width,
                s@ == start + Seq::new(i as nat, |j: int| '0'),
            decreases width - l - i,
        {
            push_char(s, '0');
            assert(s@ =~= start + Seq::new((i + 1) as nat, |j: int| '0'));
            i = i + 1;
        }
    } else {
        assert(s@ =~= start + Seq::<char>::empty());
    }
    let ghost padded = s@;
    push_decimal(s, n);
    assert(s@ =~= start + dec_padded(n as nat, width as nat));
}

} // verus!

verus! {

/// `a` ends with `p`.
pub fn ends_with(a: &str, p: &str) -> (r: bool)
    ensures
        r == (p@.len() <= a@.len() && a@.skip(a@.len() - p@.len()) == p@),
{
    let n = a.unicode_len();
    let m = p.unicode_len();
    if m > n {
        return false;
    }
    let tail = a.substring_char(n - m, n);
    assert(tail@ =~= a@.skip(n - m));
    str_eq(tail, p)
}

/// `p` occurs in `s` at position `i`.
pub open spec fn occurs_at(s: Seq<char>, p: Seq<char>, i: int) -> bool {
    0 <= i && i + p.len() <= s.len() && s.subrange(i, i + p.len()) == p
}

/// The first position at which `p` occurs in `s`.
pub fn find_str(s: &str, p: &str) -> (r: Option<usize>)
    ensures
        match r {
            Some(i) => occurs_at(s@, p@, i as int) && forall|j: int| 0 <= j < i ==> !occurs_at(s@, p@, j),
            None => forall|j: int| !occurs_at(s@, p@, j),
        },
{
    let n = s.unicode_len();
    let m = p.unicode_len();
    if m > n {
        return None;
    }
    let mut i: usize = 0;
    loop
        invariant
            0 <= i <= n - m,
            m <= n,
            n == s@.len(),
            m == p@.len(),
            forall|j: int| 0 <= j < i ==> !occurs_at(s@, p@, j),
        decreases n - m - i,
    {
        let t = s.substring_char(i, i + m);
        if str_eq(t, p) {
            return Some(i);
        }
        if i == n - m {
            return None;
        }
        i = i + 1;
    }
}

} // verus!
