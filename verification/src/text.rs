use vstd::prelude::*;

verus! {

/// The characters with the Unicode `White_Space` property, which `str::trim`
/// removes.
pub open spec fn is_white_space(c: char) -> bool {
    ||| ('\u{9}' <= c && c <= '\u{d}')
    ||| c == ' '
    ||| c == '\u{85}'
    ||| c == '\u{a0}'
    ||| c == '\u{1680}'
    ||| ('\u{2000}' <= c && c <= '\u{200a}')
    ||| c == '\u{2028}'
    ||| c == '\u{2029}'
    ||| c == '\u{202f}'
    ||| c == '\u{205f}'
    ||| c == '\u{3000}'
}

/// `s` without its leading white space.
pub open spec fn trim_start(s: Seq<char>) -> Seq<char>
    decreases s.len(),
{
    if s.len() > 0 && is_white_space(s[0]) {
        trim_start(s.drop_first())
    } else {
        s
    }
}

/// `s` without its trailing white space.
pub open spec fn trim_end(s: Seq<char>) -> Seq<char>
    decreases s.len(),
{
    if s.len() > 0 && is_white_space(s.last()) {
        trim_end(s.drop_last())
    } else {
        s
    }
}

/// `s` without leading and trailing white space.
pub open spec fn trim(s: Seq<char>) -> Seq<char> {
    trim_end(trim_start(s))
}

pub open spec fn is_ascii_upper(c: char) -> bool {
    'A' <= c && c <= 'Z'
}

pub open spec fn is_ascii_lower(c: char) -> bool {
    'a' <= c && c <= 'z'
}

pub open spec fn is_ascii_digit(c: char) -> bool {
    '0' <= c && c <= '9'
}

pub open spec fn is_ascii_alphanumeric(c: char) -> bool {
    is_ascii_upper(c) || is_ascii_lower(c) || is_ascii_digit(c)
}

/// ASCII upper-case letters mapped to lower case, every other character kept.
pub open spec fn ascii_lower_char(c: char) -> char {
    if is_ascii_upper(c) {
        ((c as u32) + 32) as char
    } else {
        c
    }
}

/// ASCII lower-case letters mapped to upper case, every other character kept.
pub open spec fn ascii_upper_char(c: char) -> char {
    if is_ascii_lower(c) {
        ((c as u32) - 32) as char
    } else {
        c
    }
}

pub open spec fn ascii_lower(s: Seq<char>) -> Seq<char> {
    s.map_values(|c: char| ascii_lower_char(c))
}

pub open spec fn ascii_upper(s: Seq<char>) -> Seq<char> {
    s.map_values(|c: char| ascii_upper_char(c))
}

/// The length in bytes of the UTF-8 encoding of `s`, which `str::len` returns.
pub open spec fn utf8_len(s: Seq<char>) -> nat {
    vstd::utf8::encode_utf8(s).len()
}

/// The decimal digit for `d < 10`.
pub open spec fn digit_char(d: nat) -> char {
    ((d + 48) as u32) as char
}

/// The decimal representation of `n`, without leading zeros.
pub open spec fn decimal(n: nat) -> Seq<char>
    decreases n,
{
    if n < 10 {
        seq![digit_char(n)]
    } else {
        decimal(n / 10).push(digit_char(n % 10))
    }
}

/// The decimal representation of a signed integer.
pub open spec fn signed_decimal(n: int) -> Seq<char> {
    if n < 0 {
        seq!['-'] + decimal((-n) as nat)
    } else {
        decimal(n as nat)
    }
}

/// The value of a sequence of decimal digits.
pub open spec fn digits_value(s: Seq<char>) -> nat
    decreases s.len(),
{
    if s.len() == 0 {
        0
    } else {
        digits_value(s.drop_last()) * 10 + ((s.last() as u32) - 48) as nat
    }
}

pub open spec fn all_digits(s: Seq<char>) -> bool {
    forall|i: int| 0 <= i < s.len() ==> is_ascii_digit(#[trigger] s[i])
}

/// What `str::parse::<u64>` gives: an optional `+`, then one or more decimal
/// digits whose value fits in 64 bits.
pub open spec fn parse_u64(s: Seq<char>) -> Option<u64> {
    let d = if s.len() > 0 && s[0] == '+' { s.drop_first() } else { s };
    if d.len() > 0 && all_digits(d) && digits_value(d) <= u64::MAX {
        Some(digits_value(d) as u64)
    } else {
        None
    }
}

/// Appends one character to a string.
#[verifier::external_body]
pub fn push_char(s: &mut String, c: char)
    ensures
        final(s)@ == old(s)@.push(c),
{
    s.push(c);
}

/// Appends a string slice to a string.
pub fn push_str(s: &mut String, t: &str)
    ensures
        final(s)@ == old(s)@ + t@,
{
    s.append(t);
}

/// A new string holding `s[from..to]`, counted in characters.
pub fn substring(s: &str, from: usize, to: usize) -> (r: String)
    requires
        from <= to <= s@.len(),
    ensures
        r@ == s@.subrange(from as int, to as int),
{
    let mut r = String::new();
    let mut i: usize = from;
    while i < to
        invariant
            from <= i <= to <= s@.len(),
            r@ == s@.subrange(from as int, i as int),
        decreases to - i,
    {
        let c = s.get_char(i);
        push_char(&mut r, c);
        assert(s@.subrange(from as int, i + 1) =~= s@.subrange(from as int, i as int).push(c));
        i = i + 1;
    }
    r
}

pub fn is_white_space_char(c: char) -> (b: bool)
    ensures
        b == is_white_space(c),
{
    ('\u{9}' <= c && c <= '\u{d}') || c == ' ' || c == '\u{85}' || c == '\u{a0}' || c
        == '\u{1680}' || ('\u{2000}' <= c && c <= '\u{200a}') || c == '\u{2028}' || c
        == '\u{2029}' || c == '\u{202f}' || c == '\u{205f}' || c == '\u{3000}'
}

proof fn lemma_trim_start_step(s: Seq<char>, i: int)
    requires
        0 <= i < s.len(),
        is_white_space(s[i]),
    ensures
        trim_start(s.subrange(i, s.len() as int)) == trim_start(s.subrange(i + 1, s.len() as int)),
{
    assert(s.subrange(i, s.len() as int).drop_first() =~= s.subrange(i + 1, s.len() as int));
}

proof fn lemma_trim_end_step(s: Seq<char>, i: int, j: int)
    requires
        0 <= i < j <= s.len(),
        is_white_space(s[j - 1]),
    ensures
        trim_end(s.subrange(i, j)) == trim_end(s.subrange(i, j - 1)),
{
    assert(s.subrange(i, j).drop_last() =~= s.subrange(i, j - 1));
}

/// The string without leading and trailing white space, as `str::trim`.
pub fn trim_str(s: &str) -> (r: String)
    ensures
        r@ == trim(s@),
{
    let n = s.unicode_len();
    let mut i: usize = 0;
    assert(s@.subrange(0, n as int) =~= s@);
    while i < n && is_white_space_char(s.get_char(i))
        invariant
            n == s@.len(),
            i <= n,
            trim_start(s@) == trim_start(s@.subrange(i as int, n as int)),
        decreases n - i,
    {
        proof {
            lemma_trim_start_step(s@, i as int);
        }
        i = i + 1;
    }
    let ghost start = s@.subrange(i as int, n as int);
    assert(trim_start(start) == start);
    let mut j: usize = n;
    while j > i && is_white_space_char(s.get_char(j - 1))
        invariant
            n == s@.len(),
            i <= j <= n,
            start == s@.subrange(i as int, n as int),
            trim_end(start) == trim_end(s@.subrange(i as int, j as int)),
        decreases j,
    {
        proof {
            lemma_trim_end_step(s@, i as int, j as int);
        }
        j = j - 1;
    }
    assert(trim_end(s@.subrange(i as int, j as int)) == s@.subrange(i as int, j as int));
    substring(s, i, j)
}

pub fn to_ascii_lower_char(c: char) -> (r: char)
    ensures
        r == ascii_lower_char(c),
{
    if 'A' <= c && c <= 'Z' {
        let b = c as u8;
        assert(b as u32 == c as u32);
        ((b + 32) as u8) as char
    } else {
        c
    }
}

pub fn to_ascii_upper_char(c: char) -> (r: char)
    ensures
        r == ascii_upper_char(c),
{
    if 'a' <= c && c <= 'z' {
        let b = c as u8;
        assert(b as u32 == c as u32);
        ((b - 32) as u8) as char
    } else {
        c
    }
}

/// The string with its ASCII letters in lower case, as `str::to_ascii_lowercase`.
pub fn to_ascii_lowercase(s: &str) -> (r: String)
    ensures
        r@ == ascii_lower(s@),
{
    let mut r = String::new();
    let n = s.unicode_len();
    let mut i: usize = 0;
    while i < n
        invariant
            n == s@.len(),
            i <= n,
            r@ == ascii_lower(s@.subrange(0, i as int)),
        decreases n - i,
    {
        let c = s.get_char(i);
        push_char(&mut r, to_ascii_lower_char(c));
        assert(ascii_lower(s@.subrange(0, i + 1)) =~= ascii_lower(s@.subrange(0, i as int)).push(
            ascii_lower_char(c),
        ));
        i = i + 1;
    }
    assert(s@.subrange(0, n as int) =~= s@);
    r
}

/// The string with its ASCII letters in upper case, as `str::to_ascii_uppercase`.
pub fn to_ascii_uppercase(s: &str) -> (r: String)
    ensures
        r@ == ascii_upper(s@),
{
    let mut r = String::new();
    let n = s.unicode_len();
    let mut i: usize = 0;
    while i < n
        invariant
            n == s@.len(),
            i <= n,
            r@ == ascii_upper(s@.subrange(0, i as int)),
        decreases n - i,
    {
        let c = s.get_char(i);
        push_char(&mut r, to_ascii_upper_char(c));
        assert(ascii_upper(s@.subrange(0, i + 1)) =~= ascii_upper(s@.subrange(0, i as int)).push(
            ascii_upper_char(c),
        ));
        i = i + 1;
    }
    assert(s@.subrange(0, n as int) =~= s@);
    r
}

/// Whether `c` occurs in `s`.
pub fn contains_char(s: &str, c: char) -> (b: bool)
    ensures
        b == s@.contains(c),
{
    let n = s.unicode_len();
    let mut i: usize = 0;
    while i < n
        invariant
            n == s@.len(),
            i <= n,
            forall|k: int| 0 <= k < i ==> s@[k] != c,
        decreases n - i,
    {
        if s.get_char(i) == c {
            return true;
        }
        i = i + 1;
    }
    false
}

/// The position of the first occurrence of `c` in `s`, if any.
pub fn find_char(s: &str, c: char) -> (r: Option<usize>)
    ensures
        match r {
            Some(k) => k < s@.len() && s@[k as int] == c && forall|m: int|
                0 <= m < k ==> s@[m] != c,
            None => !s@.contains(c),
        },
{
    let n = s.unicode_len();
    let mut i: usize = 0;
    while i < n
        invariant
            n == s@.len(),
            i <= n,
            forall|k: int| 0 <= k < i ==> s@[k] != c,
        decreases n - i,
    {
        if s.get_char(i) == c {
            return Some(i);
        }
        i = i + 1;
    }
    None
}

/// The length in bytes of the UTF-8 encoding of `s`, as `str::len`.
pub fn byte_len(s: &str) -> (n: usize)
    ensures
        n == utf8_len(s@),
{
    let b = s.as_bytes();
    b.len()
}

pub fn digit_of(d: u64) -> (c: char)
    requires
        d < 10,
    ensures
        c == digit_char(d as nat),
{
    let b = (d as u8) + 48;
    b as char
}

/// Appends the decimal representation of `n`.
pub fn push_decimal(s: &mut String, n: u64)
    ensures
        final(s)@ == old(s)@ + decimal(n as nat),
    decreases n,
{
    if n >= 10 {
        push_decimal(s, n / 10);
    }
    push_char(s, digit_of(n % 10));
    proof {
        if n >= 10 {
            assert(decimal(n as nat) == decimal((n / 10) as nat).push(digit_char((n % 10) as nat)));
        }
    }
}

/// Appends the decimal representation of a signed integer.
pub fn push_signed_decimal(s: &mut String, n: i64)
    ensures
        final(s)@ == old(s)@ + signed_decimal(n as int),
{
    if n < 0 {
        push_char(s, '-');
        let m: u64 = if n == i64::MIN {
            9223372036854775808u64
        } else {
            (-n) as u64
        };
        push_decimal(s, m);
    } else {
        push_decimal(s, n as u64);
    }
}

/// The decimal representation of `n`, as `n.to_string()`.
pub fn decimal_string(n: u64) -> (r: String)
    ensures
        r@ == decimal(n as nat),
{
    let mut r = String::new();
    push_decimal(&mut r, n);
    r
}

/// The value of the digits `s[from..to]`.
pub fn parse_digits(s: &str, from: usize, to: usize) -> (r: Option<u64>)
    requires
        from <= to <= s@.len(),
    ensures
        match r {
            Some(v) => all_digits(s@.subrange(from as int, to as int)) && v == digits_value(
                s@.subrange(from as int, to as int),
            ),
            None => !all_digits(s@.subrange(from as int, to as int)) || digits_value(
                s@.subrange(from as int, to as int),
            ) > u64::MAX,
        },
{
    let mut v: u64 = 0;
    let mut i: usize = from;
    while i < to
        invariant
            from <= i <= to <= s@.len(),
            all_digits(s@.subrange(from as int, i as int)),
            v == digits_value(s@.subrange(from as int, i as int)),
        decreases to - i,
    {
        let c = s.get_char(i);
        let ghost prefix = s@.subrange(from as int, i as int);
        let ghost next = s@.subrange(from as int, i + 1);
        assert(next.drop_last() =~= prefix);
        assert(next.last() == c);
        if !('0' <= c && c <= '9') {
            assert(!is_ascii_digit(next[i - from]));
            proof {
                lemma_not_all_digits_extends(s@, from as int, i as int, to as int);
            }
            return None;
        }
        let d = (c as u32 - 48) as u64;
        if v > (u64::MAX - d) / 10 {
            proof {
                assert(digits_value(next) == v * 10 + d);
                assert(v * 10 + d > u64::MAX) by (nonlinear_arith)
                    requires
                        v > (u64::MAX - d) / 10,
                        d <= 9,
                ;
                if all_digits(s@.subrange(from as int, to as int)) {
                    lemma_digits_value_monotone(s@, from as int, i + 1, to as int);
                }
            }
            return None;
        }
        assert(v * 10 + d <= u64::MAX) by (nonlinear_arith)
            requires
                v <= (u64::MAX - d) / 10,
                d <= 9,
        ;
        v = v * 10 + d;
        i = i + 1;
    }
    Some(v)
}

proof fn lemma_not_all_digits_extends(s: Seq<char>, from: int, i: int, to: int)
    requires
        0 <= from <= i < to <= s.len(),
        !is_ascii_digit(s[i]),
    ensures
        !all_digits(s.subrange(from, to)),
{
    assert(s.subrange(from, to)[i - from] == s[i]);
}

proof fn lemma_digits_value_monotone(s: Seq<char>, from: int, i: int, to: int)
    requires
        0 <= from <= i <= to <= s.len(),
        all_digits(s.subrange(from, to)),
    ensures
        digits_value(s.subrange(from, i)) <= digits_value(s.subrange(from, to)),
    decreases to - i,
{
    if i < to {
        lemma_digits_value_monotone(s, from, i + 1, to);
        let next = s.subrange(from, i + 1);
        assert(next.drop_last() =~= s.subrange(from, i));
        assert(next.last() == s.subrange(from, to)[i - from]);
    }
}

/// `s` parsed as `str::parse::<u64>` does.
pub fn parse_u64_str(s: &str) -> (r: Option<u64>)
    ensures
        r == parse_u64(s@),
{
    let n = s.unicode_len();
    let from: usize = if n > 0 && s.get_char(0) == '+' {
        1
    } else {
        0
    };
    let ghost d = if s@.len() > 0 && s@[0] == '+' {
        s@.drop_first()
    } else {
        s@
    };
    assert(d =~= s@.subrange(from as int, n as int));
    if from == n {
        return None;
    }
    parse_digits(s, from, n)
}

/// Whether two strings hold the same characters.
pub fn str_eq(a: &str, b: &str) -> (r: bool)
    ensures
        r == (a@ == b@),
{
    let n = a.unicode_len();
    if n != b.unicode_len() {
        return false;
    }
    let mut i: usize = 0;
    while i < n
        invariant
            n == a@.len(),
            n == b@.len(),
            i <= n,
            forall|k: int| 0 <= k < i ==> a@[k] == b@[k],
        decreases n - i,
    {
        if a.get_char(i) != b.get_char(i) {
            return false;
        }
        i = i + 1;
    }
    assert(a@ =~= b@);
    true
}

/// The number of characters of `s`, as `s.chars().count()`.
pub fn char_count(s: &str) -> (n: usize)
    ensures
        n == s@.len(),
{
    s.unicode_len()
}

/// A new vector holding `s[from..to]`.
pub fn bytes_range(s: &[u8], from: usize, to: usize) -> (r: Vec<u8>)
    requires
        from <= to <= s@.len(),
    ensures
        r@ == s@.subrange(from as int, to as int),
{
    let mut r: Vec<u8> = Vec::new();
    let mut i: usize = from;
    while i < to
        invariant
            from <= i <= to <= s@.len(),
            r@ == s@.subrange(from as int, i as int),
        decreases to - i,
    {
        r.push(s[i]);
        assert(s@.subrange(from as int, i + 1) =~= s@.subrange(from as int, i as int).push(s@[i as int]));
        i = i + 1;
    }
    r
}

/// The position of the first `c` in `s`, or `s.len()` when there is none.
pub open spec fn first_pos(s: Seq<char>, c: char) -> nat
    decreases s.len(),
{
    if s.len() == 0 {
        0
    } else if s[0] == c {
        0
    } else {
        1 + first_pos(s.drop_first(), c)
    }
}

/// What characterizes `first_pos`: no `c` before it, and `c` at it unless it
/// is the end.
pub proof fn lemma_first_pos(s: Seq<char>, c: char)
    ensures
        first_pos(s, c) <= s.len(),
        forall|j: int| 0 <= j < first_pos(s, c) ==> s[j] != c,
        first_pos(s, c) < s.len() ==> s[first_pos(s, c) as int] == c,
    decreases s.len(),
{
    if s.len() > 0 && s[0] != c {
        lemma_first_pos(s.drop_first(), c);
        assert forall|j: int| 0 <= j < first_pos(s, c) implies s[j] != c by {
            if j > 0 {
                assert(s[j] == s.drop_first()[j - 1]);
            }
        }
    }
}

/// Any position with no `c` before it and `c` at it (or the end) is the
/// first position of `c`.
pub proof fn lemma_first_pos_unique(s: Seq<char>, c: char, k: int)
    requires
        0 <= k <= s.len(),
        forall|j: int| 0 <= j < k ==> s[j] != c,
        k < s.len() ==> s[k] == c,
    ensures
        first_pos(s, c) == k,
    decreases s.len(),
{
    if s.len() > 0 && s[0] != c {
        assert forall|j: int| 0 <= j < k - 1 implies s.drop_first()[j] != c by {
            assert(s.drop_first()[j] == s[j + 1]);
        }
        lemma_first_pos_unique(s.drop_first(), c, k - 1);
    }
}

/// `s` split at every `sep`, as `str::split` does: one more piece than there
/// are separators.
pub open spec fn segments(s: Seq<char>, sep: char) -> Seq<Seq<char>>
    decreases s.len(),
{
    let k = first_pos(s, sep);
    if k >= s.len() {
        seq![s]
    } else {
        seq![s.take(k as int)] + segments(s.skip(k + 1int), sep)
    }
}

/// `s` split at its first `sep`, as `str::split_once` does.
pub open spec fn split_once(s: Seq<char>, sep: char) -> Option<(Seq<char>, Seq<char>)> {
    let k = first_pos(s, sep);
    if k < s.len() {
        Some((s.take(k as int), s.skip(k + 1int)))
    } else {
        None
    }
}

/// The position of the first `c` in `s` at or after `from`, or the length of
/// `s`.
pub fn find_char_from(s: &str, c: char, from: usize) -> (r: usize)
    requires
        from <= s@.len(),
    ensures
        from <= r <= s@.len(),
        r - from == first_pos(s@.skip(from as int), c),
{
    let n = s.unicode_len();
    let mut i: usize = from;
    while i < n
        invariant
            n == s@.len(),
            from <= i <= n,
            forall|k: int| from <= k < i ==> s@[k] != c,
        decreases n - i,
    {
        if s.get_char(i) == c {
            proof {
                lemma_first_pos_unique(s@.skip(from as int), c, i - from);
            }
            return i;
        }
        i = i + 1;
    }
    proof {
        lemma_first_pos_unique(s@.skip(from as int), c, n - from);
    }
    n
}

/// `s` split at its first `sep`, as `str::split_once` does.
pub fn split_once_str(s: &str, sep: char) -> (r: Option<(String, String)>)
    ensures
        match r {
            Some((a, b)) => split_once(s@, sep) == Some((a@, b@)),
            None => split_once(s@, sep) is None,
        },
{
    let n = s.unicode_len();
    let k = find_char_from(s, sep, 0);
    assert(s@.skip(0) =~= s@);
    if k < n {
        let a = substring(s, 0, k);
        let b = substring(s, k + 1, n);
        assert(a@ =~= s@.take(k as int));
        assert(b@ =~= s@.skip(k + 1));
        Some((a, b))
    } else {
        None
    }
}

/// The decimal representation is non-empty, made of digits, and reads back
/// to the number.
pub proof fn lemma_decimal_digits(n: nat)
    ensures
        decimal(n).len() > 0,
        all_digits(decimal(n)),
        digits_value(decimal(n)) == n,
    decreases n,
{
    if n >= 10 {
        lemma_decimal_digits(n / 10);
        let s = decimal(n);
        assert(s.drop_last() == decimal(n / 10));
        assert(s.last() as u32 == (n % 10) + 48);
        assert(digits_value(s) == digits_value(s.drop_last()) * 10 + (((s.last() as u32) - 48) as nat));
        assert(digits_value(s) == (n / 10) * 10 + n % 10);
        assert forall|i: int| 0 <= i < s.len() implies is_ascii_digit(#[trigger] s[i]) by {
            if i < s.len() - 1 {
                assert(s[i] == decimal(n / 10)[i]);
            }
        }
    } else {
        let s = decimal(n);
        assert(s[0] as u32 == n + 48);
        assert(s.drop_last() =~= Seq::<char>::empty());
        assert(digits_value(s) == digits_value(s.drop_last()) * 10 + (((s.last() as u32) - 48) as nat));
    }
}

/// `str::parse::<u64>` reads the decimal representation of a `u64` back.
pub proof fn lemma_parse_decimal(n: u64)
    ensures
        parse_u64(decimal(n as nat)) == Some(n),
{
    lemma_decimal_digits(n as nat);
    assert(is_ascii_digit(decimal(n as nat)[0]));
}

/// `s` without trailing `c`s, as `str::trim_end_matches(c)`.
pub open spec fn strip_trailing(s: Seq<char>, c: char) -> Seq<char>
    decreases s.len(),
{
    if s.len() > 0 && s.last() == c {
        strip_trailing(s.drop_last(), c)
    } else {
        s
    }
}

/// The string without trailing `c`s.
pub fn trim_end_matches_char(s: &str, c: char) -> (r: String)
    ensures
        r@ == strip_trailing(s@, c),
{
    let n = s.unicode_len();
    let mut j: usize = n;
    assert(s@.subrange(0, n as int) =~= s@);
    while j > 0 && s.get_char(j - 1) == c
        invariant
            n == s@.len(),
            j <= n,
            strip_trailing(s@, c) == strip_trailing(s@.subrange(0, j as int), c),
        decreases j,
    {
        assert(s@.subrange(0, j as int).drop_last() =~= s@.subrange(0, j - 1));
        j = j - 1;
    }
    substring(s, 0, j)
}

/// What `str::parse::<u16>` gives.
pub open spec fn parse_u16(s: Seq<char>) -> Option<u16> {
    match parse_u64(s) {
        Some(v) => if v <= 65535 {
            Some(v as u16)
        } else {
            None
        },
        None => None,
    }
}

/// What `str::parse::<i64>` gives: an optional sign, then one or more
/// decimal digits whose value fits.
pub open spec fn parse_i64(s: Seq<char>) -> Option<i64> {
    if s.len() > 0 && s[0] == '-' {
        let d = s.drop_first();
        if d.len() > 0 && all_digits(d) && digits_value(d) <= 9223372036854775808 {
            Some((0 - digits_value(d)) as i64)
        } else {
            None
        }
    } else {
        match parse_u64(s) {
            Some(v) => if v <= 9223372036854775807 {
                Some(v as i64)
            } else {
                None
            },
            None => None,
        }
    }
}

/// What `str::parse::<bool>` gives.
pub open spec fn parse_bool(s: Seq<char>) -> Option<bool> {
    if s == "true"@ {
        Some(true)
    } else if s == "false"@ {
        Some(false)
    } else {
        None
    }
}

/// `str::parse::<bool>` accepts only the two words: a text read as `true`
/// is the four letters `t`, `r`, `u`, `e`, and one read as `false` the five
/// letters `f`, `a`, `l`, `s`, `e`; both of these are read.
pub proof fn lemma_parse_bool_words(s: Seq<char>)
    ensures
        parse_bool(s) == Some(true) <==> s == seq!['t', 'r', 'u', 'e'],
        parse_bool(s) == Some(false) <==> s == seq!['f', 'a', 'l', 's', 'e'],
{
    reveal_strlit("true");
    reveal_strlit("false");
    assert("true"@ =~= seq!['t', 'r', 'u', 'e']);
    assert("false"@ =~= seq!['f', 'a', 'l', 's', 'e']);
}

/// `s` parsed as `str::parse::<u16>` does.
pub fn parse_u16_str(s: &str) -> (r: Option<u16>)
    ensures
        r == parse_u16(s@),
{
    match parse_u64_str(s) {
        Some(v) => if v <= 65535 {
            Some(v as u16)
        } else {
            None
        },
        None => None,
    }
}

/// `s` parsed as `str::parse::<i64>` does.
pub fn parse_i64_str(s: &str) -> (r: Option<i64>)
    ensures
        r == parse_i64(s@),
{
    let n = s.unicode_len();
    if n > 0 && s.get_char(0) == '-' {
        assert(s@.drop_first() =~= s@.subrange(1, n as int));
        if n == 1 {
            return None;
        }
        match parse_digits(s, 1, n) {
            Some(v) => if v <= 9223372036854775808 {
                if v == 9223372036854775808 {
                    Some(i64::MIN)
                } else {
                    Some(0 - (v as i64))
                }
            } else {
                None
            },
            None => None,
        }
    } else {
        match parse_u64_str(s) {
            Some(v) => if v <= 9223372036854775807 {
                Some(v as i64)
            } else {
                None
            },
            None => None,
        }
    }
}

/// `s` parsed as `str::parse::<bool>` does.
pub fn parse_bool_str(s: &str) -> (r: Option<bool>)
    ensures
        r == parse_bool(s@),
{
    if str_eq(s, "true") {
        Some(true)
    } else if str_eq(s, "false") {
        Some(false)
    } else {
        None
    }
}

/// ASCII lower-casing keeps white space, hyphens and upper-case forms.
pub proof fn lemma_white_space_lower(c: char)
    ensures
        is_white_space(ascii_lower_char(c)) == is_white_space(c),
        (ascii_lower_char(c) == '-') == (c == '-'),
        ascii_upper_char(ascii_lower_char(c)) == ascii_upper_char(c),
{
}

/// Trimming commutes with ASCII lower-casing.
pub proof fn lemma_trim_start_lower(s: Seq<char>)
    ensures
        trim_start(ascii_lower(s)) == ascii_lower(trim_start(s)),
    decreases s.len(),
{
    if s.len() > 0 {
        lemma_white_space_lower(s[0]);
        if is_white_space(s[0]) {
            assert(ascii_lower(s).drop_first() =~= ascii_lower(s.drop_first()));
            lemma_trim_start_lower(s.drop_first());
        }
    }
}

/// Trimming commutes with ASCII lower-casing.
pub proof fn lemma_trim_end_lower(s: Seq<char>)
    ensures
        trim_end(ascii_lower(s)) == ascii_lower(trim_end(s)),
    decreases s.len(),
{
    if s.len() > 0 {
        lemma_white_space_lower(s.last());
        if is_white_space(s.last()) {
            assert(ascii_lower(s).drop_last() =~= ascii_lower(s.drop_last()));
            lemma_trim_end_lower(s.drop_last());
        }
    }
}

/// The trimmed form of a string is empty or starts and ends with a
/// character that is not white space, and trimming it again changes nothing.
pub proof fn lemma_trim_idempotent(s: Seq<char>)
    ensures
        trim(s).len() == 0 || (!is_white_space(trim(s)[0]) && !is_white_space(trim(s).last())),
        trim(trim(s)) == trim(s),
{
    lemma_trim_start_shape(s);
    let x = trim_start(s);
    lemma_trim_end_prefix(x);
    let t = trim_end(x);
    if t.len() > 0 {
        assert(t[0] == x[0]);
        lemma_trim_noop(t);
    }
}

proof fn lemma_trim_start_shape(s: Seq<char>)
    ensures
        trim_start(s).len() == 0 || !is_white_space(trim_start(s)[0]),
    decreases s.len(),
{
    if s.len() > 0 && is_white_space(s[0]) {
        lemma_trim_start_shape(s.drop_first());
    }
}

proof fn lemma_trim_end_prefix(s: Seq<char>)
    ensures
        trim_end(s).len() <= s.len(),
        trim_end(s) == s.take(trim_end(s).len() as int),
        trim_end(s).len() == 0 || !is_white_space(trim_end(s).last()),
    decreases s.len(),
{
    if s.len() > 0 && is_white_space(s.last()) {
        lemma_trim_end_prefix(s.drop_last());
        assert(s.drop_last().take(trim_end(s).len() as int) =~= s.take(trim_end(s).len() as int));
    } else {
        assert(s.take(s.len() as int) =~= s);
    }
}

/// A string that starts and ends with characters that are not white space
/// is its own trimmed form.
pub proof fn lemma_trim_noop(s: Seq<char>)
    requires
        s.len() > 0,
        !is_white_space(s[0]),
        !is_white_space(s.last()),
    ensures
        trim(s) == s,
{
    assert(trim_start(s) == s);
    assert(trim_end(s) == s);
}

/// ASCII lower-casing twice is lower-casing once.
pub proof fn lemma_ascii_lower_idempotent(s: Seq<char>)
    ensures
        ascii_lower(ascii_lower(s)) == ascii_lower(s),
{
    assert(ascii_lower(ascii_lower(s)) =~= ascii_lower(s));
}

} // verus!
