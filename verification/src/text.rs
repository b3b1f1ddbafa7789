use vstd::prelude::*;

verus! {

/// `c` is one of the ASCII digits `0` to `9`.
pub open spec fn is_decimal_digit(c: char) -> bool {
    '0' <= c && c <= '9'
}

/// The value of the ASCII digit `c`.
pub open spec fn digit_value(c: char) -> nat {
    (c as int - '0' as int) as nat
}

/// The number that the digits `s` spell in base ten (most significant first).
pub open spec fn decimal_value(s: Seq<char>) -> nat
    decreases s.len(),
{
    if s.len() == 0 {
        0
    } else {
        decimal_value(s.drop_last()) * 10 + digit_value(s.last())
    }
}

/// Every character of `s` is a decimal digit.
pub open spec fn all_decimal_digits(s: Seq<char>) -> bool {
    forall|i: int| 0 <= i < s.len() ==> is_decimal_digit(#[trigger] s[i])
}

/// `s` without one leading `+`, if it has one.
pub open spec fn unsigned_digits(s: Seq<char>) -> Seq<char> {
    if s.len() > 0 && s[0] == '+' {
        s.drop_first()
    } else {
        s
    }
}

/// How text reads as a `u64`: an optional `+`, then at least one decimal
/// digit and nothing else, naming a number that fits in 64 bits.
pub open spec fn spec_parse_u64(s: Seq<char>) -> Option<u64> {
    let d = unsigned_digits(s);
    if d.len() > 0 && all_decimal_digits(d) && decimal_value(d) <= u64::MAX {
        Some(decimal_value(d) as u64)
    } else {
        None
    }
}

/// Why text does not read as a `u64`, as `ParseIntError::kind` reports it.
#[derive(Debug, Clone, Copy, PartialEq, Eq)]
pub enum IntParseError {
    /// The text is empty.
    Empty,
    /// A character that is not a digit, or a sign with nothing after it.
    InvalidDigit,
    /// The number does not fit in 64 bits.
    PosOverflow,
}

/// The message with which `ParseIntError` displays each kind.
pub open spec fn int_error_message(e: IntParseError) -> Seq<char> {
    match e {
        IntParseError::Empty => "cannot parse integer from empty string"@,
        IntParseError::InvalidDigit => "invalid digit found in string"@,
        IntParseError::PosOverflow => "number too large to fit in target type"@,
    }
}

/// Reading the first `n` characters of `d` left to right, as `u64` parsing
/// does: each must be a digit (else `InvalidDigit`), and the number so far
/// must fit in 64 bits (else `PosOverflow`); the first problem met decides.
pub open spec fn digits_outcome(d: Seq<char>, n: int) -> Result<u64, IntParseError>
    decreases n,
{
    if n <= 0 {
        Ok(0u64)
    } else {
        match digits_outcome(d, n - 1) {
            Err(e) => Err(e),
            Ok(v) => if !is_decimal_digit(d[n - 1]) {
                Err(IntParseError::InvalidDigit)
            } else if v * 10 + digit_value(d[n - 1]) > u64::MAX {
                Err(IntParseError::PosOverflow)
            } else {
                Ok((v * 10 + digit_value(d[n - 1])) as u64)
            },
        }
    }
}

/// What `str::parse::<u64>` gives for `s`: `Empty` for empty text,
/// `InvalidDigit` for a lone sign, else the reading of the digits after one
/// optional `+`.
pub open spec fn parse_u64_outcome(s: Seq<char>) -> Result<u64, IntParseError> {
    if s.len() == 0 {
        Err(IntParseError::Empty)
    } else if s.len() == 1 && (s[0] == '+' || s[0] == '-') {
        Err(IntParseError::InvalidDigit)
    } else {
        digits_outcome(unsigned_digits(s), unsigned_digits(s).len() as int)
    }
}

proof fn lemma_outcome_error_stays(d: Seq<char>, k: int, n: int)
    requires
        0 <= k <= n,
        digits_outcome(d, k) is Err,
    ensures
        digits_outcome(d, n) == digits_outcome(d, k),
    decreases n - k,
{
    if n > k {
        lemma_outcome_error_stays(d, k, n - 1);
    }
}

proof fn lemma_digits_outcome(d: Seq<char>, n: int)
    requires
        0 <= n <= d.len(),
    ensures
        digits_outcome(d, n) is Ok <==> (all_decimal_digits(d.take(n)) && decimal_value(d.take(n))
            <= u64::MAX),
        digits_outcome(d, n) matches Ok(v) ==> v == decimal_value(d.take(n)),
    decreases n,
{
    if n > 0 {
        lemma_digits_outcome(d, n - 1);
        let t = d.take(n);
        let p = d.take(n - 1);
        assert(t.drop_last() == p);
        assert(t.last() == d[n - 1]);
        if all_decimal_digits(t) {
            assert forall|j: int| 0 <= j < p.len() implies is_decimal_digit(#[trigger] p[j]) by {
                assert(p[j] == t[j]);
            }
        }
        if all_decimal_digits(p) && is_decimal_digit(d[n - 1]) {
            assert forall|j: int| 0 <= j < t.len() implies is_decimal_digit(#[trigger] t[j]) by {
                if j < p.len() {
                    assert(t[j] == p[j]);
                }
            }
        }
        if !is_decimal_digit(d[n - 1]) {
            assert(!is_decimal_digit(t[n - 1]));
        }
    } else {
        assert(d.take(n) =~= Seq::<char>::empty());
    }
}

/// A text reads as a number exactly when the step-by-step reading succeeds,
/// and then both give the same number.
pub proof fn lemma_parse_outcome_agrees(s: Seq<char>)
    ensures
        spec_parse_u64(s) == match parse_u64_outcome(s) {
            Ok(v) => Some(v),
            Err(_) => None::<u64>,
        },
{
    let d = unsigned_digits(s);
    lemma_digits_outcome(d, d.len() as int);
    assert(d.take(d.len() as int) == d);
    if s.len() == 1 && (s[0] == '+' || s[0] == '-') {
        if s[0] == '-' {
            assert(d == s);
            assert(!is_decimal_digit(d[0]));
        }
    }
}

/// Reads `s` as an unsigned 64-bit decimal number, as `str::parse::<u64>`
/// does, or says why it cannot.
pub fn parse_u64_checked(s: &str) -> (r: Result<u64, IntParseError>)
    ensures
        r == parse_u64_outcome(s@),
{
    let n = s.unicode_len();
    if n == 0 {
        return Err(IntParseError::Empty);
    }
    let first = s.get_char(0);
    if n == 1 && (first == '+' || first == '-') {
        return Err(IntParseError::InvalidDigit);
    }
    let start: usize = if first == '+' {
        1
    } else {
        0
    };
    let ghost d = unsigned_digits(s@);
    assert(d == s@.subrange(start as int, n as int));
    let mut acc: u64 = 0;
    let mut i: usize = start;
    while i < n
        invariant
            n == s@.len(),
            start <= i <= n,
            d == s@.subrange(start as int, n as int),
            d == unsigned_digits(s@),
            digits_outcome(d, i - start) == Ok::<u64, IntParseError>(acc),
        decreases n - i,
    {
        let c = s.get_char(i);
        assert(d[i - start] == c);
        if !('0' <= c && c <= '9') {
            proof {
                lemma_outcome_error_stays(d, i - start + 1, d.len() as int);
            }
            return Err(IntParseError::InvalidDigit);
        }
        let dv: u64 = (c as u32 - '0' as u32) as u64;
        assert(dv == digit_value(c));
        let next = match acc.checked_mul(10) {
            Some(m) => m.checked_add(dv),
            None => None,
        };
        match next {
            Some(v) => {
                acc = v;
            },
            None => {
                proof {
                    lemma_outcome_error_stays(d, i - start + 1, d.len() as int);
                }
                return Err(IntParseError::PosOverflow);
            },
        }
        i = i + 1;
    }
    Ok(acc)
}

/// Reads `s` as an unsigned 64-bit decimal number, as `str::parse::<u64>`
/// does: an optional `+`, then digits only; no sign `-`, no spaces.
pub fn parse_u64(s: &str) -> (r: Option<u64>)
    ensures
        r == spec_parse_u64(s@),
{
    proof {
        lemma_parse_outcome_agrees(s@);
    }
    match parse_u64_checked(s) {
        Ok(v) => Some(v),
        Err(_) => None,
    }
}

/// The message with which `ParseIntError` displays `e`.
pub fn int_error_text(e: IntParseError) -> (r: String)
    ensures
        r@ == int_error_message(e),
{
    match e {
        IntParseError::Empty => "cannot parse integer from empty string".to_owned(),
        IntParseError::InvalidDigit => "invalid digit found in string".to_owned(),
        IntParseError::PosOverflow => "number too large to fit in target type".to_owned(),
    }
}

/// The Unicode `White_Space` property, which `char::is_whitespace` tests:
/// the 25 code points U+0009 to U+000D, U+0020, U+0085, U+00A0, U+1680,
/// U+2000 to U+200A, U+2028, U+2029, U+202F, U+205F and U+3000.
pub open spec fn unicode_white_space(c: char) -> bool {
    let n = c as u32;
    ||| 0x9 <= n <= 0xd
    ||| n == 0x20
    ||| n == 0x85
    ||| n == 0xa0
    ||| n == 0x1680
    ||| 0x2000 <= n <= 0x200a
    ||| n == 0x2028
    ||| n == 0x2029
    ||| n == 0x202f
    ||| n == 0x205f
    ||| n == 0x3000
}

/// Whether `c` has the Unicode `White_Space` property.
pub fn is_white_space(c: char) -> (r: bool)
    ensures
        r == unicode_white_space(c),
{
    let n = c as u32;
    (0x9 <= n && n <= 0xd) || n == 0x20 || n == 0x85 || n == 0xa0 || n == 0x1680 || (0x2000 <= n
        && n <= 0x200a) || n == 0x2028 || n == 0x2029 || n == 0x202f || n == 0x205f || n == 0x3000
}

/// Position `i` of `s` starts a word: it holds no white space, and it is the
/// first position or follows white space.
pub open spec fn starts_word(s: Seq<char>, i: int) -> bool {
    &&& !unicode_white_space(s[i])
    &&& (i == 0 || unicode_white_space(s[i - 1]))
}

/// The number of maximal runs of non-white-space characters in `s`: the
/// number of items that `str::split_whitespace` yields.
pub open spec fn word_count(s: Seq<char>) -> nat
    decreases s.len(),
{
    if s.len() == 0 {
        0
    } else {
        word_count(s.drop_last()) + if starts_word(s, s.len() - 1) {
            1nat
        } else {
            0nat
        }
    }
}

/// Counts the white-space separated words of `s`.
pub fn count_words(s: &str) -> (r: usize)
    ensures
        r == word_count(s@),
{
    let n = s.unicode_len();
    let mut count: usize = 0;
    let mut i: usize = 0;
    let mut after_space = true;
    while i < n
        invariant
            n == s@.len(),
            i <= n,
            count <= i,
            count == word_count(s@.take(i as int)),
            after_space == (i == 0 || unicode_white_space(s@[i - 1])),
        decreases n - i,
    {
        let c = s.get_char(i);
        let space = is_white_space(c);
        let ghost t = s@.take(i + 1);
        assert(t.drop_last() == s@.take(i as int));
        assert(t.last() == c);
        assert(i > 0 ==> t[i - 1] == s@[i - 1]);
        if !space && after_space {
            count = count + 1;
        }
        after_space = space;
        i = i + 1;
    }
    assert(s@.take(n as int) == s@);
    count
}

/// Whether the two texts hold the same characters.
pub fn text_eq(a: &str, b: &str) -> (r: bool)
    ensures
        r == (a@ == b@),
{
    let n = a.unicode_len();
    if n != b.unicode_len() {
        return false;
    }
    let mut i: usize = 0;
    while i < n
        invariant
            n == a@.len(),
            n == b@.len(),
            i <= n,
            forall|j: int| 0 <= j < i ==> a@[j] == b@[j],
        decreases n - i,
    {
        if a.get_char(i) != b.get_char(i) {
            return false;
        }
        i = i + 1;
    }
    assert(a@ =~= b@);
    true
}

} // verus!
