//! Decimal digits and joined lists of words, as the messages of this crate
//! print them.
use vstd::prelude::*;

verus! {

/// The character of the decimal digit `d` (for `0 <= d < 10`).
pub open spec fn digit_char(d: int) -> char {
    (d + 48) as char
}

/// The decimal notation of `n`, most significant digit first, without
/// leading zeros (`0` is written as a single `'0'`).
pub open spec fn decimal(n: nat) -> Seq<char>
    decreases n,
{
    if n < 10 {
        seq![digit_char(n as int)]
    } else {
        decimal(n / 10).push(digit_char((n % 10) as int))
    }
}

/// `parts` with `sep` between each two neighbours.
pub open spec fn join(parts: Seq<Seq<char>>, sep: Seq<char>) -> Seq<char>
    decreases parts.len(),
{
    if parts.len() == 0 {
        Seq::empty()
    } else if parts.len() == 1 {
        parts[0]
    } else {
        join(parts.drop_last(), sep) + sep + parts.last()
    }
}

/// The texts held by a sequence of strings.
pub open spec fn texts(strings: Seq<String>) -> Seq<Seq<char>> {
    strings.map_values(|s: String| s@)
}

/// Whether `c` is an ASCII decimal digit.
pub open spec fn is_digit(c: char) -> bool {
    '0' <= c <= '9'
}

/// The value of the digit character `c`.
pub open spec fn digit_value(c: char) -> int {
    c as int - 48
}

/// The value of a string of decimal digits, most significant first (0 when empty).
pub open spec fn digits_value(s: Seq<char>) -> int
    decreases s.len(),
{
    if s.len() == 0 {
        0
    } else {
        digits_value(s.drop_last()) * 10 + digit_value(s.last())
    }
}

/// Whether every character of `s` is a decimal digit.
pub open spec fn all_digits(s: Seq<char>) -> bool {
    forall|i: int| 0 <= i < s.len() ==> is_digit(#[trigger] s[i])
}

/// The integer that `s` writes in decimal: an optional `+` or `-` followed by
/// at least one digit; `None` for any other text.
pub open spec fn signed_decimal(s: Seq<char>) -> Option<int> {
    let signed = s.len() > 0 && (s[0] == '-' || s[0] == '+');
    let body = if signed {
        s.drop_first()
    } else {
        s
    };
    if body.len() > 0 && all_digits(body) {
        Some(
            if s[0] == '-' {
                -digits_value(body)
            } else {
                digits_value(body)
            },
        )
    } else {
        None
    }
}

/// The `i64` that `s` writes in decimal; `None` when `s` is not a decimal
/// integer or its value does not fit.
pub open spec fn parsed_i64(s: Seq<char>) -> Option<int> {
    match signed_decimal(s) {
        Some(v) => if i64::MIN <= v <= i64::MAX {
            Some(v)
        } else {
            None
        },
        None => None,
    }
}

/// Reads a decimal `i64`: an optional sign, then digits only.
pub fn parse_i64(text: &str) -> (value: Option<i64>)
    ensures
        match parsed_i64(text@) {
            Some(v) => value == Some(v as i64),
            None => value is None,
        },
{
    let n = text.unicode_len();
    if n == 0 {
        return None;
    }
    let first = text.get_char(0);
    let negative = first == '-';
    let start: usize = if first == '-' || first == '+' {
        1
    } else {
        0
    };
    if start == n {
        return None;
    }
    let ghost s = text@;
    let ghost body = s.subrange(start as int, n as int);
    assert(start == 1 ==> body =~= s.drop_first());
    assert(start == 0 ==> body =~= s);
    let limit: u128 = 9_223_372_036_854_775_808;
    let mut magnitude: u128 = 0;
    let mut over = false;
    let mut i = start;
    while i < n
        invariant
            n == s.len(),
            s == text@,
            start <= i <= n,
            start < n,
            forall|j: int| start <= j < i ==> is_digit(#[trigger] s[j]),
            !over ==> magnitude == digits_value(s.subrange(start as int, i as int)),
            !over ==> magnitude <= limit,
            over ==> digits_value(s.subrange(start as int, i as int)) > limit,
            limit == 9_223_372_036_854_775_808u128,
            body == s.subrange(start as int, n as int),
            start == 1 ==> body == s.drop_first(),
            start == 0 ==> body == s,
            (start == 1) == (s[0] == '-' || s[0] == '+'),
            start <= 1,
        decreases n - i,
    {
        let c = text.get_char(i);
        if !(c >= '0' && c <= '9') {
            assert(!is_digit(body[i - start]));
            assert(!all_digits(body));
            return None;
        }
        let ghost prefix = s.subrange(start as int, i as int);
        let ghost next = s.subrange(start as int, i + 1);
        assert(next.drop_last() =~= prefix);
        assert(next.last() == c);
        if !over {
            magnitude = magnitude * 10 + (c as u32 - 48) as u128;
            if magnitude > limit {
                over = true;
            }
        }
        i = i + 1;
    }
    assert(s.subrange(start as int, n as int) =~= body);
    assert(all_digits(body));
    if over {
        return None;
    }
    if negative {
        let v: i128 = -(magnitude as i128);
        Some(v as i64)
    } else if magnitude < limit {
        Some(magnitude as i64)
    } else {
        None
    }
}

/// The decimal notation of `n` is a non-empty string of digits whose value is `n`.
proof fn lemma_decimal_digits(n: nat)
    ensures
        decimal(n).len() > 0,
        all_digits(decimal(n)),
        digits_value(decimal(n)) == n,
    decreases n,
{
    if n >= 10 {
        lemma_decimal_digits(n / 10);
        let d = decimal(n);
        assert(d.drop_last() =~= decimal(n / 10));
        assert(digit_value(digit_char((n % 10) as int)) == n % 10);
        assert(digits_value(d) == digits_value(decimal(n / 10)) * 10 + n % 10);
        assert forall|i: int| 0 <= i < d.len() implies is_digit(#[trigger] d[i]) by {
            if i < d.len() - 1 {
                assert(d[i] == decimal(n / 10)[i]);
            }
        }
    } else {
        assert(digit_value(digit_char(n as int)) == n);
        assert(decimal(n).drop_last() =~= Seq::<char>::empty());
        assert(digits_value(Seq::<char>::empty()) == 0);
        assert(digits_value(decimal(n)) == digits_value(decimal(n).drop_last()) * 10 + digit_value(decimal(n).last()));
    }
}

/// Reading back the decimal notation of an `i64`, with or without a minus
/// sign, gives the number written.
pub proof fn law_parse_reads_back_decimal(n: nat)
    ensures
        n <= i64::MAX ==> parsed_i64(decimal(n)) == Some(n as int),
        n <= i64::MAX + 1 ==> parsed_i64(seq!['-'] + decimal(n)) == Some(-n),
{
    lemma_decimal_digits(n);
    let d = decimal(n);
    assert(is_digit(d[0]));
    let m = seq!['-'] + d;
    assert(m.drop_first() =~= d);
}

/// The one-character string of the digit `d`.
fn digit_str(d: u64) -> (s: &'static str)
    requires
        d < 10,
    ensures
        s@ == seq![digit_char(d as int)],
{
    match d {
        0 => {
            proof { reveal_strlit("0"); }
            "0"
        },
        1 => {
            proof { reveal_strlit("1"); }
            "1"
        },
        2 => {
            proof { reveal_strlit("2"); }
            "2"
        },
        3 => {
            proof { reveal_strlit("3"); }
            "3"
        },
        4 => {
            proof { reveal_strlit("4"); }
            "4"
        },
        5 => {
            proof { reveal_strlit("5"); }
            "5"
        },
        6 => {
            proof { reveal_strlit("6"); }
            "6"
        },
        7 => {
            proof { reveal_strlit("7"); }
            "7"
        },
        8 => {
            proof { reveal_strlit("8"); }
            "8"
        },
        _ => {
            proof { reveal_strlit("9"); }
            "9"
        },
    }
}

/// Appends the decimal notation of `n` to `s`.
pub fn append_decimal(s: &mut String, n: u64)
    ensures
        final(s)@ == old(s)@ + decimal(n as nat),
    decreases n,
{
    if n >= 10 {
        append_decimal(s, n / 10);
    }
    s.append(digit_str(n % 10));
    assert(s@ =~= old(s)@ + decimal(n as nat));
}

/// Appends the digit `d` to `s`.
pub fn append_digit(s: &mut String, d: u64)
    requires
        d < 10,
    ensures
        final(s)@ == old(s)@.push(digit_char(d as int)),
{
    s.append(digit_str(d));
    assert(s@ =~= old(s)@.push(digit_char(d as int)));
}

/// Joins `parts`, putting `sep` between each two neighbours.
pub fn join_strings(parts: &Vec<String>, sep: &str) -> (joined: String)
    ensures
        joined@ == join(texts(parts@), sep@),
{
    let mut joined = String::new();
    let n = parts.len();
    for i in 0..n
        invariant
            n == parts@.len(),
            joined@ == join(texts(parts@).take(i as int), sep@),
    {
        let ghost prefix = texts(parts@).take(i as int);
        let ghost next = texts(parts@).take(i + 1);
        assert(next.drop_last() =~= prefix);
        if i > 0 {
            joined.append(sep);
        }
        joined.append(parts[i].as_str());
        proof {
            if i == 0 {
                assert(joined@ =~= next[0]);
            } else {
                assert(joined@ =~= join(prefix, sep@) + sep@ + next.last());
            }
        }
    }
    assert(texts(parts@).take(n as int) =~= texts(parts@));
    joined
}

} // verus!
