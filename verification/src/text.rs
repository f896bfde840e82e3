//! Text handling used while turning events into rows: reading the enchantment
//! level and group name out of an item's unique name, and rendering zero-padded
//! location codes.

use vstd::prelude::*;

verus! {

broadcast use vstd::seq_lib::group_seq_lib_default;

/// Does `c` denote a decimal digit?
pub open spec fn is_digit_char(c: char) -> bool {
    48 <= c as u32 <= 57
}

/// The numeric value of a digit character.
pub open spec fn digit_val(c: char) -> int {
    c as u32 - 48
}

/// The value of a string of digit characters, most significant first.
pub open spec fn digits_val(s: Seq<char>) -> int
    decreases s.len(),
{
    if s.len() == 0 {
        0
    } else {
        digits_val(s.drop_last()) * 10 + digit_val(s.last())
    }
}

/// Are all characters decimal digits?
pub open spec fn all_digits(s: Seq<char>) -> bool {
    forall|i: int| 0 <= i < s.len() ==> is_digit_char(s[i])
}

/// What parsing `s` as an `i16` and falling back to `0` yields: an optional
/// sign followed by at least one digit, provided the value fits; every other
/// form gives `0`.
pub open spec fn parse_i16_or_zero_spec(s: Seq<char>) -> i16 {
    let signed = s.len() > 0 && (s[0] == '-' || s[0] == '+');
    let body = if signed {
        s.subrange(1, s.len() as int)
    } else {
        s
    };
    if body.len() > 0 && all_digits(body) {
        let v = if s.len() > 0 && s[0] == '-' {
            -digits_val(body)
        } else {
            digits_val(body)
        };
        if -32768 <= v <= 32767 {
            v as i16
        } else {
            0
        }
    } else {
        0
    }
}

/// A nonempty all-digit string with a value above the `i16` range keeps a
/// value above that range when digits are appended.
proof fn lemma_digits_val_grows(s: Seq<char>, i: int)
    requires
        0 <= i <= s.len(),
        all_digits(s),
        digits_val(s.subrange(0, i)) > 32768,
    ensures
        digits_val(s) > 32768,
    decreases s.len() - i,
{
    if i == s.len() {
        assert(s.subrange(0, i) =~= s);
    } else {
        let t = s.subrange(0, i + 1);
        assert(t.drop_last() =~= s.subrange(0, i));
        assert(digits_val(t) == digits_val(s.subrange(0, i)) * 10 + digit_val(t.last()));
        assert(digits_val(s.subrange(0, i)) * 10 > 32768 * 10);
        lemma_digits_val_grows(s, i + 1);
    }
}

/// Nonnegative digit strings have nonnegative values.
proof fn lemma_digits_val_nonneg(s: Seq<char>)
    requires
        all_digits(s),
    ensures
        digits_val(s) >= 0,
    decreases s.len(),
{
    if s.len() > 0 {
        lemma_digits_val_nonneg(s.drop_last());
    }
}

/// Parse `s` as an `i16`, yielding `0` when `s` is not a well-formed in-range
/// decimal integer, as [`parse_i16_or_zero_spec`] states.
pub fn parse_i16_or_zero(s: &str) -> (r: i16)
    ensures
        r == parse_i16_or_zero_spec(s@),
{
    let n = s.unicode_len();
    let mut start: usize = 0;
    let mut neg = false;
    if n > 0 {
        let c0 = s.get_char(0);
        if c0 == '-' {
            neg = true;
            start = 1;
        } else if c0 == '+' {
            start = 1;
        }
    }
    let ghost body = if start == 1 { s@.subrange(1, s@.len() as int) } else { s@ };
    if n == start {
        return 0;
    }
    let mut i = start;
    let mut mag: u32 = 0;
    let mut over = false;
    while i < n
        invariant
            start <= i <= n,
            n == s@.len(),
            (s@.len() > 0 && (s@[0] == '-' || s@[0] == '+')) ==> start == 1,
            !(s@.len() > 0 && (s@[0] == '-' || s@[0] == '+')) ==> start == 0,
            neg == (s@.len() > 0 && s@[0] == '-'),
            body == (if s@.len() > 0 && (s@[0] == '-' || s@[0] == '+') {
                s@.subrange(1, s@.len() as int)
            } else {
                s@
            }),
            body.len() == n - start,
            forall|j: int| 0 <= j < i - start ==> is_digit_char(#[trigger] body[j]),
            !over ==> mag == digits_val(body.subrange(0, i - start)) && mag <= 32768,
            over ==> digits_val(body.subrange(0, i - start)) > 32768,
        decreases n - i,
    {
        let c = s.get_char(i);
        let cv = c as u32;
        proof {
            if start == 1 {
                assert(s@.subrange(1, s@.len() as int)[i - 1] == s@[i as int]);
            }
            assert(body[i - start] == s@[i as int]);
        }
        if cv < 48 || cv > 57 {
            assert(!all_digits(body));
            return 0;
        }
        let d = cv - 48;
        proof {
            let pre = body.subrange(0, i - start);
            let cur = body.subrange(0, i + 1 - start);
            assert(cur.drop_last() =~= pre);
            assert(cur.last() == body[i - start]);
        }
        if !over {
            mag = mag * 10 + d;
            if mag > 32768 {
                over = true;
            }
        } else {
            proof {
                let pre = body.subrange(0, i - start);
                assert(digits_val(pre) * 10 > 32768 * 10);
            }
        }
        i += 1;
    }
    proof {
        assert(body.subrange(0, n - start) =~= body);
        assert(all_digits(body));
    }
    if over {
        proof {
            lemma_digits_val_nonneg(body);
        }
        return 0;
    }
    if neg {
        let v: i32 = 0 - (mag as i32);
        proof {
            lemma_digits_val_nonneg(body);
        }
        if v < -32768 {
            return 0;
        }
        v as i16
    } else {
        if mag > 32767 {
            return 0;
        }
        mag as i16
    }
}

/// The part of an item's unique name before the first `@`, or the whole name
/// when there is none: the item group name.
pub open spec fn group_name_spec(s: Seq<char>) -> Seq<char> {
    match s.index_of_first('@') {
        Some(i) => s.subrange(0, i),
        None => s,
    }
}

/// The part of an item's unique name after the last `@` (the whole name when
/// there is none), read as a decimal number: the enchantment level, `0` when
/// missing or malformed.
pub open spec fn enchantment_level_spec(s: Seq<char>) -> i16 {
    match s.index_of_last('@') {
        Some(i) => parse_i16_or_zero_spec(s.subrange(i + 1, s.len() as int)),
        None => parse_i16_or_zero_spec(s),
    }
}

/// Extract the item group name from an item's unique name.
pub fn group_name_of(s: &str) -> (r: String)
    ensures
        r@ == group_name_spec(s@),
{
    let n = s.unicode_len();
    let mut i: usize = 0;
    while i < n
        invariant
            0 <= i <= n,
            n == s@.len(),
            forall|j: int| 0 <= j < i ==> s@[j] != '@',
        decreases n - i,
    {
        let c = s.get_char(i);
        if c == '@' {
            proof {
                s@.index_of_first_ensures('@');
            }
            let r = s.substring_char(0, i).to_owned();
            return r;
        }
        i += 1;
    }
    proof {
        s@.index_of_first_ensures('@');
    }
    s.to_owned()
}

/// Extract the enchantment level from an item's unique name.
pub fn enchantment_level_of(s: &str) -> (r: i16)
    ensures
        r == enchantment_level_spec(s@),
{
    let n = s.unicode_len();
    let mut i: usize = n;
    while i > 0
        invariant
            0 <= i <= n,
            n == s@.len(),
            forall|j: int| i <= j < n ==> s@[j] != '@',
        decreases i,
    {
        let c = s.get_char(i - 1);
        if c == '@' {
            proof {
                s@.index_of_last_ensures('@');
            }
            let tail = s.substring_char(i, n);
            return parse_i16_or_zero(tail);
        }
        i -= 1;
    }
    proof {
        s@.index_of_last_ensures('@');
    }
    parse_i16_or_zero(s)
}

/// The character denoting one decimal digit.
pub open spec fn digit_char_of(d: int) -> char {
    if d == 0 {
        '0'
    } else if d == 1 {
        '1'
    } else if d == 2 {
        '2'
    } else if d == 3 {
        '3'
    } else if d == 4 {
        '4'
    } else if d == 5 {
        '5'
    } else if d == 6 {
        '6'
    } else if d == 7 {
        '7'
    } else if d == 8 {
        '8'
    } else {
        '9'
    }
}

/// The decimal rendering of a nonnegative number, most significant digit
/// first, without leading zeros (a single `0` for zero).
pub open spec fn dec_nat(n: int) -> Seq<char>
    decreases n,
{
    if n < 10 {
        seq![digit_char_of(n)]
    } else {
        dec_nat(n / 10).push(digit_char_of(n % 10))
    }
}

/// The decimal rendering of an integer, with a leading `-` when negative.
pub open spec fn dec_int(n: int) -> Seq<char> {
    if n < 0 {
        seq!['-'] + dec_nat(-n)
    } else {
        dec_nat(n)
    }
}

/// `s` left-padded with `0` characters to at least four characters.
pub open spec fn pad4_spec(s: Seq<char>) -> Seq<char> {
    if s.len() >= 4 {
        s
    } else {
        Seq::new((4 - s.len()) as nat, |i: int| '0') + s
    }
}

/// A location id rendered as the store's location code: its decimal form,
/// zero-padded on the left to at least four characters.
pub open spec fn location_code_spec(n: int) -> Seq<char> {
    pad4_spec(dec_int(n))
}

/// The string for one decimal digit.
fn digit_str(d: u64) -> (r: &'static str)
    requires
        d < 10,
    ensures
        r@ =~= seq![digit_char_of(d as int)],
{
    proof {
        reveal_strlit("0");
        reveal_strlit("1");
        reveal_strlit("2");
        reveal_strlit("3");
        reveal_strlit("4");
        reveal_strlit("5");
        reveal_strlit("6");
        reveal_strlit("7");
        reveal_strlit("8");
        reveal_strlit("9");
    }
    match d {
        0 => "0",
        1 => "1",
        2 => "2",
        3 => "3",
        4 => "4",
        5 => "5",
        6 => "6",
        7 => "7",
        8 => "8",
        _ => "9",
    }
}

/// Append the decimal rendering of `n` to `out`.
fn push_decimal(out: &mut String, n: u64)
    ensures
        final(out)@ == old(out)@ + dec_nat(n as int),
    decreases n,
{
    if n >= 10 {
        push_decimal(out, n / 10);
    }
    let d = n % 10;
    out.append(digit_str(d));
    proof {
        assert(final(out)@ =~= old(out)@ + dec_nat(n as int));
    }
}

/// Render a location id as its zero-padded location code.
pub fn location_code(n: i64) -> (r: String)
    ensures
        r@ == location_code_spec(n as int),
{
    let mut body = String::new();
    if n < 0 {
        proof {
            reveal_strlit("-");
        }
        body.append("-");
        let m: u64 = ((-(n + 1)) as u64) + 1;
        proof {
            assert(m == -(n as int));
        }
        push_decimal(&mut body, m);
        proof {
            assert(body@ =~= dec_int(n as int));
        }
    } else {
        push_decimal(&mut body, n as u64);
    }
    let blen = body.as_str().unicode_len();
    if blen >= 4 {
        body
    } else {
        let mut padded = String::new();
        let mut k: usize = blen;
        while k < 4
            invariant
                blen <= k <= 4,
                padded@.len() == k - blen,
                forall|j: int| 0 <= j < k - blen ==> padded@[j] == '0',
            decreases 4 - k,
        {
            proof {
                reveal_strlit("0");
            }
            padded.append("0");
            k += 1;
        }
        padded.append(body.as_str());
        proof {
            assert(padded@ =~= pad4_spec(dec_int(n as int)));
        }
        padded
    }
}

} // verus!
