//! Character-level text utilities: decimal parsing and formatting.

use vstd::prelude::*;
use vstd::string::*;

verus! {

/// Whether `c` is an ASCII decimal digit.
pub open spec fn is_digit(c: char) -> bool {
    48 <= c as u32 <= 57
}

/// Numeric value of a digit character.
pub open spec fn digit_val(c: char) -> int {
    c as u32 - 48
}

/// Whether every character of `s` is an ASCII decimal digit.
pub open spec fn all_digits(s: Seq<char>) -> bool {
    forall|i: int| 0 <= i < s.len() ==> is_digit(#[trigger] s[i])
}

/// The value of `s` read as a decimal numeral (most significant digit first).
pub open spec fn digits_value(s: Seq<char>) -> int
    decreases s.len(),
{
    if s.len() == 0 {
        0
    } else {
        digits_value(s.drop_last()) * 10 + digit_val(s.last())
    }
}

/// What `str::parse::<u64>` accepts: an optional leading `+`, then one or
/// more decimal digits whose value fits in a `u64`.
pub open spec fn spec_parse_u64(s: Seq<char>) -> Option<u64> {
    let digits = if s.len() > 0 && s[0] == '+' {
        s.subrange(1, s.len() as int)
    } else {
        s
    };
    if digits.len() > 0 && all_digits(digits) && digits_value(digits) <= u64::MAX {
        Some(digits_value(digits) as u64)
    } else {
        None
    }
}

proof fn lemma_digits_value_nonneg(s: Seq<char>)
    requires
        all_digits(s),
    ensures
        digits_value(s) >= 0,
    decreases s.len(),
{
    if s.len() > 0 {
        assert(all_digits(s.drop_last()));
        lemma_digits_value_nonneg(s.drop_last());
    }
}

proof fn lemma_digits_value_prefix_le(s: Seq<char>, i: int)
    requires
        all_digits(s),
        0 <= i <= s.len(),
    ensures
        digits_value(s.take(i)) <= digits_value(s),
    decreases s.len() - i,
{
    if i == s.len() {
        assert(s.take(i) =~= s);
    } else {
        assert(s.take(i + 1).drop_last() =~= s.take(i));
        assert(s.take(i + 1).last() == s[i]);
        assert(all_digits(s.take(i)));
        lemma_digits_value_nonneg(s.take(i));
        assert(digits_value(s.take(i + 1)) == digits_value(s.take(i)) * 10 + digit_val(s[i]));
        lemma_digits_value_prefix_le(s, i + 1);
    }
}

/// Parse a run of characters as an unsigned decimal number, exactly as
/// `str::parse::<u64>` would.
pub fn parse_u64_chars(s: &[char]) -> (r: Option<u64>)
    ensures
        r == spec_parse_u64(s@),
{
    let ghost whole: Seq<char> = s@;
    let mut start: usize = 0;
    if s.len() > 0 && s[0] == '+' {
        start = 1;
    }
    let ghost digits: Seq<char> = if whole.len() > 0 && whole[0] == '+' {
        whole.subrange(1, whole.len() as int)
    } else {
        whole
    };
    if s.len() == start {
        return None;
    }
    let mut acc: u64 = 0;
    let mut i: usize = start;
    while i < s.len()
        invariant
            start <= i <= s@.len(),
            start == (if s@.len() > 0 && s@[0] == '+' { 1int } else { 0int }),
            digits == s@.subrange(start as int, s@.len() as int),
            all_digits(s@.subrange(start as int, i as int)),
            acc as int == digits_value(s@.subrange(start as int, i as int)),
        decreases s@.len() - i,
    {
        let c = s[i];
        let v = c as u32;
        proof {
            assert(s@.subrange(start as int, i as int + 1).drop_last()
                =~= s@.subrange(start as int, i as int));
            assert(s@.subrange(start as int, i as int + 1).last() == s@[i as int]);
        }
        if v < 48 || v > 57 {
            proof {
                assert(digits[i - start] == s@[i as int]);
                assert(!all_digits(digits));
            }
            return None;
        }
        let d: u64 = (v - 48) as u64;
        let shifted = match acc.checked_mul(10) {
            Some(x) => x,
            None => {
                proof {
                    overflow_means_none(s@, start as int, i as int, acc as int * 10 + digit_val(s@[i as int]));
                    assert(s@.subrange(0, s@.len() as int) =~= s@);
                }
                return None;
            },
        };
        let next = match shifted.checked_add(d) {
            Some(x) => x,
            None => {
                proof {
                    overflow_means_none(s@, start as int, i as int, acc as int * 10 + digit_val(s@[i as int]));
                    assert(s@.subrange(0, s@.len() as int) =~= s@);
                }
                return None;
            },
        };
        acc = next;
        i = i + 1;
    }
    proof {
        assert(s@.subrange(start as int, i as int) =~= digits);
    }
    Some(acc)
}

proof fn overflow_means_none(s: Seq<char>, start: int, i: int, big: int)
    requires
        0 <= start <= i < s.len(),
        all_digits(s.subrange(start, i)),
        is_digit(s[i]),
        big == digits_value(s.subrange(start, i + 1)),
        big > u64::MAX,
    ensures
        all_digits(s.subrange(start, s.len() as int))
            ==> digits_value(s.subrange(start, s.len() as int)) > u64::MAX,
{
    let digits = s.subrange(start, s.len() as int);
    if all_digits(digits) {
        assert(digits.take(i + 1 - start) =~= s.subrange(start, i + 1));
        lemma_digits_value_prefix_le(digits, i + 1 - start);
    }
}

/// Relies on `str`'s `PartialEq`: two string slices are equal exactly when
/// they consist of the same characters.
#[verifier::external_body]
pub fn str_eq(a: &str, b: &str) -> (r: bool)
    ensures
        r == (a@ == b@),
{
    a == b
}

/// The characters of `s`, one per unicode scalar value.
pub fn str_chars(s: &str) -> (r: Vec<char>)
    ensures
        r@ == s@,
{
    let n = s.unicode_len();
    let mut r: Vec<char> = Vec::new();
    let mut i: usize = 0;
    while i < n
        invariant
            i <= n,
            n == s@.len(),
            r@ == s@.take(i as int),
        decreases n - i,
    {
        let c = s.get_char(i);
        r.push(c);
        proof {
            assert(s@.take(i as int + 1) =~= s@.take(i as int).push(s@[i as int]));
        }
        i = i + 1;
    }
    proof {
        assert(s@.take(n as int) =~= s@);
    }
    r
}

/// Parse a string as an unsigned decimal number, exactly as
/// `str::parse::<u64>` would.
pub fn parse_u64(s: &str) -> (r: Option<u64>)
    ensures
        r == spec_parse_u64(s@),
{
    let cs = str_chars(s);
    parse_u64_chars(cs.as_slice())
}

/// The first index at or after `p` holding `c`, or the length when none
/// does.
pub open spec fn spec_find_from(s: Seq<char>, p: int, c: char) -> int
    decreases s.len() - p,
{
    if p < 0 || p >= s.len() {
        s.len() as int
    } else if s[p] == c {
        p
    } else {
        spec_find_from(s, p + 1, c)
    }
}

pub proof fn lemma_find_from_bounds(s: Seq<char>, p: int, c: char)
    requires
        0 <= p <= s.len(),
    ensures
        p <= spec_find_from(s, p, c) <= s.len(),
    decreases s.len() - p,
{
    if p < s.len() && s[p] != c {
        lemma_find_from_bounds(s, p + 1, c);
    }
}

/// Find the first occurrence of `c` at or after `from`; the length when
/// there is none.
pub fn find_from(cs: &Vec<char>, from: usize, c: char) -> (r: usize)
    requires
        from <= cs@.len(),
    ensures
        r == spec_find_from(cs@, from as int, c),
        from <= r <= cs@.len(),
{
    let mut i = from;
    while i < cs.len()
        invariant
            from <= i <= cs@.len(),
            spec_find_from(cs@, from as int, c) == spec_find_from(cs@, i as int, c),
        decreases cs@.len() - i,
    {
        if cs[i] == c {
            proof {
                lemma_find_from_bounds(cs@, from as int, c);
            }
            return i;
        }
        i = i + 1;
    }
    proof {
        lemma_find_from_bounds(cs@, from as int, c);
    }
    i
}

/// The segments of `s` between newline characters, in order, as `split('\n')`
/// yields them: one more segment than there are newlines, empty segments
/// included.
pub open spec fn spec_lines_from(s: Seq<char>, p: int) -> Seq<Seq<char>>
    decreases s.len() - p,
        when 0 <= p <= s.len()
    via spec_lines_from_decreases
{
    let e = spec_find_from(s, p, '\n');
    if e == s.len() {
        seq![s.subrange(p, s.len() as int)]
    } else {
        seq![s.subrange(p, e)] + spec_lines_from(s, e + 1)
    }
}

#[via_fn]
proof fn spec_lines_from_decreases(s: Seq<char>, p: int) {
    lemma_find_from_bounds(s, p, '\n');
    if spec_find_from(s, p, '\n') < s.len() {
        assert(s[spec_find_from(s, p, '\n')] == '\n') by {
            lemma_find_hits(s, p, '\n');
        }
    }
}

proof fn lemma_find_hits(s: Seq<char>, p: int, c: char)
    requires
        0 <= p <= s.len(),
    ensures
        spec_find_from(s, p, c) < s.len() ==> s[spec_find_from(s, p, c)] == c,
    decreases s.len() - p,
{
    if p < s.len() && s[p] != c {
        lemma_find_hits(s, p + 1, c);
    }
}

/// Keeps the segments that hold at least one character.
pub open spec fn non_empty_pred() -> spec_fn(Seq<char>) -> bool {
    |l: Seq<char>| l.len() > 0
}

/// The non-empty lines of `s`: what remains of `split('\n')` once empty
/// segments are dropped.
pub open spec fn spec_non_empty_lines(s: Seq<char>) -> Seq<Seq<char>> {
    spec_lines_from(s, 0).filter(non_empty_pred())
}

/// Split `s` at newlines and keep the non-empty segments, in order.
pub fn non_empty_lines(s: &str) -> (r: Vec<String>)
    ensures
        r.deep_view() == spec_non_empty_lines(s@),
{
    broadcast use vstd::seq_lib::group_seq_lib_default;

    let ghost sv = s@;
    let n = s.unicode_len();
    let cs = str_chars(s);
    let mut out: Vec<String> = Vec::new();
    let mut p: usize = 0;
    loop
        invariant_except_break
            sv == s@,
            cs@ == sv,
            n == sv.len(),
            0 <= p <= n,
            spec_non_empty_lines(sv) == out.deep_view() + spec_lines_from(sv, p as int).filter(
                non_empty_pred(),
            ),
        ensures
            out.deep_view() == spec_non_empty_lines(sv),
        decreases n - p,
    {
        let e = find_from(&cs, p, '\n');
        let ghost rest = spec_lines_from(sv, p as int);
        let ghost line = sv.subrange(p as int, e as int);
        proof {
            reveal_with_fuel(Seq::<Seq<char>>::filter, 2);
            if e == n {
                assert(rest =~= seq![line]);
                assert((seq![line]).drop_last() =~= Seq::<Seq<char>>::empty());
            } else {
                assert(rest =~= seq![line] + spec_lines_from(sv, e as int + 1));
                assert((seq![line]).drop_last() =~= Seq::<Seq<char>>::empty());
            }
        }
        if e > p {
            let piece = s.substring_char(p, e);
            let owned = piece.to_owned();
            let ghost out0 = out.deep_view();
            out.push(owned);
            proof {
                reveal_with_fuel(Seq::<Seq<char>>::filter, 2);
                assert(out.deep_view() =~= out0.push(line));
                assert(out0.push(line) =~= out0 + seq![line]);
                assert((seq![line]).drop_last() =~= Seq::<Seq<char>>::empty());
                assert((seq![line]).drop_last().filter(non_empty_pred()) =~= Seq::<Seq<char>>::empty());
                assert((seq![line]).last() == line);
                assert((non_empty_pred())(line));
                assert(seq![line].filter(non_empty_pred()) =~= seq![line]);
            }
        } else {
            proof {
                reveal_with_fuel(Seq::<Seq<char>>::filter, 2);
                assert((seq![line]).drop_last() =~= Seq::<Seq<char>>::empty());
                assert((seq![line]).drop_last().filter(non_empty_pred()) =~= Seq::<Seq<char>>::empty());
                assert((seq![line]).last() == line);
                assert(!(non_empty_pred())(line));
                assert(seq![line].filter(non_empty_pred()) =~= Seq::<Seq<char>>::empty());
            }
        }
        proof {
            if e < n {
                assert(spec_lines_from(sv, p as int).filter(non_empty_pred()) =~= seq![line].filter(non_empty_pred())
                    + spec_lines_from(sv, e as int + 1).filter(non_empty_pred()));
            } else {
                assert(spec_lines_from(sv, p as int).filter(non_empty_pred()) =~= seq![line].filter(non_empty_pred()));
            }
        }
        if e == n {
            break ;
        }
        p = e + 1;
    }
    out
}

/// The digit character for a value in 0..=9.
pub open spec fn digit_char(d: int) -> char {
    if d == 0 { '0' }
    else if d == 1 { '1' }
    else if d == 2 { '2' }
    else if d == 3 { '3' }
    else if d == 4 { '4' }
    else if d == 5 { '5' }
    else if d == 6 { '6' }
    else if d == 7 { '7' }
    else if d == 8 { '8' }
    else { '9' }
}

/// The decimal numeral of `n`, most significant digit first, no leading zero.
pub open spec fn spec_u64_string(n: int) -> Seq<char>
    decreases n,
{
    if n < 10 {
        seq![digit_char(n)]
    } else {
        spec_u64_string(n / 10).push(digit_char(n % 10))
    }
}

fn push_digit(s: &mut String, d: u64)
    requires
        d < 10,
    ensures
        final(s)@ == old(s)@.push(digit_char(d as int)),
{
    match d {
        0 => {
            s.append("0");
            proof {
                reveal_strlit("0");
                assert(s@ =~= old(s)@.push('0'));
            }
        },
        1 => {
            s.append("1");
            proof {
                reveal_strlit("1");
                assert(s@ =~= old(s)@.push('1'));
            }
        },
        2 => {
            s.append("2");
            proof {
                reveal_strlit("2");
                assert(s@ =~= old(s)@.push('2'));
            }
        },
        3 => {
            s.append("3");
            proof {
                reveal_strlit("3");
                assert(s@ =~= old(s)@.push('3'));
            }
        },
        4 => {
            s.append("4");
            proof {
                reveal_strlit("4");
                assert(s@ =~= old(s)@.push('4'));
            }
        },
        5 => {
            s.append("5");
            proof {
                reveal_strlit("5");
                assert(s@ =~= old(s)@.push('5'));
            }
        },
        6 => {
            s.append("6");
            proof {
                reveal_strlit("6");
                assert(s@ =~= old(s)@.push('6'));
            }
        },
        7 => {
            s.append("7");
            proof {
                reveal_strlit("7");
                assert(s@ =~= old(s)@.push('7'));
            }
        },
        8 => {
            s.append("8");
            proof {
                reveal_strlit("8");
                assert(s@ =~= old(s)@.push('8'));
            }
        },
        _ => {
            s.append("9");
            proof {
                reveal_strlit("9");
                assert(s@ =~= old(s)@.push('9'));
            }
        },
    }
}

fn append_u64_digits(n: u64, s: &mut String)
    ensures
        final(s)@ == old(s)@ + spec_u64_string(n as int),
    decreases n,
{
    if n >= 10 {
        append_u64_digits(n / 10, s);
    }
    push_digit(s, n % 10);
    proof {
        if n >= 10 {
            assert(s@ =~= old(s)@ + spec_u64_string(n as int / 10).push(digit_char(n as int % 10)));
        } else {
            assert(s@ =~= old(s)@ + seq![digit_char(n as int)]);
        }
    }
}

/// The decimal string of `n`, as `u64::to_string` would print it.
pub fn u64_to_string(n: u64) -> (r: String)
    ensures
        r@ == spec_u64_string(n as int),
{
    let mut s = String::new();
    append_u64_digits(n, &mut s);
    proof {
        assert(s@ =~= spec_u64_string(n as int));
    }
    s
}

} // verus!

