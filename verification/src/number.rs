//! Decimal number tokens: the JSON number grammar, and printing/parsing of
//! 32-bit integers as decimal text.
//!
//! Numeric payload fields (speeds) are carried verbatim as wire tokens, so
//! the grammar here is the single definition of what such a token may be.

use vstd::prelude::*;

verus! {

pub open spec fn is_digit(c: char) -> bool {
    '0' <= c && c <= '9'
}

/// Numeric value of a decimal digit character.
pub open spec fn digit_val(c: char) -> int {
    c as int - '0' as int
}

/// The decimal digit character for a value in 0..=9.
pub open spec fn digit_char(d: int) -> char {
    if d == 0 { '0' }
    else if d == 1 { '1' }
    else if d == 2 { '2' }
    else if d == 3 { '3' }
    else if d == 4 { '4' }
    else if d == 5 { '5' }
    else if d == 6 { '6' }
    else if d == 7 { '7' }
    else if d == 8 { '8' }
    else { '9' }
}

pub proof fn lemma_digit_char_val(d: int)
    requires
        0 <= d <= 9,
    ensures
        is_digit(digit_char(d)),
        digit_val(digit_char(d)) == d,
{
}

/// First position at or after `i` holding a non-digit (or the end).
pub open spec fn skip_digits(s: Seq<char>, i: int) -> int
    decreases s.len() - i,
{
    if 0 <= i < s.len() && is_digit(s[i]) {
        skip_digits(s, i + 1)
    } else {
        i
    }
}

/// End position of a JSON number starting at `i`, by maximal munch;
/// `None` if no well-formed number begins there.
pub open spec fn num_end(s: Seq<char>, i: int) -> Option<int> {
    let j = if 0 <= i < s.len() && s[i] == '-' { i + 1 } else { i };
    if !(0 <= j < s.len() && is_digit(s[j])) {
        None
    } else {
        let int_end = if s[j] == '0' { j + 1 } else { skip_digits(s, j) };
        match frac_end(s, int_end) {
            Option::None => Option::None,
            Option::Some(fe) => exp_end(s, fe),
        }
    }
}

/// End of the optional fraction part beginning at `i`.
pub open spec fn frac_end(s: Seq<char>, i: int) -> Option<int> {
    if 0 <= i < s.len() && s[i] == '.' {
        if i + 1 < s.len() && is_digit(s[i + 1]) {
            Option::Some(skip_digits(s, i + 1))
        } else {
            Option::None
        }
    } else {
        Option::Some(i)
    }
}

/// End of the optional exponent part beginning at `i`.
pub open spec fn exp_end(s: Seq<char>, i: int) -> Option<int> {
    if 0 <= i < s.len() && (s[i] == 'e' || s[i] == 'E') {
        let j = if i + 1 < s.len() && (s[i + 1] == '+' || s[i + 1] == '-') { i + 2 } else { i + 1 };
        if 0 <= j < s.len() && is_digit(s[j]) {
            Option::Some(skip_digits(s, j))
        } else {
            Option::None
        }
    } else {
        Option::Some(i)
    }
}

/// A complete, well-formed JSON number token.
pub open spec fn is_num_token(t: Seq<char>) -> bool {
    num_end(t, 0) == Option::<int>::Some(t.len() as int)
}

/// Characters that could extend a number token; a token followed by any
/// other character is read back whole by maximal munch.
pub open spec fn is_num_cont(c: char) -> bool {
    is_digit(c) || c == '.' || c == 'e' || c == 'E' || c == '+' || c == '-'
}

pub proof fn lemma_skip_digits_bounds(s: Seq<char>, i: int)
    requires
        0 <= i <= s.len(),
    ensures
        i <= skip_digits(s, i) <= s.len(),
    decreases s.len() - i,
{
    if i < s.len() && is_digit(s[i]) {
        lemma_skip_digits_bounds(s, i + 1);
    }
}

fn skip_digits_exec(s: &Vec<char>, i: usize) -> (j: usize)
    requires
        i <= s@.len(),
    ensures
        j as int == skip_digits(s@, i as int),
        i <= j <= s@.len(),
    decreases s@.len() - i,
{
    if i < s.len() {
        let c = s[i];
        if '0' <= c && c <= '9' {
            return skip_digits_exec(s, i + 1);
        }
    }
    i
}

/// End of a JSON number starting at `i`, by maximal munch, or `None`.
pub fn num_end_exec(s: &Vec<char>, i: usize) -> (r: Option<usize>)
    requires
        i <= s@.len(),
    ensures
        match r {
            Option::Some(j) => num_end(s@, i as int) == Option::Some(j as int) && i <= j
                <= s@.len(),
            Option::None => num_end(s@, i as int) is None,
        },
{
    let j: usize = if i < s.len() && s[i] == '-' { i + 1 } else { i };
    if !(j < s.len() && s[j] >= '0' && s[j] <= '9') {
        return None;
    }
    let int_end: usize = if s[j] == '0' { j + 1 } else { skip_digits_exec(s, j) };
    let fe: usize = if int_end < s.len() && s[int_end] == '.' {
        if int_end + 1 < s.len() && s[int_end + 1] >= '0' && s[int_end + 1] <= '9' {
            skip_digits_exec(s, int_end + 1)
        } else {
            return None;
        }
    } else {
        int_end
    };
    assert(frac_end(s@, int_end as int) == Option::Some(fe as int));
    if fe < s.len() && (s[fe] == 'e' || s[fe] == 'E') {
        let k: usize = if fe + 1 < s.len() && (s[fe + 1] == '+' || s[fe + 1] == '-') {
            fe + 2
        } else {
            fe + 1
        };
        if k < s.len() && s[k] >= '0' && s[k] <= '9' {
            let e: usize = skip_digits_exec(s, k);
            assert(exp_end(s@, fe as int) == Option::Some(e as int));
            Some(e)
        } else {
            assert(exp_end(s@, fe as int) is None);
            None
        }
    } else {
        assert(exp_end(s@, fe as int) == Option::Some(fe as int));
        Some(fe)
    }
}

/// Whether `t` is, in whole, a well-formed JSON number token.
pub fn is_num_token_exec(t: &Vec<char>) -> (r: bool)
    ensures
        r == is_num_token(t@),
{
    match num_end_exec(t, 0) {
        Option::Some(j) => j == t.len(),
        Option::None => false,
    }
}

/// Digit string of a natural number, most significant digit first.
pub open spec fn dec_digits(n: nat) -> Seq<char>
    decreases n,
{
    if n < 10 {
        seq![digit_char(n as int)]
    } else {
        dec_digits(n / 10).push(digit_char((n % 10) as int))
    }
}

/// Value of a digit string (Horner form).
pub open spec fn digits_val(s: Seq<char>) -> int
    decreases s.len(),
{
    if s.len() == 0 {
        0
    } else {
        digits_val(s.drop_last()) * 10 + digit_val(s.last())
    }
}

pub open spec fn all_digits(s: Seq<char>) -> bool {
    forall|i: int| 0 <= i < s.len() ==> is_digit(#[trigger] s[i])
}

pub proof fn lemma_dec_digits_shape(n: nat)
    ensures
        dec_digits(n).len() >= 1,
        all_digits(dec_digits(n)),
        digits_val(dec_digits(n)) == n,
        n >= 1 ==> dec_digits(n)[0] != '0',
        n < 10 ==> dec_digits(n).len() == 1,
    decreases n,
{
    if n < 10 {
        reveal_with_fuel(digits_val, 2);
        lemma_digit_char_val(n as int);
        assert(dec_digits(n) =~= seq![digit_char(n as int)]);
        assert(dec_digits(n).drop_last() =~= Seq::<char>::empty());
        assert(dec_digits(n).last() == digit_char(n as int));
        assert(digits_val(dec_digits(n)) == 0 * 10 + digit_val(digit_char(n as int)));
    } else {
        lemma_dec_digits_shape(n / 10);
        lemma_digit_char_val((n % 10) as int);
        let d = dec_digits(n);
        assert(d.drop_last() =~= dec_digits(n / 10));
        assert(d.last() == digit_char((n % 10) as int));
        assert(digits_val(d) == (n / 10) * 10 + n % 10);
        assert((n / 10) * 10 + n % 10 == n) by (nonlinear_arith);
        assert forall|i: int| 0 <= i < d.len() implies is_digit(#[trigger] d[i]) by {
            if i < d.len() - 1 {
                assert(d[i] == dec_digits(n / 10)[i]);
            }
        }
        assert(d[0] == dec_digits(n / 10)[0]);
    }
}

/// Printed form of a signed 32-bit integer.
pub open spec fn print_i32_spec(x: int) -> Seq<char> {
    if x < 0 {
        seq!['-'] + dec_digits((0 - x) as nat)
    } else {
        dec_digits(x as nat)
    }
}

/// Parsed value of a decimal integer token: an optional minus sign and
/// digits, rejecting anything outside the `i32` range.
pub open spec fn parse_i32_spec(t: Seq<char>) -> Option<i32> {
    let neg = t.len() > 0 && t[0] == '-';
    let d = if neg { t.skip(1) } else { t };
    if d.len() == 0 || !all_digits(d) {
        Option::None
    } else {
        let v = digits_val(d);
        if neg {
            if v <= 2147483648 {
                Option::Some((0 - v) as i32)
            } else {
                Option::None
            }
        } else {
            if v <= 2147483647 {
                Option::Some(v as i32)
            } else {
                Option::None
            }
        }
    }
}

fn digit_char_exec(d: u64) -> (c: char)
    requires
        d <= 9,
    ensures
        c == digit_char(d as int),
{
    match d {
        0 => '0',
        1 => '1',
        2 => '2',
        3 => '3',
        4 => '4',
        5 => '5',
        6 => '6',
        7 => '7',
        8 => '8',
        _ => '9',
    }
}

fn digit_val_exec(c: char) -> (r: Option<u32>)
    ensures
        r is Some <==> is_digit(c),
        r is Some ==> r->Some_0 == digit_val(c) && r->Some_0 <= 9,
{
    if '0' <= c && c <= '9' {
        Some(c as u32 - '0' as u32)
    } else {
        None
    }
}

/// Appends the decimal digits of `n` to `out`.
fn push_digits(n: u64, out: &mut Vec<char>)
    ensures
        final(out)@ == old(out)@ + dec_digits(n as nat),
    decreases n,
{
    if n < 10 {
        out.push(digit_char_exec(n));
        assert(out@ =~= old(out)@ + dec_digits(n as nat));
    } else {
        let ghost mid = out@ + dec_digits((n / 10) as nat);
        push_digits(n / 10, out);
        out.push(digit_char_exec(n % 10));
        assert(out@ =~= old(out)@ + dec_digits(n as nat));
    }
}

/// Prints a signed 32-bit integer as decimal characters.
pub fn print_i32(x: i32, out: &mut Vec<char>)
    ensures
        final(out)@ == old(out)@ + print_i32_spec(x as int),
{
    if x < 0 {
        out.push('-');
        let m: u64 = (0i64 - x as i64) as u64;
        push_digits(m, out);
        assert(out@ =~= old(out)@ + print_i32_spec(x as int));
    } else {
        push_digits(x as u64, out);
    }
}

proof fn lemma_digits_val_take(d: Seq<char>, i: int)
    requires
        0 <= i < d.len(),
    ensures
        digits_val(d.take(i + 1)) == digits_val(d.take(i)) * 10 + digit_val(d[i]),
{
    assert(d.take(i + 1).drop_last() =~= d.take(i));
    assert(d.take(i + 1).last() == d[i]);
}

proof fn lemma_digits_val_nonneg(d: Seq<char>)
    requires
        all_digits(d),
    ensures
        digits_val(d) >= 0,
    decreases d.len(),
{
    if d.len() > 0 {
        assert(all_digits(d.drop_last())) by {
            assert(forall|i: int|
                0 <= i < d.len() - 1 ==> #[trigger] d.drop_last()[i] == d[i]);
        }
        lemma_digits_val_nonneg(d.drop_last());
        assert(digit_val(d.last()) >= 0);
        assert(digits_val(d.drop_last()) * 10 >= 0) by (nonlinear_arith)
            requires digits_val(d.drop_last()) >= 0;
    }
}

proof fn lemma_digits_val_grows(d: Seq<char>, i: int)
    requires
        all_digits(d),
        0 <= i <= d.len(),
    ensures
        digits_val(d) >= digits_val(d.take(i)),
    decreases d.len() - i,
{
    if i < d.len() {
        lemma_digits_val_take(d, i);
        assert(all_digits(d.take(i))) by {
            assert(forall|k: int| 0 <= k < i ==> #[trigger] d.take(i)[k] == d[k]);
        }
        lemma_digits_val_nonneg(d.take(i));
        assert(digits_val(d.take(i + 1)) >= digits_val(d.take(i))) by (nonlinear_arith)
            requires
                digits_val(d.take(i + 1)) == digits_val(d.take(i)) * 10 + digit_val(d[i]),
                digits_val(d.take(i)) >= 0,
                digit_val(d[i]) >= 0;
        lemma_digits_val_grows(d, i + 1);
        assert(d.take(d.len() as int) =~= d);
    } else {
        assert(d.take(d.len() as int) =~= d);
    }
}

/// Parses a decimal integer token (optional minus sign and digits) into an
/// `i32`, rejecting malformed text and out-of-range values.
pub fn parse_i32_chars(t: &Vec<char>) -> (r: Option<i32>)
    ensures
        r == parse_i32_spec(t@),
{
    let neg = t.len() > 0 && t[0] == '-';
    let start: usize = if neg { 1 } else { 0 };
    let ghost d = if neg { t@.skip(1) } else { t@ };
    assert(d.len() == t@.len() - start);
    if t.len() == start {
        return None;
    }
    let mut acc: u64 = 0;
    let mut i: usize = start;
    while i < t.len()
        invariant
            start <= i <= t@.len(),
            neg == (t@.len() > 0 && t@[0] == '-'),
            start == (if neg { 1int } else { 0int }),
            d == if neg { t@.skip(1) } else { t@ },
            d.len() == t@.len() - start,
            forall|k: int| 0 <= k < d.len() ==> d[k] == t@[k + start],
            all_digits(d.take(i - start)),
            acc == digits_val(d.take(i - start)),
            acc <= 2147483648,
        decreases t@.len() - i,
    {
        let c = t[i];
        assert(c == d[i - start]);
        match digit_val_exec(c) {
            None => {
                proof {
                    assert(0 <= i - start < d.len());
                    assert(!is_digit(d[i - start]));
                    assert(!all_digits(d));
                }
                return None;
            },
            Some(dv) => {
                proof {
                    lemma_digits_val_take(d, i - start);
                }
                let next: u64 = acc * 10 + dv as u64;
                assert(d.take(i + 1 - start).take(i - start) =~= d.take(i - start));
                assert(all_digits(d.take(i + 1 - start))) by {
                    assert(forall|k: int|
                        0 <= k < i + 1 - start ==> #[trigger] d.take(i + 1 - start)[k] == d[k]);
                    assert(is_digit(d[i - start]));
                }
                if next > 2147483648 {
                    proof {
                        if all_digits(d) {
                            lemma_digits_val_grows(d, i + 1 - start);
                        }
                    }
                    return None;
                }
                acc = next;
                i = i + 1;
            },
        }
    }
    assert(d.take(d.len() as int) =~= d);
    if neg {
        Some((0i64 - acc as i64) as i32)
    } else {
        if acc > 2147483647 {
            None
        } else {
            Some(acc as i32)
        }
    }
}


/// Printing an integer and reading the digits back yields the integer.
pub proof fn lemma_print_parse_i32(x: i32)
    ensures
        parse_i32_spec(print_i32_spec(x as int)) == Option::Some(x),
{
    if x < 0 {
        let m = (0 - x) as nat;
        lemma_dec_digits_shape(m);
        let t = print_i32_spec(x as int);
        assert(t == seq!['-'] + dec_digits(m));
        assert(t[0] == '-');
        assert(t.skip(1) =~= dec_digits(m));
        assert(digits_val(dec_digits(m)) == m);
        assert(m <= 2147483648);
    } else {
        let m = x as nat;
        lemma_dec_digits_shape(m);
        let t = print_i32_spec(x as int);
        assert(t == dec_digits(m));
        assert(t.len() > 0);
        assert(is_digit(t[0]));
        assert(t[0] != '-');
        assert(digits_val(t) == m);
        assert(m <= 2147483647);
    }
}


proof fn lemma_skip_digits_window(t: Seq<char>, u: Seq<char>, i: int, k: int)
    requires
        0 <= k <= t.len(),
        0 <= i,
        i + t.len() <= u.len(),
        u.subrange(i, i + t.len()) == t,
        i + t.len() == u.len() || !is_digit(u[i + t.len()]),
    ensures
        skip_digits(u, i + k) == i + skip_digits(t, k),
    decreases t.len() - k,
{
    if k < t.len() {
        assert(u[i + k] == u.subrange(i, i + t.len())[k]);
        if is_digit(t[k]) {
            lemma_skip_digits_window(t, u, i, k + 1);
        }
    }
}

proof fn lemma_frac_end_window(t: Seq<char>, u: Seq<char>, i: int, p: int, q: int)
    requires
        0 <= p <= t.len(),
        0 <= i,
        i + t.len() <= u.len(),
        u.subrange(i, i + t.len()) == t,
        i + t.len() == u.len() || !is_num_cont(u[i + t.len()]),
        frac_end(t, p) == Option::Some(q),
        q <= t.len(),
    ensures
        frac_end(u, i + p) == Option::Some(i + q),
{
    assert(forall|k: int| 0 <= k < t.len() ==> u[i + k] == #[trigger] u.subrange(
        i,
        i + t.len(),
    )[k]);
    if p < t.len() && t[p] == '.' {
        assert(u[i + p] == t[p]);
        assert(p + 1 < t.len() && is_digit(t[p + 1]));
        assert(u[i + p + 1] == t[p + 1]);
        lemma_skip_digits_bounds(t, p + 1);
        lemma_skip_digits_window(t, u, i, p + 1);
    } else {
        if p == t.len() {
            if i + p < u.len() {
                assert(!is_num_cont(u[i + p]));
            }
        } else {
            assert(u[i + p] == t[p]);
        }
    }
}

proof fn lemma_exp_end_window(t: Seq<char>, u: Seq<char>, i: int, p: int, q: int)
    requires
        0 <= p <= t.len(),
        0 <= i,
        i + t.len() <= u.len(),
        u.subrange(i, i + t.len()) == t,
        i + t.len() == u.len() || !is_num_cont(u[i + t.len()]),
        exp_end(t, p) == Option::Some(q),
        q <= t.len(),
    ensures
        exp_end(u, i + p) == Option::Some(i + q),
{
    assert(forall|k: int| 0 <= k < t.len() ==> u[i + k] == #[trigger] u.subrange(
        i,
        i + t.len(),
    )[k]);
    if p < t.len() && (t[p] == 'e' || t[p] == 'E') {
        assert(u[i + p] == t[p]);
        let j = if p + 1 < t.len() && (t[p + 1] == '+' || t[p + 1] == '-') { p + 2 } else { p + 1 };
        if p + 1 < t.len() {
            assert(u[i + p + 1] == t[p + 1]);
        }
        assert(j < t.len() && is_digit(t[j]));
        assert(u[i + j] == t[j]);
        let ju = if i + p + 1 < u.len() && (u[i + p + 1] == '+' || u[i + p + 1] == '-') {
            i + p + 2
        } else {
            i + p + 1
        };
        if p + 1 == t.len() {
            assert(j == p + 1);
            assert(false);
        }
        assert(ju == i + j);
        lemma_skip_digits_bounds(t, j);
        lemma_skip_digits_window(t, u, i, j);
    } else {
        if p == t.len() {
            if i + p < u.len() {
                assert(!is_num_cont(u[i + p]));
            }
        } else {
            assert(u[i + p] == t[p]);
        }
    }
}

/// A whole number token embedded in a longer text, followed by nothing
/// that could extend it, is read back whole by maximal munch.
pub proof fn lemma_num_end_window(t: Seq<char>, u: Seq<char>, i: int)
    requires
        is_num_token(t),
        0 <= i,
        i + t.len() <= u.len(),
        u.subrange(i, i + t.len()) == t,
        i + t.len() == u.len() || !is_num_cont(u[i + t.len()]),
    ensures
        num_end(u, i) == Option::Some(i + t.len()),
{
    assert(forall|k: int| 0 <= k < t.len() ==> u[i + k] == #[trigger] u.subrange(
        i,
        i + t.len(),
    )[k]);
    let n = t.len() as int;
    let j = if 0 < n && t[0] == '-' { 1int } else { 0int };
    assert(0 <= j < n && is_digit(t[j]));
    assert(u[i + 0] == t[0]);
    assert(u[i + j] == t[j]);
    let ju = if u[i] == '-' { i + 1 } else { i };
    assert(ju == i + j);
    let int_end = if t[j] == '0' { j + 1 } else { skip_digits(t, j) };
    lemma_skip_digits_bounds(t, j);
    if t[j] != '0' {
        lemma_skip_digits_window(t, u, i, j);
    }
    assert(int_end <= n);
    let fe = frac_end(t, int_end)->Some_0;
    assert(frac_end(t, int_end) == Option::Some(fe));
    assert(exp_end(t, fe) == Option::Some(n));
    assert(fe <= n) by {
        if int_end < t.len() && t[int_end] == '.' {
            lemma_skip_digits_bounds(t, int_end + 1);
        }
    }
    lemma_frac_end_window(t, u, i, int_end, fe);
    lemma_exp_end_window(t, u, i, fe, n);
}

/// Printed integers are themselves number tokens.
pub proof fn lemma_print_i32_is_num_token(x: i32)
    ensures
        is_num_token(print_i32_spec(x as int)),
{
    let t = print_i32_spec(x as int);
    if x < 0 {
        let m = (0 - x) as nat;
        lemma_dec_digits_shape(m);
        let d = dec_digits(m);
        assert(t == seq!['-'] + d);
        assert(t[0] == '-');
        assert(t[1] == d[0]);
        assert(forall|k: int| 1 <= k < t.len() ==> #[trigger] t[k] == d[k - 1]);
        assert(forall|k: int| 1 <= k < t.len() ==> is_digit(#[trigger] t[k]));
        assert(is_digit(t[1]));
        assert(m >= 1);
        assert(t[1] != '0');
        lemma_all_digits_skip(t, 1);
        assert(skip_digits(t, 1) == t.len());
        assert(frac_end(t, t.len() as int) == Option::Some(t.len() as int));
        assert(exp_end(t, t.len() as int) == Option::Some(t.len() as int));
    } else {
        let m = x as nat;
        lemma_dec_digits_shape(m);
        assert(t == dec_digits(m));
        assert(forall|k: int| 0 <= k < t.len() ==> is_digit(#[trigger] t[k]));
        assert(is_digit(t[0]));
        assert(t[0] != '-');
        if t[0] == '0' {
            assert(m < 10 || t[0] != '0');
            assert(t.len() == 1);
            assert(frac_end(t, 1) == Option::Some(1int));
            assert(exp_end(t, 1) == Option::Some(1int));
        } else {
            lemma_all_digits_skip(t, 0);
            assert(frac_end(t, t.len() as int) == Option::Some(t.len() as int));
            assert(exp_end(t, t.len() as int) == Option::Some(t.len() as int));
        }
    }
}

proof fn lemma_all_digits_skip(t: Seq<char>, j: int)
    requires
        0 <= j <= t.len(),
        forall|k: int| j <= k < t.len() ==> is_digit(#[trigger] t[k]),
    ensures
        skip_digits(t, j) == t.len(),
    decreases t.len() - j,
{
    if j < t.len() {
        assert(is_digit(t[j]));
        lemma_all_digits_skip(t, j + 1);
    }
}

} // verus!
