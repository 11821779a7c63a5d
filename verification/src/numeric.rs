use vstd::prelude::*;
use vstd::string::StrSliceExecFns;
use vstd::string::StringExecFns;

verus! {

// ---------------------------------------------------------------------
// Decimal rendering
// ---------------------------------------------------------------------

/// The digit character for a value below ten.
pub open spec fn spec_digit(d: nat) -> char {
    if d == 0 {
        '0'
    } else if d == 1 {
        '1'
    } else if d == 2 {
        '2'
    } else if d == 3 {
        '3'
    } else if d == 4 {
        '4'
    } else if d == 5 {
        '5'
    } else if d == 6 {
        '6'
    } else if d == 7 {
        '7'
    } else if d == 8 {
        '8'
    } else {
        '9'
    }
}

/// The decimal rendering of a natural number, most significant digit first.
pub open spec fn spec_udec(n: nat) -> Seq<char>
    decreases n,
{
    if n < 10 {
        seq![spec_digit(n)]
    } else {
        spec_udec(n / 10).push(spec_digit(n % 10))
    }
}

/// The decimal rendering of an integer: the magnitude, after a minus sign
/// if the value is negative.
pub open spec fn spec_dec(v: int) -> Seq<char> {
    if v < 0 {
        seq!['-'] + spec_udec((-v) as nat)
    } else {
        spec_udec(v as nat)
    }
}

/// The one-character string for a digit value.
fn digit_str(d: u64) -> (r: &'static str)
    requires
        d < 10,
    ensures
        r@ == seq![spec_digit(d as nat)],
{
    if d == 0 {
        let s = "0";
        proof {
            reveal_strlit("0");
            assert(s@ =~= seq![spec_digit(d as nat)]);
        }
        s
    } else if d == 1 {
        let s = "1";
        proof {
            reveal_strlit("1");
            assert(s@ =~= seq![spec_digit(d as nat)]);
        }
        s
    } else if d == 2 {
        let s = "2";
        proof {
            reveal_strlit("2");
            assert(s@ =~= seq![spec_digit(d as nat)]);
        }
        s
    } else if d == 3 {
        let s = "3";
        proof {
            reveal_strlit("3");
            assert(s@ =~= seq![spec_digit(d as nat)]);
        }
        s
    } else if d == 4 {
        let s = "4";
        proof {
            reveal_strlit("4");
            assert(s@ =~= seq![spec_digit(d as nat)]);
        }
        s
    } else if d == 5 {
        let s = "5";
        proof {
            reveal_strlit("5");
            assert(s@ =~= seq![spec_digit(d as nat)]);
        }
        s
    } else if d == 6 {
        let s = "6";
        proof {
            reveal_strlit("6");
            assert(s@ =~= seq![spec_digit(d as nat)]);
        }
        s
    } else if d == 7 {
        let s = "7";
        proof {
            reveal_strlit("7");
            assert(s@ =~= seq![spec_digit(d as nat)]);
        }
        s
    } else if d == 8 {
        let s = "8";
        proof {
            reveal_strlit("8");
            assert(s@ =~= seq![spec_digit(d as nat)]);
        }
        s
    } else {
        let s = "9";
        proof {
            reveal_strlit("9");
            assert(s@ =~= seq![spec_digit(d as nat)]);
        }
        s
    }
}

/// Renders a natural number in decimal.
pub fn u64_to_string(n: u64) -> (r: String)
    ensures
        r@ == spec_udec(n as nat),
    decreases n,
{
    if n < 10 {
        digit_str(n).to_owned()
    } else {
        let mut s = u64_to_string(n / 10);
        s.append(digit_str(n % 10));
        proof {
            assert(s@ =~= spec_udec((n / 10) as nat).push(spec_digit((n % 10) as nat)));
        }
        s
    }
}

/// Renders a signed integer in decimal.
pub fn i64_to_string(v: i64) -> (r: String)
    ensures
        r@ == spec_dec(v as int),
{
    if v >= 0 {
        u64_to_string(v as u64)
    } else {
        let m: u64 = if v == i64::MIN {
            9223372036854775808u64
        } else {
            (-v) as u64
        };
        let mut s = String::new();
        let sign = "-";
        proof {
            reveal_strlit("-");
            assert(sign@ =~= seq!['-']);
        }
        s.append(sign);
        let mag = u64_to_string(m);
        s.append(mag.as_str());
        proof {
            assert(s@ =~= seq!['-'] + spec_udec((-(v as int)) as nat));
        }
        s
    }
}

// ---------------------------------------------------------------------
// Whitespace-separated integer extraction
// ---------------------------------------------------------------------

/// The whitespace characters that separate tokens.
pub open spec fn is_space(c: char) -> bool {
    c == ' ' || c == '\t' || c == '\n' || c == '\r'
}

/// The length of the leading run of non-whitespace characters.
pub open spec fn tok_len(s: Seq<char>) -> nat
    decreases s.len(),
{
    if s.len() == 0 || is_space(s[0]) {
        0
    } else {
        1 + tok_len(s.skip(1))
    }
}

proof fn lemma_tok_len_le(s: Seq<char>)
    ensures
        tok_len(s) <= s.len(),
    decreases s.len(),
{
    if s.len() > 0 && !is_space(s[0]) {
        lemma_tok_len_le(s.skip(1));
    }
}

/// A run of `m` non-whitespace characters ending at the end of the text or
/// at a whitespace character is exactly the leading token.
proof fn lemma_tok_len_run(s: Seq<char>, m: int)
    requires
        0 <= m <= s.len(),
        forall|k: int| 0 <= k < m ==> !is_space(#[trigger] s[k]),
        m == s.len() || is_space(s[m]),
    ensures
        tok_len(s) == m,
    decreases m,
{
    if m == 0 {
    } else {
        let s1 = s.skip(1);
        assert(forall|k: int| 0 <= k < m - 1 ==> #[trigger] s1[k] == s[k + 1]);
        lemma_tok_len_run(s1, m - 1);
    }
}

/// True of a decimal digit character.
pub open spec fn is_digit(c: char) -> bool {
    '0' <= c && c <= '9'
}

/// The numeric value of a digit character.
pub open spec fn digit_val(c: char) -> int {
    c as int - '0' as int
}

/// True when every character of `t` is a decimal digit.
pub open spec fn all_digits(t: Seq<char>) -> bool {
    forall|i: int| 0 <= i < t.len() ==> is_digit(#[trigger] t[i])
}

/// The value of a digit string, most significant digit first.
pub open spec fn digits_val(t: Seq<char>) -> int
    decreases t.len(),
{
    if t.len() == 0 {
        0
    } else {
        digits_val(t.drop_last()) * 10 + digit_val(t.last())
    }
}

/// The shape of an integer token: an optional minus sign followed by at
/// least one digit, and nothing else.
pub open spec fn is_int_token(t: Seq<char>) -> bool {
    if t.len() > 0 && t[0] == '-' {
        t.len() >= 2 && all_digits(t.skip(1))
    } else {
        t.len() >= 1 && all_digits(t)
    }
}

/// The value of an integer token.
pub open spec fn token_val(t: Seq<char>) -> int {
    if t.len() > 0 && t[0] == '-' {
        -digits_val(t.skip(1))
    } else {
        digits_val(t)
    }
}

/// True when the token's value fits a 64-bit signed integer.
pub open spec fn token_fits(t: Seq<char>) -> bool {
    -9223372036854775808 <= token_val(t) && token_val(t) <= 9223372036854775807
}

proof fn lemma_digits_nonneg(t: Seq<char>)
    requires
        all_digits(t),
    ensures
        digits_val(t) >= 0,
    decreases t.len(),
{
    if t.len() > 0 {
        lemma_digits_nonneg(t.drop_last());
    }
}

/// A digit string is worth at least as much as any of its prefixes.
proof fn lemma_digits_prefix_le(t: Seq<char>, m: int)
    requires
        all_digits(t),
        0 <= m <= t.len(),
    ensures
        digits_val(t.take(m)) <= digits_val(t),
    decreases t.len() - m,
{
    if m < t.len() {
        let t1 = t.drop_last();
        assert(t1.take(m) =~= t.take(m));
        lemma_digits_prefix_le(t1, m);
        lemma_digits_nonneg(t1);
        assert(digits_val(t1) * 10 >= digits_val(t1)) by (nonlinear_arith)
            requires
                digits_val(t1) >= 0,
        ;
        assert(digit_val(t.last()) >= 0);
    } else {
        assert(t.take(m) =~= t);
    }
}

/// The integers found in `s`: the text is cut at whitespace, and each token
/// that is a well-formed integer fitting 64 bits contributes its value, in
/// order; every other token is silently dropped.
pub open spec fn spec_numbers(s: Seq<char>) -> Seq<int>
    decreases s.len(),
    via spec_numbers_decreases
{
    if s.len() == 0 {
        Seq::empty()
    } else if is_space(s[0]) {
        spec_numbers(s.skip(1))
    } else {
        let n = tok_len(s) as int;
        let t = s.take(n);
        let rest = spec_numbers(s.skip(n));
        if is_int_token(t) && token_fits(t) {
            seq![token_val(t)] + rest
        } else {
            rest
        }
    }
}

#[via_fn]
proof fn spec_numbers_decreases(s: Seq<char>) {
    if s.len() > 0 && !is_space(s[0]) {
        lemma_tok_len_le(s);
    }
}

/// The sequence of mathematical integers behind a vector of machine ones.
pub open spec fn ints_of(v: Seq<i64>) -> Seq<int> {
    v.map_values(|x: i64| x as int)
}

/// Decides whether `c` separates tokens.
fn is_space_char(c: char) -> (r: bool)
    ensures
        r == is_space(c),
{
    c == ' ' || c == '\t' || c == '\n' || c == '\r'
}

/// The digit value of `c`, if it is one.
fn digit_of(c: char) -> (r: Option<u64>)
    ensures
        match r {
            Some(d) => is_digit(c) && d < 10 && d as int == digit_val(c),
            None => !is_digit(c),
        },
{
    let u = c as u32;
    if 48 <= u && u <= 57 {
        Some((u - 48) as u64)
    } else {
        None
    }
}

/// Parses the token `text[i..j]` as a 64-bit integer, or reports that it
/// is not one (wrong shape, or too large for the type).
#[verifier::loop_isolation(false)]
fn parse_int_token(text: &str, i: usize, j: usize) -> (r: Option<i64>)
    requires
        i < j <= text@.len(),
    ensures
        ({
            let t = text@.subrange(i as int, j as int);
            match r {
                Some(v) => is_int_token(t) && token_fits(t) && v as int == token_val(t),
                None => !(is_int_token(t) && token_fits(t)),
            }
        }),
{
    let ghost t = text@.subrange(i as int, j as int);
    let neg = text.get_char(i) == '-';
    let start = if neg { i + 1 } else { i };
    proof {
        assert(t.len() == j - i);
        assert(t[0] == text@[i as int]);
        if neg {
            assert(t.skip(1) =~= text@.subrange(start as int, j as int));
        } else {
            assert(t =~= text@.subrange(start as int, j as int));
        }
    }
    let ghost d = text@.subrange(start as int, j as int);
    if start == j {
        // a bare minus sign
        proof {
            assert(j == i + 1);
            assert(t.len() == 1);
            assert(text@[i as int] == '-');
            assert(t[0] == '-');
            assert(!(t.len() >= 2));
            assert(!is_int_token(t));
        }
        return None;
    }
    let bound: u64 = 9223372036854775808u64;
    let mut acc: u64 = 0;
    let mut k = start;
    while k < j
        invariant
            start <= k <= j <= text@.len(),
            start < j,
            d == text@.subrange(start as int, j as int),
            acc <= bound,
            bound == 9223372036854775808u64,
            all_digits(d.take(k - start)),
            acc as int == digits_val(d.take(k - start)),
        decreases j - k,
    {
        let c = text.get_char(k);
        proof {
            assert(d[k - start] == text@[k as int]);
        }
        match digit_of(c) {
            None => {
                proof {
                    assert(!all_digits(d));
                    assert(!is_int_token(t));
                }
                return None;
            },
            Some(dv) => {
                proof {
                    assert(d.take(k - start + 1).drop_last() =~= d.take(k - start));
                    assert(d.take(k - start + 1).last() == d[k - start]);
                }
                if acc > (bound - dv) / 10 {
                    // the magnitude already exceeds what a 64-bit integer
                    // can hold, whatever the sign
                    proof {
                        assert((acc as int) * 10 + (dv as int) > bound as int) by (nonlinear_arith)
                            requires
                                (acc as int) > ((bound as int) - (dv as int)) / 10,
                                0 <= (dv as int) < 10,
                                (bound as int) == 9223372036854775808,
                                acc >= 0,
                        ;
                        let p = d.take(k - start + 1);
                        assert(digits_val(p) > 9223372036854775808);
                        if is_int_token(t) {
                            if t.len() > 0 && t[0] == '-' {
                                assert(all_digits(d));
                                lemma_digits_prefix_le(d, k - start + 1);
                                assert(token_val(t) == -digits_val(d));
                                assert(!token_fits(t));
                            } else {
                                assert(all_digits(d));
                                lemma_digits_prefix_le(d, k - start + 1);
                                assert(token_val(t) == digits_val(d));
                                assert(!token_fits(t));
                            }
                        }
                    }
                    return None;
                }
                proof {
                    assert((acc as int) * 10 + (dv as int) <= bound as int) by (nonlinear_arith)
                        requires
                            (acc as int) <= ((bound as int) - (dv as int)) / 10,
                            0 <= (dv as int) < 10,
                            (bound as int) >= (dv as int),
                            acc >= 0,
                    ;
                }
                acc = acc * 10 + dv;
                k = k + 1;
            },
        }
    }
    proof {
        assert(d.take(j - start) =~= d);
        assert(all_digits(d));
        assert(acc as int == digits_val(d));
        lemma_digits_nonneg(d);
        if neg {
            assert(is_int_token(t));
            assert(token_val(t) == -digits_val(d));
        } else {
            assert(is_int_token(t));
            assert(token_val(t) == digits_val(d));
        }
    }
    if neg {
        if acc <= 9223372036854775807u64 {
            Some(-(acc as i64))
        } else {
            // exactly the most negative value
            Some(i64::MIN)
        }
    } else {
        if acc <= 9223372036854775807u64 {
            Some(acc as i64)
        } else {
            proof {
                assert(!token_fits(t));
            }
            None
        }
    }
}

/// Extracts every whitespace-separated integer from `text`, in order,
/// silently dropping tokens that do not parse.
#[verifier::loop_isolation(false)]
pub fn extract_numbers(text: &str) -> (r: Vec<i64>)
    ensures
        ints_of(r@) == spec_numbers(text@),
{
    let n = text.unicode_len();
    let mut out: Vec<i64> = Vec::new();
    let mut i: usize = 0;
    proof {
        assert(text@.skip(0) =~= text@);
        assert(ints_of(out@) =~= Seq::<int>::empty());
        assert(Seq::<int>::empty() + spec_numbers(text@) =~= spec_numbers(text@));
    }
    while i < n
        invariant
            i <= n,
            n == text@.len(),
            spec_numbers(text@) == ints_of(out@) + spec_numbers(text@.skip(i as int)),
        decreases n - i,
    {
        let c = text.get_char(i);
        if is_space_char(c) {
            proof {
                let u = text@.skip(i as int);
                assert(u[0] == text@[i as int]);
                assert(u.skip(1) =~= text@.skip(i as int + 1));
            }
            i = i + 1;
        } else {
            let mut j = i + 1;
            while j < n && !is_space_char(text.get_char(j))
                invariant
                    i < j <= n,
                    n == text@.len(),
                    !is_space(text@[i as int]),
                    forall|k: int| i <= k < j ==> !is_space(#[trigger] text@[k]),
                decreases n - j,
            {
                j = j + 1;
            }
            let ghost u = text@.skip(i as int);
            proof {
                assert(forall|k: int| 0 <= k < j - i ==> #[trigger] u[k] == text@[k + i]);
                lemma_tok_len_run(u, j - i);
                assert(u.take(j - i) =~= text@.subrange(i as int, j as int));
                assert(u.skip(j - i) =~= text@.skip(j as int));
            }
            let parsed = parse_int_token(text, i, j);
            match parsed {
                Some(v) => {
                    let ghost before = out@;
                    out.push(v);
                    proof {
                        assert(ints_of(out@) =~= ints_of(before).push(v as int));
                        assert(ints_of(before).push(v as int) =~= ints_of(before) + seq![
                            v as int,
                        ]);
                        assert(ints_of(before) + seq![v as int] + spec_numbers(text@.skip(j as int))
                            =~= ints_of(before) + (seq![v as int] + spec_numbers(
                            text@.skip(j as int),
                        )));
                    }
                },
                None => {},
            }
            i = j;
        }
    }
    proof {
        assert(text@.skip(n as int) =~= Seq::<char>::empty());
        assert(ints_of(out@) + Seq::<int>::empty() =~= ints_of(out@));
    }
    out
}

} // verus!
