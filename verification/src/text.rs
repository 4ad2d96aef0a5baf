//! Textual encoding primitives for the serialization format: decimal
//! integers and quoted strings with minimal escaping, each with an exact
//! grammar, an emitter, a parser, and a round-trip law.

use vstd::prelude::*;

verus! {

/// A decimal digit.
pub open spec fn is_digit(c: char) -> bool {
    '0' <= c && c <= '9'
}

/// The numeric value of a decimal digit.
pub open spec fn digit_val(c: char) -> int {
    c as int - '0' as int
}

/// The decimal digit with value `d`.
pub open spec fn digit_char(d: int) -> char {
    if d == 0 {
        '0'
    } else if d == 1 {
        '1'
    } else if d == 2 {
        '2'
    } else if d == 3 {
        '3'
    } else if d == 4 {
        '4'
    } else if d == 5 {
        '5'
    } else if d == 6 {
        '6'
    } else if d == 7 {
        '7'
    } else if d == 8 {
        '8'
    } else {
        '9'
    }
}

/// Ten to the `k`.
pub open spec fn pow10(k: nat) -> int
    decreases k,
{
    if k == 0 {
        1
    } else {
        10 * pow10((k - 1) as nat)
    }
}

/// The decimal digits of a nonnegative integer, most significant first, with
/// no leading zeros (a lone zero for 0).
pub open spec fn dec_digits(n: int) -> Seq<char>
    recommends
        n >= 0,
    decreases n,
{
    if n < 10 {
        seq![digit_char(n)]
    } else {
        dec_digits(n / 10).push(digit_char(n % 10))
    }
}

/// The rendering of an integer: digits, with a leading minus sign when
/// negative.
pub open spec fn ser_int(v: int) -> Seq<char> {
    if v >= 0 {
        dec_digits(v)
    } else {
        seq!['-'] + dec_digits(-v)
    }
}

/// Consume the longest digit prefix of `s`, folding it onto `acc`, and
/// return the accumulated value with the remainder.
pub open spec fn parse_digits(s: Seq<char>, acc: int) -> (int, Seq<char>)
    decreases s.len(),
{
    if s.len() > 0 && is_digit(s[0]) {
        parse_digits(s.subrange(1, s.len() as int), acc * 10 + digit_val(s[0]))
    } else {
        (acc, s)
    }
}

/// Parse a nonnegative decimal number: at least one digit, taken greedily.
pub open spec fn parse_nat(s: Seq<char>) -> Option<(int, Seq<char>)> {
    if s.len() > 0 && is_digit(s[0]) {
        Some(parse_digits(s, 0))
    } else {
        None
    }
}

/// Parse an integer: an optional minus sign, then digits.
pub open spec fn parse_int(s: Seq<char>) -> Option<(int, Seq<char>)> {
    if s.len() > 0 && s[0] == '-' {
        match parse_nat(s.subrange(1, s.len() as int)) {
            Some((v, rest)) => Some((-v, rest)),
            None => None,
        }
    } else {
        parse_nat(s)
    }
}

/// The digits of a nonnegative integer are nonempty and all digits.
pub proof fn lemma_dec_digits_shape(n: int)
    requires
        n >= 0,
    ensures
        dec_digits(n).len() >= 1,
        forall|i: int| 0 <= i < dec_digits(n).len() ==> is_digit(#[trigger] dec_digits(n)[i]),
    decreases n,
{
    if n < 10 {
        assert(is_digit(digit_char(n)));
    } else {
        lemma_dec_digits_shape(n / 10);
    }
}

/// Folding the digits of `n` onto an accumulator shifts the accumulator by
/// the digit count and adds `n`.
pub proof fn lemma_parse_digits_dec(n: int, rest: Seq<char>, acc: int)
    requires
        n >= 0,
    ensures
        parse_digits(dec_digits(n) + rest, acc) == parse_digits(
            rest,
            acc * pow10(dec_digits(n).len() as nat) + n,
        ),
    decreases n,
{
    if n < 10 {
        let s = dec_digits(n) + rest;
        assert(s[0] == digit_char(n));
        assert(is_digit(digit_char(n)));
        assert(digit_val(digit_char(n)) == n);
        assert(s.subrange(1, s.len() as int) =~= rest);
        assert(dec_digits(n).len() == 1);
        assert(pow10(0) == 1);
        assert(pow10(1) == 10);
        assert(parse_digits(s, acc) == parse_digits(rest, acc * 10 + n));
    } else {
        let m = n / 10;
        let d = n % 10;
        let k1 = dec_digits(m).len() as nat;
        assert(dec_digits(n) == dec_digits(m).push(digit_char(d)));
        assert(dec_digits(n) + rest =~= dec_digits(m) + (seq![digit_char(d)] + rest));
        lemma_parse_digits_dec(m, seq![digit_char(d)] + rest, acc);
        let acc1 = acc * pow10(k1) + m;
        // one more digit: unfold parse_digits on [digit_char(d)] + rest
        let s1 = seq![digit_char(d)] + rest;
        assert(0 <= d < 10);
        assert(s1[0] == digit_char(d));
        assert(is_digit(digit_char(d)));
        assert(digit_val(digit_char(d)) == d);
        assert(s1.subrange(1, s1.len() as int) =~= rest);
        assert(parse_digits(s1, acc1) == parse_digits(rest, acc1 * 10 + d));
        assert(dec_digits(n).len() as nat == (k1 + 1) as nat);
        assert(pow10((k1 + 1) as nat) == 10 * pow10(k1));
        assert(acc1 * 10 + d == acc * pow10((k1 + 1) as nat) + n) by (nonlinear_arith)
            requires
                acc1 == acc * pow10(k1) + m,
                m == n / 10,
                d == n % 10,
                n >= 10,
                pow10((k1 + 1) as nat) == 10 * pow10(k1),
        {
        }
    }
}

/// Round trip for nonnegative numbers: parsing the digits of `n` followed by
/// anything that does not begin with a digit gives back `n` exactly.
pub proof fn lemma_parse_nat_dec(n: int, rest: Seq<char>)
    requires
        n >= 0,
        rest.len() > 0 ==> !is_digit(rest[0]),
    ensures
        parse_nat(dec_digits(n) + rest) == Some((n, rest)),
{
    lemma_dec_digits_shape(n);
    let s = dec_digits(n) + rest;
    assert(s[0] == dec_digits(n)[0]);
    assert(is_digit(s[0]));
    lemma_parse_digits_dec(n, rest, 0);
    assert(0 * pow10(dec_digits(n).len() as nat) == 0) by (nonlinear_arith);
    assert(parse_digits(rest, n) == (n, rest));
}

/// Round trip for integers: parsing the rendering of `v` followed by
/// anything that does not begin with a digit gives back `v` exactly.
pub proof fn lemma_parse_int_ser(v: int, rest: Seq<char>)
    requires
        rest.len() > 0 ==> !is_digit(rest[0]),
    ensures
        parse_int(ser_int(v) + rest) == Some((v, rest)),
{
    if v >= 0 {
        lemma_dec_digits_shape(v);
        let s = ser_int(v) + rest;
        assert(s[0] == dec_digits(v)[0]);
        assert(!is_digit('-'));
        assert(s[0] != '-');
        lemma_parse_nat_dec(v, rest);
    } else {
        let s = ser_int(v) + rest;
        assert(s[0] == '-');
        assert(s.subrange(1, s.len() as int) =~= dec_digits(-v) + rest);
        lemma_parse_nat_dec(-v, rest);
    }
}

/// The escaped form of one character: quote and backslash get a backslash
/// prefix, every other character stands for itself.
pub open spec fn escc(c: char) -> Seq<char> {
    if c == '"' || c == '\\' {
        seq!['\\', c]
    } else {
        seq![c]
    }
}

/// The escaped form of a string body.
pub open spec fn esc(s: Seq<char>) -> Seq<char>
    decreases s.len(),
{
    if s.len() == 0 {
        Seq::<char>::empty()
    } else {
        escc(s[0]) + esc(s.subrange(1, s.len() as int))
    }
}

/// The rendering of a string: the escaped body between double quotes.
pub open spec fn ser_string(v: Seq<char>) -> Seq<char> {
    seq!['"'] + esc(v) + seq!['"']
}

/// Escaping commutes with appending one character at the end.
pub proof fn lemma_esc_snoc(s: Seq<char>, c: char)
    ensures
        esc(s.push(c)) == esc(s) + escc(c),
    decreases s.len(),
{
    if s.len() == 0 {
        assert(s.push(c)[0] == c);
        let sub = s.push(c).subrange(1, 1);
        assert(sub =~= Seq::<char>::empty());
        assert(esc(s.push(c)) == escc(c) + esc(sub));
        assert(esc(sub) =~= Seq::<char>::empty());
        assert(esc(s) =~= Seq::<char>::empty());
        assert(escc(c) + Seq::<char>::empty() =~= escc(c));
        assert(Seq::<char>::empty() + escc(c) =~= escc(c));
        assert(esc(s.push(c)) =~= esc(s) + escc(c));
    } else {
        let t = s.subrange(1, s.len() as int);
        assert(s.push(c)[0] == s[0]);
        assert(s.push(c).subrange(1, s.len() as int + 1) =~= t.push(c));
        assert(esc(s.push(c)) == escc(s[0]) + esc(t.push(c)));
        lemma_esc_snoc(t, c);
        assert(esc(s) == escc(s[0]) + esc(t));
        assert(escc(s[0]) + (esc(t) + escc(c)) =~= (escc(s[0]) + esc(t)) + escc(c));
        assert(esc(s.push(c)) =~= esc(s) + escc(c));
    }
}

/// Consume an escaped string body up to its closing quote, collecting the
/// unescaped characters onto `acc`; reject a dangling backslash, an escape
/// other than quote-or-backslash, and a missing closing quote.
pub open spec fn parse_str_body(s: Seq<char>, acc: Seq<char>) -> Option<(Seq<char>, Seq<char>)>
    decreases s.len(),
{
    if s.len() == 0 {
        None
    } else if s[0] == '"' {
        Some((acc, s.subrange(1, s.len() as int)))
    } else if s[0] == '\\' {
        if s.len() >= 2 && (s[1] == '"' || s[1] == '\\') {
            parse_str_body(s.subrange(2, s.len() as int), acc.push(s[1]))
        } else {
            None
        }
    } else {
        parse_str_body(s.subrange(1, s.len() as int), acc.push(s[0]))
    }
}

/// Parse a quoted string.
pub open spec fn parse_string(s: Seq<char>) -> Option<(Seq<char>, Seq<char>)> {
    if s.len() > 0 && s[0] == '"' {
        parse_str_body(s.subrange(1, s.len() as int), Seq::<char>::empty())
    } else {
        None
    }
}

/// Parsing an escaped body followed by its closing quote recovers the body.
pub proof fn lemma_parse_str_body(v: Seq<char>, rest: Seq<char>, acc: Seq<char>)
    ensures
        parse_str_body(esc(v) + seq!['"'] + rest, acc) == Some((acc + v, rest)),
    decreases v.len(),
{
    let s = esc(v) + seq!['"'] + rest;
    if v.len() == 0 {
        assert(s[0] == '"');
        assert(s.subrange(1, s.len() as int) =~= rest);
        assert(acc + v =~= acc);
    } else {
        let c = v[0];
        let tail = v.subrange(1, v.len() as int);
        assert(esc(v) == escc(c) + esc(tail));
        if c == '"' || c == '\\' {
            assert(s[0] == '\\');
            assert(s[1] == c);
            assert(s.len() >= 2);
            assert(s.subrange(2, s.len() as int) =~= esc(tail) + seq!['"'] + rest);
            lemma_parse_str_body(tail, rest, acc.push(c));
            assert(acc.push(c) + tail =~= acc + v);
        } else {
            assert(s[0] == c);
            assert(s.subrange(1, s.len() as int) =~= esc(tail) + seq!['"'] + rest);
            lemma_parse_str_body(tail, rest, acc.push(c));
            assert(acc.push(c) + tail =~= acc + v);
        }
    }
}

/// Round trip for strings: parsing the rendering of `v` followed by anything
/// gives back `v` exactly.
pub proof fn lemma_parse_string_ser(v: Seq<char>, rest: Seq<char>)
    ensures
        parse_string(ser_string(v) + rest) == Some((v, rest)),
{
    let s = ser_string(v) + rest;
    assert(s[0] == '"');
    assert(s.subrange(1, s.len() as int) =~= esc(v) + seq!['"'] + rest);
    lemma_parse_str_body(v, rest, Seq::<char>::empty());
    assert(Seq::<char>::empty() + v =~= v);
}

/// Consume an exact literal prefix.
pub open spec fn expect(s: Seq<char>, lit: Seq<char>) -> Option<Seq<char>> {
    if s.len() >= lit.len() && s.subrange(0, lit.len() as int) == lit {
        Some(s.subrange(lit.len() as int, s.len() as int))
    } else {
        None
    }
}

/// A literal prefix is always consumed from its own concatenation.
pub proof fn lemma_expect(lit: Seq<char>, rest: Seq<char>)
    ensures
        expect(lit + rest, lit) == Some(rest),
{
    assert((lit + rest).subrange(0, lit.len() as int) =~= lit);
    assert((lit + rest).subrange(lit.len() as int, (lit + rest).len() as int) =~= rest);
}

/// The remainder of `s` from position `i` on.
pub open spec fn tail_from(s: Seq<char>, i: int) -> Seq<char> {
    s.subrange(i, s.len() as int)
}

/// Why a number failed to parse: nothing numeric there, or a value beyond
/// the target range.
#[derive(Clone, Copy, Debug, PartialEq, Eq, Structural)]
pub enum NumFail {
    NoNumber,
    TooLarge,
}

/// Classify a decimal digit and give its value.
pub fn digit_of(c: char) -> (r: Option<u64>)
    ensures
        r is Some <==> is_digit(c),
        r matches Some(d) ==> d < 10 && d as int == digit_val(c),
{
    if '0' <= c && c <= '9' {
        Some((c as u32 - '0' as u32) as u64)
    } else {
        None
    }
}

/// The one-character string holding the digit with value `d`.
fn digit_str(d: u64) -> (r: &'static str)
    requires
        d < 10,
    ensures
        r@ == seq![digit_char(d as int)],
{
    proof {
        reveal_strlit("0");
        reveal_strlit("1");
        reveal_strlit("2");
        reveal_strlit("3");
        reveal_strlit("4");
        reveal_strlit("5");
        reveal_strlit("6");
        reveal_strlit("7");
        reveal_strlit("8");
        reveal_strlit("9");
    }
    let r: &'static str = if d == 0 {
        "0"
    } else if d == 1 {
        "1"
    } else if d == 2 {
        "2"
    } else if d == 3 {
        "3"
    } else if d == 4 {
        "4"
    } else if d == 5 {
        "5"
    } else if d == 6 {
        "6"
    } else if d == 7 {
        "7"
    } else if d == 8 {
        "8"
    } else {
        "9"
    };
    proof {
        assert(r@ =~= seq![digit_char(d as int)]);
    }
    r
}

/// Append the decimal digits of `n` to `out`.
pub fn emit_u64(out: &mut String, n: u64)
    ensures
        final(out)@ == old(out)@ + dec_digits(n as int),
    decreases n,
{
    if n < 10 {
        out.append(digit_str(n));
        proof {
            assert(final(out)@ =~= old(out)@ + dec_digits(n as int));
        }
    } else {
        emit_u64(out, n / 10);
        out.append(digit_str(n % 10));
        proof {
            assert((n / 10) as int == n as int / 10);
            assert((n % 10) as int == n as int % 10);
            assert(final(out)@ =~= old(out)@ + dec_digits(n as int));
        }
    }
}

/// Append the decimal rendering of `v` to `out`, minus sign included.
pub fn emit_i64(out: &mut String, v: i64)
    ensures
        final(out)@ == old(out)@ + ser_int(v as int),
{
    if v >= 0 {
        emit_u64(out, v as u64);
    } else {
        proof {
            reveal_strlit("-");
        }
        out.append("-");
        let neg: i128 = -(v as i128);
        let mag: u64 = neg as u64;
        proof {
            assert(0 < neg <= u64::MAX);
            assert(mag as int == -(v as int));
        }
        emit_u64(out, mag);
        proof {
            assert("-"@ =~= seq!['-']);
            assert(final(out)@ =~= old(out)@ + ser_int(v as int));
        }
    }
}

/// Append the quoted, escaped rendering of `v` to `out`.
pub fn emit_string(out: &mut String, v: &str)
    ensures
        final(out)@ == old(out)@ + ser_string(v@),
{
    proof {
        reveal_strlit("\"");
        reveal_strlit("\\");
    }
    let ghost out0: Seq<char> = out@;
    out.append("\"");
    proof {
        assert("\""@ =~= seq!['"']);
    }
    let n = v.unicode_len();
    let mut j: usize = 0;
    while j < n
        invariant
            j <= n,
            n == v@.len(),
            out@ == out0 + seq!['"'] + esc(v@.subrange(0, j as int)),
        decreases n - j,
    {
        let c = v.get_char(j);
        if c == '"' || c == '\\' {
            out.append("\\");
            proof {
                reveal_strlit("\\");
                assert("\\"@ =~= seq!['\\']);
            }
        }
        out.append(v.substring_char(j, j + 1));
        proof {
            let pre = v@.subrange(0, j as int);
            lemma_esc_snoc(pre, v@[j as int]);
            assert(v@.subrange(0, j as int + 1) =~= pre.push(v@[j as int]));
            assert(v@.subrange(j as int, j as int + 1) =~= seq![v@[j as int]]);
            if v@[j as int] == '"' || v@[j as int] == '\\' {
                assert(escc(v@[j as int]) =~= seq!['\\'] + seq![v@[j as int]]);
            } else {
                assert(escc(v@[j as int]) =~= seq![v@[j as int]]);
            }
            assert(out@ =~= out0 + seq!['"'] + esc(v@.subrange(0, j as int + 1)));
        }
        j += 1;
    }
    out.append("\"");
    proof {
        assert(v@.subrange(0, n as int) =~= v@);
        assert(final(out)@ =~= old(out)@ + ser_string(v@));
    }
}

/// Consume the exact literal `lit` at position `i` of `s`, if it is there.
pub fn eat_lit(s: &str, i: usize, lit: &str) -> (r: Option<usize>)
    requires
        i <= s@.len(),
    ensures
        match r {
            Some(j) => {
                &&& i <= j <= s@.len()
                &&& expect(tail_from(s@, i as int), lit@) == Some(tail_from(s@, j as int))
            },
            None => expect(tail_from(s@, i as int), lit@) is None,
        },
{
    let n = s.unicode_len();
    let m = lit.unicode_len();
    if m > n - i {
        return None;
    }
    let mut k: usize = 0;
    while k < m
        invariant
            k <= m,
            i + m <= n,
            n == s@.len(),
            m == lit@.len(),
            forall|t: int| 0 <= t < k ==> s@[i + t] == lit@[t],
        decreases m - k,
    {
        if s.get_char(i + k) != lit.get_char(k) {
            proof {
                let tl = tail_from(s@, i as int);
                assert(tl.subrange(0, m as int)[k as int] == s@[i + k]);
                assert(tl.subrange(0, m as int) != lit@);
            }
            return None;
        }
        k += 1;
    }
    proof {
        let tl = tail_from(s@, i as int);
        assert(tl.subrange(0, m as int) =~= lit@);
        assert(tl.subrange(m as int, tl.len() as int) =~= tail_from(s@, i as int + m as int));
    }
    Some(i + m)
}

/// Parse a nonnegative decimal number at position `i` of `s` into a `u64`.
pub fn p_u64(s: &str, i: usize) -> (r: Result<(u64, usize), NumFail>)
    requires
        i <= s@.len(),
    ensures
        match r {
            Ok((v, j)) => {
                &&& i <= j <= s@.len()
                &&& parse_nat(tail_from(s@, i as int)) == Some(
                    (v as int, tail_from(s@, j as int)),
                )
            },
            Err(NumFail::NoNumber) => parse_nat(tail_from(s@, i as int)) is None,
            Err(NumFail::TooLarge) => {
                &&& parse_nat(tail_from(s@, i as int)) matches Some(p)
                &&& parse_nat(tail_from(s@, i as int))->Some_0.0 > u64::MAX as int
            },
        },
{
    let n = s.unicode_len();
    if i >= n {
        return Err(NumFail::NoNumber);
    }
    match digit_of(s.get_char(i)) {
        None => {
            return Err(NumFail::NoNumber);
        },
        Some(_) => {
        },
    }
    let mut j: usize = i;
    let mut acc: u64 = 0;
    let mut over: bool = false;
    let ghost mut cur: int = 0;
    loop
        invariant
            i <= j <= n,
            n == s@.len(),
            is_digit(s@[i as int]),
            cur >= 0,
            !over ==> acc as int == cur,
            over ==> cur > u64::MAX as int,
            parse_digits(tail_from(s@, i as int), 0) == parse_digits(tail_from(s@, j as int), cur),
        ensures
            i <= j <= n,
            !over ==> acc as int == cur,
            over ==> cur > u64::MAX as int,
            parse_digits(tail_from(s@, i as int), 0) == parse_digits(tail_from(s@, j as int), cur),
            parse_digits(tail_from(s@, j as int), cur) == (cur, tail_from(s@, j as int)),
        decreases n - j,
    {
        if j >= n {
            proof {
                assert(tail_from(s@, j as int).len() == 0);
            }
            break;
        }
        let c = s.get_char(j);
        match digit_of(c) {
            None => {
                proof {
                    assert(tail_from(s@, j as int)[0] == s@[j as int]);
                }
                break;
            },
            Some(d) => {
                proof {
                    let tl = tail_from(s@, j as int);
                    assert(tl[0] == s@[j as int]);
                    assert(is_digit(tl[0]));
                    assert(tl.subrange(1, tl.len() as int) =~= tail_from(s@, j as int + 1));
                    assert(parse_digits(tl, cur) == parse_digits(
                        tail_from(s@, j as int + 1),
                        cur * 10 + digit_val(tl[0]),
                    ));
                }
                if over {
                    proof {
                        assert(cur * 10 + d as int > u64::MAX as int) by (nonlinear_arith)
                            requires
                                cur > u64::MAX as int,
                                d >= 0,
                        {
                        }
                        cur = cur * 10 + d as int;
                    }
                } else if acc > (u64::MAX - d) / 10 {
                    over = true;
                    proof {
                        assert(acc as int * 10 + d as int > u64::MAX as int) by (nonlinear_arith)
                            requires
                                acc as int > (u64::MAX - d) as int / 10,
                                0 <= d < 10,
                                acc >= 0,
                        {
                        }
                        cur = cur * 10 + d as int;
                    }
                } else {
                    proof {
                        assert(acc as int * 10 + d as int <= u64::MAX as int) by (nonlinear_arith)
                            requires
                                acc as int <= (u64::MAX - d) as int / 10,
                                0 <= d < 10,
                                acc >= 0,
                        {
                        }
                    }
                    acc = acc * 10 + d;
                    proof {
                        cur = cur * 10 + d as int;
                    }
                }
                j += 1;
            },
        }
    }
    proof {
        assert(parse_nat(tail_from(s@, i as int)) == Some((cur, tail_from(s@, j as int))));
    }
    if over {
        Err(NumFail::TooLarge)
    } else {
        Ok((acc, j))
    }
}

/// Parse a decimal integer at position `i` of `s` into an `i64`.
pub fn p_i64(s: &str, i: usize) -> (r: Result<(i64, usize), NumFail>)
    requires
        i <= s@.len(),
    ensures
        match r {
            Ok((v, j)) => {
                &&& i <= j <= s@.len()
                &&& parse_int(tail_from(s@, i as int)) == Some(
                    (v as int, tail_from(s@, j as int)),
                )
            },
            Err(NumFail::NoNumber) => parse_int(tail_from(s@, i as int)) is None,
            Err(NumFail::TooLarge) => {
                &&& parse_int(tail_from(s@, i as int)) matches Some(p)
                &&& !(i64::MIN as int <= parse_int(tail_from(s@, i as int))->Some_0.0
                    <= i64::MAX as int)
            },
        },
{
    let n = s.unicode_len();
    if i < n && s.get_char(i) == '-' {
        proof {
            assert(tail_from(s@, i as int)[0] == '-');
            assert(tail_from(s@, i as int).subrange(1, tail_from(s@, i as int).len() as int)
                =~= tail_from(s@, i as int + 1));
        }
        match p_u64(s, i + 1) {
            Ok((mag, j)) => {
                if mag > 9223372036854775808u64 {
                    return Err(NumFail::TooLarge);
                }
                let v: i64 = (-(mag as i128)) as i64;
                proof {
                    assert(v as int == -(mag as int));
                }
                Ok((v, j))
            },
            Err(NumFail::NoNumber) => Err(NumFail::NoNumber),
            Err(NumFail::TooLarge) => Err(NumFail::TooLarge),
        }
    } else {
        proof {
            if i < s@.len() {
                assert(tail_from(s@, i as int)[0] == s@[i as int]);
            }
        }
        match p_u64(s, i) {
            Ok((mag, j)) => {
                if mag > i64::MAX as u64 {
                    return Err(NumFail::TooLarge);
                }
                Ok((mag as i64, j))
            },
            Err(NumFail::NoNumber) => Err(NumFail::NoNumber),
            Err(NumFail::TooLarge) => Err(NumFail::TooLarge),
        }
    }
}

/// Parse a quoted string at position `i` of `s`, undoing the escapes.
pub fn p_string(s: &str, i: usize) -> (r: Option<(String, usize)>)
    requires
        i <= s@.len(),
    ensures
        match r {
            Some(p) => {
                &&& i <= p.1 <= s@.len()
                &&& parse_string(tail_from(s@, i as int)) == Some(
                    (p.0@, tail_from(s@, p.1 as int)),
                )
            },
            None => parse_string(tail_from(s@, i as int)) is None,
        },
{
    let n = s.unicode_len();
    if i >= n {
        return None;
    }
    if s.get_char(i) != '"' {
        proof {
            assert(tail_from(s@, i as int)[0] == s@[i as int]);
        }
        return None;
    }
    let mut acc = String::new();
    let mut j: usize = i + 1;
    loop
        invariant
            i + 1 <= j <= n,
            n == s@.len(),
            s@[i as int] == '"',
            parse_str_body(tail_from(s@, i as int + 1), Seq::<char>::empty()) == parse_str_body(
                tail_from(s@, j as int),
                acc@,
            ),
        decreases n - j,
    {
        proof {
            assert(tail_from(s@, i as int)[0] == '"');
            assert(tail_from(s@, i as int).subrange(1, tail_from(s@, i as int).len() as int)
                =~= tail_from(s@, i as int + 1));
        }
        if j >= n {
            proof {
                assert(tail_from(s@, j as int).len() == 0);
            }
            return None;
        }
        let c = s.get_char(j);
        proof {
            assert(tail_from(s@, j as int)[0] == s@[j as int]);
        }
        if c == '"' {
            proof {
                let tl = tail_from(s@, j as int);
                assert(tl.subrange(1, tl.len() as int) =~= tail_from(s@, j as int + 1));
            }
            return Some((acc, j + 1));
        } else if c == '\\' {
            if j + 1 >= n {
                proof {
                    assert(tail_from(s@, j as int).len() < 2);
                }
                return None;
            }
            let c2 = s.get_char(j + 1);
            proof {
                assert(tail_from(s@, j as int)[1] == s@[j as int + 1]);
            }
            if c2 == '"' || c2 == '\\' {
                let ghost acc0: Seq<char> = acc@;
                acc.append(s.substring_char(j + 1, j + 2));
                proof {
                    let tl = tail_from(s@, j as int);
                    assert(s@.subrange(j as int + 1, j as int + 2) =~= seq![s@[j as int + 1]]);
                    assert(acc@ =~= acc0.push(s@[j as int + 1]));
                    assert(tl.subrange(2, tl.len() as int) =~= tail_from(s@, j as int + 2));
                }
                j += 2;
            } else {
                return None;
            }
        } else {
            let ghost acc0: Seq<char> = acc@;
            acc.append(s.substring_char(j, j + 1));
            proof {
                let tl = tail_from(s@, j as int);
                assert(s@.subrange(j as int, j as int + 1) =~= seq![s@[j as int]]);
                assert(acc@ =~= acc0.push(s@[j as int]));
                assert(tl.subrange(1, tl.len() as int) =~= tail_from(s@, j as int + 1));
            }
            j += 1;
        }
    }
}

} // verus!

