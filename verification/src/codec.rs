//! The entity codec's wire primitives: a small JSON-style format, written
//! and parsed character by character.  Every encoder has a spec-level
//! counterpart, every parser mirrors a spec-level parser, and round-trip
//! lemmas show that parsing what was encoded gives the value back.
use vstd::prelude::*;
use vstd::string::*;

verus! {

// ---------------------------------------------------------------------------
// Decimal numbers
// ---------------------------------------------------------------------------
pub open spec fn is_digit(c: char) -> bool {
    '0' <= c && c <= '9'
}

pub open spec fn digit_val(c: char) -> int {
    c as u32 - 48
}

pub open spec fn digit_char(d: int) -> char {
    if d == 0 {
        '0'
    } else if d == 1 {
        '1'
    } else if d == 2 {
        '2'
    } else if d == 3 {
        '3'
    } else if d == 4 {
        '4'
    } else if d == 5 {
        '5'
    } else if d == 6 {
        '6'
    } else if d == 7 {
        '7'
    } else if d == 8 {
        '8'
    } else {
        '9'
    }
}

/// The canonical decimal digits of `n`, most significant first.
pub open spec fn enc_u64(n: nat) -> Seq<char>
    decreases n,
{
    if n < 10 {
        seq![digit_char(n as int)]
    } else {
        enc_u64(n / 10).push(digit_char((n % 10) as int))
    }
}

pub proof fn lemma_enc_u64_digits(n: nat)
    ensures
        enc_u64(n).len() >= 1,
        forall|i: int| 0 <= i < enc_u64(n).len() ==> is_digit(#[trigger] enc_u64(n)[i]),
        forall|i: int|
            0 <= i < enc_u64(n).len() ==> digit_val(#[trigger] enc_u64(n)[i]) < 10,
    decreases n,
{
    if n >= 10 {
        lemma_enc_u64_digits(n / 10);
    }
}

/// The value of a digit string, most significant first.
pub open spec fn val_of_digits(s: Seq<char>) -> int
    decreases s.len(),
{
    if s.len() == 0 {
        0
    } else {
        val_of_digits(s.drop_last()) * 10 + digit_val(s.last())
    }
}

pub proof fn lemma_digit_char_val(d: int)
    requires
        0 <= d <= 9,
    ensures
        digit_val(digit_char(d)) == d,
        is_digit(digit_char(d)),
{
    assert(digit_val(digit_char(d)) == d && is_digit(digit_char(d)));
}

pub proof fn lemma_enc_u64_val(n: nat)
    ensures
        val_of_digits(enc_u64(n)) == n,
    decreases n,
{
    if n < 10 {
        lemma_digit_char_val(n as int);
        assert(enc_u64(n) == seq![digit_char(n as int)]);
        assert(enc_u64(n).last() == digit_char(n as int));
        assert(enc_u64(n).drop_last() =~= Seq::<char>::empty());
        assert(val_of_digits(Seq::<char>::empty()) == 0);
        assert(val_of_digits(enc_u64(n)) == 0 * 10 + digit_val(digit_char(n as int)));
    } else {
        lemma_enc_u64_val(n / 10);
        lemma_digit_char_val((n % 10) as int);
        assert(enc_u64(n) == enc_u64(n / 10).push(digit_char((n % 10) as int)));
        assert(enc_u64(n).last() == digit_char((n % 10) as int));
        assert(enc_u64(n).drop_last() =~= enc_u64(n / 10));
        assert(val_of_digits(enc_u64(n)) == val_of_digits(enc_u64(n / 10)) * 10 + digit_val(
            digit_char((n % 10) as int),
        ));
        assert(val_of_digits(enc_u64(n)) == (n / 10) * 10 + (n % 10));
        assert((n / 10) * 10 + (n % 10) == n) by (nonlinear_arith);
    }
}

/// First index at or after `i` that does not hold a digit.
pub open spec fn digit_run_end(s: Seq<char>, i: int) -> int
    decreases s.len() - i,
{
    if i < 0 || i >= s.len() {
        i
    } else if is_digit(s[i]) {
        digit_run_end(s, i + 1)
    } else {
        i
    }
}

pub proof fn lemma_digit_run_end(s: Seq<char>, i: int, j: int)
    requires
        0 <= i <= j <= s.len(),
        forall|k: int| i <= k < j ==> is_digit(#[trigger] s[k]),
        j == s.len() || !is_digit(s[j]),
    ensures
        digit_run_end(s, i) == j,
    decreases j - i,
{
    if i < j {
        lemma_digit_run_end(s, i + 1, j);
    }
}

pub proof fn lemma_digit_run_end_bounds(s: Seq<char>, i: int)
    requires
        0 <= i <= s.len(),
    ensures
        i <= digit_run_end(s, i) <= s.len(),
        forall|k: int| i <= k < digit_run_end(s, i) ==> is_digit(#[trigger] s[k]),
        digit_run_end(s, i) == s.len() || !is_digit(s[digit_run_end(s, i)]),
    decreases s.len() - i,
{
    if i < s.len() && is_digit(s[i]) {
        lemma_digit_run_end_bounds(s, i + 1);
    }
}

/// Parse a run of digits as an unsigned number; fails when there is no
/// digit at `i` or the value does not fit in a `u64`.
pub open spec fn sp_parse_u64(s: Seq<char>, i: int) -> Option<(int, int)> {
    let e = digit_run_end(s, i);
    if e == i {
        None
    } else if val_of_digits(s.subrange(i, e)) > u64::MAX {
        None
    } else {
        Some((val_of_digits(s.subrange(i, e)), e))
    }
}

/// Parsing the canonical digits of `n` (followed by nothing or a
/// non-digit) yields `n` and stops right after them.
pub proof fn lemma_parse_enc_u64(s: Seq<char>, i: int, n: nat)
    requires
        0 <= i,
        i + enc_u64(n).len() <= s.len(),
        s.subrange(i, i + enc_u64(n).len()) == enc_u64(n),
        i + enc_u64(n).len() == s.len() || !is_digit(s[i + enc_u64(n).len()]),
        n <= u64::MAX,
    ensures
        sp_parse_u64(s, i) == Some((n as int, i + enc_u64(n).len())),
{
    let e = i + enc_u64(n).len();
    lemma_enc_u64_digits(n);
    assert forall|k: int| i <= k < e implies is_digit(#[trigger] s[k]) by {
        assert(s[k] == enc_u64(n)[k - i]);
    }
    lemma_digit_run_end(s, i, e);
    lemma_enc_u64_val(n);
}

/// The character for one decimal digit.
pub fn digit_to_char(d: u8) -> (c: char)
    requires
        d < 10,
    ensures
        c == digit_char(d as int),
{
    match d {
        0 => '0',
        1 => '1',
        2 => '2',
        3 => '3',
        4 => '4',
        5 => '5',
        6 => '6',
        7 => '7',
        8 => '8',
        _ => '9',
    }
}

/// Write the canonical decimal digits of `n`.
pub fn write_u64(out: &mut Vec<char>, n: u64)
    ensures
        final (out)@ == old(out)@ + enc_u64(n as nat),
    decreases n,
{
    if n < 10 {
        let c = digit_to_char(n as u8);
        out.push(c);
        assert(final (out)@ =~= old(out)@ + enc_u64(n as nat));
    } else {
        write_u64(out, n / 10);
        let c = digit_to_char((n % 10) as u8);
        out.push(c);
        assert(final (out)@ =~= old(out)@ + enc_u64(n as nat));
    }
}

/// Parse a digit run as a `u64`, exactly as [`sp_parse_u64`] does.
pub fn parse_u64(s: &Vec<char>, i: usize) -> (r: Option<(u64, usize)>)
    requires
        i <= s@.len(),
    ensures
        (r matches Some(p) ==> sp_parse_u64(s@, i as int) == Some((p.0 as int, p.1 as int))
            && i < p.1 <= s@.len()),
        r is None ==> sp_parse_u64(s@, i as int) is None,
{
    proof {
        lemma_digit_run_end_bounds(s@, i as int);
    }
    let ghost e = digit_run_end(s@, i as int);
    let mut j: usize = i;
    let mut acc: u128 = 0;
    let mut over: bool = false;
    while j < s.len() && s[j] >= '0' && s[j] <= '9'
        invariant
            i <= j <= s@.len(),
            e == digit_run_end(s@, i as int),
            i <= e <= s@.len(),
            forall|k: int| i <= k < e ==> is_digit(#[trigger] s@[k]),
            e == s@.len() || !is_digit(s@[e as int]),
            j <= e,
            j < e ==> is_digit(s@[j as int]),
            !over ==> acc == val_of_digits(s@.subrange(i as int, j as int)) && acc
                <= u64::MAX,
            over ==> val_of_digits(s@.subrange(i as int, j as int)) > u64::MAX,
        decreases s@.len() - j,
    {
        let d: u8 = (s[j] as u8) - 48;
        proof {
            assert(is_digit(s@[j as int]));
            assert(s@.subrange(i as int, j + 1 as int).drop_last() =~= s@.subrange(
                i as int,
                j as int,
            ));
            assert(s@.subrange(i as int, j + 1 as int).last() == s@[j as int]);
        }
        if !over {
            let next: u128 = acc * 10 + (d as u128);
            if next > u64::MAX as u128 {
                over = true;
                proof {
                    assert(val_of_digits(s@.subrange(i as int, j + 1 as int)) == acc * 10
                        + digit_val(s@[j as int]));
                }
            } else {
                acc = next;
            }
        } else {
            proof {
                let prev = val_of_digits(s@.subrange(i as int, j as int));
                assert(prev > u64::MAX);
                assert(digit_val(s@[j as int]) >= 0);
                assert(val_of_digits(s@.subrange(i as int, j + 1 as int)) == prev * 10
                    + digit_val(s@[j as int]));
                assert(prev * 10 >= prev) by (nonlinear_arith)
                    requires
                        prev > 0,
                ;
            }
        }
        j = j + 1;
        proof {
            if j < e {
                assert(is_digit(s@[j as int]));
            }
        }
    }
    proof {
        if j < s@.len() {
            assert(!is_digit(s@[j as int]));
        }
        assert(j == e) by {
            if j < e {
                assert(is_digit(s@[j as int]));
            }
        }
    }
    if j == i {
        None
    } else if over {
        None
    } else {
        Some((acc as u64, j))
    }
}

// ---------------------------------------------------------------------------
// Signed numbers
// ---------------------------------------------------------------------------
/// Canonical decimal form of a signed number: a minus sign, if negative,
/// then the digits of the magnitude.
pub open spec fn enc_i64(v: int) -> Seq<char> {
    if v < 0 {
        seq!['-'] + enc_u64((-v) as nat)
    } else {
        enc_u64(v as nat)
    }
}

/// Parse an optionally signed decimal as an `i64`.
pub open spec fn sp_parse_i64(s: Seq<char>, i: int) -> Option<(int, int)> {
    if 0 <= i < s.len() && s[i] == '-' {
        match sp_parse_u64(s, i + 1) {
            Some((n, j)) => if n <= -(i64::MIN as int) {
                Some((-n, j))
            } else {
                None
            },
            None => None,
        }
    } else {
        match sp_parse_u64(s, i) {
            Some((n, j)) => if n <= i64::MAX {
                Some((n, j))
            } else {
                None
            },
            None => None,
        }
    }
}

pub proof fn lemma_parse_enc_i64(s: Seq<char>, i: int, v: int)
    requires
        0 <= i,
        i + enc_i64(v).len() <= s.len(),
        s.subrange(i, i + enc_i64(v).len()) == enc_i64(v),
        i + enc_i64(v).len() == s.len() || !is_digit(s[i + enc_i64(v).len()]),
        i64::MIN <= v <= i64::MAX,
    ensures
        sp_parse_i64(s, i) == Some((v, i + enc_i64(v).len())),
{
    if v < 0 {
        let m = (-v) as nat;
        let l = enc_i64(v).len() as int;
        assert(enc_i64(v) == seq!['-'] + enc_u64(m));
        assert(s[i] == s.subrange(i, i + l)[0]);
        assert(s[i] == '-');
        assert forall|k: int| 0 <= k < enc_u64(m).len() implies s[i + 1 + k] == enc_u64(m)[k] by {
            assert(s[i + 1 + k] == s.subrange(i, i + l)[k + 1]);
            assert(enc_i64(v)[k + 1] == enc_u64(m)[k]);
        }
        assert(s.subrange(i + 1, i + 1 + enc_u64(m).len() as int) =~= enc_u64(m));
        lemma_parse_enc_u64(s, i + 1, m);
        lemma_enc_u64_digits(m);
    } else {
        assert(s.subrange(i, i + enc_u64(v as nat).len() as int) =~= enc_u64(v as nat));
        lemma_parse_enc_u64(s, i, v as nat);
        lemma_enc_u64_digits(v as nat);
        assert(enc_u64(v as nat)[0] != '-');
        assert(s[i] != '-');
    }
}

/// Write the canonical decimal form of `v`.
pub fn write_i64(out: &mut Vec<char>, v: i64)
    ensures
        final (out)@ == old(out)@ + enc_i64(v as int),
{
    if v < 0 {
        out.push('-');
        let m: u64 = (-(v as i128)) as u64;
        write_u64(out, m);
        assert(final (out)@ =~= old(out)@ + enc_i64(v as int));
    } else {
        write_u64(out, v as u64);
    }
}

/// Parse an optionally signed decimal as an `i64`, as [`sp_parse_i64`].
pub fn parse_i64(s: &Vec<char>, i: usize) -> (r: Option<(i64, usize)>)
    requires
        i <= s@.len(),
    ensures
        (r matches Some(p) ==> sp_parse_i64(s@, i as int) == Some((p.0 as int, p.1 as int))
            && i < p.1 <= s@.len()),
        r is None ==> sp_parse_i64(s@, i as int) is None,
{
    if i < s.len() && s[i] == '-' {
        match parse_u64(s, i + 1) {
            Some((n, j)) => {
                if n <= 9223372036854775808u64 {
                    let v: i64 = (-(n as i128)) as i64;
                    Some((v, j))
                } else {
                    None
                }
            },
            None => None,
        }
    } else {
        match parse_u64(s, i) {
            Some((n, j)) => {
                if n <= i64::MAX as u64 {
                    Some((n as i64, j))
                } else {
                    None
                }
            },
            None => None,
        }
    }
}

// ---------------------------------------------------------------------------
// Quoted strings
// ---------------------------------------------------------------------------
/// The wire form of one character inside a quoted string: quote, backslash
/// and the common control characters are escaped, everything else is
/// written as itself.
pub open spec fn esc_char(c: char) -> Seq<char> {
    if c == '"' {
        seq!['\\', '"']
    } else if c == '\\' {
        seq!['\\', '\\']
    } else if c == '\n' {
        seq!['\\', 'n']
    } else if c == '\r' {
        seq!['\\', 'r']
    } else if c == '\t' {
        seq!['\\', 't']
    } else {
        seq![c]
    }
}

/// The escaped body of a quoted string.
pub open spec fn esc_str(s: Seq<char>) -> Seq<char>
    decreases s.len(),
{
    if s.len() == 0 {
        Seq::empty()
    } else {
        esc_char(s[0]) + esc_str(s.drop_first())
    }
}

/// A chunk of a longer sequence that is a concatenation splits into its
/// two parts.
pub proof fn lemma_subat_split(s: Seq<char>, i: int, x: Seq<char>, y: Seq<char>)
    requires
        0 <= i,
        i + x.len() + y.len() <= s.len(),
        s.subrange(i, i + x.len() + y.len()) == x + y,
    ensures
        s.subrange(i, i + x.len()) == x,
        s.subrange(i + x.len(), i + x.len() + y.len()) == y,
{
    let w = i + x.len() + y.len();
    assert forall|k: int| 0 <= k < x.len() implies s.subrange(i, i + x.len() as int)[k]
        == x[k] by {
        assert(s.subrange(i, i + x.len() as int)[k] == s[i + k]);
        assert(s[i + k] == s.subrange(i, w)[k]);
        assert((x + y)[k] == x[k]);
    }
    assert(s.subrange(i, i + x.len() as int) =~= x);
    assert forall|k: int| 0 <= k < y.len() implies s.subrange(i + x.len(), w)[k] == y[k] by {
        assert(s.subrange(i + x.len(), w)[k] == s[i + x.len() + k]);
        assert(s[i + (x.len() + k)] == s.subrange(i, w)[x.len() + k]);
        assert((x + y)[x.len() + k] == y[k]);
    }
    assert(s.subrange(i + x.len(), w) =~= y);
}

/// One character of a chunk known to sit at `i`.
pub proof fn lemma_subat_index(s: Seq<char>, i: int, x: Seq<char>, k: int)
    requires
        0 <= i,
        i + x.len() <= s.len(),
        s.subrange(i, i + x.len()) == x,
        0 <= k < x.len(),
    ensures
        s[i + k] == x[k],
{
    assert(s.subrange(i, i + x.len() as int)[k] == s[i + k]);
}

pub proof fn lemma_esc_str_append(a: Seq<char>, c: char)
    ensures
        esc_str(a.push(c)) == esc_str(a) + esc_char(c),
    decreases a.len(),
{
    if a.len() == 0 {
        assert(a.push(c)[0] == c);
        assert(a.push(c).drop_first() =~= Seq::<char>::empty());
        assert(esc_str(a.push(c)) == esc_char(c) + esc_str(Seq::<char>::empty()));
        assert(esc_char(c) + Seq::<char>::empty() =~= Seq::<char>::empty() + esc_char(c));
    } else {
        lemma_esc_str_append(a.drop_first(), c);
        assert(a.push(c).drop_first() =~= a.drop_first().push(c));
        assert(a.push(c)[0] == a[0]);
        assert(esc_str(a.push(c)) == esc_char(a[0]) + esc_str(a.drop_first().push(c)));
        assert(esc_char(a[0]) + (esc_str(a.drop_first()) + esc_char(c)) =~= (esc_char(a[0])
            + esc_str(a.drop_first())) + esc_char(c));
    }
}

/// A quoted, escaped string.
pub open spec fn enc_str(s: Seq<char>) -> Seq<char> {
    seq!['"'] + esc_str(s) + seq!['"']
}

/// What an escape code stands for.
pub open spec fn unesc_char(c: char) -> Option<char> {
    if c == '"' {
        Some('"')
    } else if c == '\\' {
        Some('\\')
    } else if c == 'n' {
        Some('\n')
    } else if c == 'r' {
        Some('\r')
    } else if c == 't' {
        Some('\t')
    } else {
        None
    }
}

/// Parse the body of a quoted string, from just after the opening quote
/// to just after the closing one.
pub open spec fn sp_parse_str_body(s: Seq<char>, i: int) -> Option<(Seq<char>, int)>
    decreases s.len() - i,
{
    if i < 0 || i >= s.len() {
        None
    } else if s[i] == '"' {
        Some((Seq::empty(), i + 1))
    } else if s[i] == '\\' {
        if i + 1 >= s.len() {
            None
        } else {
            match unesc_char(s[i + 1]) {
                Some(c) => match sp_parse_str_body(s, i + 2) {
                    Some((t, j)) => Some((seq![c] + t, j)),
                    None => None,
                },
                None => None,
            }
        }
    } else {
        match sp_parse_str_body(s, i + 1) {
            Some((t, j)) => Some((seq![s[i]] + t, j)),
            None => None,
        }
    }
}

/// Parse a quoted string, opening quote included.
pub open spec fn sp_parse_str(s: Seq<char>, i: int) -> Option<(Seq<char>, int)> {
    if 0 <= i < s.len() && s[i] == '"' {
        sp_parse_str_body(s, i + 1)
    } else {
        None
    }
}

proof fn lemma_parse_body_esc(s: Seq<char>, i: int, v: Seq<char>)
    requires
        0 <= i,
        i + esc_str(v).len() + 1 <= s.len(),
        s.subrange(i, i + esc_str(v).len()) == esc_str(v),
        s[i + esc_str(v).len()] == '"',
    ensures
        sp_parse_str_body(s, i) == Some((v, i + esc_str(v).len() + 1)),
    decreases v.len(),
{
    if v.len() == 0 {
        assert(esc_str(v).len() == 0);
        assert(s[i] == '"');
    } else {
        let c = v[0];
        let e = esc_char(c);
        let tail = v.drop_first();
        assert(esc_str(v) == e + esc_str(tail));
        lemma_subat_split(s, i, e, esc_str(tail));
        lemma_parse_body_esc(s, i + e.len() as int, tail);
        if c == '"' || c == '\\' || c == '\n' || c == '\r' || c == '\t' {
            assert(e.len() == 2);
            lemma_subat_index(s, i, e, 0);
            lemma_subat_index(s, i, e, 1);
            assert(s[i] == '\\');
            assert(unesc_char(s[i + 1]) == Some(c));
            assert(seq![c] + tail =~= v);
        } else {
            assert(e.len() == 1);
            lemma_subat_index(s, i, e, 0);
            assert(s[i] == c);
            assert(s[i] != '"' && s[i] != '\\');
            assert(seq![c] + tail =~= v);
        }
    }
}

/// Parsing an encoded string (at its opening quote) yields the original
/// characters and stops right after the closing quote.
pub proof fn lemma_parse_enc_str(s: Seq<char>, i: int, v: Seq<char>)
    requires
        0 <= i,
        i + enc_str(v).len() <= s.len(),
        s.subrange(i, i + enc_str(v).len()) == enc_str(v),
    ensures
        sp_parse_str(s, i) == Some((v, i + enc_str(v).len())),
{
    let q = seq!['"'];
    let body = esc_str(v);
    assert(enc_str(v) =~= q + (body + q));
    lemma_subat_split(s, i, q, body + q);
    lemma_subat_index(s, i, q, 0);
    assert(s[i] == '"');
    lemma_subat_split(s, i + 1, body, q);
    lemma_subat_index(s, i + 1 + body.len(), q, 0);
    assert(s[i + 1 + body.len()] == '"');
    lemma_parse_body_esc(s, i + 1, v);
}

/// Write a string in its quoted, escaped wire form.
pub fn write_str_escaped(out: &mut Vec<char>, s: &str)
    ensures
        final (out)@ == old(out)@ + enc_str(s@),
{
    out.push('"');
    let n = s.unicode_len();
    let mut i: usize = 0;
    while i < n
        invariant
            n == s@.len(),
            i <= n,
            out@ == old(out)@ + seq!['"'] + esc_str(s@.subrange(0, i as int)),
        decreases n - i,
    {
        let c = s.get_char(i);
        if c == '"' {
            out.push('\\');
            out.push('"');
        } else if c == '\\' {
            out.push('\\');
            out.push('\\');
        } else if c == '\n' {
            out.push('\\');
            out.push('n');
        } else if c == '\r' {
            out.push('\\');
            out.push('r');
        } else if c == '\t' {
            out.push('\\');
            out.push('t');
        } else {
            out.push(c);
        }
        proof {
            lemma_esc_str_append(s@.subrange(0, i as int), s@[i as int]);
            assert(s@.subrange(0, i as int).push(s@[i as int]) =~= s@.subrange(0, i + 1 as int));
            assert(out@ =~= old(out)@ + seq!['"'] + esc_str(s@.subrange(0, i + 1 as int)));
        }
        i = i + 1;
    }
    out.push('"');
    proof {
        assert(s@.subrange(0, n as int) =~= s@);
        assert(out@ =~= old(out)@ + enc_str(s@));
    }
}

/// Parse a quoted string, exactly as [`sp_parse_str`] does.
pub fn parse_str(s: &Vec<char>, i: usize) -> (r: Option<(Vec<char>, usize)>)
    requires
        i <= s@.len(),
    ensures
        (r matches Some(p) ==> sp_parse_str(s@, i as int) == Some((p.0@, p.1 as int)) && i < p.1
            <= s@.len()),
        r is None ==> sp_parse_str(s@, i as int) is None,
{
    if i < s.len() && s[i] == '"' {
        parse_str_body(s, i + 1)
    } else {
        None
    }
}

fn parse_str_body(s: &Vec<char>, i: usize) -> (r: Option<(Vec<char>, usize)>)
    requires
        i <= s@.len(),
    ensures
        (r matches Some(p) ==> sp_parse_str_body(s@, i as int) == Some((p.0@, p.1 as int)) && i
            < p.1 <= s@.len()),
        r is None ==> sp_parse_str_body(s@, i as int) is None,
    decreases s@.len() - i,
{
    if i >= s.len() {
        return None;
    }
    let c = s[i];
    if c == '"' {
        let v: Vec<char> = Vec::new();
        assert(v@ =~= Seq::<char>::empty());
        return Some((v, i + 1));
    }
    if c == '\\' {
        if i + 1 >= s.len() {
            return None;
        }
        let code = s[i + 1];
        let unescaped: Option<char> = if code == '"' {
            Some('"')
        } else if code == '\\' {
            Some('\\')
        } else if code == 'n' {
            Some('\n')
        } else if code == 'r' {
            Some('\r')
        } else if code == 't' {
            Some('\t')
        } else {
            None
        };
        match unescaped {
            Some(u) => {
                match parse_str_body(s, i + 2) {
                    Some((mut t, j)) => {
                        let ghost t0 = t@;
                        t.insert(0, u);
                        assert(t@ =~= seq![u] + t0);
                        Some((t, j))
                    },
                    None => None,
                }
            },
            None => None,
        }
    } else {
        match parse_str_body(s, i + 1) {
            Some((mut t, j)) => {
                let ghost t0 = t@;
                t.insert(0, c);
                assert(t@ =~= seq![c] + t0);
                Some((t, j))
            },
            None => None,
        }
    }
}

// ---------------------------------------------------------------------------
// Fixed literals and prefixed fields
// ---------------------------------------------------------------------------
/// Expect the exact characters `l` at `i`; succeed with the index after.
pub open spec fn sp_lit(s: Seq<char>, i: int, l: Seq<char>) -> Option<int> {
    if 0 <= i && i + l.len() <= s.len() && s.subrange(i, i + l.len()) == l {
        Some(i + l.len())
    } else {
        None
    }
}

/// Match a fixed literal, exactly as [`sp_lit`] does.
pub fn expect_lit(s: &Vec<char>, i: usize, lit: &str) -> (r: Option<usize>)
    requires
        i <= s@.len(),
    ensures
        (r matches Some(j) ==> sp_lit(s@, i as int, lit@) == Some(j as int) && i <= j
            <= s@.len()),
        r is None ==> sp_lit(s@, i as int, lit@) is None,
{
    let n = lit.unicode_len();
    if n > s.len() - i {
        return None;
    }
    let mut k: usize = 0;
    while k < n
        invariant
            i + n <= s@.len(),
            s@.len() <= usize::MAX,
            n == lit@.len(),
            k <= n,
            forall|t: int| 0 <= t < k ==> s@[i + t] == lit@[t],
        decreases n - k,
    {
        if s[i + k] != lit.get_char(k) {
            proof {
                assert(s@.subrange(i as int, i + n as int)[k as int] == s@[i + k]);
            }
            return None;
        }
        k = k + 1;
    }
    proof {
        assert(s@.subrange(i as int, i + n as int) =~= lit@);
    }
    Some(i + n)
}

/// A fixed prefix (separators and a field name) followed by a number.
pub open spec fn sp_pfx_u64(s: Seq<char>, i: int, pre: Seq<char>) -> Option<(int, int)> {
    match sp_lit(s, i, pre) {
        Some(j) => sp_parse_u64(s, j),
        None => None,
    }
}

pub open spec fn sp_pfx_i64(s: Seq<char>, i: int, pre: Seq<char>) -> Option<(int, int)> {
    match sp_lit(s, i, pre) {
        Some(j) => sp_parse_i64(s, j),
        None => None,
    }
}

pub open spec fn sp_pfx_str(s: Seq<char>, i: int, pre: Seq<char>) -> Option<(Seq<char>, int)> {
    match sp_lit(s, i, pre) {
        Some(j) => sp_parse_str(s, j),
        None => None,
    }
}

/// A fixed prefix followed by `null` or a number.
pub open spec fn sp_pfx_opt_u64(s: Seq<char>, i: int, pre: Seq<char>) -> Option<
    (Option<int>, int),
> {
    match sp_lit(s, i, pre) {
        Some(j) => match sp_lit(s, j, "null"@) {
            Some(k) => Some((None, k)),
            None => match sp_parse_u64(s, j) {
                Some((n, k)) => Some((Some(n), k)),
                None => None,
            },
        },
        None => None,
    }
}

/// A fixed prefix followed by `null` or a quoted string.
pub open spec fn sp_pfx_opt_str(s: Seq<char>, i: int, pre: Seq<char>) -> Option<
    (Option<Seq<char>>, int),
> {
    match sp_lit(s, i, pre) {
        Some(j) => match sp_lit(s, j, "null"@) {
            Some(k) => Some((None, k)),
            None => match sp_parse_str(s, j) {
                Some((v, k)) => Some((Some(v), k)),
                None => None,
            },
        },
        None => None,
    }
}

/// An optional machine number as the spec-level option the parsers use.
pub open spec fn opt_u64_int(o: Option<u64>) -> Option<int> {
    match o {
        Some(n) => Some(n as int),
        None => None,
    }
}

/// A parsed optional number narrowed back to the machine type.
pub open spec fn opt_int_u64(o: Option<int>) -> Option<u64> {
    match o {
        Some(n) => Some(n as u64),
        None => None,
    }
}

/// Wire form of an optional number.
pub open spec fn enc_opt_u64(v: Option<int>) -> Seq<char> {
    match v {
        Some(n) => enc_u64(n as nat),
        None => "null"@,
    }
}

/// Wire form of an optional string.
pub open spec fn enc_opt_str(v: Option<Seq<char>>) -> Seq<char> {
    match v {
        Some(t) => enc_str(t),
        None => "null"@,
    }
}

pub proof fn lemma_pfx_u64(s: Seq<char>, i: int, pre: Seq<char>, n: nat)
    requires
        0 <= i,
        i + pre.len() + enc_u64(n).len() <= s.len(),
        s.subrange(i, i + pre.len() + enc_u64(n).len()) == pre + enc_u64(n),
        i + pre.len() + enc_u64(n).len() == s.len() || !is_digit(
            s[i + pre.len() + enc_u64(n).len()],
        ),
        n <= u64::MAX,
    ensures
        sp_pfx_u64(s, i, pre) == Some((n as int, i + pre.len() + enc_u64(n).len())),
{
    lemma_subat_split(s, i, pre, enc_u64(n));
    lemma_parse_enc_u64(s, i + pre.len() as int, n);
}

pub proof fn lemma_pfx_i64(s: Seq<char>, i: int, pre: Seq<char>, v: int)
    requires
        0 <= i,
        i + pre.len() + enc_i64(v).len() <= s.len(),
        s.subrange(i, i + pre.len() + enc_i64(v).len()) == pre + enc_i64(v),
        i + pre.len() + enc_i64(v).len() == s.len() || !is_digit(
            s[i + pre.len() + enc_i64(v).len()],
        ),
        i64::MIN <= v <= i64::MAX,
    ensures
        sp_pfx_i64(s, i, pre) == Some((v, i + pre.len() + enc_i64(v).len())),
{
    lemma_subat_split(s, i, pre, enc_i64(v));
    lemma_parse_enc_i64(s, i + pre.len() as int, v);
}

pub proof fn lemma_pfx_str(s: Seq<char>, i: int, pre: Seq<char>, v: Seq<char>)
    requires
        0 <= i,
        i + pre.len() + enc_str(v).len() <= s.len(),
        s.subrange(i, i + pre.len() + enc_str(v).len()) == pre + enc_str(v),
    ensures
        sp_pfx_str(s, i, pre) == Some((v, i + pre.len() + enc_str(v).len())),
{
    lemma_subat_split(s, i, pre, enc_str(v));
    lemma_parse_enc_str(s, i + pre.len() as int, v);
}

pub proof fn lemma_pfx_opt_u64(s: Seq<char>, i: int, pre: Seq<char>, v: Option<int>)
    requires
        0 <= i,
        i + pre.len() + enc_opt_u64(v).len() <= s.len(),
        s.subrange(i, i + pre.len() + enc_opt_u64(v).len()) == pre + enc_opt_u64(v),
        i + pre.len() + enc_opt_u64(v).len() == s.len() || !is_digit(
            s[i + pre.len() + enc_opt_u64(v).len()],
        ),
        v matches Some(n) ==> 0 <= n <= u64::MAX,
    ensures
        sp_pfx_opt_u64(s, i, pre) == Some((v, i + pre.len() + enc_opt_u64(v).len())),
{
    reveal_strlit("null");
    lemma_subat_split(s, i, pre, enc_opt_u64(v));
    let j = i + pre.len() as int;
    match v {
        None => {
            assert(sp_lit(s, j, "null"@) == Some(j + 4));
        },
        Some(n) => {
            lemma_enc_u64_digits(n as nat);
            lemma_subat_index(s, j, enc_u64(n as nat), 0);
            assert(s[j] == enc_u64(n as nat)[0]);
            assert(is_digit(s[j]));
            assert(sp_lit(s, j, "null"@) is None) by {
                if sp_lit(s, j, "null"@) is Some {
                    assert(s.subrange(j, j + 4) == "null"@);
                    assert(s.subrange(j, j + 4)[0] == s[j]);
                    assert(s[j] == 'n');
                }
            }
            lemma_parse_enc_u64(s, j, n as nat);
        },
    }
}

pub proof fn lemma_pfx_opt_str(s: Seq<char>, i: int, pre: Seq<char>, v: Option<Seq<char>>)
    requires
        0 <= i,
        i + pre.len() + enc_opt_str(v).len() <= s.len(),
        s.subrange(i, i + pre.len() + enc_opt_str(v).len()) == pre + enc_opt_str(v),
    ensures
        sp_pfx_opt_str(s, i, pre) == Some((v, i + pre.len() + enc_opt_str(v).len())),
{
    reveal_strlit("null");
    lemma_subat_split(s, i, pre, enc_opt_str(v));
    let j = i + pre.len() as int;
    match v {
        None => {
            assert(sp_lit(s, j, "null"@) == Some(j + 4));
        },
        Some(t) => {
            lemma_subat_index(s, j, enc_str(t), 0);
            assert(enc_str(t)[0] == '"');
            assert(s[j] == '"');
            assert(sp_lit(s, j, "null"@) is None) by {
                if sp_lit(s, j, "null"@) is Some {
                    assert(s.subrange(j, j + 4) == "null"@);
                    assert(s.subrange(j, j + 4)[0] == s[j]);
                    assert(s[j] == 'n');
                }
            }
            lemma_parse_enc_str(s, j, t);
        },
    }
}

/// Match a prefix then parse a number, as [`sp_pfx_u64`].
pub fn pfx_u64(s: &Vec<char>, i: usize, pre: &str) -> (r: Option<(u64, usize)>)
    requires
        i <= s@.len(),
    ensures
        (r matches Some(p) ==> sp_pfx_u64(s@, i as int, pre@) == Some((p.0 as int, p.1 as int))
            && i < p.1 <= s@.len()),
        r is None ==> sp_pfx_u64(s@, i as int, pre@) is None,
{
    match expect_lit(s, i, pre) {
        Some(j) => parse_u64(s, j),
        None => None,
    }
}

/// Match a prefix then parse a signed number, as [`sp_pfx_i64`].
pub fn pfx_i64(s: &Vec<char>, i: usize, pre: &str) -> (r: Option<(i64, usize)>)
    requires
        i <= s@.len(),
    ensures
        (r matches Some(p) ==> sp_pfx_i64(s@, i as int, pre@) == Some((p.0 as int, p.1 as int))
            && i < p.1 <= s@.len()),
        r is None ==> sp_pfx_i64(s@, i as int, pre@) is None,
{
    match expect_lit(s, i, pre) {
        Some(j) => parse_i64(s, j),
        None => None,
    }
}

/// Match a prefix then parse a quoted string, as [`sp_pfx_str`].
pub fn pfx_str(s: &Vec<char>, i: usize, pre: &str) -> (r: Option<(String, usize)>)
    requires
        i <= s@.len(),
    ensures
        (r matches Some(p) ==> sp_pfx_str(s@, i as int, pre@) == Some((p.0@, p.1 as int)) && i
            < p.1 <= s@.len()),
        r is None ==> sp_pfx_str(s@, i as int, pre@) is None,
{
    match expect_lit(s, i, pre) {
        Some(j) => match parse_str(s, j) {
            Some((v, k)) => Some((crate::text::chars_to_string(&v), k)),
            None => None,
        },
        None => None,
    }
}

/// Match a prefix then `null` or a number, as [`sp_pfx_opt_u64`].
pub fn pfx_opt_u64(s: &Vec<char>, i: usize, pre: &str) -> (r: Option<(Option<u64>, usize)>)
    requires
        i <= s@.len(),
    ensures
        (r matches Some(p) ==> ({
            let v: Option<int> = match p.0 {
                Some(n) => Some(n as int),
                None => None,
            };
            sp_pfx_opt_u64(s@, i as int, pre@) == Some((v, p.1 as int)) && i < p.1 <= s@.len()
        })),
        r is None ==> sp_pfx_opt_u64(s@, i as int, pre@) is None,
{
    proof {
        reveal_strlit("null");
    }
    match expect_lit(s, i, pre) {
        Some(j) => match expect_lit(s, j, "null") {
            Some(k) => Some((None, k)),
            None => match parse_u64(s, j) {
                Some((n, k)) => Some((Some(n), k)),
                None => None,
            },
        },
        None => None,
    }
}

/// Match a prefix then `null` or a quoted string, as [`sp_pfx_opt_str`].
pub fn pfx_opt_str(s: &Vec<char>, i: usize, pre: &str) -> (r: Option<(Option<String>, usize)>)
    requires
        i <= s@.len(),
    ensures
        (r matches Some(p) ==> ({
            let v: Option<Seq<char>> = match p.0 {
                Some(t) => Some(t@),
                None => None,
            };
            sp_pfx_opt_str(s@, i as int, pre@) == Some((v, p.1 as int)) && i < p.1 <= s@.len()
        })),
        r is None ==> sp_pfx_opt_str(s@, i as int, pre@) is None,
{
    proof {
        reveal_strlit("null");
    }
    match expect_lit(s, i, pre) {
        Some(j) => match expect_lit(s, j, "null") {
            Some(k) => Some((None, k)),
            None => match parse_str(s, j) {
                Some((v, k)) => Some((Some(crate::text::chars_to_string(&v)), k)),
                None => None,
            },
        },
        None => None,
    }
}

/// The decimal form of a number, as a fresh string.
pub fn u64_to_string(n: u64) -> (r: String)
    ensures
        r@ == enc_u64(n as nat),
{
    let mut v: Vec<char> = Vec::new();
    write_u64(&mut v, n);
    assert(v@ =~= enc_u64(n as nat));
    crate::text::chars_to_string(&v)
}

/// Write an optional number as `null` or its digits.
pub fn write_opt_u64(out: &mut Vec<char>, v: &Option<u64>)
    ensures
        final (out)@ == old(out)@ + enc_opt_u64(
            match v {
                Some(n) => Some(*n as int),
                None => None,
            },
        ),
{
    match v {
        Some(n) => write_u64(out, *n),
        None => crate::text::push_str_chars(out, "null"),
    }
}

/// Write an optional string as `null` or its quoted form.
pub fn write_opt_str(out: &mut Vec<char>, v: &Option<String>)
    ensures
        final (out)@ == old(out)@ + enc_opt_str(
            match v {
                Some(t) => Some(t@),
                None => None,
            },
        ),
{
    match v {
        Some(t) => write_str_escaped(out, t.as_str()),
        None => crate::text::push_str_chars(out, "null"),
    }
}


/// Regroup a flat chain of five prefix/value pairs for step-by-step
/// splitting.
pub proof fn lemma_regroup_pairs5(
    a1: Seq<char>, b1: Seq<char>, a2: Seq<char>, b2: Seq<char>, a3: Seq<char>, b3: Seq<char>,
    a4: Seq<char>, b4: Seq<char>, a5: Seq<char>, b5: Seq<char>,
)
    ensures
        a1 + b1 + a2 + b2 + a3 + b3 + a4 + b4 + a5 + b5 == (a1 + b1) + ((a2 + b2) + ((a3 + b3)
            + ((a4 + b4) + (a5 + b5)))),
{
    assert(a1 + b1 + a2 + b2 + a3 + b3 + a4 + b4 + a5 + b5 =~= (a1 + b1) + ((a2 + b2) + ((a3
        + b3) + ((a4 + b4) + (a5 + b5)))));
}

/// Regroup a flat chain of three prefix/value pairs.
pub proof fn lemma_regroup_pairs3(
    a1: Seq<char>, b1: Seq<char>, a2: Seq<char>, b2: Seq<char>, a3: Seq<char>, b3: Seq<char>,
)
    ensures
        a1 + b1 + a2 + b2 + a3 + b3 == (a1 + b1) + ((a2 + b2) + (a3 + b3)),
{
    assert(a1 + b1 + a2 + b2 + a3 + b3 =~= (a1 + b1) + ((a2 + b2) + (a3 + b3)));
}

/// Regroup a flat chain of three prefix/value pairs and a trailer.
pub proof fn lemma_regroup_pairs3z(
    a1: Seq<char>, b1: Seq<char>, a2: Seq<char>, b2: Seq<char>, a3: Seq<char>, b3: Seq<char>,
    z: Seq<char>,
)
    ensures
        a1 + b1 + a2 + b2 + a3 + b3 + z == (a1 + b1) + ((a2 + b2) + ((a3 + b3) + z)),
{
    assert(a1 + b1 + a2 + b2 + a3 + b3 + z =~= (a1 + b1) + ((a2 + b2) + ((a3 + b3) + z)));
}

/// Regroup a flat chain of four prefix/value pairs and a trailer.
pub proof fn lemma_regroup_pairs4z(
    a1: Seq<char>, b1: Seq<char>, a2: Seq<char>, b2: Seq<char>, a3: Seq<char>, b3: Seq<char>,
    a4: Seq<char>, b4: Seq<char>, z: Seq<char>,
)
    ensures
        a1 + b1 + a2 + b2 + a3 + b3 + a4 + b4 + z == (a1 + b1) + ((a2 + b2) + ((a3 + b3) + ((a4
            + b4) + z))),
{
    assert(a1 + b1 + a2 + b2 + a3 + b3 + a4 + b4 + z =~= (a1 + b1) + ((a2 + b2) + ((a3 + b3) + ((
    a4 + b4) + z))));
}

/// Regroup the flat chain of a record with three numeric fields and four
/// free-standing chunks.
pub proof fn lemma_regroup_record(
    a1: Seq<char>, b1: Seq<char>, a2: Seq<char>, b2: Seq<char>, a3: Seq<char>, b3: Seq<char>,
    c: Seq<char>, d: Seq<char>, e: Seq<char>, f: Seq<char>, g: Seq<char>,
)
    ensures
        a1 + b1 + a2 + b2 + a3 + b3 + c + d + e + f + g == (a1 + b1) + ((a2 + b2) + ((a3 + b3)
            + (c + (d + (e + (f + g)))))),
{
    assert(a1 + b1 + a2 + b2 + a3 + b3 + c + d + e + f + g =~= (a1 + b1) + ((a2 + b2) + ((a3
        + b3) + (c + (d + (e + (f + g)))))));
}

} // verus!


