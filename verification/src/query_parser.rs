//! A deterministic BQL parser:
//!
//! ```text
//! SELECT <entity_type>
//! [WHERE <field> <op> <value> [AND|OR <field> <op> <value>]*]
//! [ORDER BY <field> [ASC|DESC]]
//! [LIMIT <n>]
//! ```

use vstd::prelude::*;
use crate::query::{split_dots, BqlExpr, BqlExprView, BqlQuery, BqlValue, FieldPath, OrderDir, QueryView, ValueView};
use crate::text::{debug_str, decimal, joined, lemma_joined_take, same_text, str_debug};

verus! {

// ─── Characters and words ────────────────────────────────────────────────────

/// Unicode `White_Space`, the property `char::is_whitespace` tests.
pub open spec fn is_ws(c: char) -> bool {
    let u = c as u32;
    ||| 0x09 <= u <= 0x0D
    ||| u == 0x20
    ||| u == 0x85
    ||| u == 0xA0
    ||| u == 0x1680
    ||| 0x2000 <= u <= 0x200A
    ||| u == 0x2028
    ||| u == 0x2029
    ||| u == 0x202F
    ||| u == 0x205F
    ||| u == 0x3000
}

fn ws(c: char) -> (r: bool)
    ensures
        r == is_ws(c),
{
    let u = c as u32;
    (0x09 <= u && u <= 0x0D) || u == 0x20 || u == 0x85 || u == 0xA0 || u == 0x1680 || (0x2000 <= u && u <= 0x200A)
        || u == 0x2028 || u == 0x2029 || u == 0x202F || u == 0x205F || u == 0x3000
}

/// The word being read, if it is not empty.
pub open spec fn flush(cur: Seq<char>) -> Seq<Seq<char>> {
    if cur.len() > 0 {
        seq![cur]
    } else {
        Seq::empty()
    }
}

/// The maximal runs of non-whitespace characters of `s` from position `i`,
/// the first continuing `cur`.
pub open spec fn words_from(s: Seq<char>, i: int, cur: Seq<char>) -> Seq<Seq<char>>
    decreases s.len() - i,
{
    if i >= s.len() {
        flush(cur)
    } else if is_ws(s[i]) {
        flush(cur) + words_from(s, i + 1, Seq::empty())
    } else {
        words_from(s, i + 1, cur.push(s[i]))
    }
}

/// What `str::split_whitespace` yields.
pub open spec fn words(s: Seq<char>) -> Seq<Seq<char>> {
    words_from(s, 0, Seq::empty())
}

/// The texts of a vector of strings.
pub open spec fn texts(v: Seq<String>) -> Seq<Seq<char>> {
    v.map_values(|s: String| s@)
}

/// Split at whitespace.
pub fn split_words(s: &str) -> (r: Vec<String>)
    ensures
        texts(r@) == words(s@),
{
    let n = s.unicode_len();
    let mut out: Vec<String> = Vec::new();
    let mut start: usize = 0;
    let mut i: usize = 0;
    proof {
        assert(s@.subrange(0, 0) =~= Seq::<char>::empty());
        assert(texts(out@) + words(s@) =~= words(s@));
    }
    while i < n
        invariant
            start <= i <= n,
            n == s@.len(),
            texts(out@) + words_from(s@, i as int, s@.subrange(start as int, i as int)) == words(s@),
        decreases n - i,
    {
        let c = s.get_char(i);
        if ws(c) {
            let ghost before = texts(out@);
            if start < i {
                out.push(s.substring_char(start, i).to_owned());
                proof {
                    assert(texts(out@) =~= before + flush(s@.subrange(start as int, i as int)));
                }
            } else {
                proof {
                    assert(texts(out@) =~= before + flush(s@.subrange(start as int, i as int)));
                }
            }
            proof {
                assert(s@.subrange(i + 1, i + 1) =~= Seq::<char>::empty());
                assert(before + (flush(s@.subrange(start as int, i as int)) + words_from(s@, i + 1, Seq::empty()))
                    =~= texts(out@) + words_from(s@, i + 1, Seq::empty()));
            }
            start = i + 1;
        } else {
            proof {
                assert(s@.subrange(start as int, i as int).push(s@[i as int]) =~= s@.subrange(start as int, i + 1));
            }
        }
        i = i + 1;
    }
    let ghost before = texts(out@);
    if start < n {
        out.push(s.substring_char(start, n).to_owned());
    }
    proof {
        assert(texts(out@) =~= before + flush(s@.subrange(start as int, n as int)));
    }
    out
}

/// `s` without its leading double quotes.
pub open spec fn strip_front_quotes(s: Seq<char>) -> Seq<char>
    decreases s.len(),
{
    if s.len() > 0 && s[0] == '"' {
        strip_front_quotes(s.drop_first())
    } else {
        s
    }
}

/// `s` without its trailing double quotes.
pub open spec fn strip_back_quotes(s: Seq<char>) -> Seq<char>
    decreases s.len(),
{
    if s.len() > 0 && s.last() == '"' {
        strip_back_quotes(s.drop_last())
    } else {
        s
    }
}

/// What `str::trim_matches('"')` leaves.
pub open spec fn trim_quotes(s: Seq<char>) -> Seq<char> {
    strip_back_quotes(strip_front_quotes(s))
}

/// `s` with the double quotes at both ends removed.
fn trim_quotes_of(s: &str) -> (r: String)
    ensures
        r@ == trim_quotes(s@),
{
    let n = s.unicode_len();
    let mut i: usize = 0;
    proof {
        assert(s@.subrange(0, n as int) =~= s@);
    }
    while i < n && s.get_char(i) == '"'
        invariant
            i <= n,
            n == s@.len(),
            strip_front_quotes(s@) == strip_front_quotes(s@.subrange(i as int, n as int)),
        decreases n - i,
    {
        proof {
            assert(s@.subrange(i as int, n as int).drop_first() =~= s@.subrange(i + 1, n as int));
        }
        i = i + 1;
    }
    let mut j: usize = n;
    while j > i && s.get_char(j - 1) == '"'
        invariant
            i <= j <= n,
            n == s@.len(),
            strip_front_quotes(s@) == s@.subrange(i as int, n as int),
            trim_quotes(s@) == strip_back_quotes(s@.subrange(i as int, j as int)),
        decreases j,
    {
        proof {
            assert(s@.subrange(i as int, j as int).drop_last() =~= s@.subrange(i as int, j - 1));
        }
        j = j - 1;
    }
    s.substring_char(i, j).to_owned()
}

// ─── Numbers ─────────────────────────────────────────────────────────────────

pub open spec fn is_digit(c: char) -> bool {
    48 <= c as u32 <= 57
}

fn digit_char(c: char) -> (r: bool)
    ensures
        r == is_digit(c),
{
    let u = c as u32;
    48 <= u && u <= 57
}

/// The value of a run of decimal digits.
pub open spec fn digits_value(d: Seq<char>) -> nat
    decreases d.len(),
{
    if d.len() == 0 {
        0
    } else {
        digits_value(d.drop_last()) * 10 + (d.last() as u32 - 48) as nat
    }
}

/// A non-empty run of decimal digits.
pub open spec fn all_digits(d: Seq<char>) -> bool {
    d.len() > 0 && forall|k: int| 0 <= k < d.len() ==> is_digit(#[trigger] d[k])
}

/// What `usize::from_str` gives: an optional `+`, then decimal digits whose
/// value fits.
pub open spec fn spec_parse_usize(s: Seq<char>) -> Option<usize> {
    let body = if s.len() > 1 && s[0] == '+' { s.drop_first() } else { s };
    if all_digits(body) && digits_value(body) <= usize::MAX {
        Some(digits_value(body) as usize)
    } else {
        None
    }
}

/// What `i64::from_str` gives: an optional sign, then decimal digits whose
/// signed value fits.
pub open spec fn spec_parse_i64(s: Seq<char>) -> Option<i64> {
    let neg = s.len() > 1 && s[0] == '-';
    let body = if s.len() > 1 && (s[0] == '+' || s[0] == '-') { s.drop_first() } else { s };
    let v: int = if neg { -digits_value(body) } else { digits_value(body) as int };
    if all_digits(body) && i64::MIN <= v <= i64::MAX {
        Some(v as i64)
    } else {
        None
    }
}

/// The decimal notation of a number is a run of digits worth that number.
proof fn lemma_decimal_digits(n: nat)
    ensures
        all_digits(decimal(n)),
        digits_value(decimal(n)) == n,
    decreases n,
{
    let d = n % 10;
    assert(is_digit(crate::text::digit_char(d)) && (crate::text::digit_char(d) as u32 - 48) as nat == d) by {
        if d == 0 {} else if d == 1 {} else if d == 2 {} else if d == 3 {} else if d == 4 {}
        else if d == 5 {} else if d == 6 {} else if d == 7 {} else if d == 8 {} else {}
    }
    if n >= 10 {
        lemma_decimal_digits(n / 10);
        let s = decimal(n / 10).push(crate::text::digit_char(d));
        assert(s.drop_last() =~= decimal(n / 10));
        assert(s.last() == crate::text::digit_char(d));
        assert(digits_value(s) == digits_value(decimal(n / 10)) * 10 + d);
        assert((n / 10) * 10 + n % 10 == n);
        assert(decimal(n) == s);
        assert(digits_value(decimal(n / 10)) * 10 == (n / 10) * 10);
        assert forall|k: int| 0 <= k < s.len() implies is_digit(#[trigger] s[k]) by {
            if k < s.len() - 1 {
                assert(s[k] == decimal(n / 10)[k]);
            }
        }
    } else {
        assert(decimal(n).drop_last() =~= Seq::<char>::empty());
        assert(d == n);
        assert(decimal(n).last() == crate::text::digit_char(d));
        assert(digits_value(Seq::<char>::empty()) == 0);
        assert(digits_value(decimal(n)) == digits_value(decimal(n).drop_last()) * 10 + d);
    }
}

/// Numbers read back from their decimal notation: a count written in
/// decimal parses as itself, a signed number written in decimal, with a
/// leading `-` for a negative one, parses as itself, and such a token is
/// the integer value it writes.
pub proof fn lemma_decimal_round_trip(n: nat)
    ensures
        n <= usize::MAX ==> spec_parse_usize(decimal(n)) == Some(n as usize),
        n <= i64::MAX ==> spec_parse_i64(decimal(n)) == Some(n as i64),
        n <= i64::MAX ==> spec_parse_value(decimal(n)) == ValueView::Int(n as i64),
        1 <= n <= 0x8000_0000_0000_0000 ==> spec_parse_i64(seq!['-'] + decimal(n)) == Some((-n) as i64),
{
    lemma_decimal_digits(n);
    let t = decimal(n);
    assert(is_digit(t[0]));
    let m = seq!['-'] + t;
    assert(m.drop_first() =~= t);
    assert(t != "null"@ && t != "true"@ && t != "false"@) by {
        reveal_strlit("null");
        reveal_strlit("true");
        reveal_strlit("false");
        assert(!is_digit("null"@[0]) && !is_digit("true"@[0]) && !is_digit("false"@[0]));
    }
}

/// A longer run of digits is worth at least as much as its prefix.
proof fn lemma_digits_prefix(d: Seq<char>, k: int)
    requires
        0 <= k <= d.len(),
    ensures
        digits_value(d.take(k)) <= digits_value(d),
    decreases d.len() - k,
{
    if k < d.len() {
        lemma_digits_prefix(d, k + 1);
        assert(d.take(k + 1).drop_last() =~= d.take(k));
    } else {
        assert(d.take(k) =~= d);
    }
}

/// The value of the digits of `s` from `from`, if they are all digits and the
/// value is at most `bound`.
fn digits_up_to(s: &str, from: usize, bound: u64) -> (r: Option<u64>)
    requires
        from <= s@.len(),
    ensures
        match r {
            Some(v) => all_digits(s@.skip(from as int)) && v == digits_value(s@.skip(from as int)) && v <= bound,
            None => !(all_digits(s@.skip(from as int)) && digits_value(s@.skip(from as int)) <= bound),
        },
{
    let n = s.unicode_len();
    let ghost d = s@.skip(from as int);
    if from >= n {
        return None;
    }
    let mut acc: u64 = 0;
    let mut k: usize = from;
    while k < n
        invariant
            from <= k <= n,
            n == s@.len(),
            d == s@.skip(from as int),
            forall|m: int| 0 <= m < k - from ==> is_digit(#[trigger] d[m]),
            acc == digits_value(d.take(k - from)),
            acc <= bound,
        decreases n - k,
    {
        let c = s.get_char(k);
        proof {
            assert(d[k - from] == c);
            assert(d.take(k - from + 1).drop_last() =~= d.take(k - from));
        }
        if !digit_char(c) {
            return None;
        }
        let digit = (c as u32 - 48) as u64;
        let next = match acc.checked_mul(10) {
            Some(x) => x.checked_add(digit),
            None => None,
        };
        match next {
            Some(v) => {
                if v > bound {
                    proof {
                        lemma_digits_prefix(d, k - from + 1);
                    }
                    return None;
                }
                acc = v;
            },
            None => {
                proof {
                    lemma_digits_prefix(d, k - from + 1);
                }
                return None;
            },
        }
        k = k + 1;
    }
    proof {
        assert(d.take(n - from) =~= d);
    }
    Some(acc)
}

/// `usize::from_str`, accepting what it accepts.
pub fn parse_usize(s: &str) -> (r: Option<usize>)
    ensures
        r == spec_parse_usize(s@),
{
    let n = s.unicode_len();
    let from: usize = if n > 1 && s.get_char(0) == '+' { 1 } else { 0 };
    proof {
        if from == 1 {
            assert(s@.skip(1) =~= s@.drop_first());
        } else {
            assert(s@.skip(0) =~= s@);
        }
    }
    match digits_up_to(s, from, usize::MAX as u64) {
        Some(v) => Some(v as usize),
        None => None,
    }
}

/// What `u16::from_str` gives: an optional `+`, then decimal digits whose
/// value fits.
pub open spec fn spec_parse_u16(s: Seq<char>) -> Option<u16> {
    let body = if s.len() > 1 && s[0] == '+' { s.drop_first() } else { s };
    if all_digits(body) && digits_value(body) <= u16::MAX {
        Some(digits_value(body) as u16)
    } else {
        None
    }
}

/// `u16::from_str`, accepting what it accepts.
pub fn parse_u16(s: &str) -> (r: Option<u16>)
    ensures
        r == spec_parse_u16(s@),
{
    let n = s.unicode_len();
    let from: usize = if n > 1 && s.get_char(0) == '+' { 1 } else { 0 };
    proof {
        if from == 1 {
            assert(s@.skip(1) =~= s@.drop_first());
        } else {
            assert(s@.skip(0) =~= s@);
        }
    }
    match digits_up_to(s, from, 0xffff) {
        Some(v) => Some(v as u16),
        None => None,
    }
}

/// `i64::from_str`, accepting what it accepts.
pub fn parse_i64(s: &str) -> (r: Option<i64>)
    ensures
        r == spec_parse_i64(s@),
{
    let n = s.unicode_len();
    let neg = n > 1 && s.get_char(0) == '-';
    let signed = n > 1 && (s.get_char(0) == '+' || s.get_char(0) == '-');
    let from: usize = if signed { 1 } else { 0 };
    proof {
        if from == 1 {
            assert(s@.skip(1) =~= s@.drop_first());
        } else {
            assert(s@.skip(0) =~= s@);
        }
    }
    let bound: u64 = if neg { 0x8000_0000_0000_0000 } else { 0x7fff_ffff_ffff_ffff };
    match digits_up_to(s, from, bound) {
        Some(v) => {
            if neg {
                if v == 0x8000_0000_0000_0000 {
                    Some(i64::MIN)
                } else {
                    Some(-(v as i64))
                }
            } else {
                Some(v as i64)
            }
        },
        None => None,
    }
}

// ─── Float literals ──────────────────────────────────────────────────────────

/// ASCII letters lowered, everything else kept.
pub open spec fn ascii_lower_char(c: char) -> char {
    if 'A' as u32 <= c as u32 <= 'Z' as u32 { ((c as u32 + 32) as u8) as char } else { c }
}

/// The text with ASCII letters lowered.
pub open spec fn lower_text(s: Seq<char>) -> Seq<char> {
    s.map_values(|c: char| ascii_lower_char(c))
}

/// A run of digits with at most one dot and at least one digit.
pub open spec fn mantissa_ok(m: Seq<char>) -> bool {
    &&& forall|k: int| 0 <= k < m.len() ==> is_digit(#[trigger] m[k]) || m[k] == '.'
    &&& forall|i: int, j: int| 0 <= i < j < m.len() && #[trigger] m[i] == '.' ==> #[trigger] m[j] != '.'
    &&& exists|k: int| 0 <= k < m.len() && is_digit(#[trigger] m[k])
}

/// An optional sign, then at least one digit.
pub open spec fn exponent_ok(x: Seq<char>) -> bool {
    let d = if x.len() > 0 && (x[0] == '+' || x[0] == '-') { x.drop_first() } else { x };
    all_digits(d)
}

/// The float grammar the standard library's float parser documents, on
/// lowercased text:
/// `Sign? ('inf' | 'infinity' | 'nan' | Number)`, where
/// `Number ::= (Digit+ | Digit+ '.' Digit* | Digit* '.' Digit+) ('e' Sign? Digit+)?`.
pub open spec fn float_syntax(s: Seq<char>) -> bool {
    lowered_float_syntax(lower_text(if s.len() > 0 && (s[0] == '+' || s[0] == '-') { s.drop_first() } else { s }))
}

/// The float grammar on lowercased text without its sign.
pub open spec fn lowered_float_syntax(l: Seq<char>) -> bool {
    ||| l == "inf"@
    ||| l == "infinity"@
    ||| l == "nan"@
    ||| mantissa_ok(l)
    ||| exists|k: int| 0 <= k < l.len() && #[trigger] l[k] == 'e' && mantissa_ok(l.take(k)) && exponent_ok(l.skip(k + 1))
}

fn lower_char(c: char) -> (r: char)
    ensures
        r == ascii_lower_char(c),
{
    if 'A' <= c && c <= 'Z' {
        let u: u32 = c as u32 + 32;
        (u as u8) as char
    } else {
        c
    }
}

/// Is `m[from..to]` a mantissa?
fn mantissa_check(m: &Vec<char>, from: usize, to: usize) -> (r: bool)
    requires
        from <= to <= m@.len(),
    ensures
        r == mantissa_ok(m@.subrange(from as int, to as int)),
{
    let ghost sub = m@.subrange(from as int, to as int);
    let mut dots: usize = 0;
    let mut digits: usize = 0;
    let mut k: usize = from;
    while k < to
        invariant
            from <= k <= to <= m@.len(),
            sub == m@.subrange(from as int, to as int),
            forall|i: int| 0 <= i < k - from ==> is_digit(#[trigger] sub[i]) || sub[i] == '.',
            dots <= 1,
            dots == 0 ==> forall|i: int| 0 <= i < k - from ==> #[trigger] sub[i] != '.',
            dots == 1 ==> exists|i: int| 0 <= i < k - from && #[trigger] sub[i] == '.',
            dots == 1 ==> forall|i: int, j: int| 0 <= i < j < k - from && #[trigger] sub[i] == '.' ==> #[trigger] sub[j] != '.',
            digits > 0 <==> exists|i: int| 0 <= i < k - from && is_digit(#[trigger] sub[i]),
            digits <= k - from,
        decreases to - k,
    {
        let c = m[k];
        assert(sub[k - from] == c);
        if c == '.' {
            if dots == 1 {
                proof {
                    let i = choose|i: int| 0 <= i < k - from && #[trigger] sub[i] == '.';
                    assert(sub[i] == '.' && sub[k - from] == '.');
                }
                return false;
            }
            dots = 1;
        } else if digit_char(c) {
            digits = digits + 1;
        } else {
            return false;
        }
        k = k + 1;
    }
    digits > 0
}

/// The text from position `from`, ASCII letters lowered.
fn lowered(s: &str, from: usize) -> (r: Vec<char>)
    requires
        from <= s@.len(),
    ensures
        r@ == lower_text(s@.skip(from as int)),
{
    let n = s.unicode_len();
    let ghost t = s@.skip(from as int);
    let mut l: Vec<char> = Vec::new();
    let mut k: usize = from;
    while k < n
        invariant
            from <= k <= n,
            n == s@.len(),
            t == s@.skip(from as int),
            l@ == t.take(k - from).map_values(|c: char| ascii_lower_char(c)),
        decreases n - k,
    {
        let c = lower_char(s.get_char(k));
        proof {
            assert(t[k - from] == s@[k as int]);
        }
        l.push(c);
        proof {
            assert(l@ =~= t.take(k - from + 1).map_values(|c: char| ascii_lower_char(c)));
        }
        k = k + 1;
    }
    proof {
        assert(t.take(n - from) =~= t);
    }
    assert(l@ =~= lower_text(s@.skip(from as int)));
    l
}

/// Is `l[xs..]` an exponent: an optional sign, then digits?
fn exponent_check(l: &Vec<char>, xs: usize) -> (r: bool)
    requires
        xs <= l@.len(),
    ensures
        r == exponent_ok(l@.skip(xs as int)),
{
    let ghost lv = l@;
    let len = l.len();
    let sign: usize = if xs < len && (l[xs] == '+' || l[xs] == '-') { 1 } else { 0 };
    let mut all = xs + sign < len;
    let mut k: usize = xs + sign;
    while k < len
        invariant
            xs + sign <= k <= len,
            len == lv.len(),
            lv == l@,
            all == (xs + sign < len && forall|i: int| xs + sign <= i < k ==> is_digit(#[trigger] lv[i])),
        decreases len - k,
    {
        let c = l[k];
        assert(lv[k as int] == c);
        if !digit_char(c) {
            all = false;
        }
        k = k + 1;
    }
    proof {
        let x = lv.skip(xs as int);
        let d = if x.len() > 0 && (x[0] == '+' || x[0] == '-') { x.drop_first() } else { x };
        assert(d =~= lv.skip(xs + sign));
        if all {
            assert forall|m: int| 0 <= m < d.len() implies is_digit(#[trigger] d[m]) by {
                assert(d[m] == lv[xs + sign + m]);
            }
        } else if d.len() > 0 {
            let i = choose|i: int| xs + sign <= i < len && !is_digit(#[trigger] lv[i]);
            assert(d[i - xs - sign] == lv[i]);
        }
    }
    all
}

/// A valid split of a float literal can only be at its first `e`: neither
/// the mantissa nor the exponent may hold one.
proof fn lemma_split_at_first_e(lv: Seq<char>, e: int)
    requires
        0 <= e < lv.len(),
        lv[e] == 'e',
        forall|i: int| 0 <= i < e ==> #[trigger] lv[i] != 'e',
    ensures
        forall|j: int| 0 <= j < lv.len() && #[trigger] lv[j] == 'e' && mantissa_ok(lv.take(j)) && exponent_ok(lv.skip(j + 1)) ==> j == e,
{
    assert forall|j: int| 0 <= j < lv.len() && #[trigger] lv[j] == 'e' && mantissa_ok(lv.take(j)) && exponent_ok(lv.skip(j + 1)) implies j == e by {
        if j > e {
            let m = lv.take(j);
            assert(m[e] == 'e');
            assert(!(is_digit(m[e]) || m[e] == '.'));
        }
    }
}

/// Does the standard float parser accept the text?
pub fn float_syntax_of(s: &str) -> (r: bool)
    ensures
        r == float_syntax(s@),
{
    let n = s.unicode_len();
    let from: usize = if n > 0 && (s.get_char(0) == '+' || s.get_char(0) == '-') { 1 } else { 0 };
    let l = lowered(s, from);
    let ghost lv = l@;
    proof {
        if from == 1 {
            assert(s@.skip(1) =~= s@.drop_first());
        } else {
            assert(s@.skip(0) =~= s@);
        }
    }
    let len = l.len();
    proof {
        reveal_strlit("inf");
        reveal_strlit("infinity");
        reveal_strlit("nan");
    }
    if len == 3 && l[0] == 'i' && l[1] == 'n' && l[2] == 'f' {
        assert(lv =~= "inf"@);
        return true;
    }
    if len == 8 && l[0] == 'i' && l[1] == 'n' && l[2] == 'f' && l[3] == 'i' && l[4] == 'n' && l[5] == 'i' && l[6] == 't'
        && l[7] == 'y' {
        assert(lv =~= "infinity"@);
        return true;
    }
    if len == 3 && l[0] == 'n' && l[1] == 'a' && l[2] == 'n' {
        assert(lv =~= "nan"@);
        return true;
    }
    assert(lv != "inf"@ && lv != "infinity"@ && lv != "nan"@);
    assert(lv.subrange(0, len as int) =~= lv);
    if mantissa_check(&l, 0, len) {
        return true;
    }
    let mut e: usize = 0;
    while e < len && l[e] != 'e'
        invariant
            e <= len,
            len == lv.len(),
            lv == l@,
            forall|i: int| 0 <= i < e ==> #[trigger] lv[i] != 'e',
        decreases len - e,
    {
        e = e + 1;
    }
    if e == len {
        return false;
    }
    proof {
        lemma_split_at_first_e(lv, e as int);
    }
    let head = mantissa_check(&l, 0, e);
    assert(lv.subrange(0, e as int) =~= lv.take(e as int));
    let tail = exponent_check(&l, e + 1);
    proof {
        let t = if s@.len() > 0 && (s@[0] == '+' || s@[0] == '-') { s@.drop_first() } else { s@ };
        assert(lv == lower_text(t));
        assert(lv[e as int] == 'e');
        if head && tail {
            assert(0 <= e < lv.len() && lv[e as int] == 'e' && mantissa_ok(lv.take(e as int)) && exponent_ok(lv.skip(e + 1)));
        }
    }
    head && tail
}

// ─── Outside computations ────────────────────────────────────────────────────

/// The text `str::to_uppercase` gives.
pub uninterp spec fn text_upper(s: Seq<char>) -> Seq<char>;

/// The text `str::to_lowercase` gives.
pub uninterp spec fn text_lower(s: Seq<char>) -> Seq<char>;

/// The text `format!("{:?}", ..)` gives for a slice of strings: the
/// `Debug` text of each string, joined by `, `, in brackets.
pub open spec fn debug_list(items: Seq<Seq<char>>) -> Seq<char> {
    "["@ + joined(items.map_values(|t: Seq<char>| str_debug(t))) + "]"@
}

/// Is every character ASCII?
pub open spec fn ascii_text(s: Seq<char>) -> bool {
    forall|k: int| 0 <= k < s.len() ==> (#[trigger] s[k]) as u32 <= 0x7F
}

/// ASCII letters `a`–`z` raised to `A`–`Z`, everything else kept.
pub open spec fn ascii_upper(s: Seq<char>) -> Seq<char> {
    s.map_values(|c: char| if 'a' as u32 <= c as u32 <= 'z' as u32 { (c as u32 - 32) as char } else { c })
}

/// `str::to_uppercase`: the Unicode uppercase mapping of each character
/// (which can lengthen the text). The result depends on the text alone; on
/// ASCII text it raises `a`–`z` to `A`–`Z` and keeps every other character.
#[verifier::external_body]
fn upper(s: &str) -> (r: String)
    ensures
        r@ == text_upper(s@),
        ascii_text(s@) ==> r@ == ascii_upper(s@),
{
    s.to_uppercase()
}

/// `str::to_lowercase`: the Unicode lowercase mapping of each character
/// (which can lengthen the text). The result depends on the text alone; on
/// ASCII text it lowers `A`–`Z` to `a`–`z` and keeps every other character.
#[verifier::external_body]
fn lower(s: &str) -> (r: String)
    ensures
        r@ == text_lower(s@),
        ascii_text(s@) ==> r@ == lower_text(s@),
{
    s.to_lowercase()
}

/// What `str::to_uppercase` gives, spelled out on ASCII text.
pub open spec fn upper_of(s: Seq<char>) -> Seq<char> {
    if ascii_text(s) { ascii_upper(s) } else { text_upper(s) }
}

/// What `str::to_lowercase` gives, spelled out on ASCII text.
pub open spec fn lower_of(s: Seq<char>) -> Seq<char> {
    if ascii_text(s) { lower_text(s) } else { text_lower(s) }
}

/// `Debug` of a slice of strings, as `format!("{:?}", ..)` writes it.
fn debug_tokens(items: &[String]) -> (r: String)
    ensures
        r@ == debug_list(items@.map_values(|s: String| s@)),
{
    let ghost views = items@.map_values(|t: String| t@);
    let ghost texts = views.map_values(|t: Seq<char>| str_debug(t));
    let mut s = String::from_str("[");
    proof {
        reveal_strlit("[");
    }
    let mut k: usize = 0;
    while k < items.len()
        invariant
            k <= items@.len(),
            views == items@.map_values(|t: String| t@),
            texts == views.map_values(|t: Seq<char>| str_debug(t)),
            s@ == "["@ + joined(texts.take(k as int)),
        decreases items@.len() - k,
    {
        proof {
            lemma_joined_take(texts, k as int);
        }
        let ghost before = s@;
        if k > 0 {
            s.append(", ");
        }
        let d = debug_str(items[k].as_str());
        s.append(d.as_str());
        proof {
            assert(texts[k as int] == str_debug(items@[k as int]@));
            if k > 0 {
                assert(s@ =~= "["@ + (joined(texts.take(k as int)) + ", "@ + texts[k as int]));
            } else {
                assert(s@ =~= "["@ + texts[0]);
            }
        }
        k = k + 1;
    }
    s.append("]");
    proof {
        assert(texts.take(items@.len() as int) =~= texts);
        assert(s@ =~= debug_list(views));
    }
    s
}


// ─── Parsing ─────────────────────────────────────────────────────────────────

/// Why a query text is not a query.
#[derive(Debug, Clone, PartialEq, Eq)]
pub enum ParseError {
    NoSelect(String),
    NoEntityType(String),
    UnrecognizedToken(String),
    Incomplete(String),
}

/// The mathematical value of a [`ParseError`].
pub enum ParseErrorView {
    NoSelect(Seq<char>),
    NoEntityType(Seq<char>),
    UnrecognizedToken(Seq<char>),
    Incomplete(Seq<char>),
}

impl View for ParseError {
    type V = ParseErrorView;

    open spec fn view(&self) -> ParseErrorView {
        match self {
            ParseError::NoSelect(s) => ParseErrorView::NoSelect(s@),
            ParseError::NoEntityType(s) => ParseErrorView::NoEntityType(s@),
            ParseError::UnrecognizedToken(s) => ParseErrorView::UnrecognizedToken(s@),
            ParseError::Incomplete(s) => ParseErrorView::Incomplete(s@),
        }
    }
}

impl ParseError {
    /// The message, as the error prints it.
    pub fn message(&self) -> (r: String)
        ensures
            r@ == match self@ {
                ParseErrorView::NoSelect(s) => "expected SELECT, got: "@ + s,
                ParseErrorView::NoEntityType(s) => "expected entity type after SELECT, got: "@ + s,
                ParseErrorView::UnrecognizedToken(s) => "unrecognized token: "@ + s,
                ParseErrorView::Incomplete(s) => "incomplete expression: "@ + s,
            },
    {
        let (head, tail) = match self {
            ParseError::NoSelect(s) => ("expected SELECT, got: ", s),
            ParseError::NoEntityType(s) => ("expected entity type after SELECT, got: ", s),
            ParseError::UnrecognizedToken(s) => ("unrecognized token: ", s),
            ParseError::Incomplete(s) => ("incomplete expression: ", s),
        };
        proof {
            reveal_strlit("expected SELECT, got: ");
            reveal_strlit("expected entity type after SELECT, got: ");
            reveal_strlit("unrecognized token: ");
            reveal_strlit("incomplete expression: ");
        }
        let mut m = String::from_str(head);
        m.append(tail.as_str());
        m
    }
}

/// The value a token denotes: `null`, `true`, `false`, an `i64`, a float
/// literal (kept as written), or else the text itself.
pub open spec fn spec_parse_value(s: Seq<char>) -> ValueView {
    if s == "null"@ {
        ValueView::Null
    } else if s == "true"@ {
        ValueView::Bool(true)
    } else if s == "false"@ {
        ValueView::Bool(false)
    } else {
        match spec_parse_i64(s) {
            Some(n) => ValueView::Int(n),
            None => if float_syntax(s) {
                ValueView::Float(s)
            } else {
                ValueView::Str(s)
            },
        }
    }
}

pub fn parse_value(s: &str) -> (r: BqlValue)
    ensures
        r@ == spec_parse_value(s@),
{
    if same_text(s, "null") {
        return BqlValue::Null;
    }
    if same_text(s, "true") {
        return BqlValue::Bool(true);
    }
    if same_text(s, "false") {
        return BqlValue::Bool(false);
    }
    match parse_i64(s) {
        Some(n) => BqlValue::Int(n),
        None => if float_syntax_of(s) {
            BqlValue::Float(s.to_owned())
        } else {
            BqlValue::Str(s.to_owned())
        },
    }
}

/// The comparison an operator token builds.
pub open spec fn op_expr(op: Seq<char>, field: Seq<Seq<char>>, value: ValueView) -> Option<BqlExprView> {
    if op == "="@ || op == "=="@ {
        Some(BqlExprView::Eq(field, value))
    } else if op == "!="@ || op == "<>"@ {
        Some(BqlExprView::Neq(field, value))
    } else if op == ">"@ {
        Some(BqlExprView::Gt(field, value))
    } else if op == "<"@ {
        Some(BqlExprView::Lt(field, value))
    } else if op == ">="@ {
        Some(BqlExprView::Gte(field, value))
    } else if op == "<="@ {
        Some(BqlExprView::Lte(field, value))
    } else if op == "CONTAINS"@ || op == "contains"@ {
        Some(BqlExprView::Contains(field, value))
    } else {
        None
    }
}

fn build_op(op: &str, field: FieldPath, value: BqlValue) -> (r: Option<BqlExpr>)
    ensures
        match op_expr(op@, field@, value@) {
            Some(e) => r matches Some(x) && x@ == e,
            None => r is None,
        },
{
    proof {
        reveal_strlit("=");
        reveal_strlit("==");
        reveal_strlit("!=");
        reveal_strlit("<>");
        reveal_strlit(">");
        reveal_strlit("<");
        reveal_strlit(">=");
        reveal_strlit("<=");
        reveal_strlit("CONTAINS");
        reveal_strlit("contains");
    }
    if same_text(op, "=") || same_text(op, "==") {
        Some(BqlExpr::Eq(field, value))
    } else if same_text(op, "!=") || same_text(op, "<>") {
        Some(BqlExpr::Neq(field, value))
    } else if same_text(op, ">") {
        Some(BqlExpr::Gt(field, value))
    } else if same_text(op, "<") {
        Some(BqlExpr::Lt(field, value))
    } else if same_text(op, ">=") {
        Some(BqlExpr::Gte(field, value))
    } else if same_text(op, "<=") {
        Some(BqlExpr::Lte(field, value))
    } else if same_text(op, "CONTAINS") || same_text(op, "contains") {
        Some(BqlExpr::Contains(field, value))
    } else {
        None
    }
}

/// One expression from token `start` on: `field op value`, then, after
/// `AND` or `OR`, another expression; with the number of tokens used.
pub open spec fn spec_parse_expr(toks: Seq<Seq<char>>, start: int) -> Result<(BqlExprView, nat), ParseErrorView>
    decreases toks.len() - start,
{
    if start < 0 || toks.len() - start < 3 {
        Err(ParseErrorView::Incomplete("expr needs field op value, got: "@ + debug_list(toks.subrange(start, toks.len() as int))))
    } else {
        match op_expr(toks[start + 1], split_dots(toks[start]), spec_parse_value(trim_quotes(toks[start + 2]))) {
            None => Err(ParseErrorView::UnrecognizedToken(toks[start + 1])),
            Some(lhs) => if start + 3 < toks.len() && upper_of(toks[start + 3]) == "AND"@ {
                match spec_parse_expr(toks, start + 4) {
                    Err(e) => Err(e),
                    Ok((rhs, c)) => Ok((BqlExprView::And(Box::new(lhs), Box::new(rhs)), 4 + c)),
                }
            } else if start + 3 < toks.len() && upper_of(toks[start + 3]) == "OR"@ {
                match spec_parse_expr(toks, start + 4) {
                    Err(e) => Err(e),
                    Ok((rhs, c)) => Ok((BqlExprView::Or(Box::new(lhs), Box::new(rhs)), 4 + c)),
                }
            } else {
                Ok((lhs, 3))
            },
        }
    }
}

/// A copy of `v[from..]`.
fn tail_of(v: &Vec<String>, from: usize) -> (r: Vec<String>)
    requires
        from <= v@.len(),
    ensures
        texts(r@) == texts(v@).subrange(from as int, v@.len() as int),
{
    let mut out: Vec<String> = Vec::new();
    let mut k: usize = from;
    while k < v.len()
        invariant
            from <= k <= v@.len(),
            texts(out@) == texts(v@).subrange(from as int, k as int),
        decreases v@.len() - k,
    {
        let ghost before = texts(out@);
        out.push(v[k].clone());
        proof {
            assert(texts(out@) =~= before.push(v@[k as int]@));
            assert(texts(v@).subrange(from as int, k + 1) =~= texts(v@).subrange(from as int, k as int).push(v@[k as int]@));
        }
        k = k + 1;
    }
    out
}

fn parse_expr(tokens: &Vec<String>, start: usize) -> (r: Result<(BqlExpr, usize), ParseError>)
    requires
        start <= tokens@.len(),
    ensures
        match spec_parse_expr(texts(tokens@), start as int) {
            Ok((e, c)) => r matches Ok(x) && x.0@ == e && x.1 == c,
            Err(e) => r matches Err(x) && x@ == e,
        },
        r matches Ok(x) ==> x.1 <= tokens@.len() - start,
    decreases tokens@.len() - start,
{
    let ghost toks = texts(tokens@);
    let n = tokens.len();
    if n - start < 3 {
        let rest = tail_of(tokens, start);
        let listed = debug_tokens(rest.as_slice());
        let mut m = String::from_str("expr needs field op value, got: ");
        m.append(listed.as_str());
        proof {
            reveal_strlit("expr needs field op value, got: ");
        }
        return Err(ParseError::Incomplete(m));
    }
    proof {
        assert(toks[start as int] == tokens@[start as int]@);
        assert(toks[start + 1] == tokens@[start + 1]@);
        assert(toks[start + 2] == tokens@[start + 2]@);
    }
    let field = FieldPath::new(tokens[start].as_str());
    let raw = trim_quotes_of(tokens[start + 2].as_str());
    let value = parse_value(raw.as_str());
    let lhs = match build_op(tokens[start + 1].as_str(), field, value) {
        Some(e) => e,
        None => {
            return Err(ParseError::UnrecognizedToken(tokens[start + 1].clone()));
        },
    };
    if start + 3 < n {
        proof {
            assert(toks[start + 3] == tokens@[start + 3]@);
            reveal_strlit("AND");
            reveal_strlit("OR");
        }
        let conn = upper(tokens[start + 3].as_str());
        if same_text(conn.as_str(), "AND") {
            match parse_expr(tokens, start + 4) {
                Err(e) => {
                    return Err(e);
                },
                Ok((rhs, c)) => {
                    return Ok((BqlExpr::And(Box::new(lhs), Box::new(rhs)), 4 + c));
                },
            }
        }
        if same_text(conn.as_str(), "OR") {
            match parse_expr(tokens, start + 4) {
                Err(e) => {
                    return Err(e);
                },
                Ok((rhs, c)) => {
                    return Ok((BqlExpr::Or(Box::new(lhs), Box::new(rhs)), 4 + c));
                },
            }
        }
    }
    Ok((lhs, 3))
}


/// The clauses from token `idx` on, applied to the filter, order and limit
/// read so far. A later clause of the same kind replaces an earlier one; a
/// LIMIT that is not a number leaves no limit.
pub open spec fn spec_clauses(
    toks: Seq<Seq<char>>,
    idx: int,
    filter: BqlExprView,
    order: Option<(Seq<Seq<char>>, OrderDir)>,
    limit: Option<usize>,
) -> Result<(BqlExprView, Option<(Seq<Seq<char>>, OrderDir)>, Option<usize>), ParseErrorView>
    decreases toks.len() - idx,
{
    if idx < 0 || idx >= toks.len() {
        Ok((filter, order, limit))
    } else {
        let kw = upper_of(toks[idx]);
        if kw == "WHERE"@ {
            match spec_parse_expr(toks, idx + 1) {
                Err(e) => Err(e),
                Ok((e, c)) => {
                    let next = if idx + 1 + c <= toks.len() { idx + 1 + c } else { toks.len() as int };
                    spec_clauses(toks, next, e, order, limit)
                },
            }
        } else if kw == "ORDER"@ {
            let i1 = if idx + 1 < toks.len() && upper_of(toks[idx + 1]) == "BY"@ { idx + 2 } else { idx + 1 };
            if i1 >= toks.len() {
                Err(ParseErrorView::Incomplete("ORDER BY needs field"@))
            } else {
                let field = split_dots(toks[i1]);
                let i2 = i1 + 1;
                if i2 < toks.len() && upper_of(toks[i2]) == "DESC"@ {
                    spec_clauses(toks, i2 + 1, filter, Some((field, OrderDir::Desc)), limit)
                } else if i2 < toks.len() && upper_of(toks[i2]) == "ASC"@ {
                    spec_clauses(toks, i2 + 1, filter, Some((field, OrderDir::Asc)), limit)
                } else {
                    spec_clauses(toks, i2, filter, Some((field, OrderDir::Asc)), limit)
                }
            }
        } else if kw == "LIMIT"@ {
            if idx + 1 >= toks.len() {
                Err(ParseErrorView::Incomplete("LIMIT needs number"@))
            } else {
                spec_clauses(toks, idx + 2, filter, order, spec_parse_usize(toks[idx + 1]))
            }
        } else {
            Err(ParseErrorView::UnrecognizedToken(kw))
        }
    }
}

/// The query a text denotes, or why it denotes none.
pub open spec fn spec_parse(input: Seq<char>) -> Result<QueryView, ParseErrorView> {
    let toks = words(input);
    if toks.len() == 0 {
        Err(ParseErrorView::NoSelect("empty input"@))
    } else if upper_of(toks[0]) != "SELECT"@ {
        Err(ParseErrorView::NoSelect(toks[0]))
    } else if toks.len() < 2 {
        Err(ParseErrorView::NoEntityType("end of input"@))
    } else {
        finish(spec_clauses(toks, 2, BqlExprView::True, None, None), lower_of(toks[1]))
    }
}

/// The query the clauses make for an entity type.
pub open spec fn finish(
    r: Result<(BqlExprView, Option<(Seq<Seq<char>>, OrderDir)>, Option<usize>), ParseErrorView>,
    entity_type: Seq<char>,
) -> Result<QueryView, ParseErrorView> {
    match r {
        Err(e) => Err(e),
        Ok((f, o, l)) => Ok(QueryView { entity_type, filter: f, order_by: o, limit: l, offset: 0 }),
    }
}

/// The view of an optional ORDER BY.
pub open spec fn order_view(o: Option<(FieldPath, OrderDir)>) -> Option<(Seq<Seq<char>>, OrderDir)> {
    match o {
        Some((f, d)) => Some((f@, d)),
        None => None,
    }
}

/// Parse a BQL query.
pub fn parse(input: &str) -> (r: Result<BqlQuery, ParseError>)
    ensures
        match spec_parse(input@) {
            Ok(q) => r matches Ok(x) && x@ == q,
            Err(e) => r matches Err(x) && x@ == e,
        },
{
    proof {
        reveal_strlit("SELECT");
        reveal_strlit("WHERE");
        reveal_strlit("ORDER");
        reveal_strlit("BY");
        reveal_strlit("DESC");
        reveal_strlit("ASC");
        reveal_strlit("LIMIT");
        reveal_strlit("empty input");
        reveal_strlit("end of input");
        reveal_strlit("ORDER BY needs field");
        reveal_strlit("LIMIT needs number");
    }
    let tokens = split_words(input);
    let ghost toks = texts(tokens@);
    let n = tokens.len();
    if n == 0 {
        return Err(ParseError::NoSelect(String::from_str("empty input")));
    }
    assert(toks[0] == tokens@[0]@);
    let first = upper(tokens[0].as_str());
    if !same_text(first.as_str(), "SELECT") {
        return Err(ParseError::NoSelect(tokens[0].clone()));
    }
    if n < 2 {
        return Err(ParseError::NoEntityType(String::from_str("end of input")));
    }
    assert(toks[1] == tokens@[1]@);
    let entity_type = lower(tokens[1].as_str());
    let mut filter = BqlExpr::True;
    let mut order_by: Option<(FieldPath, OrderDir)> = None;
    let mut limit: Option<usize> = None;
    let mut idx: usize = 2;
    while idx < n
        invariant
            2 <= idx <= n,
            n == tokens@.len(),
            toks == texts(tokens@),
            spec_parse(input@) == finish(spec_clauses(toks, idx as int, filter@, order_view(order_by), limit), entity_type@),
        decreases n - idx,
    {
        proof {
            reveal_strlit("WHERE");
            reveal_strlit("ORDER");
            reveal_strlit("BY");
            reveal_strlit("DESC");
            reveal_strlit("ASC");
            reveal_strlit("LIMIT");
            reveal_strlit("ORDER BY needs field");
            reveal_strlit("LIMIT needs number");
        }
        assert(toks[idx as int] == tokens@[idx as int]@);
        let kw = upper(tokens[idx].as_str());
        if same_text(kw.as_str(), "WHERE") {
            match parse_expr(&tokens, idx + 1) {
                Err(e) => {
                    return Err(e);
                },
                Ok((e, c)) => {
                    filter = e;
                    idx = idx + 1 + c;
                },
            }
        } else if same_text(kw.as_str(), "ORDER") {
            let mut i1 = idx + 1;
            if i1 < n {
                assert(toks[i1 as int] == tokens@[i1 as int]@);
                let by = upper(tokens[i1].as_str());
                if same_text(by.as_str(), "BY") {
                    i1 = i1 + 1;
                }
            }
            if i1 >= n {
                return Err(ParseError::Incomplete(String::from_str("ORDER BY needs field")));
            }
            assert(toks[i1 as int] == tokens@[i1 as int]@);
            let field = FieldPath::new(tokens[i1].as_str());
            let i2 = i1 + 1;
            let mut dir = OrderDir::Asc;
            let mut next = i2;
            if i2 < n {
                assert(toks[i2 as int] == tokens@[i2 as int]@);
                let d = upper(tokens[i2].as_str());
                if same_text(d.as_str(), "DESC") {
                    dir = OrderDir::Desc;
                    next = i2 + 1;
                } else if same_text(d.as_str(), "ASC") {
                    next = i2 + 1;
                }
            }
            order_by = Some((field, dir));
            idx = next;
        } else if same_text(kw.as_str(), "LIMIT") {
            if idx + 1 >= n {
                return Err(ParseError::Incomplete(String::from_str("LIMIT needs number")));
            }
            assert(toks[idx + 1] == tokens@[idx + 1]@);
            limit = parse_usize(tokens[idx + 1].as_str());
            idx = idx + 2;
        } else {
            return Err(ParseError::UnrecognizedToken(kw));
        }
    }
    Ok(
        BqlQuery {
            entity_type: crate::query::EntityType(entity_type),
            filter,
            order_by,
            limit,
            offset: 0,
        },
    )
}

/// The query `SELECT t WHERE f op v` (six words, keywords in any case)
/// denotes: entity type `t` lowered, no order, limit or offset, and the
/// filter that compares field `f` (split at dots) with the value `v`
/// denotes by the comparison `op` names: `<` less, `>` greater, `<=` at
/// most, `>=` at least, `=` or `==` equal, `!=` or `<>` unequal,
/// `CONTAINS` contains.
pub proof fn lemma_where_comparison(input: Seq<char>)
    requires
        words(input).len() == 6,
        upper_of(words(input)[0]) == "SELECT"@,
        upper_of(words(input)[2]) == "WHERE"@,
    ensures
        ({
            let w = words(input);
            let f = split_dots(w[3]);
            let v = spec_parse_value(trim_quotes(w[5]));
            &&& w[4] == "<"@ ==> spec_parse(input) == where_query(w[1], BqlExprView::Lt(f, v))
            &&& w[4] == ">"@ ==> spec_parse(input) == where_query(w[1], BqlExprView::Gt(f, v))
            &&& w[4] == "<="@ ==> spec_parse(input) == where_query(w[1], BqlExprView::Lte(f, v))
            &&& w[4] == ">="@ ==> spec_parse(input) == where_query(w[1], BqlExprView::Gte(f, v))
            &&& (w[4] == "="@ || w[4] == "=="@) ==> spec_parse(input) == where_query(w[1], BqlExprView::Eq(f, v))
            &&& (w[4] == "!="@ || w[4] == "<>"@) ==> spec_parse(input) == where_query(w[1], BqlExprView::Neq(f, v))
            &&& w[4] == "CONTAINS"@ ==> spec_parse(input) == where_query(w[1], BqlExprView::Contains(f, v))
        }),
{
    reveal_strlit("SELECT");
    reveal_strlit("WHERE");
    reveal_strlit("=");
    reveal_strlit("==");
    reveal_strlit("!=");
    reveal_strlit("<>");
    reveal_strlit(">");
    reveal_strlit("<");
    reveal_strlit(">=");
    reveal_strlit("<=");
    reveal_strlit("CONTAINS");
    reveal_strlit("contains");
    let w = words(input);
    let f = split_dots(w[3]);
    let v = spec_parse_value(trim_quotes(w[5]));
    let ops = seq!["="@, "=="@, "!="@, "<>"@, ">"@, "<"@, ">="@, "<="@, "CONTAINS"@, "contains"@];
    assert forall|a: int, b: int| 0 <= a < b < 10 implies #[trigger] ops[a] != #[trigger] ops[b] by {
        if ops[a].len() == ops[b].len() {
            assert(ops[a][0] != ops[b][0] || ops[a][1] != ops[b][1]);
        }
    }
    assert(ops[0] != ops[5] && ops[1] != ops[5] && ops[2] != ops[5] && ops[3] != ops[5] && ops[4] != ops[5]);
    assert(ops[0] != ops[4] && ops[1] != ops[4] && ops[2] != ops[4] && ops[3] != ops[4]);
    assert(ops[0] != ops[6] && ops[1] != ops[6] && ops[2] != ops[6] && ops[3] != ops[6] && ops[4] != ops[6] && ops[5] != ops[6]);
    assert(ops[0] != ops[7] && ops[1] != ops[7] && ops[2] != ops[7] && ops[3] != ops[7] && ops[4] != ops[7] && ops[5] != ops[7]
        && ops[6] != ops[7]);
    assert(ops[0] != ops[8] && ops[1] != ops[8] && ops[2] != ops[8] && ops[3] != ops[8] && ops[4] != ops[8] && ops[5] != ops[8]
        && ops[6] != ops[8] && ops[7] != ops[8]);
    assert(ops[0] != ops[2] && ops[1] != ops[2] && ops[0] != ops[3] && ops[1] != ops[3]);
    match op_expr(w[4], f, v) {
        Some(e) => {
            assert(spec_parse_expr(w, 3) == Ok::<(BqlExprView, nat), ParseErrorView>((e, 3)));
            assert(spec_clauses(w, 6, e, None, None) == Ok::<_, ParseErrorView>((e, None::<(Seq<Seq<char>>, OrderDir)>, None::<usize>)));
            assert(spec_clauses(w, 2, BqlExprView::True, None, None) == spec_clauses(w, 6, e, None, None));
            assert(spec_parse(input) == where_query(w[1], e));
        },
        None => {},
    }
}

/// The query `SELECT t ORDER BY f d LIMIT n` (eight words, keywords in any
/// case) denotes: entity type `t` lowered, no filter, order by field `f`
/// (split at dots) descending where `d` is `DESC` and ascending where it is
/// `ASC`, at most `n` results where `n` is a number (no limit where it is
/// not), and no offset.
pub proof fn lemma_order_and_limit(input: Seq<char>)
    requires
        words(input).len() == 8,
        upper_of(words(input)[0]) == "SELECT"@,
        upper_of(words(input)[2]) == "ORDER"@,
        upper_of(words(input)[3]) == "BY"@,
        upper_of(words(input)[6]) == "LIMIT"@,
    ensures
        ({
            let w = words(input);
            &&& upper_of(w[5]) == "DESC"@ ==> spec_parse(input) == Ok::<QueryView, ParseErrorView>(
                QueryView {
                    entity_type: lower_of(w[1]),
                    filter: BqlExprView::True,
                    order_by: Some((split_dots(w[4]), OrderDir::Desc)),
                    limit: spec_parse_usize(w[7]),
                    offset: 0,
                },
            )
            &&& upper_of(w[5]) == "ASC"@ ==> spec_parse(input) == Ok::<QueryView, ParseErrorView>(
                QueryView {
                    entity_type: lower_of(w[1]),
                    filter: BqlExprView::True,
                    order_by: Some((split_dots(w[4]), OrderDir::Asc)),
                    limit: spec_parse_usize(w[7]),
                    offset: 0,
                },
            )
        }),
{
    reveal_strlit("SELECT");
    reveal_strlit("WHERE");
    reveal_strlit("ORDER");
    reveal_strlit("BY");
    reveal_strlit("DESC");
    reveal_strlit("ASC");
    reveal_strlit("LIMIT");
    let w = words(input);
    assert("ORDER"@ != "WHERE"@) by {
        assert("ORDER"@[0] != "WHERE"@[0]);
    }
    assert("LIMIT"@ != "WHERE"@ && "LIMIT"@ != "ORDER"@) by {
        assert("LIMIT"@[0] != "WHERE"@[0] && "LIMIT"@[0] != "ORDER"@[0]);
    }
    assert("DESC"@.len() != "ASC"@.len());
    let l = spec_parse_usize(w[7]);
    let f = split_dots(w[4]);
    if upper_of(w[5]) == "DESC"@ {
        assert(spec_clauses(w, 6, BqlExprView::True, Some((f, OrderDir::Desc)), None)
            == spec_clauses(w, 8, BqlExprView::True, Some((f, OrderDir::Desc)), l));
    }
    if upper_of(w[5]) == "ASC"@ {
        assert(spec_clauses(w, 6, BqlExprView::True, Some((f, OrderDir::Asc)), None)
            == spec_clauses(w, 8, BqlExprView::True, Some((f, OrderDir::Asc)), l));
    }
}

/// The query on entity type `t` (lowered) with filter `e` and nothing else.
pub open spec fn where_query(t: Seq<char>, e: BqlExprView) -> Result<QueryView, ParseErrorView> {
    Ok(QueryView { entity_type: lower_of(t), filter: e, order_by: None, limit: None, offset: 0 })
}

} // verus!
