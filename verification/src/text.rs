//! Building the library's messages: decimal numbers and phase lists in the
//! form the rest of the workspace prints them.

use vstd::prelude::*;
use crate::kernel_state::{KernelPhase, phase_name};
use std::collections::hash_map::DefaultHasher;
use std::hash::Hash;

verus! {

/// The character of a decimal digit.
pub open spec fn digit_char(d: nat) -> char {
    if d == 0 { '0' }
    else if d == 1 { '1' }
    else if d == 2 { '2' }
    else if d == 3 { '3' }
    else if d == 4 { '4' }
    else if d == 5 { '5' }
    else if d == 6 { '6' }
    else if d == 7 { '7' }
    else if d == 8 { '8' }
    else { '9' }
}

/// The decimal notation of `n`, without leading zeros.
pub open spec fn decimal(n: nat) -> Seq<char>
    decreases n,
{
    if n < 10 {
        seq![digit_char(n)]
    } else {
        decimal(n / 10).push(digit_char(n % 10))
    }
}

fn digit_str(d: usize) -> (r: &'static str)
    requires
        d < 10,
    ensures
        r@ == seq![digit_char(d as nat)],
{
    match d {
        0 => { proof { reveal_strlit("0"); } "0" },
        1 => { proof { reveal_strlit("1"); } "1" },
        2 => { proof { reveal_strlit("2"); } "2" },
        3 => { proof { reveal_strlit("3"); } "3" },
        4 => { proof { reveal_strlit("4"); } "4" },
        5 => { proof { reveal_strlit("5"); } "5" },
        6 => { proof { reveal_strlit("6"); } "6" },
        7 => { proof { reveal_strlit("7"); } "7" },
        8 => { proof { reveal_strlit("8"); } "8" },
        _ => { proof { reveal_strlit("9"); } "9" },
    }
}

/// Append one decimal digit.
pub fn push_digit(s: &mut String, d: usize)
    requires
        d < 10,
    ensures
        final(s)@ == old(s)@.push(digit_char(d as nat)),
{
    s.append(digit_str(d));
    assert(s@ =~= old(s)@.push(digit_char(d as nat)));
}

/// The character of a hexadecimal digit, lowercase.
pub open spec fn hex_char(d: nat) -> char {
    if d < 10 { digit_char(d) }
    else if d == 10 { 'a' }
    else if d == 11 { 'b' }
    else if d == 12 { 'c' }
    else if d == 13 { 'd' }
    else if d == 14 { 'e' }
    else { 'f' }
}

/// The lowercase hexadecimal notation of `n`, without leading zeros.
pub open spec fn hex(n: nat) -> Seq<char>
    decreases n,
{
    if n < 16 {
        seq![hex_char(n)]
    } else {
        hex(n / 16).push(hex_char(n % 16))
    }
}

fn hex_str(d: u64) -> (r: &'static str)
    requires
        d < 16,
    ensures
        r@ == seq![hex_char(d as nat)],
{
    match d {
        0 => { proof { reveal_strlit("0"); } "0" },
        1 => { proof { reveal_strlit("1"); } "1" },
        2 => { proof { reveal_strlit("2"); } "2" },
        3 => { proof { reveal_strlit("3"); } "3" },
        4 => { proof { reveal_strlit("4"); } "4" },
        5 => { proof { reveal_strlit("5"); } "5" },
        6 => { proof { reveal_strlit("6"); } "6" },
        7 => { proof { reveal_strlit("7"); } "7" },
        8 => { proof { reveal_strlit("8"); } "8" },
        9 => { proof { reveal_strlit("9"); } "9" },
        10 => { proof { reveal_strlit("a"); } "a" },
        11 => { proof { reveal_strlit("b"); } "b" },
        12 => { proof { reveal_strlit("c"); } "c" },
        13 => { proof { reveal_strlit("d"); } "d" },
        14 => { proof { reveal_strlit("e"); } "e" },
        _ => { proof { reveal_strlit("f"); } "f" },
    }
}

/// Append the lowercase hexadecimal notation of `n`.
pub fn push_hex(s: &mut String, n: u64)
    ensures
        final(s)@ == old(s)@ + hex(n as nat),
    decreases n,
{
    if n >= 16 {
        push_hex(s, n / 16);
    }
    s.append(hex_str(n % 16));
    proof {
        if n >= 16 {
            assert(hex(n as nat) == hex((n / 16) as nat).push(hex_char((n % 16) as nat)));
        }
    }
}

/// Append the decimal notation of `n`.
pub fn push_decimal(s: &mut String, n: usize)
    ensures
        final(s)@ == old(s)@ + decimal(n as nat),
    decreases n,
{
    if n >= 10 {
        push_decimal(s, n / 10);
    }
    s.append(digit_str(n % 10));
    proof {
        if n >= 10 {
            assert(decimal(n as nat) == decimal((n / 10) as nat).push(digit_char((n % 10) as nat)));
        }
    }
}

/// Append the decimal notation of a 64-bit `n`.
pub fn push_decimal_u64(s: &mut String, n: u64)
    ensures
        final(s)@ == old(s)@ + decimal(n as nat),
    decreases n,
{
    if n >= 10 {
        push_decimal_u64(s, n / 10);
    }
    s.append(digit_str((n % 10) as usize));
    proof {
        if n >= 10 {
            assert(decimal(n as nat) == decimal((n / 10) as nat).push(digit_char((n % 10) as nat)));
        }
    }
}

/// Hexadecimal notation is never empty.
pub proof fn lemma_hex_nonempty(n: nat)
    ensures
        hex(n).len() > 0,
{
}

/// The elements of `items` separated by ", ".
pub open spec fn joined(items: Seq<Seq<char>>) -> Seq<char>
    decreases items.len(),
{
    if items.len() == 0 {
        Seq::empty()
    } else if items.len() == 1 {
        items[0]
    } else {
        joined(items.drop_last()) + ", "@ + items.last()
    }
}

/// A list of phases as `[A, B, C]`.
pub open spec fn phase_list_text(ps: Seq<KernelPhase>) -> Seq<char> {
    "["@ + joined(ps.map_values(|p: KernelPhase| phase_name(p))) + "]"@
}

/// A list of phase lists as `[[A, B], [C, D]]`.
pub open spec fn phase_lists_text(ls: Seq<Seq<KernelPhase>>) -> Seq<char> {
    "["@ + joined(ls.map_values(|ps: Seq<KernelPhase>| phase_list_text(ps))) + "]"@
}

/// `joined` of a one-longer prefix.
pub proof fn lemma_joined_take(items: Seq<Seq<char>>, k: int)
    requires
        0 <= k < items.len(),
    ensures
        joined(items.take(k + 1)) == if k == 0 { items[0] } else { joined(items.take(k)) + ", "@ + items[k] },
{
    let t = items.take(k + 1);
    assert(t.drop_last() =~= items.take(k));
    if k == 0 {
        assert(t.len() == 1);
    }
}

/// Append a phase list as `[A, B, C]`.
pub fn push_phase_list(s: &mut String, ps: &Vec<KernelPhase>)
    ensures
        final(s)@ == old(s)@ + phase_list_text(ps@),
{
    let ghost names = ps@.map_values(|p: KernelPhase| phase_name(p));
    let ghost start = s@;
    s.append("[");
    let mut k: usize = 0;
    while k < ps.len()
        invariant
            k <= ps@.len(),
            names == ps@.map_values(|p: KernelPhase| phase_name(p)),
            s@ == start + "["@ + joined(names.take(k as int)),
        decreases ps@.len() - k,
    {
        proof {
            lemma_joined_take(names, k as int);
        }
        if k > 0 {
            s.append(", ");
        }
        s.append(ps[k].as_str());
        proof {
            if k > 0 {
                assert(s@ =~= start + "["@ + (joined(names.take(k as int)) + ", "@ + names[k as int]));
            } else {
                assert(s@ =~= start + "["@ + names[0]);
            }
        }
        k = k + 1;
    }
    s.append("]");
    proof {
        assert(names.take(ps@.len() as int) =~= names);
        assert(s@ =~= start + phase_list_text(ps@));
    }
}

/// Append a list of phase lists as `[[A, B], [C, D]]`.
pub fn push_phase_lists(s: &mut String, ls: &Vec<Vec<KernelPhase>>)
    ensures
        final(s)@ == old(s)@ + phase_lists_text(ls@.map_values(|v: Vec<KernelPhase>| v@)),
{
    let ghost views = ls@.map_values(|v: Vec<KernelPhase>| v@);
    let ghost texts = views.map_values(|ps: Seq<KernelPhase>| phase_list_text(ps));
    let ghost start = s@;
    s.append("[");
    let mut k: usize = 0;
    while k < ls.len()
        invariant
            k <= ls@.len(),
            views == ls@.map_values(|v: Vec<KernelPhase>| v@),
            texts == views.map_values(|ps: Seq<KernelPhase>| phase_list_text(ps)),
            s@ == start + "["@ + joined(texts.take(k as int)),
        decreases ls@.len() - k,
    {
        proof {
            lemma_joined_take(texts, k as int);
        }
        if k > 0 {
            s.append(", ");
        }
        push_phase_list(s, &ls[k]);
        proof {
            if k > 0 {
                assert(s@ =~= start + "["@ + (joined(texts.take(k as int)) + ", "@ + texts[k as int]));
            } else {
                assert(s@ =~= start + "["@ + texts[0]);
            }
        }
        k = k + 1;
    }
    s.append("]");
    proof {
        assert(texts.take(ls@.len() as int) =~= texts);
        assert(s@ =~= start + phase_lists_text(views));
    }
}


/// Do the two texts hold the same characters?
pub fn same_text(a: &str, b: &str) -> (r: bool)
    ensures
        r == (a@ == b@),
{
    let x = a.to_owned();
    let y = b.to_owned();
    x.eq(&y)
}


/// Byte-wise lexicographic order, the order of Rust strings.
pub open spec fn lex_lt(a: Seq<u8>, b: Seq<u8>) -> bool
    decreases a.len(),
{
    if a.len() == 0 {
        b.len() > 0
    } else if b.len() == 0 {
        false
    } else if a[0] != b[0] {
        a[0] < b[0]
    } else {
        lex_lt(a.drop_first(), b.drop_first())
    }
}

/// The order is irreflexive.
pub proof fn lemma_lex_irreflexive(a: Seq<u8>)
    ensures
        !lex_lt(a, a),
    decreases a.len(),
{
    if a.len() > 0 {
        lemma_lex_irreflexive(a.drop_first());
    }
}

/// The order is asymmetric.
pub proof fn lemma_lex_asymmetric(a: Seq<u8>, b: Seq<u8>)
    ensures
        lex_lt(a, b) ==> !lex_lt(b, a),
    decreases a.len(),
{
    if a.len() > 0 && b.len() > 0 && a[0] == b[0] {
        lemma_lex_asymmetric(a.drop_first(), b.drop_first());
    }
}

/// Of two distinct sequences, one comes first.
pub proof fn lemma_lex_total(a: Seq<u8>, b: Seq<u8>)
    ensures
        a != b ==> lex_lt(a, b) || lex_lt(b, a),
    decreases a.len(),
{
    if a.len() > 0 && b.len() > 0 && a[0] == b[0] {
        lemma_lex_total(a.drop_first(), b.drop_first());
        if a != b {
            assert(a.drop_first() != b.drop_first()) by {
                if a.drop_first() == b.drop_first() {
                    assert(a =~= seq![a[0]] + a.drop_first());
                    assert(b =~= seq![b[0]] + b.drop_first());
                }
            }
        }
    }
    if a.len() == 0 && b.len() == 0 {
        assert(a =~= b);
    }
}

/// The order is transitive.
pub proof fn lemma_lex_transitive(a: Seq<u8>, b: Seq<u8>, c: Seq<u8>)
    ensures
        lex_lt(a, b) && lex_lt(b, c) ==> lex_lt(a, c),
    decreases a.len(),
{
    if a.len() > 0 && b.len() > 0 && c.len() > 0 {
        lemma_lex_transitive(a.drop_first(), b.drop_first(), c.drop_first());
    }
}

/// Is `a` strictly before `b` byte-wise?
pub fn bytes_lt(a: &[u8], b: &[u8]) -> (r: bool)
    ensures
        r == lex_lt(a@, b@),
{
    let mut k: usize = 0;
    assert(a@.skip(0) =~= a@ && b@.skip(0) =~= b@);
    while k < a.len() && k < b.len()
        invariant
            k <= a@.len(),
            k <= b@.len(),
            a@.take(k as int) == b@.take(k as int),
            lex_lt(a@, b@) == lex_lt(a@.skip(k as int), b@.skip(k as int)),
        decreases a@.len() - k,
    {
        if a[k] != b[k] {
            return a[k] < b[k];
        }
        proof {
            assert(a@.skip(k as int).drop_first() =~= a@.skip(k + 1));
            assert(b@.skip(k as int).drop_first() =~= b@.skip(k + 1));
            assert(a@.take(k + 1) =~= a@.take(k as int).push(a@[k as int]));
            assert(b@.take(k + 1) =~= b@.take(k as int).push(b@[k as int]));
        }
        k = k + 1;
    }
    k < b.len()
}

/// Do `a` and `b` hold the same bytes?
pub fn bytes_eq(a: &[u8], b: &[u8]) -> (r: bool)
    ensures
        r == (a@ == b@),
{
    if a.len() != b.len() {
        return false;
    }
    let mut k: usize = 0;
    while k < a.len()
        invariant
            k <= a@.len(),
            a@.len() == b@.len(),
            forall|j: int| 0 <= j < k ==> a@[j] == b@[j],
        decreases a@.len() - k,
    {
        if a[k] != b[k] {
            return false;
        }
        k = k + 1;
    }
    assert(a@ =~= b@);
    true
}

// ─── Debug text ──────────────────────────────────────────────────────────────

/// What `<str as Debug>` writes for a text.
pub uninterp spec fn str_debug(s: Seq<char>) -> Seq<char>;

/// `<str as Debug>::fmt`, through `format!("{:?}", s)`: the text in double
/// quotes with quotes, backslashes and control characters escaped. The
/// result depends on the text alone; its exact form is not stated.
#[verifier::external_body]
pub fn debug_str(s: &str) -> (r: String)
    ensures
        r@ == str_debug(s@),
{
    format!("{:?}", s)
}

// ─── Text before a separator ─────────────────────────────────────────────────

/// `i` is the position of the first `c` in `s`.
pub open spec fn first_at(s: Seq<char>, c: char, i: int) -> bool {
    &&& 0 <= i < s.len()
    &&& s[i] == c
    &&& forall|j: int| 0 <= j < i ==> s[j] != c
}

/// The text before the first `c`, or all of it when there is none: the
/// first piece `split(c)` gives.
pub open spec fn text_before(s: Seq<char>, c: char) -> Seq<char> {
    if exists|i: int| first_at(s, c, i) {
        s.take(choose|i: int| first_at(s, c, i))
    } else {
        s
    }
}

/// The text before the first `c` of `s`.
pub fn before_char(s: &str, c: char) -> (r: String)
    ensures
        r@ == text_before(s@, c),
{
    let n = s.unicode_len();
    let mut i: usize = 0;
    while i < n
        invariant
            i <= n,
            n == s@.len(),
            forall|j: int| 0 <= j < i ==> s@[j] != c,
        decreases n - i,
    {
        if s.get_char(i) == c {
            proof {
                assert(first_at(s@, c, i as int));
                let k = choose|k: int| first_at(s@, c, k);
                assert(k == i) by {
                    if k < i {
                        assert(s@[k] != c);
                    } else if k > i {
                        assert(s@[i as int] != c);
                    }
                }
            }
            return s.substring_char(0, i).to_owned();
        }
        i = i + 1;
    }
    proof {
        assert(s@.take(n as int) =~= s@);
    }
    s.substring_char(0, n).to_owned()
}

// ─── Hashing ─────────────────────────────────────────────────────────────────

/// The state of a `DefaultHasher` (as the sequence of writes vstd models it
/// by) after `<str as Hash>::hash` of `s` on a hasher in `state`.
pub uninterp spec fn str_hashed(state: Seq<Seq<u8>>, s: Seq<char>) -> Seq<Seq<u8>>;

/// `<str as Hash>::hash`: feeds the text to the hasher. The writes it makes
/// depend on the hasher's state and the text alone; which writes they are
/// is left to that name.
#[verifier::external_body]
pub fn hash_str_into(h: &mut DefaultHasher, s: &str)
    ensures
        final(h)@ == str_hashed(old(h)@, s@),
{
    s.hash(h)
}

/// The eight bytes of `x`, least significant first.
pub open spec fn le_bytes(x: u64) -> Seq<u8> {
    seq![
        (x % 0x100) as u8,
        ((x / 0x100) % 0x100) as u8,
        ((x / 0x1_0000) % 0x100) as u8,
        ((x / 0x100_0000) % 0x100) as u8,
        ((x / 0x1_0000_0000) % 0x100) as u8,
        ((x / 0x100_0000_0000) % 0x100) as u8,
        ((x / 0x1_0000_0000_0000) % 0x100) as u8,
        ((x / 0x100_0000_0000_0000) % 0x100) as u8,
    ]
}

/// The eight bytes of `x`, most significant first.
pub open spec fn be_bytes(x: u64) -> Seq<u8> {
    le_bytes(x).reverse()
}

/// The bytes a `u64` is written as on some machine: its little-endian or
/// its big-endian bytes.
pub open spec fn u64_bytes(x: u64, b: Seq<u8>) -> bool {
    b == le_bytes(x) || b == be_bytes(x)
}

/// `<u64 as Hash>::hash`: `Hasher::write_u64`, which `DefaultHasher` leaves
/// to its default, one write of `x.to_ne_bytes()`. Those are the machine's
/// own byte order, so of every outcome only this holds: the write is the
/// number's little-endian or its big-endian bytes.
#[verifier::external_body]
pub fn hash_u64_into(h: &mut DefaultHasher, x: u64)
    ensures
        final(h)@.len() == old(h)@.len() + 1,
        final(h)@.drop_last() == old(h)@,
        u64_bytes(x, final(h)@.last()),
{
    x.hash(h)
}

} // verus!
