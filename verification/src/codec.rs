use vstd::prelude::*;
use vstd::string::StrSliceExecFns;

use crate::cache::{
    CacheDataType, CacheDataView, CacheEntry, CacheEntryView, DecryptCacheData, DecryptRecordView,
    EncryptCacheData, EncryptRecordView,
};

verus! {

broadcast use vstd::string::group_string_axioms;

// ---------------------------------------------------------------------
// Characters and decimal numerals
// ---------------------------------------------------------------------
pub open spec fn is_digit_char(c: char) -> bool {
    c == '0' || c == '1' || c == '2' || c == '3' || c == '4' || c == '5' || c == '6' || c == '7'
        || c == '8' || c == '9'
}

pub open spec fn digit_char(d: nat) -> char {
    if d == 0 {
        '0'
    } else if d == 1 {
        '1'
    } else if d == 2 {
        '2'
    } else if d == 3 {
        '3'
    } else if d == 4 {
        '4'
    } else if d == 5 {
        '5'
    } else if d == 6 {
        '6'
    } else if d == 7 {
        '7'
    } else if d == 8 {
        '8'
    } else {
        '9'
    }
}

pub open spec fn digit_val(c: char) -> nat {
    if c == '0' {
        0
    } else if c == '1' {
        1
    } else if c == '2' {
        2
    } else if c == '3' {
        3
    } else if c == '4' {
        4
    } else if c == '5' {
        5
    } else if c == '6' {
        6
    } else if c == '7' {
        7
    } else if c == '8' {
        8
    } else {
        9
    }
}

/// The decimal numeral of `n`, most significant digit first.
pub open spec fn dec_of(n: nat) -> Seq<char>
    decreases n,
{
    if n < 10 {
        seq![digit_char(n)]
    } else {
        dec_of(n / 10).push(digit_char(n % 10))
    }
}

fn digit_to_char(d: u8) -> (c: char)
    requires
        d < 10,
    ensures
        c == digit_char(d as nat),
        is_digit_char(c),
{
    match d {
        0 => '0',
        1 => '1',
        2 => '2',
        3 => '3',
        4 => '4',
        5 => '5',
        6 => '6',
        7 => '7',
        8 => '8',
        _ => '9',
    }
}

/// The decimal numeral of `n` as characters.
pub fn to_dec_chars(n: u64) -> (r: Vec<char>)
    ensures
        r@ == dec_of(n as nat),
    decreases n,
{
    if n < 10 {
        let mut v: Vec<char> = Vec::new();
        v.push(digit_to_char(n as u8));
        proof {
            assert(v@ =~= dec_of(n as nat));
        }
        v
    } else {
        let mut v = to_dec_chars(n / 10);
        v.push(digit_to_char((n % 10) as u8));
        v
    }
}

proof fn lemma_dec_all_digits(n: nat)
    ensures
        dec_of(n).len() >= 1,
        forall|k: int| 0 <= k < dec_of(n).len() ==> is_digit_char(#[trigger] dec_of(n)[k]),
    decreases n,
{
    if n >= 10 {
        lemma_dec_all_digits(n / 10);
    }
}

// ---------------------------------------------------------------------
// Character and string conversions
// ---------------------------------------------------------------------
/// Relies on core::iter::Iterator::collect for String: the collected
/// string holds exactly the characters of the vector, in order.
#[verifier::external_body]
pub(crate) fn chars_to_string(v: &Vec<char>) -> (r: String)
    ensures
        r@ == v@,
{
    v.iter().collect()
}

/// The characters of a string slice, as a vector.
pub fn str_to_chars(s: &str) -> (r: Vec<char>)
    ensures
        r@ == s@,
{
    let n = s.unicode_len();
    let mut v: Vec<char> = Vec::new();
    let mut i: usize = 0;
    while i < n
        invariant
            n == s@.len(),
            0 <= i <= n,
            v@ == s@.take(i as int),
        decreases n - i,
    {
        v.push(s.get_char(i));
        proof {
            assert(v@ =~= s@.take(i + 1 as int));
        }
        i += 1;
    }
    proof {
        assert(v@ =~= s@);
    }
    v
}

// ---------------------------------------------------------------------
// Escaping
// ---------------------------------------------------------------------
/// How one character appears inside a quoted record field: quote,
/// backslash, newline, carriage return and tab take a two-character
/// escape; every other character stands for itself.
pub open spec fn esc_char(c: char) -> Seq<char> {
    if c == '"' {
        seq!['\\', '"']
    } else if c == '\\' {
        seq!['\\', '\\']
    } else if c == '\n' {
        seq!['\\', 'n']
    } else if c == '\r' {
        seq!['\\', 'r']
    } else if c == '\t' {
        seq!['\\', 't']
    } else {
        seq![c]
    }
}

pub open spec fn escape(s: Seq<char>) -> Seq<char>
    decreases s.len(),
{
    if s.len() == 0 {
        Seq::empty()
    } else {
        esc_char(s[0]) + escape(s.subrange(1, s.len() as int))
    }
}

/// A field value as it appears in a record: quoted and escaped.
pub open spec fn quoted(s: Seq<char>) -> Seq<char> {
    seq!['"'] + escape(s) + seq!['"']
}

proof fn lemma_escape_append(s: Seq<char>, c: char)
    ensures
        escape(s.push(c)) == escape(s) + esc_char(c),
    decreases s.len(),
{
    if s.len() == 0 {
        assert(s.push(c)[0] == c);
        assert(s.push(c).subrange(1, 1) =~= Seq::<char>::empty());
        assert(escape(s.push(c)) == esc_char(c) + escape(Seq::<char>::empty()));
        assert(esc_char(c) + Seq::<char>::empty() =~= esc_char(c));
        assert(escape(s) + esc_char(c) =~= esc_char(c));
    } else {
        let t = s.subrange(1, s.len() as int);
        assert(s.push(c).subrange(1, s.len() + 1 as int) =~= t.push(c));
        lemma_escape_append(t, c);
        assert(s.push(c)[0] == s[0]);
        assert(escape(s.push(c)) == esc_char(s[0]) + escape(t.push(c)));
        assert(escape(s) == esc_char(s[0]) + escape(t));
        assert(esc_char(s[0]) + (escape(t) + esc_char(c)) =~= (esc_char(s[0]) + escape(t))
            + esc_char(c));
    }
}

// ---------------------------------------------------------------------
// Positional matching and parsing, at the specification level
// ---------------------------------------------------------------------
/// `pat` occurs in `s` at position `i`.
pub open spec fn matches_at(s: Seq<char>, i: int, pat: Seq<char>) -> bool {
    &&& 0 <= i
    &&& i + pat.len() <= s.len()
    &&& forall|k: int| 0 <= k < pat.len() ==> s[i + k] == #[trigger] pat[k]
}

/// Expects the exact literal `pat` at position `i`; yields the position
/// after it.
pub open spec fn sp_lit(s: Seq<char>, i: int, pat: Seq<char>) -> Option<int> {
    if matches_at(s, i, pat) {
        Some(i + pat.len() as int)
    } else {
        None
    }
}

/// The first position at or after `i` that does not hold a digit.
pub open spec fn sp_digits_end(s: Seq<char>, i: int) -> int
    decreases s.len() - i,
{
    if 0 <= i && i < s.len() && is_digit_char(s[i]) {
        sp_digits_end(s, i + 1)
    } else {
        i
    }
}

/// The value of a digit string, most significant digit first.
pub open spec fn sp_dec_val(d: Seq<char>) -> nat
    decreases d.len(),
{
    if d.len() == 0 {
        0
    } else {
        sp_dec_val(d.drop_last()) * 10 + digit_val(d.last())
    }
}

/// Parses a decimal number at position `i`: at least one digit, and a
/// value that fits in 64 bits.
pub open spec fn sp_num(s: Seq<char>, i: int) -> Option<(u64, int)> {
    let e = sp_digits_end(s, i);
    if e == i {
        None
    } else {
        let v = sp_dec_val(s.subrange(i, e));
        if v <= u64::MAX as nat {
            Some((v as u64, e))
        } else {
            None
        }
    }
}

/// The character an escape code stands for.
pub open spec fn unescape_code(c: char) -> Option<char> {
    if c == '"' {
        Some('"')
    } else if c == '\\' {
        Some('\\')
    } else if c == 'n' {
        Some('\n')
    } else if c == 'r' {
        Some('\r')
    } else if c == 't' {
        Some('\t')
    } else {
        None
    }
}

/// Parses the body of a quoted field from position `i` (just after the
/// opening quote) up to the closing quote: an escape introduces the
/// character it stands for, and any other character except the quote and
/// the backslash stands for itself.
pub open spec fn sp_qstring(s: Seq<char>, i: int) -> Option<(Seq<char>, int)>
    decreases s.len() - i,
{
    if !(0 <= i < s.len()) {
        None
    } else if s[i] == '"' {
        Some((Seq::empty(), i + 1))
    } else if s[i] == '\\' {
        if i + 1 < s.len() {
            match unescape_code(s[i + 1]) {
                Some(c) => match sp_qstring(s, i + 2) {
                    Some(te) => Some((seq![c] + te.0, te.1)),
                    None => None,
                },
                None => None,
            }
        } else {
            None
        }
    } else {
        match sp_qstring(s, i + 1) {
            Some(te) => Some((seq![s[i]] + te.0, te.1)),
            None => None,
        }
    }
}

/// Parses a whole quoted field at position `i`, opening quote included.
pub open spec fn sp_qstr(s: Seq<char>, i: int) -> Option<(Seq<char>, int)> {
    if 0 <= i < s.len() && s[i] == '"' {
        sp_qstring(s, i + 1)
    } else {
        None
    }
}

// ---------------------------------------------------------------------
// Round-trip lemmas for the building blocks
// ---------------------------------------------------------------------
proof fn lemma_matches_cat(s: Seq<char>, i: int, a: Seq<char>, b: Seq<char>)
    requires
        matches_at(s, i, a + b),
    ensures
        matches_at(s, i, a),
        matches_at(s, i + a.len(), b),
{
    assert forall|k: int| 0 <= k < a.len() implies s[i + k] == #[trigger] a[k] by {
        assert((a + b)[k] == a[k]);
        assert(s[i + k] == (a + b)[k]);
    }
    assert forall|k: int| 0 <= k < b.len() implies s[i + a.len() + k] == #[trigger] b[k] by {
        assert((a + b)[a.len() + k] == b[k]);
        assert(s[i + (a.len() + k)] == (a + b)[a.len() + k]);
    }
}

proof fn lemma_digits_end_from(s: Seq<char>, i: int, j: int)
    requires
        0 <= i <= j <= s.len(),
        forall|k: int| i <= k < j ==> is_digit_char(#[trigger] s[k]),
        j == s.len() || !is_digit_char(s[j]),
    ensures
        sp_digits_end(s, i) == j,
    decreases j - i,
{
    if i < j {
        lemma_digits_end_from(s, i + 1, j);
    }
}

proof fn lemma_dec_val_of_dec(n: nat)
    ensures
        sp_dec_val(dec_of(n)) == n,
    decreases n,
{
    if n < 10 {
        let d = dec_of(n);
        assert(d == seq![digit_char(n)]);
        assert(d.len() == 1);
        assert(d.drop_last() =~= Seq::<char>::empty());
        assert(d.last() == digit_char(n));
        assert(sp_dec_val(d) == sp_dec_val(d.drop_last()) * 10 + digit_val(d.last()));
        assert(sp_dec_val(d.drop_last()) == 0);
        assert(digit_val(digit_char(n)) == n);
    } else {
        lemma_dec_val_of_dec(n / 10);
        let p = dec_of(n / 10);
        let d = dec_of(n);
        assert(d == p.push(digit_char(n % 10)));
        assert(d.drop_last() =~= p);
        assert(d.last() == digit_char(n % 10));
        assert(digit_val(digit_char(n % 10)) == n % 10);
        assert(sp_dec_val(d) == (n / 10) * 10 + n % 10);
        assert((n / 10) * 10 + n % 10 == n) by {
            vstd::arithmetic::div_mod::lemma_fundamental_div_mod(n as int, 10);
        }
    }
}

/// Decimal numerals are injective: equal numerals denote equal numbers.
pub proof fn lemma_dec_injective(a: nat, b: nat)
    requires
        dec_of(a) == dec_of(b),
    ensures
        a == b,
{
    lemma_dec_val_of_dec(a);
    lemma_dec_val_of_dec(b);
}

/// The value of a digit string bounds the value of each of its prefixes.
proof fn lemma_dec_val_prefix(d: Seq<char>, m: int)
    requires
        0 <= m <= d.len(),
    ensures
        sp_dec_val(d.subrange(0, m)) <= sp_dec_val(d),
    decreases d.len() - m,
{
    if m < d.len() {
        assert(d.subrange(0, m + 1) =~= d.subrange(0, m).push(d[m]));
        assert(d.subrange(0, m + 1).drop_last() =~= d.subrange(0, m));
        assert(sp_dec_val(d.subrange(0, m + 1)) == sp_dec_val(d.subrange(0, m)) * 10 + digit_val(
            d[m],
        ));
        lemma_dec_val_prefix(d, m + 1);
        assert(d.subrange(0, d.len() as int) =~= d);
    } else {
        assert(d.subrange(0, m) =~= d);
    }
}

/// A decimal numeral followed by a non-digit parses back to its value.
proof fn lemma_num_parse(s: Seq<char>, i: int, n: u64)
    requires
        matches_at(s, i, dec_of(n as nat)),
        i + dec_of(n as nat).len() == s.len() || !is_digit_char(s[i + dec_of(n as nat).len()]),
    ensures
        sp_num(s, i) == Some((n, i + dec_of(n as nat).len() as int)),
{
    let d = dec_of(n as nat);
    lemma_dec_all_digits(n as nat);
    let j = i + d.len();
    assert forall|k: int| i <= k < j implies is_digit_char(#[trigger] s[k]) by {
        assert(s[i + (k - i)] == d[k - i]);
    }
    lemma_digits_end_from(s, i, j);
    assert(s.subrange(i, j) =~= d);
    lemma_dec_val_of_dec(n as nat);
}

/// An escaped, quote-terminated field body parses back to the original
/// text.
proof fn lemma_qstring_parse(s: Seq<char>, i: int, t: Seq<char>)
    requires
        matches_at(s, i, escape(t) + seq!['"']),
    ensures
        sp_qstring(s, i) == Some((t, i + escape(t).len() + 1)),
    decreases t.len(),
{
    let pat = escape(t) + seq!['"'];
    if t.len() == 0 {
        assert(escape(t) =~= Seq::<char>::empty());
        assert(pat[0] == '"');
        assert(s[i + 0] == pat[0]);
    } else {
        let c = t[0];
        let t1 = t.subrange(1, t.len() as int);
        assert(escape(t) == esc_char(c) + escape(t1));
        assert(pat =~= esc_char(c) + (escape(t1) + seq!['"']));
        lemma_matches_cat(s, i, esc_char(c), escape(t1) + seq!['"']);
        lemma_qstring_parse(s, i + esc_char(c).len(), t1);
        if c == '"' || c == '\\' || c == '\n' || c == '\r' || c == '\t' {
            assert(esc_char(c).len() == 2);
            assert(s[i + 0] == esc_char(c)[0] && s[i + 1] == esc_char(c)[1]);
            assert(s[i] == '\\');
            assert(unescape_code(s[i + 1]) == Some(c));
            assert(0 <= i < s.len());
            assert(sp_qstring(s, i + 2) == Some((t1, i + 2 + escape(t1).len() + 1)));
            assert(seq![c] + t1 =~= t);
            assert(sp_qstring(s, i) == Some((t, i + escape(t).len() + 1)));
        } else {
            assert(esc_char(c) =~= seq![c]);
            assert(s[i + 0] == esc_char(c)[0]);
            assert(s[i] == c);
            assert(sp_qstring(s, i + 1) == Some((t1, i + 1 + escape(t1).len() + 1)));
            assert(seq![s[i]] + t1 =~= t);
            assert(sp_qstring(s, i) == Some((t, i + escape(t).len() + 1)));
        }
    }
}

// ---------------------------------------------------------------------
// The record grammar
// ---------------------------------------------------------------------
// One cache entry is serialized as a single self-contained line:
//   {"timestamp":T,"data_type":{"Encrypt":{"data":D,"password":P,
//    "resource_type":R,"encrypted_data":E}}}
// or the "Decrypt" variant with its five fields, where each field value
// is a quoted, escaped string and the optional resource id may be null.
pub open spec fn lit_head() -> Seq<char> {
    "{\"timestamp\":"@
}

pub open spec fn lit_enc() -> Seq<char> {
    ",\"data_type\":{\"Encrypt\":{\"data\":"@
}

pub open spec fn lit_dec() -> Seq<char> {
    ",\"data_type\":{\"Decrypt\":{\"encrypted_data\":"@
}

pub open spec fn lit_pw() -> Seq<char> {
    ",\"password\":"@
}

pub open spec fn lit_rt() -> Seq<char> {
    ",\"resource_type\":"@
}

pub open spec fn lit_ed() -> Seq<char> {
    ",\"encrypted_data\":"@
}

pub open spec fn lit_rid() -> Seq<char> {
    ",\"resource_id\":"@
}

pub open spec fn lit_dd() -> Seq<char> {
    ",\"decrypted_data\":"@
}

pub open spec fn lit_null() -> Seq<char> {
    "null"@
}

pub open spec fn lit_tail() -> Seq<char> {
    "}}}"@
}

/// The serialized form of one cache entry.
#[verifier::opaque]
pub open spec fn enc_entry(m: CacheEntryView) -> Seq<char> {
    lit_head() + dec_of(m.timestamp as nat) + (match m.data_type {
        CacheDataView::Encrypt(e) => lit_enc() + quoted(e.data) + lit_pw() + quoted(e.password)
            + lit_rt() + quoted(e.resource_type) + lit_ed() + quoted(e.encrypted_data),
        CacheDataView::Decrypt(d) => lit_dec() + quoted(d.encrypted_data) + lit_pw() + quoted(
            d.password,
        ) + lit_rt() + quoted(d.resource_type) + lit_rid() + (match d.resource_id {
            Some(rid) => quoted(rid),
            None => lit_null(),
        }) + lit_dd() + quoted(d.decrypted_data),
    }) + lit_tail()
}

pub open spec fn sp_encrypt_rest(s: Seq<char>, i: int, ts: u64) -> Option<CacheEntryView> {
    match sp_qstr(s, i) {
        None => None,
        Some((data, i1)) => match sp_lit(s, i1, lit_pw()) {
            None => None,
            Some(i2) => match sp_qstr(s, i2) {
                None => None,
                Some((password, i3)) => match sp_lit(s, i3, lit_rt()) {
                    None => None,
                    Some(i4) => match sp_qstr(s, i4) {
                        None => None,
                        Some((resource_type, i5)) => match sp_lit(s, i5, lit_ed()) {
                            None => None,
                            Some(i6) => match sp_qstr(s, i6) {
                                None => None,
                                Some((encrypted_data, i7)) => match sp_lit(s, i7, lit_tail()) {
                                    None => None,
                                    Some(i8) => if i8 == s.len() {
                                        Some(
                                            CacheEntryView {
                                                timestamp: ts,
                                                data_type: CacheDataView::Encrypt(
                                                    EncryptRecordView {
                                                        data,
                                                        password,
                                                        resource_type,
                                                        encrypted_data,
                                                    },
                                                ),
                                            },
                                        )
                                    } else {
                                        None
                                    },
                                },
                            },
                        },
                    },
                },
            },
        },
    }
}

pub open spec fn sp_rid(s: Seq<char>, i: int) -> Option<(Option<Seq<char>>, int)> {
    match sp_lit(s, i, lit_null()) {
        Some(j) => Some((None, j)),
        None => match sp_qstr(s, i) {
            Some((rid, j)) => Some((Some(rid), j)),
            None => None,
        },
    }
}

pub open spec fn sp_decrypt_rest(s: Seq<char>, i: int, ts: u64) -> Option<CacheEntryView> {
    match sp_qstr(s, i) {
        None => None,
        Some((encrypted_data, i1)) => match sp_lit(s, i1, lit_pw()) {
            None => None,
            Some(i2) => match sp_qstr(s, i2) {
                None => None,
                Some((password, i3)) => match sp_lit(s, i3, lit_rt()) {
                    None => None,
                    Some(i4) => match sp_qstr(s, i4) {
                        None => None,
                        Some((resource_type, i5)) => match sp_lit(s, i5, lit_rid()) {
                            None => None,
                            Some(i6) => match sp_rid(s, i6) {
                                None => None,
                                Some((resource_id, i7)) => match sp_lit(s, i7, lit_dd()) {
                                    None => None,
                                    Some(i8) => match sp_qstr(s, i8) {
                                        None => None,
                                        Some((decrypted_data, i9)) => match sp_lit(
                                            s,
                                            i9,
                                            lit_tail(),
                                        ) {
                                            None => None,
                                            Some(i10) => if i10 == s.len() {
                                                Some(
                                                    CacheEntryView {
                                                        timestamp: ts,
                                                        data_type: CacheDataView::Decrypt(
                                                            DecryptRecordView {
                                                                encrypted_data,
                                                                password,
                                                                resource_type,
                                                                resource_id,
                                                                decrypted_data,
                                                            },
                                                        ),
                                                    },
                                                )
                                            } else {
                                                None
                                            },
                                        },
                                    },
                                },
                            },
                        },
                    },
                },
            },
        },
    }
}

/// Parses one serialized cache record; strict: the whole line must be
/// consumed.
#[verifier::opaque]
pub open spec fn sp_entry(s: Seq<char>) -> Option<CacheEntryView> {
    match sp_lit(s, 0, lit_head()) {
        None => None,
        Some(i1) => match sp_num(s, i1) {
            None => None,
            Some((ts, i2)) => match sp_lit(s, i2, lit_enc()) {
                Some(i3) => sp_encrypt_rest(s, i3, ts),
                None => match sp_lit(s, i2, lit_dec()) {
                    Some(i3) => sp_decrypt_rest(s, i3, ts),
                    None => None,
                },
            },
        },
    }
}

// ---------------------------------------------------------------------
// Executable encoding
// ---------------------------------------------------------------------
fn push_lit(out: &mut Vec<char>, lit: &str)
    ensures
        final(out)@ == old(out)@ + lit@,
{
    let ghost orig = out@;
    let n = lit.unicode_len();
    let mut i: usize = 0;
    while i < n
        invariant
            n == lit@.len(),
            0 <= i <= n,
            out@ == orig + lit@.take(i as int),
        decreases n - i,
    {
        out.push(lit.get_char(i));
        proof {
            assert(out@ =~= orig + lit@.take(i + 1 as int));
        }
        i += 1;
    }
    proof {
        assert(out@ =~= orig + lit@);
    }
}

fn push_escaped(out: &mut Vec<char>, s: &str)
    ensures
        final(out)@ == old(out)@ + escape(s@),
{
    let ghost orig = out@;
    let n = s.unicode_len();
    let mut i: usize = 0;
    while i < n
        invariant
            n == s@.len(),
            0 <= i <= n,
            out@ == orig + escape(s@.take(i as int)),
        decreases n - i,
    {
        let c = s.get_char(i);
        if c == '"' {
            out.push('\\');
            out.push('"');
        } else if c == '\\' {
            out.push('\\');
            out.push('\\');
        } else if c == '\n' {
            out.push('\\');
            out.push('n');
        } else if c == '\r' {
            out.push('\\');
            out.push('r');
        } else if c == '\t' {
            out.push('\\');
            out.push('t');
        } else {
            out.push(c);
        }
        proof {
            assert(s@.take(i + 1 as int) =~= s@.take(i as int).push(s@[i as int]));
            lemma_escape_append(s@.take(i as int), s@[i as int]);
            assert(out@ =~= orig + escape(s@.take(i + 1 as int)));
        }
        i += 1;
    }
    proof {
        assert(s@.take(n as int) =~= s@);
    }
}

fn push_quoted(out: &mut Vec<char>, s: &str)
    ensures
        final(out)@ == old(out)@ + quoted(s@),
{
    let ghost orig = out@;
    out.push('"');
    push_escaped(out, s);
    out.push('"');
    proof {
        assert(out@ =~= orig + quoted(s@));
    }
}

/// Serializes one cache entry as a single line.
pub fn encode_entry(e: &CacheEntry) -> (r: Vec<char>)
    ensures
        r@ == enc_entry(e@),
{
    proof {
        reveal(enc_entry);
    }
    let mut out: Vec<char> = Vec::new();
    push_lit(&mut out, "{\"timestamp\":");
    let mut d = to_dec_chars(e.timestamp);
    out.append(&mut d);
    match &e.data_type {
        CacheDataType::Encrypt(enc) => {
            push_lit(&mut out, ",\"data_type\":{\"Encrypt\":{\"data\":");
            push_quoted(&mut out, enc.data.as_str());
            push_lit(&mut out, ",\"password\":");
            push_quoted(&mut out, enc.password.as_str());
            push_lit(&mut out, ",\"resource_type\":");
            push_quoted(&mut out, enc.resource_type.as_str());
            push_lit(&mut out, ",\"encrypted_data\":");
            push_quoted(&mut out, enc.encrypted_data.as_str());
        },
        CacheDataType::Decrypt(dec) => {
            push_lit(&mut out, ",\"data_type\":{\"Decrypt\":{\"encrypted_data\":");
            push_quoted(&mut out, dec.encrypted_data.as_str());
            push_lit(&mut out, ",\"password\":");
            push_quoted(&mut out, dec.password.as_str());
            push_lit(&mut out, ",\"resource_type\":");
            push_quoted(&mut out, dec.resource_type.as_str());
            push_lit(&mut out, ",\"resource_id\":");
            match &dec.resource_id {
                Some(rid) => push_quoted(&mut out, rid.as_str()),
                None => push_lit(&mut out, "null"),
            }
            push_lit(&mut out, ",\"decrypted_data\":");
            push_quoted(&mut out, dec.decrypted_data.as_str());
        },
    }
    push_lit(&mut out, "}}}");
    proof {
        assert(out@ =~= enc_entry(e@));
    }
    out
}

// ---------------------------------------------------------------------
// Executable parsing
// ---------------------------------------------------------------------
fn is_digit(c: char) -> (r: bool)
    ensures
        r == is_digit_char(c),
{
    c == '0' || c == '1' || c == '2' || c == '3' || c == '4' || c == '5' || c == '6' || c == '7'
        || c == '8' || c == '9'
}

fn char_digit(c: char) -> (r: u64)
    requires
        is_digit_char(c),
    ensures
        r == digit_val(c),
{
    if c == '0' {
        0
    } else if c == '1' {
        1
    } else if c == '2' {
        2
    } else if c == '3' {
        3
    } else if c == '4' {
        4
    } else if c == '5' {
        5
    } else if c == '6' {
        6
    } else if c == '7' {
        7
    } else if c == '8' {
        8
    } else {
        9
    }
}

fn unescape_char(c: char) -> (r: Option<char>)
    ensures
        r == unescape_code(c),
{
    if c == '"' {
        Some('"')
    } else if c == '\\' {
        Some('\\')
    } else if c == 'n' {
        Some('\n')
    } else if c == 'r' {
        Some('\r')
    } else if c == 't' {
        Some('\t')
    } else {
        None
    }
}

fn match_lit(v: &Vec<char>, i: usize, lit: &str) -> (r: Option<usize>)
    requires
        i <= v@.len(),
    ensures
        r matches Some(j) ==> sp_lit(v@, i as int, lit@) == Some(j as int) && i <= j <= v@.len(),
        r is None ==> sp_lit(v@, i as int, lit@) is None,
{
    let m = lit.unicode_len();
    if m > v.len() - i {
        return None;
    }
    let mut k: usize = 0;
    while k < m
        invariant
            m == lit@.len(),
            i + m <= v@.len(),
            v@.len() <= usize::MAX,
            0 <= k <= m,
            forall|t: int| 0 <= t < k ==> v@[i + t] == #[trigger] lit@[t],
        decreases m - k,
    {
        if v[i + k] != lit.get_char(k) {
            return None;
        }
        k += 1;
    }
    Some(i + m)
}

fn parse_num(v: &Vec<char>, i: usize) -> (r: Option<(u64, usize)>)
    requires
        i <= v@.len(),
    ensures
        r matches Some(p) ==> sp_num(v@, i as int) == Some((p.0, p.1 as int)) && i < p.1
            <= v@.len(),
        r is None ==> sp_num(v@, i as int) is None,
{
    let len = v.len();
    let mut j: usize = i;
    loop
        invariant
            i <= j <= len,
            len == v@.len(),
            forall|t: int| i <= t < j ==> is_digit_char(#[trigger] v@[t]),
        ensures
            i <= j <= len,
            forall|t: int| i <= t < j ==> is_digit_char(#[trigger] v@[t]),
            j == len || !is_digit_char(v@[j as int]),
        decreases len - j,
    {
        if j >= len {
            break;
        }
        if !is_digit(v[j]) {
            break;
        }
        j += 1;
    }
    proof {
        lemma_digits_end_from(v@, i as int, j as int);
    }
    if j == i {
        return None;
    }
    let mut acc: u64 = 0;
    let mut k: usize = i;
    while k < j
        invariant
            i <= k <= j <= v@.len(),
            forall|t: int| i <= t < j ==> is_digit_char(#[trigger] v@[t]),
            acc as nat == sp_dec_val(v@.subrange(i as int, k as int)),
            sp_digits_end(v@, i as int) == j,
        decreases j - k,
    {
        let c = v[k];
        let dv = char_digit(c);
        proof {
            assert(v@.subrange(i as int, k + 1 as int) =~= v@.subrange(i as int, k as int).push(
                v@[k as int],
            ));
            assert(v@.subrange(i as int, k + 1 as int).drop_last() =~= v@.subrange(
                i as int,
                k as int,
            ));
        }
        let next = match acc.checked_mul(10) {
            Some(x) => x.checked_add(dv),
            None => None,
        };
        match next {
            Some(y) => {
                acc = y;
            },
            None => {
                proof {
                    assert(sp_dec_val(v@.subrange(i as int, k + 1 as int)) > u64::MAX as nat);
                    assert(v@.subrange(i as int, j as int).subrange(0, k + 1 - i as int)
                        =~= v@.subrange(i as int, k + 1 as int));
                    lemma_dec_val_prefix(v@.subrange(i as int, j as int), k + 1 - i as int);
                    assert(sp_dec_val(v@.subrange(i as int, j as int)) > u64::MAX as nat);
                }
                return None;
            },
        }
        k += 1;
    }
    proof {
        assert(v@.subrange(i as int, k as int) =~= v@.subrange(i as int, j as int));
    }
    Some((acc, j))
}

fn parse_qstr(v: &Vec<char>, i: usize) -> (r: Option<(Vec<char>, usize)>)
    requires
        i <= v@.len(),
    ensures
        r matches Some(p) ==> sp_qstr(v@, i as int) == Some((p.0@, p.1 as int)) && i < p.1
            <= v@.len(),
        r is None ==> sp_qstr(v@, i as int) is None,
{
    if i >= v.len() || v[i] != '"' {
        return None;
    }
    let mut content: Vec<char> = Vec::new();
    let mut cur: usize = i + 1;
    loop
        invariant
            i + 1 <= cur <= v@.len(),
            i < v@.len(),
            v@[i as int] == '"',
            (match sp_qstring(v@, cur as int) {
                Some(te) => sp_qstring(v@, i + 1 as int) == Some((content@ + te.0, te.1)),
                None => sp_qstring(v@, i + 1 as int) is None,
            }),
        decreases v@.len() - cur,
    {
        if cur >= v.len() {
            return None;
        }
        let c = v[cur];
        if c == '"' {
            proof {
                assert(sp_qstring(v@, cur as int) == Some(
                    (Seq::<char>::empty(), cur + 1 as int),
                ));
                assert(content@ + Seq::<char>::empty() =~= content@);
            }
            return Some((content, cur + 1));
        } else if c == '\\' {
            if cur + 1 >= v.len() {
                return None;
            }
            let code = v[cur + 1];
            match unescape_char(code) {
                Some(u) => {
                    proof {
                        assert(match sp_qstring(v@, cur + 2 as int) {
                            Some(te) => sp_qstring(v@, cur as int) == Some(
                                (seq![u] + te.0, te.1),
                            ),
                            None => sp_qstring(v@, cur as int) is None,
                        });
                        if sp_qstring(v@, cur + 2 as int) is Some {
                            let te = sp_qstring(v@, cur + 2 as int)->Some_0;
                            assert((content@ + seq![u]) + te.0 =~= content@ + (seq![u] + te.0));
                        }
                    }
                    content.push(u);
                    cur = cur + 2;
                },
                None => {
                    return None;
                },
            }
        } else {
            proof {
                assert(match sp_qstring(v@, cur + 1 as int) {
                    Some(te) => sp_qstring(v@, cur as int) == Some(
                        (seq![v@[cur as int]] + te.0, te.1),
                    ),
                    None => sp_qstring(v@, cur as int) is None,
                });
                if sp_qstring(v@, cur + 1 as int) is Some {
                    let te = sp_qstring(v@, cur + 1 as int)->Some_0;
                    assert((content@ + seq![v@[cur as int]]) + te.0 =~= content@ + (seq![
                        v@[cur as int],
                    ] + te.0));
                }
            }
            content.push(c);
            cur = cur + 1;
        }
    }
}

/// Parses one serialized cache record back into an entry.
pub fn parse_entry(v: &Vec<char>) -> (r: Option<CacheEntry>)
    ensures
        r matches Some(e) ==> sp_entry(v@) == Some(e@),
        r is None ==> sp_entry(v@) is None,
{
    proof {
        reveal(sp_entry);
    }
    let i1 = match match_lit(v, 0, "{\"timestamp\":") {
        Some(j) => j,
        None => {
            return None;
        },
    };
    let (ts, i2) = match parse_num(v, i1) {
        Some(p) => p,
        None => {
            return None;
        },
    };
    match match_lit(v, i2, ",\"data_type\":{\"Encrypt\":{\"data\":") {
        Some(i3) => {
            let (data, i4) = match parse_qstr(v, i3) {
                Some(p) => p,
                None => {
                    return None;
                },
            };
            let i5 = match match_lit(v, i4, ",\"password\":") {
                Some(j) => j,
                None => {
                    return None;
                },
            };
            let (password, i6) = match parse_qstr(v, i5) {
                Some(p) => p,
                None => {
                    return None;
                },
            };
            let i7 = match match_lit(v, i6, ",\"resource_type\":") {
                Some(j) => j,
                None => {
                    return None;
                },
            };
            let (resource_type, i8) = match parse_qstr(v, i7) {
                Some(p) => p,
                None => {
                    return None;
                },
            };
            let i9 = match match_lit(v, i8, ",\"encrypted_data\":") {
                Some(j) => j,
                None => {
                    return None;
                },
            };
            let (encrypted_data, i10) = match parse_qstr(v, i9) {
                Some(p) => p,
                None => {
                    return None;
                },
            };
            let i11 = match match_lit(v, i10, "}}}") {
                Some(j) => j,
                None => {
                    return None;
                },
            };
            if i11 != v.len() {
                return None;
            }
            Some(
                CacheEntry {
                    timestamp: ts,
                    data_type: CacheDataType::Encrypt(
                        EncryptCacheData {
                            data: chars_to_string(&data),
                            password: chars_to_string(&password),
                            resource_type: chars_to_string(&resource_type),
                            encrypted_data: chars_to_string(&encrypted_data),
                        },
                    ),
                },
            )
        },
        None => {
            let i3 = match match_lit(v, i2, ",\"data_type\":{\"Decrypt\":{\"encrypted_data\":") {
                Some(j) => j,
                None => {
                    return None;
                },
            };
            let (encrypted_data, i4) = match parse_qstr(v, i3) {
                Some(p) => p,
                None => {
                    return None;
                },
            };
            let i5 = match match_lit(v, i4, ",\"password\":") {
                Some(j) => j,
                None => {
                    return None;
                },
            };
            let (password, i6) = match parse_qstr(v, i5) {
                Some(p) => p,
                None => {
                    return None;
                },
            };
            let i7 = match match_lit(v, i6, ",\"resource_type\":") {
                Some(j) => j,
                None => {
                    return None;
                },
            };
            let (resource_type, i8) = match parse_qstr(v, i7) {
                Some(p) => p,
                None => {
                    return None;
                },
            };
            let i9 = match match_lit(v, i8, ",\"resource_id\":") {
                Some(j) => j,
                None => {
                    return None;
                },
            };
            let (resource_id, i10): (Option<String>, usize) = match match_lit(v, i9, "null") {
                Some(j) => (None, j),
                None => match parse_qstr(v, i9) {
                    Some(p) => (Some(chars_to_string(&p.0)), p.1),
                    None => {
                        return None;
                    },
                },
            };
            let i11 = match match_lit(v, i10, ",\"decrypted_data\":") {
                Some(j) => j,
                None => {
                    return None;
                },
            };
            let (decrypted_data, i12) = match parse_qstr(v, i11) {
                Some(p) => p,
                None => {
                    return None;
                },
            };
            let i13 = match match_lit(v, i12, "}}}") {
                Some(j) => j,
                None => {
                    return None;
                },
            };
            if i13 != v.len() {
                return None;
            }
            Some(
                CacheEntry {
                    timestamp: ts,
                    data_type: CacheDataType::Decrypt(
                        DecryptCacheData {
                            encrypted_data: chars_to_string(&encrypted_data),
                            password: chars_to_string(&password),
                            resource_type: chars_to_string(&resource_type),
                            resource_id,
                            decrypted_data: chars_to_string(&decrypted_data),
                        },
                    ),
                },
            )
        },
    }
}

// ---------------------------------------------------------------------
// The record round trip
// ---------------------------------------------------------------------
proof fn lemma_matches_self(s: Seq<char>)
    ensures
        matches_at(s, 0, s),
{
    assert forall|k: int| 0 <= k < s.len() implies s[0 + k] == #[trigger] s[k] by {}
}

proof fn lemma_qstr_parse_at(s: Seq<char>, i: int, t: Seq<char>)
    requires
        matches_at(s, i, quoted(t)),
    ensures
        sp_qstr(s, i) == Some((t, i + quoted(t).len())),
{
    assert(quoted(t) =~= seq!['"'] + (escape(t) + seq!['"']));
    lemma_matches_cat(s, i, seq!['"'], escape(t) + seq!['"']);
    assert(s[i + 0] == seq!['"'][0]);
    assert(s[i] == '"');
    lemma_qstring_parse(s, i + 1, t);
    assert(quoted(t).len() == escape(t).len() + 2);
}

proof fn lemma_tag_disambiguation(s: Seq<char>, i: int)
    requires
        matches_at(s, i, lit_dec()),
    ensures
        sp_lit(s, i, lit_enc()) is None,
{
    reveal_strlit(",\"data_type\":{\"Encrypt\":{\"data\":");
    reveal_strlit(",\"data_type\":{\"Decrypt\":{\"encrypted_data\":");
    assert(lit_enc().len() == 32);
    assert(lit_dec().len() == 42);
    if matches_at(s, i, lit_enc()) {
        assert(s[i + 15] == lit_enc()[15]);
        assert(s[i + 15] == lit_dec()[15]);
        assert(lit_enc()[15] == 'E');
        assert(lit_dec()[15] == 'D');
        assert(false);
    }
}

proof fn lemma_rid_quote_not_null(s: Seq<char>, i: int)
    requires
        0 <= i < s.len(),
        s[i] == '"',
    ensures
        sp_lit(s, i, lit_null()) is None,
{
    reveal_strlit("null");
    assert(lit_null().len() == 4);
    if matches_at(s, i, lit_null()) {
        assert(s[i + 0] == lit_null()[0]);
        assert(lit_null()[0] == 'n');
        assert(false);
    }
}


proof fn lemma_lit_enc_facts()
    ensures
        lit_enc().len() == 32,
        lit_enc()[0] == ',',
{
    reveal_strlit(",\"data_type\":{\"Encrypt\":{\"data\":");
}

proof fn lemma_lit_dec_facts()
    ensures
        lit_dec().len() == 42,
        lit_dec()[0] == ',',
{
    reveal_strlit(",\"data_type\":{\"Decrypt\":{\"encrypted_data\":");
}

#[verifier::rlimit(60)]
proof fn lemma_roundtrip_encrypt(m: CacheEntryView, e: EncryptRecordView)
    requires
        m.data_type == CacheDataView::Encrypt(e),
    ensures
        sp_entry(enc_entry(m)) == Some(m),
{
    reveal(enc_entry);
    reveal(sp_entry);
    let s = enc_entry(m);
    let a0 = lit_head();
    let a1 = dec_of(m.timestamp as nat);
    let a2 = lit_enc();
    let a3 = quoted(e.data);
    let a4 = lit_pw();
    let a5 = quoted(e.password);
    let a6 = lit_rt();
    let a7 = quoted(e.resource_type);
    let a8 = lit_ed();
    let a9 = quoted(e.encrypted_data);
    let a10 = lit_tail();
    let p3 = a2 + a3;
    let p4 = p3 + a4;
    let p5 = p4 + a5;
    let p6 = p5 + a6;
    let p7 = p6 + a7;
    let p8 = p7 + a8;
    let p9 = p8 + a9;
    assert(s == ((a0 + a1) + p9) + a10);
    lemma_matches_self(s);
    lemma_matches_cat(s, 0, (a0 + a1) + p9, a10);
    lemma_matches_cat(s, 0, a0 + a1, p9);
    lemma_matches_cat(s, 0, a0, a1);
    let off = (a0 + a1).len() as int;
    assert((a0 + a1).len() == a0.len() + a1.len());
    lemma_matches_cat(s, off, p8, a9);
    lemma_matches_cat(s, off, p7, a8);
    lemma_matches_cat(s, off, p6, a7);
    lemma_matches_cat(s, off, p5, a6);
    lemma_matches_cat(s, off, p4, a5);
    lemma_matches_cat(s, off, p3, a4);
    lemma_matches_cat(s, off, a2, a3);
    assert(p3.len() == a2.len() + a3.len());
    assert(p4.len() == p3.len() + a4.len());
    assert(p5.len() == p4.len() + a5.len());
    assert(p6.len() == p5.len() + a6.len());
    assert(p7.len() == p6.len() + a7.len());
    assert(p8.len() == p7.len() + a8.len());
    assert(p9.len() == p8.len() + a9.len());
    let i1 = a0.len() as int;
    let i2 = i1 + a1.len();
    let i3 = i2 + a2.len();
    let i4 = i3 + a3.len();
    let i5 = i4 + a4.len();
    let i6 = i5 + a5.len();
    let i7 = i6 + a6.len();
    let i8 = i7 + a7.len();
    let i9 = i8 + a8.len();
    let i10 = i9 + a9.len();
    assert(sp_lit(s, 0, lit_head()) == Some(i1));
    lemma_lit_enc_facts();
    lemma_dec_all_digits(m.timestamp as nat);
    assert(s[i2 + 0] == a2[0]);
    assert(!is_digit_char(s[i2]));
    lemma_num_parse(s, i1, m.timestamp);
    assert(sp_num(s, i1) == Some((m.timestamp, i2)));
    assert(sp_lit(s, i2, lit_enc()) == Some(i3));
    lemma_qstr_parse_at(s, i3, e.data);
    assert(sp_qstr(s, i3) == Some((e.data, i4)));
    assert(sp_lit(s, i4, lit_pw()) == Some(i5));
    lemma_qstr_parse_at(s, i5, e.password);
    assert(sp_qstr(s, i5) == Some((e.password, i6)));
    assert(sp_lit(s, i6, lit_rt()) == Some(i7));
    lemma_qstr_parse_at(s, i7, e.resource_type);
    assert(sp_qstr(s, i7) == Some((e.resource_type, i8)));
    assert(sp_lit(s, i8, lit_ed()) == Some(i9));
    lemma_qstr_parse_at(s, i9, e.encrypted_data);
    assert(sp_qstr(s, i9) == Some((e.encrypted_data, i10)));
    assert(s.len() == (a0 + a1).len() + p9.len() + a10.len());
    assert(i10 + a10.len() == s.len());
    assert(sp_lit(s, i10, lit_tail()) == Some(i10 + a10.len() as int));
    assert(e == EncryptRecordView {
        data: e.data,
        password: e.password,
        resource_type: e.resource_type,
        encrypted_data: e.encrypted_data,
    });
    assert(sp_encrypt_rest(s, i3, m.timestamp) == Some(m));
}

#[verifier::rlimit(60)]
proof fn lemma_roundtrip_decrypt(m: CacheEntryView, d: DecryptRecordView)
    requires
        m.data_type == CacheDataView::Decrypt(d),
    ensures
        sp_entry(enc_entry(m)) == Some(m),
{
    reveal(enc_entry);
    reveal(sp_entry);
    let s = enc_entry(m);
    let a0 = lit_head();
    let a1 = dec_of(m.timestamp as nat);
    let a2 = lit_dec();
    let a3 = quoted(d.encrypted_data);
    let a4 = lit_pw();
    let a5 = quoted(d.password);
    let a6 = lit_rt();
    let a7 = quoted(d.resource_type);
    let a8 = lit_rid();
    let a9 = match d.resource_id {
        Some(rid) => quoted(rid),
        None => lit_null(),
    };
    let a10 = lit_dd();
    let a11 = quoted(d.decrypted_data);
    let a12 = lit_tail();
    let p3 = a2 + a3;
    let p4 = p3 + a4;
    let p5 = p4 + a5;
    let p6 = p5 + a6;
    let p7 = p6 + a7;
    let p8 = p7 + a8;
    let p9 = p8 + a9;
    let p10 = p9 + a10;
    let p11 = p10 + a11;
    assert(s == ((a0 + a1) + p11) + a12);
    lemma_matches_self(s);
    lemma_matches_cat(s, 0, (a0 + a1) + p11, a12);
    lemma_matches_cat(s, 0, a0 + a1, p11);
    lemma_matches_cat(s, 0, a0, a1);
    let off = (a0 + a1).len() as int;
    assert((a0 + a1).len() == a0.len() + a1.len());
    lemma_matches_cat(s, off, p10, a11);
    lemma_matches_cat(s, off, p9, a10);
    lemma_matches_cat(s, off, p8, a9);
    lemma_matches_cat(s, off, p7, a8);
    lemma_matches_cat(s, off, p6, a7);
    lemma_matches_cat(s, off, p5, a6);
    lemma_matches_cat(s, off, p4, a5);
    lemma_matches_cat(s, off, p3, a4);
    lemma_matches_cat(s, off, a2, a3);
    assert(p3.len() == a2.len() + a3.len());
    assert(p4.len() == p3.len() + a4.len());
    assert(p5.len() == p4.len() + a5.len());
    assert(p6.len() == p5.len() + a6.len());
    assert(p7.len() == p6.len() + a7.len());
    assert(p8.len() == p7.len() + a8.len());
    assert(p9.len() == p8.len() + a9.len());
    assert(p10.len() == p9.len() + a10.len());
    assert(p11.len() == p10.len() + a11.len());
    let i1 = a0.len() as int;
    let i2 = i1 + a1.len();
    let i3 = i2 + a2.len();
    let i4 = i3 + a3.len();
    let i5 = i4 + a4.len();
    let i6 = i5 + a5.len();
    let i7 = i6 + a6.len();
    let i8 = i7 + a7.len();
    let i9 = i8 + a8.len();
    let i10 = i9 + a9.len();
    let i11 = i10 + a10.len();
    let i12 = i11 + a11.len();
    assert(sp_lit(s, 0, lit_head()) == Some(i1));
    lemma_lit_dec_facts();
    lemma_dec_all_digits(m.timestamp as nat);
    assert(s[i2 + 0] == a2[0]);
    assert(!is_digit_char(s[i2]));
    lemma_num_parse(s, i1, m.timestamp);
    assert(sp_num(s, i1) == Some((m.timestamp, i2)));
    lemma_tag_disambiguation(s, i2);
    assert(sp_lit(s, i2, lit_dec()) == Some(i3));
    lemma_qstr_parse_at(s, i3, d.encrypted_data);
    assert(sp_qstr(s, i3) == Some((d.encrypted_data, i4)));
    assert(sp_lit(s, i4, lit_pw()) == Some(i5));
    lemma_qstr_parse_at(s, i5, d.password);
    assert(sp_qstr(s, i5) == Some((d.password, i6)));
    assert(sp_lit(s, i6, lit_rt()) == Some(i7));
    lemma_qstr_parse_at(s, i7, d.resource_type);
    assert(sp_qstr(s, i7) == Some((d.resource_type, i8)));
    assert(sp_lit(s, i8, lit_rid()) == Some(i9));
    match d.resource_id {
        Some(rid) => {
            assert(matches_at(s, i9, quoted(rid)));
            assert(s[i9 + 0] == quoted(rid)[0]);
            assert(s[i9] == '"');
            lemma_rid_quote_not_null(s, i9);
            lemma_qstr_parse_at(s, i9, rid);
            assert(sp_rid(s, i9) == Some((Some(rid), i10)));
        },
        None => {
            assert(matches_at(s, i9, lit_null()));
            assert(sp_rid(s, i9) == Some((None::<Seq<char>>, i10)));
        },
    }
    assert(sp_lit(s, i10, lit_dd()) == Some(i11));
    lemma_qstr_parse_at(s, i11, d.decrypted_data);
    assert(sp_qstr(s, i11) == Some((d.decrypted_data, i12)));
    assert(s.len() == (a0 + a1).len() + p11.len() + a12.len());
    assert(i12 + a12.len() == s.len());
    assert(sp_lit(s, i12, lit_tail()) == Some(i12 + a12.len() as int));
    assert(d == DecryptRecordView {
        encrypted_data: d.encrypted_data,
        password: d.password,
        resource_type: d.resource_type,
        resource_id: d.resource_id,
        decrypted_data: d.decrypted_data,
    });
    assert(sp_decrypt_rest(s, i3, m.timestamp) == Some(m));
}

/// Law: a serialized cache record parses back to exactly the entry it
/// was encoded from — for every timestamp, every payload variant and
/// every field content, including contents that need escaping.
pub proof fn lemma_record_roundtrip(m: CacheEntryView)
    ensures
        sp_entry(enc_entry(m)) == Some(m),
{
    match m.data_type {
        CacheDataView::Encrypt(e) => lemma_roundtrip_encrypt(m, e),
        CacheDataView::Decrypt(d) => lemma_roundtrip_decrypt(m, d),
    }
}

} // verus!
