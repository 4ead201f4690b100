//! Claims codec: a flat, self-delimiting text form for identity claims.
//!
//! A claims value is rendered as fixed-width decimal numbers and raw text:
//! the identifier (offset into the unsigned range, 10 digits), the creation
//! timestamp (offset likewise, 20 digits), then each of the three string
//! fields preceded by its length in characters (20 digits). Fixed widths
//! make the form canonical: every claims value has exactly one rendering,
//! and the rendering pins the value down.

use vstd::prelude::*;
use crate::models::{UserData, UserDataView};

verus! {

/// The ten decimal digit characters, in order.
pub open spec fn digit_table() -> Seq<char> {
    seq!['0', '1', '2', '3', '4', '5', '6', '7', '8', '9']
}

/// Whether `c` is a decimal digit.
pub open spec fn is_digit(c: char) -> bool {
    ||| c == '0'
    ||| c == '1'
    ||| c == '2'
    ||| c == '3'
    ||| c == '4'
    ||| c == '5'
    ||| c == '6'
    ||| c == '7'
    ||| c == '8'
    ||| c == '9'
}

/// The numeric value of a digit character.
pub open spec fn digit_val(c: char) -> int {
    if c == '0' {
        0
    } else if c == '1' {
        1
    } else if c == '2' {
        2
    } else if c == '3' {
        3
    } else if c == '4' {
        4
    } else if c == '5' {
        5
    } else if c == '6' {
        6
    } else if c == '7' {
        7
    } else if c == '8' {
        8
    } else if c == '9' {
        9
    } else {
        10
    }
}

/// All characters of `s` are decimal digits.
pub open spec fn all_digits(s: Seq<char>) -> bool {
    forall|i: int| 0 <= i < s.len() ==> is_digit(#[trigger] s[i])
}

/// `n` rendered in decimal, zero-padded to exactly `w` digits
/// (the `w` lowest digits of `n`, most significant first).
pub open spec fn dec_fixed(n: nat, w: nat) -> Seq<char>
    decreases w,
{
    if w == 0 {
        Seq::empty()
    } else {
        dec_fixed(n / 10, (w - 1) as nat) + seq![digit_table()[(n % 10) as int]]
    }
}

/// The value of a digit string, most significant digit first.
pub open spec fn digits_val(s: Seq<char>) -> int
    decreases s.len(),
{
    if s.len() == 0 {
        0
    } else {
        digits_val(s.drop_last()) * 10 + digit_val(s.last())
    }
}

/// Ten to the `w`.
pub open spec fn pow10(w: nat) -> nat
    decreases w,
{
    if w == 0 {
        1
    } else {
        10 * pow10((w - 1) as nat)
    }
}

proof fn lemma_digit_table_entry(d: int)
    requires
        0 <= d < 10,
    ensures
        is_digit(digit_table()[d]),
        digit_val(digit_table()[d]) == d,
{
    if d == 0 {
        assert(digit_table()[0] == '0');
    } else if d == 1 {
        assert(digit_table()[1] == '1');
    } else if d == 2 {
        assert(digit_table()[2] == '2');
    } else if d == 3 {
        assert(digit_table()[3] == '3');
    } else if d == 4 {
        assert(digit_table()[4] == '4');
    } else if d == 5 {
        assert(digit_table()[5] == '5');
    } else if d == 6 {
        assert(digit_table()[6] == '6');
    } else if d == 7 {
        assert(digit_table()[7] == '7');
    } else if d == 8 {
        assert(digit_table()[8] == '8');
    } else {
        assert(digit_table()[9] == '9');
    }
}

proof fn lemma_digit_char_of_val(c: char)
    requires
        is_digit(c),
    ensures
        digit_table()[digit_val(c)] == c,
{
    if c == '0' {
        assert(digit_table()[0] == '0');
    } else if c == '1' {
        assert(digit_table()[1] == '1');
    } else if c == '2' {
        assert(digit_table()[2] == '2');
    } else if c == '3' {
        assert(digit_table()[3] == '3');
    } else if c == '4' {
        assert(digit_table()[4] == '4');
    } else if c == '5' {
        assert(digit_table()[5] == '5');
    } else if c == '6' {
        assert(digit_table()[6] == '6');
    } else if c == '7' {
        assert(digit_table()[7] == '7');
    } else if c == '8' {
        assert(digit_table()[8] == '8');
    } else {
        assert(digit_table()[9] == '9');
    }
}

pub proof fn lemma_dec_fixed_len(n: nat, w: nat)
    ensures
        dec_fixed(n, w).len() == w,
        all_digits(dec_fixed(n, w)),
    decreases w,
{
    if w > 0 {
        lemma_dec_fixed_len(n / 10, (w - 1) as nat);
        lemma_digit_table_entry((n % 10) as int);
        let s = dec_fixed(n, w);
        let s0 = dec_fixed(n / 10, (w - 1) as nat);
        assert forall|i: int| 0 <= i < s.len() implies is_digit(#[trigger] s[i]) by {
            if i < s0.len() {
                assert(s[i] == s0[i]);
            } else {
                assert(s[i] == digit_table()[(n % 10) as int]);
            }
        }
    }
}

/// A value below `pow10(w)` is recovered exactly from its `w`-digit form.
pub proof fn lemma_val_of_dec_fixed(n: nat, w: nat)
    requires
        n < pow10(w),
    ensures
        digits_val(dec_fixed(n, w)) == n,
    decreases w,
{
    if w == 0 {
        assert(n == 0);
    } else {
        let s0 = dec_fixed(n / 10, (w - 1) as nat);
        let d = seq![digit_table()[(n % 10) as int]];
        assert(n / 10 < pow10((w - 1) as nat)) by {
            assert(pow10(w) == 10 * pow10((w - 1) as nat));
        };
        lemma_val_of_dec_fixed(n / 10, (w - 1) as nat);
        lemma_digit_table_entry((n % 10) as int);
        assert((s0 + d).drop_last() =~= s0);
        assert((s0 + d).last() == digit_table()[(n % 10) as int]);
    }
}

/// Every digit string of width `w` is the canonical form of its own value.
pub proof fn lemma_digits_canonical(s: Seq<char>)
    requires
        all_digits(s),
    ensures
        0 <= digits_val(s) < pow10(s.len()),
        dec_fixed(digits_val(s) as nat, s.len()) == s,
    decreases s.len(),
{
    if s.len() == 0 {
        assert(dec_fixed(0, 0) =~= s);
    } else {
        let s0 = s.drop_last();
        let c = s.last();
        assert(all_digits(s0));
        assert(is_digit(c));
        lemma_digits_canonical(s0);
        let v0 = digits_val(s0);
        let v = digits_val(s);
        assert(v == v0 * 10 + digit_val(c));
        assert(0 <= digit_val(c) < 10);
        assert(pow10(s.len()) == 10 * pow10(s0.len()));
        assert(v < pow10(s.len())) by {
            assert(v0 <= pow10(s0.len()) - 1);
            assert(v0 * 10 <= (pow10(s0.len()) - 1) * 10);
        };
        assert(v as nat / 10 == v0) by {
            assert(v == 10 * v0 + digit_val(c));
        };
        assert(v as nat % 10 == digit_val(c));
        lemma_digit_char_of_val(c);
        assert(dec_fixed(v as nat, s.len()) =~= s) by {
            assert(dec_fixed(v as nat, s.len()) == dec_fixed(v0 as nat, s0.len())
                + seq![digit_table()[digit_val(c)]]);
        };
    }
}

/// A longer digit string never has a smaller value than its prefix.
pub proof fn lemma_digits_val_prefix(s: Seq<char>, i: int)
    requires
        all_digits(s),
        0 <= i <= s.len(),
    ensures
        digits_val(s) >= digits_val(s.take(i)),
        digits_val(s) >= 0,
    decreases s.len() - i,
{
    if i == s.len() {
        assert(s.take(i) =~= s);
        lemma_digits_canonical(s);
    } else {
        lemma_digits_val_prefix(s, i + 1);
        let t = s.take(i + 1);
        assert(all_digits(t)) by {
            assert(forall|j: int| 0 <= j < t.len() ==> t[j] == s[j]);
        };
        assert(t.drop_last() =~= s.take(i));
        assert(is_digit(t.last()));
        lemma_digits_canonical(s.take(i));
        assert(digits_val(t) == digits_val(s.take(i)) * 10 + digit_val(t.last()));
        assert(digits_val(t) >= digits_val(s.take(i)));
    }
}

/// Appends one digit character to `out`.
fn append_digit(out: &mut String, d: u64)
    requires
        d < 10,
    ensures
        final(out)@ == old(out)@ + seq![digit_table()[d as int]],
{
    let tab: &str = "0123456789";
    proof {
        reveal_strlit("0123456789");
        assert(tab@ =~= digit_table());
    }
    let ds = tab.substring_char(d as usize, d as usize + 1);
    proof {
        assert(ds@ =~= seq![digit_table()[d as int]]);
    }
    out.append(ds);
}

/// Appends `n` in decimal, zero-padded to exactly `w` digits.
fn append_dec_fixed(out: &mut String, n: u64, w: u64)
    ensures
        final(out)@ == old(out)@ + dec_fixed(n as nat, w as nat),
    decreases w,
{
    if w > 0 {
        append_dec_fixed(out, n / 10, w - 1);
        append_digit(out, n % 10);
        proof {
            assert(final(out)@ =~= old(out)@ + dec_fixed(n as nat, w as nat));
        }
    } else {
        proof {
            assert(dec_fixed(n as nat, 0) =~= Seq::<char>::empty());
            assert(final(out)@ =~= old(out)@ + dec_fixed(n as nat, 0));
        }
    }
}

/// Reads the `w` characters of `s` starting at `start` as a decimal number.
///
/// Returns the value exactly when the characters are all digits and the
/// value fits in the result type.
fn parse_dec_fixed(s: &str, start: usize, w: usize) -> (r: Option<u64>)
    requires
        start + w <= s@.len(),
    ensures
        r matches Some(n) ==> s@.subrange(start as int, (start + w) as int) == dec_fixed(
            n as nat,
            w as nat,
        ) && n as int == digits_val(s@.subrange(start as int, (start + w) as int)),
        ({
            let sub = s@.subrange(start as int, (start + w) as int);
            all_digits(sub) && digits_val(sub) < 0x1_0000_0000_0000_0000
        }) ==> (r matches Some(n) && n as int == digits_val(
            s@.subrange(start as int, (start + w) as int),
        )),
{
    let total = s.unicode_len();
    let ghost sub = s@.subrange(start as int, (start + w) as int);
    let mut acc: u64 = 0;
    let mut i: usize = 0;
    while i < w
        invariant
            0 <= i <= w,
            start + w <= s@.len(),
            total == s@.len(),
            sub == s@.subrange(start as int, (start + w) as int),
            all_digits(sub.take(i as int)),
            acc as int == digits_val(sub.take(i as int)),
        decreases w - i,
    {
        let c = s.get_char(start + i);
        proof {
            assert(sub[i as int] == s@[(start + i) as int]);
            assert(sub.take(i as int + 1).drop_last() =~= sub.take(i as int));
            assert(sub.take(i as int + 1).last() == sub[i as int]);
        }
        let d: u64 = match c {
            '0' => 0,
            '1' => 1,
            '2' => 2,
            '3' => 3,
            '4' => 4,
            '5' => 5,
            '6' => 6,
            '7' => 7,
            '8' => 8,
            '9' => 9,
            _ => {
                proof {
                    assert(!is_digit(sub[i as int]));
                }
                return None;
            },
        };
        proof {
            assert(is_digit(sub[i as int]) && digit_val(sub[i as int]) == d as int);
        }
        if acc > 0xFFFF_FFFF_FFFF_FFFF / 10 || (acc == 0xFFFF_FFFF_FFFF_FFFF / 10 && d
            > 0xFFFF_FFFF_FFFF_FFFF % 10) {
            proof {
                assert(all_digits(sub.take(i as int + 1)));
                assert(digits_val(sub.take(i as int + 1)) == acc as int * 10 + d);
                assert(digits_val(sub.take(i as int + 1)) >= 0x1_0000_0000_0000_0000);
                if all_digits(sub) {
                    lemma_digits_val_prefix(sub, i as int + 1);
                }
            }
            return None;
        }
        acc = acc * 10 + d;
        i = i + 1;
    }
    proof {
        assert(sub.take(w as int) =~= sub);
        lemma_digits_canonical(sub);
    }
    Some(acc)
}

/// Identity claims whose numbers are in machine range and whose strings
/// have a length a 20-digit field can carry.
pub open spec fn claims_wf(v: UserDataView) -> bool {
    &&& -0x8000_0000 <= v.id < 0x8000_0000
    &&& -0x8000_0000_0000_0000 <= v.created_at < 0x8000_0000_0000_0000
    &&& v.first_name.len() < 0x1_0000_0000_0000_0000
    &&& v.last_name.len() < 0x1_0000_0000_0000_0000
    &&& v.email.len() < 0x1_0000_0000_0000_0000
}

/// The identifier shifted into the unsigned range.
pub open spec fn id_code(id: int) -> nat {
    (id + 0x8000_0000) as nat
}

/// The timestamp shifted into the unsigned range.
pub open spec fn ca_code(ca: int) -> nat {
    (ca + 0x8000_0000_0000_0000) as nat
}

/// The canonical text form of a claims value.
pub open spec fn enc_claims(v: UserDataView) -> Seq<char> {
    dec_fixed(id_code(v.id), 10) + dec_fixed(ca_code(v.created_at), 20) + dec_fixed(
        v.first_name.len(),
        20,
    ) + v.first_name + dec_fixed(v.last_name.len(), 20) + v.last_name + dec_fixed(
        v.email.len(),
        20,
    ) + v.email
}

proof fn lemma_pow10_vals()
    ensures
        pow10(10) == 10000000000,
        pow10(20) == 100000000000000000000nat,
{
    assert(pow10(0) == 1);
    assert(pow10(1) == 10);
    assert(pow10(2) == 100);
    assert(pow10(3) == 1000);
    assert(pow10(4) == 10000);
    assert(pow10(5) == 100000);
    assert(pow10(6) == 1000000);
    assert(pow10(7) == 10000000);
    assert(pow10(8) == 100000000);
    assert(pow10(9) == 1000000000);
    assert(pow10(10) == 10000000000);
    assert(pow10(11) == 100000000000);
    assert(pow10(12) == 1000000000000);
    assert(pow10(13) == 10000000000000);
    assert(pow10(14) == 100000000000000);
    assert(pow10(15) == 1000000000000000);
    assert(pow10(16) == 10000000000000000);
    assert(pow10(17) == 100000000000000000);
    assert(pow10(18) == 1000000000000000000);
    assert(pow10(19) == 10000000000000000000);
    assert(pow10(20) == 100000000000000000000nat);
}

/// How the canonical form splits into its eight parts.
proof fn lemma_enc_parts(v: UserDataView)
    requires
        claims_wf(v),
    ensures
        ({
            let s = enc_claims(v);
            let f = v.first_name.len() as int;
            let l = v.last_name.len() as int;
            let e = v.email.len() as int;
            &&& s.len() == 90 + f + l + e
            &&& s.subrange(0, 10) == dec_fixed(id_code(v.id), 10)
            &&& s.subrange(10, 30) == dec_fixed(ca_code(v.created_at), 20)
            &&& s.subrange(30, 50) == dec_fixed(v.first_name.len(), 20)
            &&& s.subrange(50, 50 + f) == v.first_name
            &&& s.subrange(50 + f, 70 + f) == dec_fixed(v.last_name.len(), 20)
            &&& s.subrange(70 + f, 70 + f + l) == v.last_name
            &&& s.subrange(70 + f + l, 90 + f + l) == dec_fixed(v.email.len(), 20)
            &&& s.subrange(90 + f + l, 90 + f + l + e) == v.email
        }),
{
    let s = enc_claims(v);
    let f = v.first_name.len() as int;
    let l = v.last_name.len() as int;
    let e = v.email.len() as int;
    lemma_dec_fixed_len(id_code(v.id), 10);
    lemma_dec_fixed_len(ca_code(v.created_at), 20);
    lemma_dec_fixed_len(v.first_name.len(), 20);
    lemma_dec_fixed_len(v.last_name.len(), 20);
    lemma_dec_fixed_len(v.email.len(), 20);
    assert(s.subrange(0, 10) =~= dec_fixed(id_code(v.id), 10));
    assert(s.subrange(10, 30) =~= dec_fixed(ca_code(v.created_at), 20));
    assert(s.subrange(30, 50) =~= dec_fixed(v.first_name.len(), 20));
    assert(s.subrange(50, 50 + f) =~= v.first_name);
    assert(s.subrange(50 + f, 70 + f) =~= dec_fixed(v.last_name.len(), 20));
    assert(s.subrange(70 + f, 70 + f + l) =~= v.last_name);
    assert(s.subrange(70 + f + l, 90 + f + l) =~= dec_fixed(v.email.len(), 20));
    assert(s.subrange(90 + f + l, 90 + f + l + e) =~= v.email);
}

/// Law: no two distinct well-formed claims values share a canonical form.
pub proof fn lemma_enc_claims_injective(v1: UserDataView, v2: UserDataView)
    requires
        claims_wf(v1),
        claims_wf(v2),
        enc_claims(v1) == enc_claims(v2),
    ensures
        v1 == v2,
{
    lemma_enc_parts(v1);
    lemma_enc_parts(v2);
    lemma_pow10_vals();
    let s = enc_claims(v1);
    lemma_val_of_dec_fixed(id_code(v1.id), 10);
    lemma_val_of_dec_fixed(id_code(v2.id), 10);
    assert(v1.id == v2.id);
    lemma_val_of_dec_fixed(ca_code(v1.created_at), 20);
    lemma_val_of_dec_fixed(ca_code(v2.created_at), 20);
    assert(v1.created_at == v2.created_at);
    lemma_val_of_dec_fixed(v1.first_name.len(), 20);
    lemma_val_of_dec_fixed(v2.first_name.len(), 20);
    assert(v1.first_name.len() == v2.first_name.len());
    let f = v1.first_name.len() as int;
    assert(v1.first_name == v2.first_name);
    lemma_val_of_dec_fixed(v1.last_name.len(), 20);
    lemma_val_of_dec_fixed(v2.last_name.len(), 20);
    assert(v1.last_name.len() == v2.last_name.len());
    let l = v1.last_name.len() as int;
    assert(v1.last_name == v2.last_name);
    assert(v1.email.len() == v2.email.len());
    let e = v1.email.len() as int;
    assert(v1.email == v2.email);
}

/// The claims value a text form stands for, if any.
pub open spec fn dec_claims(s: Seq<char>) -> Option<UserDataView> {
    if exists|v: UserDataView| claims_wf(v) && enc_claims(v) == s {
        Some(choose|v: UserDataView| claims_wf(v) && enc_claims(v) == s)
    } else {
        None
    }
}

/// Law: encoding then decoding returns the claims unchanged.
pub proof fn lemma_claims_round_trip(v: UserDataView)
    requires
        claims_wf(v),
    ensures
        dec_claims(enc_claims(v)) == Some(v),
{
    let s = enc_claims(v);
    assert(claims_wf(v) && enc_claims(v) == s);
    let w = choose|w: UserDataView| claims_wf(w) && enc_claims(w) == s;
    lemma_enc_claims_injective(v, w);
}

/// Renders the claims in their canonical text form.
pub fn encode_claims(u: &UserData) -> (r: String)
    ensures
        r@ == enc_claims(u@),
        claims_wf(u@),
{
    let f_len = u.first_name.as_str().unicode_len();
    let l_len = u.last_name.as_str().unicode_len();
    let e_len = u.email.as_str().unicode_len();
    let idc: u64 = ((u.id as i64) + 0x8000_0000) as u64;
    let cac: u64 = ((u.created_at as i128) + 0x8000_0000_0000_0000) as u64;
    let mut out = String::new();
    append_dec_fixed(&mut out, idc, 10);
    append_dec_fixed(&mut out, cac, 20);
    append_dec_fixed(&mut out, f_len as u64, 20);
    out.append(u.first_name.as_str());
    append_dec_fixed(&mut out, l_len as u64, 20);
    out.append(u.last_name.as_str());
    append_dec_fixed(&mut out, e_len as u64, 20);
    out.append(u.email.as_str());
    proof {
        assert(out@ =~= enc_claims(u@));
    }
    out
}


/// What every canonical form looks like from the outside: its length, and
/// the digit fields with the values and bounds the layout forces.
proof fn lemma_enc_shape(s: Seq<char>)
    requires
        exists|w: UserDataView| claims_wf(w) && enc_claims(w) == s,
    ensures
        s.len() >= 90,
        all_digits(s.subrange(0, 10)),
        0 <= digits_val(s.subrange(0, 10)) < 0x1_0000_0000,
        all_digits(s.subrange(10, 30)),
        0 <= digits_val(s.subrange(10, 30)) < 0x1_0000_0000_0000_0000,
        all_digits(s.subrange(30, 50)),
        0 <= digits_val(s.subrange(30, 50)) <= s.len() - 90,
        digits_val(s.subrange(30, 50)) < 0x1_0000_0000_0000_0000,
        ({
            let f = digits_val(s.subrange(30, 50));
            &&& all_digits(s.subrange(50 + f, 70 + f))
            &&& 0 <= digits_val(s.subrange(50 + f, 70 + f)) <= s.len() - 90 - f
            &&& digits_val(s.subrange(50 + f, 70 + f)) < 0x1_0000_0000_0000_0000
            &&& ({
                let l = digits_val(s.subrange(50 + f, 70 + f));
                &&& all_digits(s.subrange(70 + f + l, 90 + f + l))
                &&& digits_val(s.subrange(70 + f + l, 90 + f + l)) == s.len() - 90 - f - l
            })
        }),
{
    let v = choose|w: UserDataView| claims_wf(w) && enc_claims(w) == s;
    lemma_enc_parts(v);
    lemma_pow10_vals();
    lemma_dec_fixed_len(id_code(v.id), 10);
    lemma_val_of_dec_fixed(id_code(v.id), 10);
    lemma_dec_fixed_len(ca_code(v.created_at), 20);
    lemma_val_of_dec_fixed(ca_code(v.created_at), 20);
    lemma_dec_fixed_len(v.first_name.len(), 20);
    lemma_val_of_dec_fixed(v.first_name.len(), 20);
    lemma_dec_fixed_len(v.last_name.len(), 20);
    lemma_val_of_dec_fixed(v.last_name.len(), 20);
    lemma_dec_fixed_len(v.email.len(), 20);
    lemma_val_of_dec_fixed(v.email.len(), 20);
}

/// Eight adjacent pieces in canonical positions assemble to the canonical
/// form itself.
proof fn lemma_parts_assemble(s: Seq<char>, v: UserDataView)
    requires
        claims_wf(v),
        s.len() == 90 + v.first_name.len() + v.last_name.len() + v.email.len(),
        s.subrange(0, 10) == dec_fixed(id_code(v.id), 10),
        s.subrange(10, 30) == dec_fixed(ca_code(v.created_at), 20),
        s.subrange(30, 50) == dec_fixed(v.first_name.len(), 20),
        s.subrange(50, 50 + v.first_name.len() as int) == v.first_name,
        s.subrange(
            50 + v.first_name.len() as int,
            70 + v.first_name.len() as int,
        ) == dec_fixed(v.last_name.len(), 20),
        s.subrange(
            70 + v.first_name.len() as int,
            70 + v.first_name.len() as int + v.last_name.len() as int,
        ) == v.last_name,
        s.subrange(
            70 + v.first_name.len() as int + v.last_name.len() as int,
            90 + v.first_name.len() as int + v.last_name.len() as int,
        ) == dec_fixed(v.email.len(), 20),
        s.subrange(
            90 + v.first_name.len() as int + v.last_name.len() as int,
            s.len() as int,
        ) == v.email,
    ensures
        s == enc_claims(v),
{
    lemma_dec_fixed_len(id_code(v.id), 10);
    lemma_dec_fixed_len(ca_code(v.created_at), 20);
    lemma_dec_fixed_len(v.first_name.len(), 20);
    lemma_dec_fixed_len(v.last_name.len(), 20);
    lemma_dec_fixed_len(v.email.len(), 20);
    let fi = v.first_name.len() as int;
    let li = v.last_name.len() as int;
    let ei = v.email.len() as int;
    assert(s =~= s.subrange(0, 10) + s.subrange(10, 30) + s.subrange(30, 50) + s.subrange(
        50,
        50 + fi,
    ) + s.subrange(50 + fi, 70 + fi) + s.subrange(70 + fi, 70 + fi + li) + s.subrange(
        70 + fi + li,
        90 + fi + li,
    ) + s.subrange(90 + fi + li, 90 + fi + li + ei));
    assert(s == enc_claims(v));
}

/// Reads a text form back into the claims it stands for.
///
/// Returns the claims exactly when the text is the canonical form of some
/// well-formed claims value, and nothing otherwise.
#[verifier::rlimit(100)]
pub fn decode_claims(s: &str) -> (r: Option<UserData>)
    ensures
        r matches Some(u) ==> claims_wf(u@) && s@ == enc_claims(u@) && dec_claims(s@) == Some(u@),
        r is None ==> dec_claims(s@) is None,
{
    proof {
        lemma_pow10_vals();
        if exists|w: UserDataView| claims_wf(w) && enc_claims(w) == s@ {
            lemma_enc_shape(s@);
        }
    }
    let n = s.unicode_len();
    if n < 90 {
        return None;
    }
    let idc = match parse_dec_fixed(s, 0, 10) {
        Some(x) => x,
        None => {
            return None;
        },
    };
    let cac = match parse_dec_fixed(s, 10, 20) {
        Some(x) => x,
        None => {
            return None;
        },
    };
    let fl: u64 = match parse_dec_fixed(s, 30, 20) {
        Some(x) => x,
        None => {
            return None;
        },
    };
    if fl > (n - 90) as u64 {
        return None;
    }
    let f = fl as usize;
    let first = s.substring_char(50, 50 + f).to_owned();
    let ll: u64 = match parse_dec_fixed(s, 50 + f, 20) {
        Some(x) => x,
        None => {
            return None;
        },
    };
    if ll > ((n - 90) - f) as u64 {
        return None;
    }
    let l = ll as usize;
    let last = s.substring_char(70 + f, (70 + f) + l).to_owned();
    let el: u64 = match parse_dec_fixed(s, (70 + f) + l, 20) {
        Some(x) => x,
        None => {
            return None;
        },
    };
    if el != (((n - 90) - f) - l) as u64 {
        return None;
    }
    let e = el as usize;
    let email = s.substring_char((90 + f) + l, ((90 + f) + l) + e).to_owned();
    if idc > 0xFFFF_FFFF {
        return None;
    }
    let id: i32 = ((idc as i64) - 0x8000_0000) as i32;
    let created_at: i64 = ((cac as i128) - 0x8000_0000_0000_0000) as i64;
    let u = UserData { id, first_name: first, last_name: last, email, created_at };
    proof {
        let fi = f as int;
        let li = l as int;
        let ei = e as int;
        assert(id_code(u@.id) == idc as nat);
        assert(ca_code(u@.created_at) == cac as nat);
        assert(u@.first_name.len() == fi && u@.last_name.len() == li && u@.email.len() == ei);
        assert(claims_wf(u@));
        assert(s@.len() == 90 + fi + li + ei);
        lemma_parts_assemble(s@, u@);
        lemma_claims_round_trip(u@);
    }
    Some(u)
}

} // verus!
