//! Plain-value models of the CosmWasm value types that the wire types hold,
//! with their JSON text.
use vstd::prelude::*;
use crate::unambiguous::{
    digits_value, is_digit, lemma_cancel_prefix, lemma_digits_shape, lemma_quote_free_unique,
    lemma_quoted_digits_unique, lemma_split_equal, quote_free, WireUnique, WireValue,
};
use crate::wire::{dec_digits, write_digits, JsonWire};

verus! {

/// Decimal text with 18 fractional places of `atomics / 10^18`: the whole
/// part, and, when the fraction is not zero, a point and the fraction padded
/// to 18 digits with its trailing zeros removed.
pub open spec fn decimal_text(atomics: nat) -> Seq<char> {
    let whole = atomics / 1_000_000_000_000_000_000nat;
    let frac = atomics % 1_000_000_000_000_000_000nat;
    if frac == 0 {
        dec_digits(whole)
    } else {
        dec_digits(whole).push('.') + trim_trailing_zeros(pad_zeros(dec_digits(frac), 18))
    }
}

/// `s` preceded by enough zeros to reach `width` characters.
pub open spec fn pad_zeros(s: Seq<char>, width: nat) -> Seq<char> {
    if s.len() >= width {
        s
    } else {
        zeros((width - s.len()) as nat) + s
    }
}

/// `k` zero characters.
pub open spec fn zeros(k: nat) -> Seq<char> {
    Seq::new(k, |i: int| '0')
}

/// `s` without its trailing zeros.
pub open spec fn trim_trailing_zeros(s: Seq<char>) -> Seq<char>
    decreases s.len(),
{
    if s.len() > 0 && s.last() == '0' {
        trim_trailing_zeros(s.drop_last())
    } else {
        s
    }
}

/// The character of a 6-bit value in the standard base64 alphabet.
pub open spec fn base64_char(v: nat) -> char {
    if v < 26 {
        (v + 65) as char
    } else if v < 52 {
        (v + 71) as char
    } else if v < 62 {
        (v - 4) as char
    } else if v == 62 {
        '+'
    } else {
        '/'
    }
}

/// Standard base64 with `=` padding: each group of three bytes becomes four
/// characters; a last group of one or two bytes is padded.
pub open spec fn base64(b: Seq<u8>) -> Seq<char>
    decreases b.len(),
{
    if b.len() == 0 {
        seq![]
    } else if b.len() == 1 {
        let x = b[0] as nat;
        seq![base64_char(x / 4), base64_char((x % 4) * 16), '=', '=']
    } else if b.len() == 2 {
        let x = b[0] as nat;
        let y = b[1] as nat;
        seq![base64_char(x / 4), base64_char((x % 4) * 16 + y / 16), base64_char((y % 16) * 4), '=']
    } else {
        let x = b[0] as nat;
        let y = b[1] as nat;
        let z = b[2] as nat;
        seq![
            base64_char(x / 4),
            base64_char((x % 4) * 16 + y / 16),
            base64_char((y % 16) * 4 + z / 64),
            base64_char(z % 64),
        ] + base64(b.skip(3))
    }
}

/// `10^k`.
pub open spec fn pow10(k: nat) -> nat
    decreases k,
{
    if k == 0 {
        1
    } else {
        10 * pow10((k - 1) as nat)
    }
}

/// A run of zeros stands for 0.
proof fn lemma_value_zeros(k: nat)
    ensures
        digits_value(zeros(k)) == 0,
    decreases k,
{
    if k > 0 {
        assert(zeros(k).drop_last() =~= zeros((k - 1) as nat));
        lemma_value_zeros((k - 1) as nat);
    }
}

/// Leading zeros do not change the value of a run of digits.
proof fn lemma_value_leading_zeros(k: nat, s: Seq<char>)
    ensures
        digits_value(zeros(k) + s) == digits_value(s),
    decreases s.len(),
{
    if s.len() == 0 {
        assert(zeros(k) + s =~= zeros(k));
        lemma_value_zeros(k);
    } else {
        assert((zeros(k) + s).drop_last() =~= zeros(k) + s.drop_last());
        assert((zeros(k) + s).last() == s.last());
        lemma_value_leading_zeros(k, s.drop_last());
    }
}

/// Trimming removes only zeros from the end.
proof fn lemma_trim_pad(t: Seq<char>)
    ensures
        trim_trailing_zeros(t).len() <= t.len(),
        trim_trailing_zeros(t) + zeros((t.len() - trim_trailing_zeros(t).len()) as nat) == t,
    decreases t.len(),
{
    if t.len() > 0 && t.last() == '0' {
        let d = t.drop_last();
        lemma_trim_pad(d);
        let k = (d.len() - trim_trailing_zeros(d).len()) as nat;
        assert(zeros(k + 1) =~= zeros(k).push('0'));
        assert(t =~= d.push('0'));
        assert(trim_trailing_zeros(t) + zeros(k + 1) =~= (trim_trailing_zeros(d) + zeros(k)).push(
            '0',
        ));
    } else {
        assert(trim_trailing_zeros(t) + zeros(0) =~= t);
    }
}

/// Trimming keeps a prefix.
proof fn lemma_trim_prefix(t: Seq<char>)
    ensures
        trim_trailing_zeros(t) =~= t.take(trim_trailing_zeros(t).len() as int),
{
    lemma_trim_pad(t);
    let f = trim_trailing_zeros(t);
    assert(t.take(f.len() as int) =~= (f + zeros((t.len() - f.len()) as nat)).take(f.len() as int));
}

/// A number below `10^k` has at most `k` digits.
proof fn lemma_digits_len(n: nat, k: nat)
    requires
        k >= 1,
        n < pow10(k),
    ensures
        dec_digits(n).len() <= k,
    decreases n,
{
    if n >= 10 {
        assert(pow10(k) == 10 * pow10((k - 1) as nat));
        if k == 1 {
            assert(pow10(0) == 1);
        }
        assert(n / 10 < pow10((k - 1) as nat));
        lemma_digits_len(n / 10, (k - 1) as nat);
    }
}

/// `10^18` as a literal.
proof fn lemma_pow10_18()
    ensures
        pow10(18) == 1_000_000_000_000_000_000nat,
{
    reveal_with_fuel(pow10, 19);
}

/// The fraction text of `0 < f < 10^18` determines `f`.
proof fn lemma_fraction_text_injective(f1: nat, f2: nat)
    requires
        f1 < 1_000_000_000_000_000_000nat,
        f2 < 1_000_000_000_000_000_000nat,
        trim_trailing_zeros(pad_zeros(dec_digits(f1), 18)) == trim_trailing_zeros(
            pad_zeros(dec_digits(f2), 18),
        ),
    ensures
        f1 == f2,
{
    lemma_pow10_18();
    lemma_digits_len(f1, 18);
    lemma_digits_len(f2, 18);
    let p1 = pad_zeros(dec_digits(f1), 18);
    let p2 = pad_zeros(dec_digits(f2), 18);
    assert(p1.len() == 18);
    assert(p2.len() == 18);
    lemma_trim_pad(p1);
    lemma_trim_pad(p2);
    assert(p1 == p2);
    lemma_digits_shape(f1);
    lemma_digits_shape(f2);
    if dec_digits(f1).len() < 18 {
        lemma_value_leading_zeros((18 - dec_digits(f1).len()) as nat, dec_digits(f1));
    }
    if dec_digits(f2).len() < 18 {
        lemma_value_leading_zeros((18 - dec_digits(f2).len()) as nat, dec_digits(f2));
    }
}

/// The characters of a decimal text: digits and at most one point.
proof fn lemma_decimal_text_chars(a: nat)
    ensures
        forall|i: int|
            0 <= i < decimal_text(a).len() ==> is_digit(#[trigger] decimal_text(a)[i])
                || decimal_text(a)[i] == '.',
{
    let whole = a / 1_000_000_000_000_000_000nat;
    let frac = a % 1_000_000_000_000_000_000nat;
    lemma_digits_shape(whole);
    lemma_digits_shape(frac);
    if frac != 0 {
        let p = pad_zeros(dec_digits(frac), 18);
        assert forall|i: int| 0 <= i < p.len() implies is_digit(#[trigger] p[i]) by {
            if dec_digits(frac).len() < 18 {
                let z = (18 - dec_digits(frac).len()) as nat;
                if i >= z {
                    assert(p[i] == dec_digits(frac)[i - z]);
                }
            }
        }
        lemma_trim_prefix(p);
        lemma_trim_pad(p);
    }
}

/// A decimal text has no quote character.
pub proof fn lemma_decimal_text_quote_free(a: nat)
    ensures
        quote_free(decimal_text(a)),
{
    lemma_decimal_text_chars(a);
}

/// Distinct atomics give distinct decimal texts.
pub proof fn lemma_decimal_text_injective(a: nat, b: nat)
    requires
        decimal_text(a) == decimal_text(b),
    ensures
        a == b,
{
    let e = 1_000_000_000_000_000_000nat;
    let wa = a / e;
    let fa = a % e;
    let wb = b / e;
    let fb = b % e;
    lemma_digits_shape(wa);
    lemma_digits_shape(wb);
    let da = dec_digits(wa);
    let db = dec_digits(wb);
    let t = decimal_text(a);
    if fa == 0 && fb == 0 {
        assert(digits_value(da) == digits_value(db));
    } else if fa == 0 {
        assert(t[db.len() as int] == '.');
        assert(t[db.len() as int] == da[db.len() as int]);
    } else if fb == 0 {
        assert(t[da.len() as int] == '.');
        assert(t[da.len() as int] == db[da.len() as int]);
    } else {
        let ta = trim_trailing_zeros(pad_zeros(dec_digits(fa), 18));
        let tb = trim_trailing_zeros(pad_zeros(dec_digits(fb), 18));
        if da.len() < db.len() {
            assert(t[da.len() as int] == '.');
            assert(t[da.len() as int] == db[da.len() as int]);
        } else if db.len() < da.len() {
            assert(t[db.len() as int] == '.');
            assert(t[db.len() as int] == da[db.len() as int]);
        }
        assert(t =~= da + (seq!['.'] + ta));
        assert(decimal_text(b) =~= db + (seq!['.'] + tb));
        lemma_split_equal(da, db, seq!['.'] + ta, seq!['.'] + tb);
        lemma_cancel_prefix(seq!['.'], ta, tb);
        lemma_fraction_text_injective(fa, fb);
        assert(digits_value(da) == digits_value(db));
    }
    assert(wa == wb);
    vstd::arithmetic::div_mod::lemma_fundamental_div_mod(a as int, e as int);
    vstd::arithmetic::div_mod::lemma_fundamental_div_mod(b as int, e as int);
}

/// Base64 alphabet characters are neither quotes nor padding, and distinct
/// 6-bit values have distinct characters.
proof fn lemma_base64_char(v: nat, w: nat)
    requires
        v < 64,
        w < 64,
    ensures
        base64_char(v) != '"',
        base64_char(v) != '=',
        base64_char(v) == base64_char(w) ==> v == w,
{
}

/// The characters of a base64 text are alphabet characters or padding.
pub proof fn lemma_base64_quote_free(b: Seq<u8>)
    ensures
        quote_free(base64(b)),
    decreases b.len(),
{
    if b.len() >= 3 {
        lemma_base64_quote_free(b.skip(3));
        let x = b[0] as nat;
        let y = b[1] as nat;
        let z = b[2] as nat;
        lemma_base64_char(x / 4, 0);
        lemma_base64_char((x % 4) * 16 + y / 16, 0);
        lemma_base64_char((y % 16) * 4 + z / 64, 0);
        lemma_base64_char(z % 64, 0);
        let head = seq![
            base64_char(x / 4),
            base64_char((x % 4) * 16 + y / 16),
            base64_char((y % 16) * 4 + z / 64),
            base64_char(z % 64),
        ];
        assert(base64(b) == head + base64(b.skip(3)));
        assert forall|i: int| 0 <= i < base64(b).len() implies base64(b)[i] != '"' by {
            if i >= 4 {
                assert(base64(b)[i] == base64(b.skip(3))[i - 4]);
            }
        }
    } else if b.len() == 2 {
        let x = b[0] as nat;
        let y = b[1] as nat;
        lemma_base64_char(x / 4, 0);
        lemma_base64_char((x % 4) * 16 + y / 16, 0);
        lemma_base64_char((y % 16) * 4, 0);
    } else if b.len() == 1 {
        let x = b[0] as nat;
        lemma_base64_char(x / 4, 0);
        lemma_base64_char((x % 4) * 16, 0);
    }
}

/// A group of three bytes is determined by its four characters' values.
proof fn lemma_base64_group(x1: nat, y1: nat, z1: nat, x2: nat, y2: nat, z2: nat)
    requires
        x1 < 256,
        y1 < 256,
        z1 < 256,
        x2 < 256,
        y2 < 256,
        z2 < 256,
        x1 / 4 == x2 / 4,
        (x1 % 4) * 16 + y1 / 16 == (x2 % 4) * 16 + y2 / 16,
        (y1 % 16) * 4 + z1 / 64 == (y2 % 16) * 4 + z2 / 64,
        z1 % 64 == z2 % 64,
    ensures
        x1 == x2,
        y1 == y2,
        z1 == z2,
{
    assert(x1 % 4 == x2 % 4 && y1 / 16 == y2 / 16);
    assert(y1 % 16 == y2 % 16 && z1 / 64 == z2 / 64);
}

/// Distinct byte sequences have distinct base64 texts.
pub proof fn lemma_base64_injective(b1: Seq<u8>, b2: Seq<u8>)
    requires
        base64(b1) == base64(b2),
    ensures
        b1 == b2,
    decreases b1.len(),
{
    let t = base64(b1);
    if b1.len() >= 3 && b2.len() >= 3 {
        let (x1, y1, z1) = (b1[0] as nat, b1[1] as nat, b1[2] as nat);
        let (x2, y2, z2) = (b2[0] as nat, b2[1] as nat, b2[2] as nat);
        lemma_base64_char(x1 / 4, x2 / 4);
        lemma_base64_char((x1 % 4) * 16 + y1 / 16, (x2 % 4) * 16 + y2 / 16);
        lemma_base64_char((y1 % 16) * 4 + z1 / 64, (y2 % 16) * 4 + z2 / 64);
        lemma_base64_char(z1 % 64, z2 % 64);
        assert(t[0] == base64(b2)[0] && t[1] == base64(b2)[1]);
        assert(t[2] == base64(b2)[2] && t[3] == base64(b2)[3]);
        lemma_base64_group(x1, y1, z1, x2, y2, z2);
        assert(base64(b1.skip(3)) =~= t.skip(4));
        assert(base64(b2.skip(3)) =~= base64(b2).skip(4));
        lemma_base64_injective(b1.skip(3), b2.skip(3));
        assert(b1 =~= b1.take(3) + b1.skip(3));
        assert(b2 =~= b2.take(3) + b2.skip(3));
        assert(b1.take(3) =~= b2.take(3));
    } else if b1.len() >= 3 || b2.len() >= 3 {
        let (bl, bs) = if b1.len() >= 3 {
            (b1, b2)
        } else {
            (b2, b1)
        };
        let z = bl[2] as nat;
        lemma_base64_char(z % 64, 0);
        if bs.len() == 0 {
            assert(base64(bl).len() >= 4);
        } else {
            assert(base64(bs).len() == 4);
            assert(base64(bl.skip(3)).len() == 0) by {
                assert(base64(bl).len() == 4 + base64(bl.skip(3)).len());
            }
            if bs.len() == 1 {
                let xs = bs[0] as nat;
                assert(base64(bs)[3] == '=');
            } else {
                assert(base64(bs)[3] == '=');
            }
            assert(base64(bl)[3] == base64_char(z % 64));
        }
    } else if b1.len() == 0 || b2.len() == 0 {
        if b1.len() != 0 {
            assert(base64(b1).len() == 4);
        }
        if b2.len() != 0 {
            assert(base64(b2).len() == 4);
        }
        assert(b1 =~= b2);
    } else {
        let x1 = b1[0] as nat;
        let x2 = b2[0] as nat;
        lemma_base64_char(x1 / 4, x2 / 4);
        assert(t[0] == base64(b2)[0] && t[1] == base64(b2)[1] && t[2] == base64(b2)[2]);
        if b1.len() == 1 && b2.len() == 1 {
            lemma_base64_char((x1 % 4) * 16, (x2 % 4) * 16);
            assert(x1 % 4 == x2 % 4);
            assert(b1 =~= b2);
        } else if b1.len() == 2 && b2.len() == 2 {
            let y1 = b1[1] as nat;
            let y2 = b2[1] as nat;
            lemma_base64_char((x1 % 4) * 16 + y1 / 16, (x2 % 4) * 16 + y2 / 16);
            lemma_base64_char((y1 % 16) * 4, (y2 % 16) * 4);
            assert(x1 % 4 == x2 % 4 && y1 / 16 == y2 / 16);
            assert(y1 % 16 == y2 % 16);
            assert(b1 =~= b2);
        } else if b1.len() == 1 {
            let y2 = b2[1] as nat;
            lemma_base64_char((y2 % 16) * 4, 0);
            assert(t[2] == '=');
        } else {
            let y1 = b1[1] as nat;
            lemma_base64_char((y1 % 16) * 4, 0);
            assert(base64(b2)[2] == '=');
        }
    }
}

/// `cosmwasm_std::Decimal::to_string` of the decimal with the given atomics.
#[verifier::external_body]
fn decimal_atomics_text(atomics: u128) -> (res: String)
    ensures
        res@ == decimal_text(atomics as nat),
{
    cosmwasm_std::Decimal::raw(atomics).to_string()
}

/// `cosmwasm_std::Decimal256::to_string` of the decimal whose atomics are
/// `hi * 2^128 + lo`.
#[verifier::external_body]
fn decimal256_atomics_text(hi: u128, lo: u128) -> (res: String)
    ensures
        res@ == decimal_text((Uint256 { hi, lo }).value()),
{
    let mut be = [0u8; 32];
    be[..16].copy_from_slice(&hi.to_be_bytes());
    be[16..].copy_from_slice(&lo.to_be_bytes());
    cosmwasm_std::Decimal256::new(cosmwasm_std::Uint256::from_be_bytes(be)).to_string()
}

/// `cosmwasm_std::Binary::to_base64`: standard base64 with padding.
#[verifier::external_body]
fn base64_text(bytes: &[u8]) -> (res: String)
    ensures
        res@ == base64(bytes@),
{
    cosmwasm_std::Binary::from(bytes).to_base64()
}

/// A point in time, in nanoseconds since the Unix epoch.
#[derive(Clone, Copy, Debug, PartialEq, Eq)]
pub struct Timestamp {
    pub nanos: u64,
}

/// A fixed-point decimal with 18 fractional places: the value is
/// `atomics / 10^18`.
#[derive(Clone, Copy, Debug, PartialEq, Eq)]
pub struct Decimal {
    pub atomics: u128,
}

/// An unsigned 256-bit integer: `hi * 2^128 + lo`.
#[derive(Clone, Copy, Debug, PartialEq, Eq)]
pub struct Uint256 {
    pub hi: u128,
    pub lo: u128,
}

impl Uint256 {
    /// The number that the two halves stand for.
    pub open spec fn value(&self) -> nat {
        self.hi as nat * 0x1_0000_0000_0000_0000_0000_0000_0000_0000nat + self.lo as nat
    }
}

/// A fixed-point decimal with 18 fractional places and 256-bit atomics.
#[derive(Clone, Copy, Debug, PartialEq, Eq)]
pub struct Decimal256 {
    pub atomics: Uint256,
}

/// Raw bytes, written on the wire in base64.
#[derive(Clone, Debug, PartialEq, Eq)]
pub struct Binary {
    pub bytes: Vec<u8>,
}

/// A timestamp is written as its nanoseconds, in quotes.
impl JsonWire for Timestamp {
    open spec fn wire(&self) -> Seq<char> {
        seq!['"'] + dec_digits(self.nanos as nat) + seq!['"']
    }

    fn write_wire(&self, out: &mut String) {
        out.push('"');
        write_digits(out, self.nanos as u128);
        out.push('"');
    }
}

/// A decimal is written as its decimal text, in quotes.
impl JsonWire for Decimal {
    open spec fn wire(&self) -> Seq<char> {
        seq!['"'] + decimal_text(self.atomics as nat) + seq!['"']
    }

    fn write_wire(&self, out: &mut String) {
        out.push('"');
        let t = decimal_atomics_text(self.atomics);
        out.append(t.as_str());
        out.push('"');
    }
}

/// A 256-bit decimal is written as its decimal text, in quotes.
impl JsonWire for Decimal256 {
    open spec fn wire(&self) -> Seq<char> {
        seq!['"'] + decimal_text(self.atomics.value()) + seq!['"']
    }

    fn write_wire(&self, out: &mut String) {
        out.push('"');
        let t = decimal256_atomics_text(self.atomics.hi, self.atomics.lo);
        out.append(t.as_str());
        out.push('"');
    }
}

/// Binary data is written as its base64 text, in quotes.
impl JsonWire for Binary {
    open spec fn wire(&self) -> Seq<char> {
        seq!['"'] + base64(self.bytes@) + seq!['"']
    }

    fn write_wire(&self, out: &mut String) {
        out.push('"');
        let t = base64_text(self.bytes.as_slice());
        out.append(t.as_str());
        out.push('"');
    }
}


/// Text between quotes that is quote-free: the texts are equal, and so are
/// the rests.
proof fn lemma_quoted_text_unique(t1: Seq<char>, t2: Seq<char>, r1: Seq<char>, r2: Seq<char>)
    requires
        quote_free(t1),
        quote_free(t2),
        seq!['"'] + t1 + seq!['"'] + r1 == seq!['"'] + t2 + seq!['"'] + r2,
    ensures
        t1 == t2,
        r1 == r2,
{
    lemma_quote_free_unique(t1, t2, r1, r2);
}

impl WireUnique for Timestamp {
    open spec fn same(&self, other: &Self) -> bool {
        self.nanos == other.nanos
    }

    proof fn lemma_wire_shape(&self) {
    }

    proof fn lemma_wire_unique(&self, other: &Self, r1: Seq<char>, r2: Seq<char>) {
        lemma_quoted_digits_unique(self.nanos as nat, other.nanos as nat, r1, r2);
    }
}

impl WireValue for Timestamp {
    proof fn lemma_not_null(&self) {
    }
}

impl WireUnique for Decimal {
    open spec fn same(&self, other: &Self) -> bool {
        self.atomics == other.atomics
    }

    proof fn lemma_wire_shape(&self) {
    }

    proof fn lemma_wire_unique(&self, other: &Self, r1: Seq<char>, r2: Seq<char>) {
        lemma_decimal_text_quote_free(self.atomics as nat);
        lemma_decimal_text_quote_free(other.atomics as nat);
        lemma_quoted_text_unique(
            decimal_text(self.atomics as nat),
            decimal_text(other.atomics as nat),
            r1,
            r2,
        );
        lemma_decimal_text_injective(self.atomics as nat, other.atomics as nat);
    }
}

impl WireValue for Decimal {
    proof fn lemma_not_null(&self) {
    }
}

/// The two halves of a 256-bit number are determined by its value.
proof fn lemma_uint256_value_injective(a: Uint256, b: Uint256)
    requires
        a.value() == b.value(),
    ensures
        a == b,
{
    let m = 0x1_0000_0000_0000_0000_0000_0000_0000_0000int;
    vstd::arithmetic::div_mod::lemma_fundamental_div_mod_converse(
        a.value() as int,
        m,
        a.hi as int,
        a.lo as int,
    );
    vstd::arithmetic::div_mod::lemma_fundamental_div_mod_converse(
        b.value() as int,
        m,
        b.hi as int,
        b.lo as int,
    );
}

impl WireUnique for Decimal256 {
    open spec fn same(&self, other: &Self) -> bool {
        self.atomics == other.atomics
    }

    proof fn lemma_wire_shape(&self) {
    }

    proof fn lemma_wire_unique(&self, other: &Self, r1: Seq<char>, r2: Seq<char>) {
        lemma_decimal_text_quote_free(self.atomics.value());
        lemma_decimal_text_quote_free(other.atomics.value());
        lemma_quoted_text_unique(
            decimal_text(self.atomics.value()),
            decimal_text(other.atomics.value()),
            r1,
            r2,
        );
        lemma_decimal_text_injective(self.atomics.value(), other.atomics.value());
        lemma_uint256_value_injective(self.atomics, other.atomics);
    }
}

impl WireValue for Decimal256 {
    proof fn lemma_not_null(&self) {
    }
}

impl WireUnique for Binary {
    open spec fn same(&self, other: &Self) -> bool {
        self.bytes@ == other.bytes@
    }

    proof fn lemma_wire_shape(&self) {
    }

    proof fn lemma_wire_unique(&self, other: &Self, r1: Seq<char>, r2: Seq<char>) {
        lemma_base64_quote_free(self.bytes@);
        lemma_base64_quote_free(other.bytes@);
        lemma_quoted_text_unique(base64(self.bytes@), base64(other.bytes@), r1, r2);
        lemma_base64_injective(self.bytes@, other.bytes@);
    }
}

impl WireValue for Binary {
    proof fn lemma_not_null(&self) {
    }
}


/// The wire text of every timestamp: its nanoseconds, in quotes.
pub proof fn lemma_timestamp_text(t: Timestamp)
    ensures
        t.wire() == seq!['"'] + dec_digits(t.nanos as nat) + seq!['"'],
{
}

/// The wire text of every decimal: the decimal text of `atomics / 10^18`, in
/// quotes.
pub proof fn lemma_decimal_text(d: Decimal)
    ensures
        d.wire() == seq!['"'] + decimal_text(d.atomics as nat) + seq!['"'],
{
}

/// The wire text of every 256-bit decimal: the decimal text of its atomics
/// `hi * 2^128 + lo` over `10^18`, in quotes.
pub proof fn lemma_decimal256_text(d: Decimal256)
    ensures
        d.wire() == seq!['"'] + decimal_text(
            d.atomics.hi as nat * 0x1_0000_0000_0000_0000_0000_0000_0000_0000nat
                + d.atomics.lo as nat,
        ) + seq!['"'],
{
}

/// The wire text of every binary: the base64 text of its bytes, in quotes.
pub proof fn lemma_binary_text(b: Binary)
    ensures
        b.wire() == seq!['"'] + base64(b.bytes@) + seq!['"'],
{
}

} // verus!
