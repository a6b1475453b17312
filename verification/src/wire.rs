//! The JSON text that the CosmWasm serializer (`cosmwasm_std::to_json_string`)
//! writes for the wire types: compact objects whose members follow the field
//! order, externally tagged enums, `null` for an absent option, arrays for
//! vectors and tuples.
use vstd::prelude::*;

verus! {

/// `String::push` appends one character at the end of the string.
pub assume_specification[ String::push ](s: &mut String, ch: char)
    ensures
        final(s)@ == old(s)@.push(ch),
;

/// The character of a decimal digit.
pub open spec fn digit_char(d: nat) -> char {
    (d + 48) as char
}

/// Base-10 representation of `n`, without leading zeros.
pub open spec fn dec_digits(n: nat) -> Seq<char>
    decreases n,
{
    if n < 10 {
        seq![digit_char(n)]
    } else {
        dec_digits(n / 10).push(digit_char(n % 10))
    }
}

/// Upper-case hexadecimal digit of `d < 16`.
pub open spec fn hex_upper(d: nat) -> char {
    if d < 10 {
        (d + 48) as char
    } else {
        (d + 55) as char
    }
}

/// How one character of a string appears inside a JSON string literal:
/// backslash and quote are escaped, the control characters below 0x20 are
/// written as a short escape or as `\u00XX`, every other character as itself.
pub open spec fn escape_char(c: char) -> Seq<char> {
    let n = c as nat;
    if c == '\\' {
        seq!['\\', '\\']
    } else if c == '"' {
        seq!['\\', '"']
    } else if n == 8 {
        seq!['\\', 'b']
    } else if n == 9 {
        seq!['\\', 't']
    } else if n == 10 {
        seq!['\\', 'n']
    } else if n == 12 {
        seq!['\\', 'f']
    } else if n == 13 {
        seq!['\\', 'r']
    } else if n < 32 {
        seq!['\\', 'u', '0', '0', hex_upper(n / 16), hex_upper(n % 16)]
    } else {
        seq![c]
    }
}

/// The escaped characters of `s`, in order.
pub open spec fn escape(s: Seq<char>) -> Seq<char>
    decreases s.len(),
{
    if s.len() == 0 {
        seq![]
    } else {
        escape(s.drop_last()) + escape_char(s.last())
    }
}

/// A JSON string literal holding `s`.
pub open spec fn json_quote(s: Seq<char>) -> Seq<char> {
    seq!['"'] + escape(s) + seq!['"']
}

/// The items separated by commas.
pub open spec fn join_commas(items: Seq<Seq<char>>) -> Seq<char>
    decreases items.len(),
{
    if items.len() == 0 {
        seq![]
    } else if items.len() == 1 {
        items[0]
    } else {
        join_commas(items.drop_last()).push(',') + items.last()
    }
}

/// The name of an object member, quoted, followed by the colon.
pub open spec fn quoted_key(k: Seq<char>) -> Seq<char> {
    seq!['"'] + k + seq!['"', ':']
}

/// An object member: the key and the JSON text of its value.
pub open spec fn member(k: Seq<char>, v: Seq<char>) -> Seq<char> {
    quoted_key(k) + v
}

/// A JSON object of the given members, in order.
pub open spec fn object(members: Seq<Seq<char>>) -> Seq<char> {
    seq!['{'] + join_commas(members) + seq!['}']
}

/// A JSON array of the given items, in order.
pub open spec fn array(items: Seq<Seq<char>>) -> Seq<char> {
    seq!['['] + join_commas(items) + seq![']']
}

/// An enum variant that carries data: an object with the variant's name as
/// its one key.
pub open spec fn tagged(tag: Seq<char>, v: Seq<char>) -> Seq<char> {
    object(seq![member(tag, v)])
}

/// The JSON text `null`.
pub open spec fn null_text() -> Seq<char> {
    seq!['n', 'u', 'l', 'l']
}

/// Joining one more item appends a comma (unless it is the first) and the item.
pub proof fn lemma_join_push(items: Seq<Seq<char>>, x: Seq<char>)
    ensures
        join_commas(items.push(x)) == (if items.len() == 0 {
            x
        } else {
            join_commas(items).push(',') + x
        }),
{
    assert(items.push(x).drop_last() =~= items);
}

/// Two joined items: the first, a comma, the second.
pub proof fn lemma_join_2(a: Seq<char>, b: Seq<char>)
    ensures
        join_commas(seq![a, b]) == a.push(',') + b,
{
    assert(seq![a, b].drop_last() =~= seq![a]);
    assert(join_commas(seq![a]) == a);
    assert(seq![a, b].last() == b);
}

/// A tagged value is the tag's key and the value between braces.
pub proof fn lemma_tagged(tag: Seq<char>, v: Seq<char>)
    ensures
        tagged(tag, v) == seq!['{'] + quoted_key(tag) + v + seq!['}'],
{
    assert(join_commas(seq![member(tag, v)]) == member(tag, v));
}

/// Appends the opening brace of a tagged value and the tag's key.
pub(crate) fn write_tag(out: &mut String, tag: &str)
    ensures
        final(out)@ == old(out)@ + seq!['{'] + quoted_key(tag@),
{
    out.push('{');
    write_key(out, true, tag);
}

/// `cosmwasm_std::to_json_string` on a `&str`: the JSON string literal of the
/// text. serde-json-wasm's `serialize_str` escapes as `escape_char` states and
/// never fails on a string, so the empty fallback is never taken.
#[verifier::external_body]
fn json_string_literal(s: &str) -> (res: String)
    ensures
        res@ == json_quote(s@),
{
    match cosmwasm_std::to_json_string(s) {
        Ok(t) => t,
        Err(_) => String::new(),
    }
}

/// `s` in reverse order.
pub open spec fn reversed(s: Seq<char>) -> Seq<char> {
    Seq::new(s.len(), |i: int| s[s.len() - 1 - i])
}

/// The character of a decimal digit.
fn digit(d: u8) -> (c: char)
    requires
        d < 10,
    ensures
        c == digit_char(d as nat),
{
    (d + 48) as char
}

/// Appends the digits of `v` to `out`.
pub(crate) fn write_digits(out: &mut String, v: u128)
    ensures
        final(out)@ == old(out)@ + dec_digits(v as nat),
{
    let mut rev: Vec<char> = Vec::new();
    let mut n: u128 = v;
    while n >= 10
        invariant
            dec_digits(v as nat) == dec_digits(n as nat) + reversed(rev@),
        decreases n,
    {
        let c = digit((n % 10) as u8);
        proof {
            assert(reversed(rev@.push(c)) =~= seq![c] + reversed(rev@));
            assert(dec_digits(n as nat) == dec_digits((n / 10) as nat).push(c));
            assert(dec_digits((n / 10) as nat).push(c) + reversed(rev@) =~= dec_digits(
                (n / 10) as nat,
            ) + reversed(rev@.push(c)));
        }
        rev.push(c);
        n = n / 10;
    }
    let c = digit(n as u8);
    proof {
        assert(reversed(rev@.push(c)) =~= seq![c] + reversed(rev@));
    }
    rev.push(c);
    let ghost start = out@;
    let mut k: usize = rev.len();
    while k > 0
        invariant
            k <= rev@.len(),
            out@ == start + reversed(rev@).take(rev@.len() - k),
        decreases k,
    {
        k = k - 1;
        proof {
            assert(reversed(rev@).take(rev@.len() - k) =~= reversed(rev@).take(
                rev@.len() - k - 1,
            ).push(rev@[k as int]));
        }
        out.push(rev[k]);
    }
    assert(reversed(rev@).take(rev@.len() as int) =~= reversed(rev@));
}

/// Appends, after a comma unless it is the first member, the quoted name of an
/// object member and its colon.
pub(crate) fn write_key(out: &mut String, first: bool, k: &str)
    ensures
        final(out)@ == old(out)@ + (if first {
            seq![]
        } else {
            seq![',']
        }) + quoted_key(k@),
{
    if !first {
        out.push(',');
    }
    out.push('"');
    out.append(k);
    out.push('"');
    out.push(':');
}

/// Appends the opening brace of an object that has no members yet.
pub(crate) fn begin_object(out: &mut String)
    ensures
        final(out)@ == old(out)@ + seq!['{'] + join_commas(seq![]),
{
    out.push('{');
    assert(out@ =~= old(out)@ + seq!['{'] + join_commas(seq![]));
}

/// Appends the closing brace of the object with members `ms`.
pub(crate) fn end_object(
    out: &mut String,
    Ghost(prefix): Ghost<Seq<char>>,
    Ghost(ms): Ghost<Seq<Seq<char>>>,
)
    requires
        old(out)@ == prefix + seq!['{'] + join_commas(ms),
    ensures
        final(out)@ == prefix + object(ms),
{
    out.push('}');
    assert(out@ =~= prefix + object(ms));
}

/// Appends one member of an object whose earlier members are `ms`: the text
/// so far is `prefix`, the opening brace and those members.
pub(crate) fn write_member<T: JsonWire>(
    out: &mut String,
    Ghost(prefix): Ghost<Seq<char>>,
    Ghost(ms): Ghost<Seq<Seq<char>>>,
    first: bool,
    k: &str,
    v: &T,
)
    requires
        old(out)@ == prefix + seq!['{'] + join_commas(ms),
        first == (ms.len() == 0),
    ensures
        final(out)@ == prefix + seq!['{'] + join_commas(ms.push(member(k@, v.wire()))),
{
    write_key(out, first, k);
    v.write_wire(out);
    proof {
        lemma_join_push(ms, member(k@, v.wire()));
    }
    assert(out@ =~= prefix + seq!['{'] + join_commas(ms.push(member(k@, v.wire()))));
}

/// Appends `null`.
pub(crate) fn write_null(out: &mut String)
    ensures
        final(out)@ == old(out)@ + null_text(),
{
    out.push('n');
    out.push('u');
    out.push('l');
    out.push('l');
}

/// Values that have a JSON wire form.
pub trait JsonWire {
    /// The JSON text of the value.
    spec fn wire(&self) -> Seq<char>;

    /// Appends the JSON text of the value to `out`.
    fn write_wire(&self, out: &mut String)
        ensures
            final(out)@ == old(out)@ + self.wire(),
    ;
}

/// The JSON text of a value.
pub fn to_json<T: JsonWire>(value: &T) -> (res: String)
    ensures
        res@ == value.wire(),
{
    let mut out = String::new();
    value.write_wire(&mut out);
    assert(out@ =~= value.wire());
    out
}

/// A `Uint128` amount is written as its decimal digits inside quotes.
impl JsonWire for u128 {
    open spec fn wire(&self) -> Seq<char> {
        seq!['"'] + dec_digits(*self as nat) + seq!['"']
    }

    fn write_wire(&self, out: &mut String) {
        out.push('"');
        write_digits(out, *self);
        out.push('"');
    }
}

/// A `u64` is written as bare decimal digits.
impl JsonWire for u64 {
    open spec fn wire(&self) -> Seq<char> {
        dec_digits(*self as nat)
    }

    fn write_wire(&self, out: &mut String) {
        write_digits(out, *self as u128);
    }
}

/// A `u16` is written as bare decimal digits.
impl JsonWire for u16 {
    open spec fn wire(&self) -> Seq<char> {
        dec_digits(*self as nat)
    }

    fn write_wire(&self, out: &mut String) {
        write_digits(out, *self as u128);
    }
}

/// A `u8` is written as bare decimal digits.
impl JsonWire for u8 {
    open spec fn wire(&self) -> Seq<char> {
        dec_digits(*self as nat)
    }

    fn write_wire(&self, out: &mut String) {
        write_digits(out, *self as u128);
    }
}

/// `true` or `false`.
impl JsonWire for bool {
    open spec fn wire(&self) -> Seq<char> {
        if *self {
            seq!['t', 'r', 'u', 'e']
        } else {
            seq!['f', 'a', 'l', 's', 'e']
        }
    }

    fn write_wire(&self, out: &mut String) {
        if *self {
            out.push('t');
            out.push('r');
            out.push('u');
            out.push('e');
        } else {
            out.push('f');
            out.push('a');
            out.push('l');
            out.push('s');
            out.push('e');
        }
    }
}

/// A string (or an address) is written as a JSON string literal.
impl JsonWire for String {
    open spec fn wire(&self) -> Seq<char> {
        json_quote(self@)
    }

    fn write_wire(&self, out: &mut String) {
        let t = json_string_literal(self.as_str());
        out.append(t.as_str());
    }
}

/// An absent option is `null`; a present one is its value.
impl<T: JsonWire> JsonWire for Option<T> {
    open spec fn wire(&self) -> Seq<char> {
        match self {
            None => null_text(),
            Some(v) => v.wire(),
        }
    }

    fn write_wire(&self, out: &mut String) {
        match self {
            None => write_null(out),
            Some(v) => v.write_wire(out),
        }
    }
}

/// A pair is an array of its two items.
impl<A: JsonWire, B: JsonWire> JsonWire for (A, B) {
    open spec fn wire(&self) -> Seq<char> {
        array(seq![self.0.wire(), self.1.wire()])
    }

    fn write_wire(&self, out: &mut String) {
        let ghost start = out@;
        out.push('[');
        self.0.write_wire(out);
        out.push(',');
        self.1.write_wire(out);
        out.push(']');
        proof {
            lemma_join_2(self.0.wire(), self.1.wire());
        }
        assert(out@ =~= start + self.wire());
    }
}

/// The JSON texts of the items of a sequence.
pub open spec fn wires<T: JsonWire>(items: Seq<T>) -> Seq<Seq<char>> {
    items.map_values(|x: T| x.wire())
}

/// A vector is an array of its items.
impl<T: JsonWire> JsonWire for Vec<T> {
    open spec fn wire(&self) -> Seq<char> {
        array(wires(self@))
    }

    fn write_wire(&self, out: &mut String) {
        let ghost start = out@;
        out.push('[');
        let mut i: usize = 0;
        while i < self.len()
            invariant
                i <= self.len(),
                out@ == start + seq!['['] + join_commas(wires(self@.take(i as int))),
            decreases self.len() - i,
        {
            proof {
                assert(self@.take(i + 1) =~= self@.take(i as int).push(self@[i as int]));
                assert(wires(self@.take(i + 1)) =~= wires(self@.take(i as int)).push(
                    self@[i as int].wire(),
                ));
                lemma_join_push(wires(self@.take(i as int)), self@[i as int].wire());
            }
            if i > 0 {
                out.push(',');
            }
            self[i].write_wire(out);
            i = i + 1;
        }
        out.push(']');
        assert(self@.take(self@.len() as int) =~= self@);
        assert(out@ =~= start + self.wire());
    }
}


/// The wire text of every `Uint128` amount: its decimal digits, in quotes.
pub proof fn lemma_u128_text(v: u128)
    ensures
        v.wire() == seq!['"'] + dec_digits(v as nat) + seq!['"'],
{
}

/// The wire text of every `u64`, `u16` and `u8`: its bare decimal digits.
pub proof fn lemma_small_int_text(a: u64, b: u16, c: u8)
    ensures
        a.wire() == dec_digits(a as nat),
        b.wire() == dec_digits(b as nat),
        c.wire() == dec_digits(c as nat),
{
}

/// The wire text of a `bool`: `true` or `false`.
pub proof fn lemma_bool_text(b: bool)
    ensures
        b ==> b.wire() == seq!['t', 'r', 'u', 'e'],
        !b ==> b.wire() == seq!['f', 'a', 'l', 's', 'e'],
{
}

/// The wire text of every string: a JSON string literal of its characters.
pub proof fn lemma_string_text(s: String)
    ensures
        s.wire() == seq!['"'] + escape(s@) + seq!['"'],
{
}

/// The wire text of an option: `null` when absent, the value's text when
/// present.
pub proof fn lemma_option_text<T: JsonWire>(v: Option<T>)
    ensures
        v is None ==> v.wire() == null_text(),
        v matches Some(x) ==> v.wire() == x.wire(),
{
}

/// The wire text of a pair: an array of its first and its second item.
pub proof fn lemma_pair_text<A: JsonWire, B: JsonWire>(v: (A, B))
    ensures
        v.wire() == array(seq![v.0.wire(), v.1.wire()]),
{
}

/// The wire text of a vector: an array of the texts of its items, in order.
pub proof fn lemma_vec_text<T: JsonWire>(v: Vec<T>)
    ensures
        v.wire() == array(Seq::new(v@.len(), |i: int| v@[i].wire())),
{
    assert(wires(v@) =~= Seq::new(v@.len(), |i: int| v@[i].wire()));
}


/// An object member is the quoted key, a colon, and the value's text.
pub proof fn lemma_member_text(k: Seq<char>, v: Seq<char>)
    ensures
        member(k, v) == seq!['"'] + k + seq!['"', ':'] + v,
{
    assert(member(k, v) =~= seq!['"'] + k + seq!['"', ':'] + v);
}

/// An object is `{}` when it has no members, its one member between braces
/// when it has one, and each further member follows the earlier ones after a
/// comma, before the closing brace.
pub proof fn lemma_object_text(ms: Seq<Seq<char>>, m: Seq<char>)
    ensures
        object(seq![]) == seq!['{', '}'],
        object(seq![m]) == seq!['{'] + m + seq!['}'],
        ms.len() > 0 ==> object(ms.push(m)) == object(ms).drop_last().push(',') + m + seq![
            '}',
        ],
{
    assert(object(seq![]) =~= seq!['{', '}']);
    assert(join_commas(seq![m]) == m);
    assert(object(seq![m]) =~= seq!['{'] + m + seq!['}']);
    if ms.len() > 0 {
        lemma_join_push(ms, m);
        assert(object(ms).drop_last() =~= seq!['{'] + join_commas(ms));
        assert(object(ms.push(m)) =~= object(ms).drop_last().push(',') + m + seq!['}']);
    }
}

} // verus!
