//! The wire text of a value determines the value: string literals, digit
//! runs and the other leaves can be read back unambiguously.
use vstd::prelude::*;
use crate::wire::{
    array, dec_digits, digit_char, escape, escape_char, hex_upper, join_commas, json_quote, member,
    null_text, object, quoted_key, tagged, wires, JsonWire,
};

verus! {

/// Escaping distributes over concatenation.
pub proof fn lemma_escape_append(a: Seq<char>, b: Seq<char>)
    ensures
        escape(a + b) == escape(a) + escape(b),
    decreases b.len(),
{
    if b.len() == 0 {
        assert(a + b =~= a);
        assert(escape(a) + escape(b) =~= escape(a));
    } else {
        assert((a + b).drop_last() =~= a + b.drop_last());
        assert((a + b).last() == b.last());
        lemma_escape_append(a, b.drop_last());
        assert(escape(a + b) =~= escape(a) + escape(b));
    }
}

/// The escape of a non-empty string is the escape of its first character
/// followed by the escape of the rest.
pub proof fn lemma_escape_first(s: Seq<char>)
    requires
        s.len() > 0,
    ensures
        escape(s) == escape_char(s[0]) + escape(s.drop_first()),
{
    assert(s =~= seq![s[0]] + s.drop_first());
    lemma_escape_append(seq![s[0]], s.drop_first());
    assert(seq![s[0]].drop_last() =~= Seq::<char>::empty());
    assert(seq![s[0]].last() == s[0]);
    assert(escape(Seq::<char>::empty()) =~= Seq::<char>::empty());
    assert(escape(seq![s[0]]) =~= escape_char(s[0]));
}

/// `a + r1 == a + r2` leaves `r1 == r2`.
pub proof fn lemma_cancel_prefix(a: Seq<char>, r1: Seq<char>, r2: Seq<char>)
    requires
        a + r1 == a + r2,
    ensures
        r1 == r2,
{
    assert(r1 =~= (a + r1).skip(a.len() as int));
    assert(r2 =~= (a + r2).skip(a.len() as int));
}

/// Two texts with the same prefix length: prefixes and rests are equal.
pub proof fn lemma_split_equal(a1: Seq<char>, a2: Seq<char>, r1: Seq<char>, r2: Seq<char>)
    requires
        a1 + r1 == a2 + r2,
        a1.len() == a2.len(),
    ensures
        a1 == a2,
        r1 == r2,
{
    assert(a1 =~= (a1 + r1).take(a1.len() as int));
    assert(a2 =~= (a2 + r2).take(a2.len() as int));
    assert(r1 =~= (a1 + r1).skip(a1.len() as int));
    assert(r2 =~= (a2 + r2).skip(a2.len() as int));
}

/// A decimal digit character.
pub open spec fn is_digit(c: char) -> bool {
    48 <= c as nat && c as nat <= 57
}

/// A text that is empty or does not start with a digit.
pub open spec fn digit_free_start(r: Seq<char>) -> bool {
    r.len() == 0 || !is_digit(r[0])
}

/// The number that a run of digits stands for.
pub open spec fn digits_value(s: Seq<char>) -> nat
    decreases s.len(),
{
    if s.len() == 0 {
        0
    } else {
        digits_value(s.drop_last()) * 10 + (s.last() as nat - 48) as nat
    }
}

/// The digits of `n` are a non-empty run of digit characters whose value is `n`.
pub proof fn lemma_digits_shape(n: nat)
    ensures
        dec_digits(n).len() > 0,
        forall|i: int| 0 <= i < dec_digits(n).len() ==> is_digit(#[trigger] dec_digits(n)[i]),
        digits_value(dec_digits(n)) == n,
    decreases n,
{
    if n >= 10 {
        lemma_digits_shape(n / 10);
        let d = dec_digits(n / 10);
        assert(dec_digits(n).drop_last() =~= d);
        assert(dec_digits(n).last() == digit_char(n % 10));
        assert(digits_value(dec_digits(n)) == digits_value(d) * 10 + n % 10);
        assert(n == (n / 10) * 10 + n % 10);
    } else {
        assert(dec_digits(n).drop_last() =~= Seq::<char>::empty());
        assert(dec_digits(n).last() == digit_char(n));
        assert(digits_value(Seq::<char>::empty()) == 0);
        assert(digit_char(n) as nat == n + 48);
    }
}

/// A run of digits can be read back from the front of a text when what
/// follows it does not start with a digit.
pub proof fn lemma_digits_unique(a: nat, b: nat, r1: Seq<char>, r2: Seq<char>)
    requires
        dec_digits(a) + r1 == dec_digits(b) + r2,
        digit_free_start(r1),
        digit_free_start(r2),
    ensures
        a == b,
        r1 == r2,
{
    lemma_digits_shape(a);
    lemma_digits_shape(b);
    let da = dec_digits(a);
    let db = dec_digits(b);
    let w = da + r1;
    if da.len() < db.len() {
        assert(w.len() == (db + r2).len());
        assert(r1.len() > 0);
        assert(w[da.len() as int] == r1[0]);
        assert((db + r2)[da.len() as int] == db[da.len() as int]);
    } else if db.len() < da.len() {
        assert(r2.len() > 0);
        assert((db + r2)[db.len() as int] == r2[0]);
        assert(w[db.len() as int] == da[db.len() as int]);
    }
    lemma_split_equal(da, db, r1, r2);
}

/// The characters that may follow a value inside an object or an array.
pub open spec fn is_stop(c: char) -> bool {
    c == ',' || c == '}' || c == ']'
}

/// What follows a value: nothing, or a separator or a closing bracket.
pub open spec fn ends_value(r: Seq<char>) -> bool {
    r.len() == 0 || is_stop(r[0])
}

/// A text without quote characters.
pub open spec fn quote_free(t: Seq<char>) -> bool {
    forall|i: int| 0 <= i < t.len() ==> t[i] != '"'
}

/// Two value texts that can be told apart from the front of any text in
/// which a value is followed by a separator, a closing bracket or nothing.
pub open spec fn readable(a: Seq<char>, b: Seq<char>) -> bool {
    forall|r1: Seq<char>, r2: Seq<char>|
        #![trigger a + r1, b + r2]
        ends_value(r1) && ends_value(r2) && a + r1 == b + r2 ==> a == b && r1 == r2
}

/// The members of an object with the given keys and value texts.
pub open spec fn members(ks: Seq<Seq<char>>, vs: Seq<Seq<char>>) -> Seq<Seq<char>> {
    Seq::new(ks.len(), |i: int| member(ks[i], vs[i]))
}

/// Reads one value back from the front of two equal texts.
pub proof fn lemma_read(a: Seq<char>, b: Seq<char>, r1: Seq<char>, r2: Seq<char>)
    requires
        readable(a, b),
        ends_value(r1),
        ends_value(r2),
        a + r1 == b + r2,
    ensures
        a == b,
        r1 == r2,
{
}

/// A quote-free text between quotes can be read back from the front of a text.
pub proof fn lemma_quote_free_unique(t1: Seq<char>, t2: Seq<char>, r1: Seq<char>, r2: Seq<char>)
    requires
        quote_free(t1),
        quote_free(t2),
        seq!['"'] + t1 + seq!['"'] + r1 == seq!['"'] + t2 + seq!['"'] + r2,
    ensures
        t1 == t2,
        r1 == r2,
{
    let w1 = seq!['"'] + t1 + seq!['"'] + r1;
    let w2 = seq!['"'] + t2 + seq!['"'] + r2;
    if t1.len() < t2.len() {
        assert(w1[1 + t1.len() as int] == '"');
        assert(w2[1 + t1.len() as int] == t2[t1.len() as int]);
    } else if t2.len() < t1.len() {
        assert(w2[1 + t2.len() as int] == '"');
        assert(w1[1 + t2.len() as int] == t1[t2.len() as int]);
    }
    lemma_split_equal(seq!['"'] + t1 + seq!['"'], seq!['"'] + t2 + seq!['"'], r1, r2);
    assert(t1 =~= (seq!['"'] + t1 + seq!['"']).subrange(1, 1 + t1.len() as int));
    assert(t2 =~= (seq!['"'] + t2 + seq!['"']).subrange(1, 1 + t2.len() as int));
}

/// Joining from the front: the first item, a comma, and the rest joined.
pub proof fn lemma_join_first(items: Seq<Seq<char>>)
    requires
        items.len() >= 2,
    ensures
        join_commas(items) == items[0] + seq![','] + join_commas(items.drop_first()),
    decreases items.len(),
{
    if items.len() == 2 {
        assert(items.drop_last() =~= seq![items[0]]);
        assert(items.drop_first() =~= seq![items[1]]);
        assert(join_commas(seq![items[0]]) == items[0]);
        assert(join_commas(seq![items[1]]) == items[1]);
        assert(join_commas(items) =~= items[0] + seq![','] + join_commas(items.drop_first()));
    } else {
        lemma_join_first(items.drop_last());
        assert(items.drop_last().drop_first() =~= items.drop_first().drop_last());
        assert(items.drop_last()[0] == items[0]);
        assert(items.drop_first().last() == items.last());
        assert(join_commas(items) =~= items[0] + seq![','] + join_commas(items.drop_first()));
    }
}

/// The members of an object, up to its closing brace, can be read back.
proof fn lemma_members_unique(
    ks: Seq<Seq<char>>,
    vs: Seq<Seq<char>>,
    ws: Seq<Seq<char>>,
    r1: Seq<char>,
    r2: Seq<char>,
)
    requires
        ks.len() >= 1,
        vs.len() == ks.len(),
        ws.len() == ks.len(),
        forall|i: int| 0 <= i < ks.len() ==> #[trigger] readable(vs[i], ws[i]),
        join_commas(members(ks, vs)) + (seq!['}'] + r1) == join_commas(members(ks, ws)) + (
        seq!['}'] + r2),
    ensures
        vs == ws,
        r1 == r2,
    decreases ks.len(),
{
    let m = members(ks, vs);
    let n = members(ks, ws);
    let k0 = quoted_key(ks[0]);
    assert(readable(vs[0], ws[0]));
    if ks.len() == 1 {
        assert(join_commas(m) == m[0]);
        assert(join_commas(n) == n[0]);
        assert(join_commas(m) + (seq!['}'] + r1) =~= k0 + (vs[0] + (seq!['}'] + r1)));
        assert(join_commas(n) + (seq!['}'] + r2) =~= k0 + (ws[0] + (seq!['}'] + r2)));
        lemma_cancel_prefix(k0, vs[0] + (seq!['}'] + r1), ws[0] + (seq!['}'] + r2));
        assert(ends_value(seq!['}'] + r1));
        assert(ends_value(seq!['}'] + r2));
        lemma_read(vs[0], ws[0], seq!['}'] + r1, seq!['}'] + r2);
        lemma_cancel_prefix(seq!['}'], r1, r2);
        assert(vs =~= ws);
    } else {
        lemma_join_first(m);
        lemma_join_first(n);
        let ks2 = ks.drop_first();
        let vs2 = vs.drop_first();
        let ws2 = ws.drop_first();
        assert(m.drop_first() =~= members(ks2, vs2));
        assert(n.drop_first() =~= members(ks2, ws2));
        let t1 = seq![','] + (join_commas(members(ks2, vs2)) + (seq!['}'] + r1));
        let t2 = seq![','] + (join_commas(members(ks2, ws2)) + (seq!['}'] + r2));
        assert(join_commas(m) + (seq!['}'] + r1) =~= k0 + (vs[0] + t1));
        assert(join_commas(n) + (seq!['}'] + r2) =~= k0 + (ws[0] + t2));
        lemma_cancel_prefix(k0, vs[0] + t1, ws[0] + t2);
        assert(ends_value(t1));
        assert(ends_value(t2));
        lemma_read(vs[0], ws[0], t1, t2);
        lemma_cancel_prefix(
            seq![','],
            join_commas(members(ks2, vs2)) + (seq!['}'] + r1),
            join_commas(members(ks2, ws2)) + (seq!['}'] + r2),
        );
        assert forall|i: int| 0 <= i < ks2.len() implies #[trigger] readable(vs2[i], ws2[i]) by {
            assert(readable(vs[i + 1], ws[i + 1]));
        }
        lemma_members_unique(ks2, vs2, ws2, r1, r2);
        assert(vs =~= seq![vs[0]] + vs2);
        assert(ws =~= seq![ws[0]] + ws2);
        assert(vs =~= ws);
    }
}

/// An object whose members have readable values can be read back: the
/// member values are equal, and so are the texts after the objects.
pub proof fn lemma_object_unique(
    ks: Seq<Seq<char>>,
    vs: Seq<Seq<char>>,
    ws: Seq<Seq<char>>,
    r1: Seq<char>,
    r2: Seq<char>,
)
    requires
        vs.len() == ks.len(),
        ws.len() == ks.len(),
        forall|i: int| 0 <= i < ks.len() ==> #[trigger] readable(vs[i], ws[i]),
        object(members(ks, vs)) + r1 == object(members(ks, ws)) + r2,
    ensures
        vs == ws,
        r1 == r2,
{
    let m = members(ks, vs);
    let n = members(ks, ws);
    assert(object(m) + r1 =~= seq!['{'] + (join_commas(m) + (seq!['}'] + r1)));
    assert(object(n) + r2 =~= seq!['{'] + (join_commas(n) + (seq!['}'] + r2)));
    lemma_cancel_prefix(
        seq!['{'],
        join_commas(m) + (seq!['}'] + r1),
        join_commas(n) + (seq!['}'] + r2),
    );
    if ks.len() == 0 {
        assert(join_commas(m) + (seq!['}'] + r1) =~= seq!['}'] + r1);
        assert(join_commas(n) + (seq!['}'] + r2) =~= seq!['}'] + r2);
        lemma_cancel_prefix(seq!['}'], r1, r2);
        assert(vs =~= ws);
    } else {
        lemma_members_unique(ks, vs, ws, r1, r2);
    }
}

/// The items of an array, up to its closing bracket, can be read back.
proof fn lemma_items_unique(vs: Seq<Seq<char>>, ws: Seq<Seq<char>>, r1: Seq<char>, r2: Seq<char>)
    requires
        forall|i: int| 0 <= i < vs.len() ==> #[trigger] vs[i].len() > 0 && !is_stop(vs[i][0]),
        forall|i: int| 0 <= i < ws.len() ==> #[trigger] ws[i].len() > 0 && !is_stop(ws[i][0]),
        forall|i: int| 0 <= i < vs.len() && i < ws.len() ==> #[trigger] readable(vs[i], ws[i]),
        join_commas(vs) + (seq![']'] + r1) == join_commas(ws) + (seq![']'] + r2),
    ensures
        vs == ws,
        r1 == r2,
    decreases vs.len(),
{
    let c = seq![']'];
    if vs.len() == 0 || ws.len() == 0 {
        if vs.len() == 0 && ws.len() > 0 {
            assert(join_commas(vs) + (c + r1) =~= c + r1);
            if ws.len() == 1 {
                assert(join_commas(ws) == ws[0]);
            } else {
                lemma_join_first(ws);
            }
            assert((join_commas(ws) + (c + r2))[0] == ws[0][0]);
        } else if ws.len() == 0 && vs.len() > 0 {
            assert(join_commas(ws) + (c + r2) =~= c + r2);
            if vs.len() == 1 {
                assert(join_commas(vs) == vs[0]);
            } else {
                lemma_join_first(vs);
            }
            assert((join_commas(vs) + (c + r1))[0] == vs[0][0]);
        }
        assert(join_commas(vs) + (c + r1) =~= c + r1);
        assert(join_commas(ws) + (c + r2) =~= c + r2);
        lemma_cancel_prefix(c, r1, r2);
        assert(vs =~= ws);
    } else {
        assert(readable(vs[0], ws[0]));
        let tv = if vs.len() == 1 {
            c + r1
        } else {
            seq![','] + (join_commas(vs.drop_first()) + (c + r1))
        };
        let tw = if ws.len() == 1 {
            c + r2
        } else {
            seq![','] + (join_commas(ws.drop_first()) + (c + r2))
        };
        if vs.len() == 1 {
            assert(join_commas(vs) == vs[0]);
            assert(join_commas(vs) + (c + r1) =~= vs[0] + tv);
        } else {
            lemma_join_first(vs);
            assert(join_commas(vs) + (c + r1) =~= vs[0] + tv);
        }
        if ws.len() == 1 {
            assert(join_commas(ws) == ws[0]);
            assert(join_commas(ws) + (c + r2) =~= ws[0] + tw);
        } else {
            lemma_join_first(ws);
            assert(join_commas(ws) + (c + r2) =~= ws[0] + tw);
        }
        assert(ends_value(tv));
        assert(ends_value(tw));
        lemma_read(vs[0], ws[0], tv, tw);
        if vs.len() == 1 && ws.len() == 1 {
            lemma_cancel_prefix(c, r1, r2);
            assert(vs =~= ws);
        } else if vs.len() == 1 {
            lemma_join_first(ws);
            assert(tv[0] == ']');
            assert(tw[0] == ',');
        } else if ws.len() == 1 {
            assert(tw[0] == ']');
            assert(tv[0] == ',');
        } else {
            lemma_cancel_prefix(
                seq![','],
                join_commas(vs.drop_first()) + (c + r1),
                join_commas(ws.drop_first()) + (c + r2),
            );
            let vs2 = vs.drop_first();
            let ws2 = ws.drop_first();
            assert forall|i: int| 0 <= i < vs2.len() && i < ws2.len() implies #[trigger] readable(
                vs2[i],
                ws2[i],
            ) by {
                assert(readable(vs[i + 1], ws[i + 1]));
            }
            assert forall|i: int| 0 <= i < vs2.len() implies #[trigger] vs2[i].len() > 0
                && !is_stop(vs2[i][0]) by {
                assert(vs[i + 1].len() > 0 && !is_stop(vs[i + 1][0]));
            }
            assert forall|i: int| 0 <= i < ws2.len() implies #[trigger] ws2[i].len() > 0
                && !is_stop(ws2[i][0]) by {
                assert(ws[i + 1].len() > 0 && !is_stop(ws[i + 1][0]));
            }
            lemma_items_unique(vs2, ws2, r1, r2);
            assert(vs =~= seq![vs[0]] + vs2);
            assert(ws =~= seq![ws[0]] + ws2);
            assert(vs =~= ws);
        }
    }
}

/// An array whose items are non-empty readable value texts can be read
/// back: the items are equal, and so are the texts after the arrays.
pub proof fn lemma_array_unique(
    vs: Seq<Seq<char>>,
    ws: Seq<Seq<char>>,
    r1: Seq<char>,
    r2: Seq<char>,
)
    requires
        forall|i: int| 0 <= i < vs.len() ==> #[trigger] vs[i].len() > 0 && !is_stop(vs[i][0]),
        forall|i: int| 0 <= i < ws.len() ==> #[trigger] ws[i].len() > 0 && !is_stop(ws[i][0]),
        forall|i: int| 0 <= i < vs.len() && i < ws.len() ==> #[trigger] readable(vs[i], ws[i]),
        array(vs) + r1 == array(ws) + r2,
    ensures
        vs == ws,
        r1 == r2,
{
    assert(array(vs) + r1 =~= seq!['['] + (join_commas(vs) + (seq![']'] + r1)));
    assert(array(ws) + r2 =~= seq!['['] + (join_commas(ws) + (seq![']'] + r2)));
    lemma_cancel_prefix(
        seq!['['],
        join_commas(vs) + (seq![']'] + r1),
        join_commas(ws) + (seq![']'] + r2),
    );
    lemma_items_unique(vs, ws, r1, r2);
}

/// Distinct hexadecimal digits have distinct characters.
pub proof fn lemma_hex_upper_injective(a: nat, b: nat)
    requires
        a < 16,
        b < 16,
        hex_upper(a) == hex_upper(b),
    ensures
        a == b,
{
}

/// An escaped character is never empty and never starts with a quote.
pub proof fn lemma_escape_char_shape(c: char)
    ensures
        escape_char(c).len() > 0,
        escape_char(c)[0] != '"',
{
}

/// An escaped character can be read back from the front of a text.
pub proof fn lemma_escape_char_unique(c1: char, c2: char, t1: Seq<char>, t2: Seq<char>)
    requires
        escape_char(c1) + t1 == escape_char(c2) + t2,
    ensures
        c1 == c2,
        t1 == t2,
{
    let e1 = escape_char(c1);
    let e2 = escape_char(c2);
    let w = e1 + t1;
    assert(w[0] == e1[0]);
    assert(w[0] == e2[0]);
    if e1[0] != '\\' {
        assert(e1 =~= seq![c1]);
        if e2[0] != '\\' {
            assert(e2 =~= seq![c2]);
        }
    } else {
        assert(e2[0] == '\\');
        assert(w[1] == e1[1]);
        assert(w[1] == e2[1]);
        if e1[1] == 'u' {
            assert(e2[1] == 'u');
            assert(w[4] == e1[4] && w[4] == e2[4]);
            assert(w[5] == e1[5] && w[5] == e2[5]);
            let n1 = c1 as nat;
            let n2 = c2 as nat;
            lemma_hex_upper_injective(n1 / 16, n2 / 16);
            lemma_hex_upper_injective(n1 % 16, n2 % 16);
            assert(n1 == n2);
        }
    }
    assert(c1 == c2);
    lemma_cancel_prefix(e1, t1, t2);
}

/// A string literal can be read back from the front of a text: the quoted
/// strings and the texts after them are equal.
pub proof fn lemma_quote_unique(s1: Seq<char>, s2: Seq<char>, r1: Seq<char>, r2: Seq<char>)
    requires
        json_quote(s1) + r1 == json_quote(s2) + r2,
    ensures
        s1 == s2,
        r1 == r2,
    decreases s1.len(),
{
    let q = seq!['"'];
    assert(json_quote(s1) + r1 =~= q + (escape(s1) + (q + r1)));
    assert(json_quote(s2) + r2 =~= q + (escape(s2) + (q + r2)));
    lemma_cancel_prefix(q, escape(s1) + (q + r1), escape(s2) + (q + r2));
    lemma_escape_body_unique(s1, s2, r1, r2);
}

/// Inside a literal: escaped characters up to the closing quote.
proof fn lemma_escape_body_unique(s1: Seq<char>, s2: Seq<char>, r1: Seq<char>, r2: Seq<char>)
    requires
        escape(s1) + (seq!['"'] + r1) == escape(s2) + (seq!['"'] + r2),
    ensures
        s1 == s2,
        r1 == r2,
    decreases s1.len(),
{
    let q = seq!['"'];
    if s1.len() == 0 {
        assert(escape(s1) =~= Seq::<char>::empty());
        if s2.len() > 0 {
            lemma_escape_first(s2);
            lemma_escape_char_shape(s2[0]);
            assert((escape(s1) + (q + r1))[0] == '"');
            assert((escape(s2) + (q + r2))[0] == escape_char(s2[0])[0]);
        }
        assert(escape(s2) =~= Seq::<char>::empty());
        assert(q + r1 =~= escape(s1) + (q + r1));
        assert(q + r2 =~= escape(s2) + (q + r2));
        lemma_cancel_prefix(q, r1, r2);
    } else {
        lemma_escape_first(s1);
        lemma_escape_char_shape(s1[0]);
        if s2.len() == 0 {
            assert(escape(s2) =~= Seq::<char>::empty());
            assert((escape(s2) + (q + r2))[0] == '"');
            assert((escape(s1) + (q + r1))[0] == escape_char(s1[0])[0]);
        }
        lemma_escape_first(s2);
        let t1 = escape(s1.drop_first()) + (q + r1);
        let t2 = escape(s2.drop_first()) + (q + r2);
        assert(escape(s1) + (q + r1) =~= escape_char(s1[0]) + t1);
        assert(escape(s2) + (q + r2) =~= escape_char(s2[0]) + t2);
        lemma_escape_char_unique(s1[0], s2[0], t1, t2);
        lemma_escape_body_unique(s1.drop_first(), s2.drop_first(), r1, r2);
        assert(s1 =~= seq![s1[0]] + s1.drop_first());
        assert(s2 =~= seq![s2[0]] + s2.drop_first());
    }
}


/// An object whose members have readable values has a readable text.
pub proof fn lemma_object_readable(ks: Seq<Seq<char>>, vs: Seq<Seq<char>>, ws: Seq<Seq<char>>)
    requires
        vs.len() == ks.len(),
        ws.len() == ks.len(),
        forall|i: int| 0 <= i < ks.len() ==> #[trigger] readable(vs[i], ws[i]),
    ensures
        readable(object(members(ks, vs)), object(members(ks, ws))),
{
    let a = object(members(ks, vs));
    let b = object(members(ks, ws));
    assert forall|r1: Seq<char>, r2: Seq<char>|
        #![trigger a + r1, b + r2]
        ends_value(r1) && ends_value(r2) && a + r1 == b + r2 implies a == b && r1 == r2 by {
        lemma_object_unique(ks, vs, ws, r1, r2);
    }
}

/// The tags of two tagged values in one text are equal when they are
/// quote-free.
pub proof fn lemma_tag_unique(
    t1: Seq<char>,
    b1: Seq<char>,
    t2: Seq<char>,
    b2: Seq<char>,
    r1: Seq<char>,
    r2: Seq<char>,
)
    requires
        quote_free(t1),
        quote_free(t2),
        tagged(t1, b1) + r1 == tagged(t2, b2) + r2,
    ensures
        t1 == t2,
{
    let q = seq!['"'];
    let rest1 = seq![':'] + b1 + seq!['}'] + r1;
    let rest2 = seq![':'] + b2 + seq!['}'] + r2;
    assert(join_commas(seq![member(t1, b1)]) == member(t1, b1));
    assert(join_commas(seq![member(t2, b2)]) == member(t2, b2));
    assert(tagged(t1, b1) + r1 =~= seq!['{'] + (q + t1 + q + rest1));
    assert(tagged(t2, b2) + r2 =~= seq!['{'] + (q + t2 + q + rest2));
    lemma_cancel_prefix(seq!['{'], q + t1 + q + rest1, q + t2 + q + rest2);
    lemma_quote_free_unique(t1, t2, rest1, rest2);
}

/// The bodies of two values with the same tag can be read back when they
/// are readable.
pub proof fn lemma_tagged_unique(
    t: Seq<char>,
    b1: Seq<char>,
    b2: Seq<char>,
    r1: Seq<char>,
    r2: Seq<char>,
)
    requires
        readable(b1, b2),
        tagged(t, b1) + r1 == tagged(t, b2) + r2,
    ensures
        b1 == b2,
        r1 == r2,
{
    let ks = seq![t];
    let vs = seq![b1];
    let ws = seq![b2];
    assert(members(ks, vs) =~= seq![member(t, b1)]);
    assert(members(ks, ws) =~= seq![member(t, b2)]);
    assert forall|i: int| 0 <= i < ks.len() implies #[trigger] readable(vs[i], ws[i]) by {
    }
    lemma_object_unique(ks, vs, ws, r1, r2);
    assert(vs[0] == ws[0]);
}

/// Wire types whose text determines the value.
pub trait WireUnique: JsonWire {
    /// Equal as wire values: numbers and flags equal, strings with the same
    /// characters, and so on through every field and item.
    spec fn same(&self, other: &Self) -> bool;

    /// The text of a value is never empty and never starts with a separator
    /// or a closing bracket.
    proof fn lemma_wire_shape(&self)
        ensures
            self.wire().len() > 0,
            !is_stop(self.wire()[0]),
    ;

    /// A value can be read back from the front of a text in which it is
    /// followed by a separator, a closing bracket or nothing.
    proof fn lemma_wire_unique(&self, other: &Self, r1: Seq<char>, r2: Seq<char>)
        requires
            self.wire() + r1 == other.wire() + r2,
            ends_value(r1),
            ends_value(r2),
        ensures
            self.wire() == other.wire(),
            r1 == r2,
            self.same(other),
    ;
}

/// Wire values whose text never starts like `null`, so that an absent
/// option can be told from a present one.
pub trait WireValue: WireUnique {
    proof fn lemma_not_null(&self)
        ensures
            self.wire().len() > 0,
            self.wire()[0] != 'n',
    ;
}

/// Two values of a wire type give readable texts.
pub proof fn lemma_readable<T: WireUnique>(a: &T, b: &T)
    ensures
        readable(a.wire(), b.wire()),
{
    assert forall|r1: Seq<char>, r2: Seq<char>|
        #![trigger a.wire() + r1, b.wire() + r2]
        ends_value(r1) && ends_value(r2) && a.wire() + r1 == b.wire() + r2 implies a.wire()
        == b.wire() && r1 == r2 by {
        a.lemma_wire_unique(b, r1, r2);
    }
}

/// The JSON text of a wire value determines the value: two values with
/// equal texts are the same, with equal numbers and flags and strings of
/// equal characters in every field and item.
pub proof fn lemma_wire_injective<T: WireUnique>(a: &T, b: &T)
    requires
        a.wire() == b.wire(),
    ensures
        a.same(b),
{
    assert(a.wire() + Seq::<char>::empty() =~= a.wire());
    assert(b.wire() + Seq::<char>::empty() =~= b.wire());
    a.lemma_wire_unique(b, Seq::<char>::empty(), Seq::<char>::empty());
}

/// Bare digits, followed by a separator, a closing bracket or nothing.
proof fn lemma_bare_digits_unique(a: nat, b: nat, r1: Seq<char>, r2: Seq<char>)
    requires
        dec_digits(a) + r1 == dec_digits(b) + r2,
        ends_value(r1),
        ends_value(r2),
    ensures
        a == b,
        r1 == r2,
{
    lemma_digits_unique(a, b, r1, r2);
}

/// Digits between quotes.
pub proof fn lemma_quoted_digits_unique(a: nat, b: nat, r1: Seq<char>, r2: Seq<char>)
    requires
        seq!['"'] + dec_digits(a) + seq!['"'] + r1 == seq!['"'] + dec_digits(b) + seq!['"'] + r2,
    ensures
        a == b,
        r1 == r2,
{
    let q = seq!['"'];
    assert(q + dec_digits(a) + q + r1 =~= q + (dec_digits(a) + (q + r1)));
    assert(q + dec_digits(b) + q + r2 =~= q + (dec_digits(b) + (q + r2)));
    lemma_cancel_prefix(q, dec_digits(a) + (q + r1), dec_digits(b) + (q + r2));
    lemma_digits_unique(a, b, q + r1, q + r2);
    lemma_cancel_prefix(q, r1, r2);
}

/// The digits of a number start with a digit.
proof fn lemma_digits_first(n: nat)
    ensures
        dec_digits(n).len() > 0,
        is_digit(dec_digits(n)[0]),
{
    lemma_digits_shape(n);
}

impl WireUnique for String {
    open spec fn same(&self, other: &Self) -> bool {
        self@ == other@
    }

    proof fn lemma_wire_shape(&self) {
    }

    proof fn lemma_wire_unique(&self, other: &Self, r1: Seq<char>, r2: Seq<char>) {
        lemma_quote_unique(self@, other@, r1, r2);
    }
}

impl WireValue for String {
    proof fn lemma_not_null(&self) {
    }
}

impl WireUnique for u128 {
    open spec fn same(&self, other: &Self) -> bool {
        *self == *other
    }

    proof fn lemma_wire_shape(&self) {
    }

    proof fn lemma_wire_unique(&self, other: &Self, r1: Seq<char>, r2: Seq<char>) {
        lemma_quoted_digits_unique(*self as nat, *other as nat, r1, r2);
    }
}

impl WireValue for u128 {
    proof fn lemma_not_null(&self) {
    }
}

impl WireUnique for u64 {
    open spec fn same(&self, other: &Self) -> bool {
        *self == *other
    }

    proof fn lemma_wire_shape(&self) {
        lemma_digits_first(*self as nat);
    }

    proof fn lemma_wire_unique(&self, other: &Self, r1: Seq<char>, r2: Seq<char>) {
        lemma_bare_digits_unique(*self as nat, *other as nat, r1, r2);
    }
}

impl WireValue for u64 {
    proof fn lemma_not_null(&self) {
        lemma_digits_first(*self as nat);
    }
}

impl WireUnique for u16 {
    open spec fn same(&self, other: &Self) -> bool {
        *self == *other
    }

    proof fn lemma_wire_shape(&self) {
        lemma_digits_first(*self as nat);
    }

    proof fn lemma_wire_unique(&self, other: &Self, r1: Seq<char>, r2: Seq<char>) {
        lemma_bare_digits_unique(*self as nat, *other as nat, r1, r2);
    }
}

impl WireValue for u16 {
    proof fn lemma_not_null(&self) {
        lemma_digits_first(*self as nat);
    }
}

impl WireUnique for u8 {
    open spec fn same(&self, other: &Self) -> bool {
        *self == *other
    }

    proof fn lemma_wire_shape(&self) {
        lemma_digits_first(*self as nat);
    }

    proof fn lemma_wire_unique(&self, other: &Self, r1: Seq<char>, r2: Seq<char>) {
        lemma_bare_digits_unique(*self as nat, *other as nat, r1, r2);
    }
}

impl WireValue for u8 {
    proof fn lemma_not_null(&self) {
        lemma_digits_first(*self as nat);
    }
}

impl WireUnique for bool {
    open spec fn same(&self, other: &Self) -> bool {
        *self == *other
    }

    proof fn lemma_wire_shape(&self) {
    }

    proof fn lemma_wire_unique(&self, other: &Self, r1: Seq<char>, r2: Seq<char>) {
        assert((self.wire() + r1)[0] == self.wire()[0]);
        assert((other.wire() + r2)[0] == other.wire()[0]);
        lemma_cancel_prefix(self.wire(), r1, r2);
    }
}

impl WireValue for bool {
    proof fn lemma_not_null(&self) {
    }
}

impl<T: WireValue> WireUnique for Option<T> {
    open spec fn same(&self, other: &Self) -> bool {
        match (self, other) {
            (None, None) => true,
            (Some(a), Some(b)) => a.same(b),
            _ => false,
        }
    }

    proof fn lemma_wire_shape(&self) {
        match self {
            None => {},
            Some(v) => {
                v.lemma_wire_shape();
            },
        }
    }

    proof fn lemma_wire_unique(&self, other: &Self, r1: Seq<char>, r2: Seq<char>) {
        match (self, other) {
            (None, None) => {
                lemma_cancel_prefix(null_text(), r1, r2);
            },
            (Some(a), Some(b)) => {
                a.lemma_wire_unique(b, r1, r2);
            },
            (None, Some(b)) => {
                b.lemma_not_null();
                assert((self.wire() + r1)[0] == 'n');
                assert((other.wire() + r2)[0] == b.wire()[0]);
            },
            (Some(a), None) => {
                a.lemma_not_null();
                assert((other.wire() + r2)[0] == 'n');
                assert((self.wire() + r1)[0] == a.wire()[0]);
            },
        }
    }
}

impl<A: WireUnique, B: WireUnique> WireUnique for (A, B) {
    open spec fn same(&self, other: &Self) -> bool {
        self.0.same(&other.0) && self.1.same(&other.1)
    }

    proof fn lemma_wire_shape(&self) {
    }

    proof fn lemma_wire_unique(&self, other: &Self, r1: Seq<char>, r2: Seq<char>) {
        let vs = seq![self.0.wire(), self.1.wire()];
        let ws = seq![other.0.wire(), other.1.wire()];
        self.0.lemma_wire_shape();
        self.1.lemma_wire_shape();
        other.0.lemma_wire_shape();
        other.1.lemma_wire_shape();
        lemma_readable(&self.0, &other.0);
        lemma_readable(&self.1, &other.1);
        assert forall|i: int| 0 <= i < vs.len() && i < ws.len() implies #[trigger] readable(
            vs[i],
            ws[i],
        ) by {
            if i == 0 {
            } else {
            }
        }
        lemma_array_unique(vs, ws, r1, r2);
        assert(vs[0] == ws[0] && vs[1] == ws[1]);
        lemma_wire_injective(&self.0, &other.0);
        lemma_wire_injective(&self.1, &other.1);
    }
}

impl<A: WireUnique, B: WireUnique> WireValue for (A, B) {
    proof fn lemma_not_null(&self) {
    }
}

impl<T: WireUnique> WireUnique for Vec<T> {
    open spec fn same(&self, other: &Self) -> bool {
        &&& self@.len() == other@.len()
        &&& forall|i: int| 0 <= i < self@.len() ==> #[trigger] self@[i].same(&other@[i])
    }

    proof fn lemma_wire_shape(&self) {
    }

    proof fn lemma_wire_unique(&self, other: &Self, r1: Seq<char>, r2: Seq<char>) {
        let vs = wires(self@);
        let ws = wires(other@);
        assert forall|i: int| 0 <= i < vs.len() implies #[trigger] vs[i].len() > 0 && !is_stop(
            vs[i][0],
        ) by {
            self@[i].lemma_wire_shape();
        }
        assert forall|i: int| 0 <= i < ws.len() implies #[trigger] ws[i].len() > 0 && !is_stop(
            ws[i][0],
        ) by {
            other@[i].lemma_wire_shape();
        }
        assert forall|i: int| 0 <= i < vs.len() && i < ws.len() implies #[trigger] readable(
            vs[i],
            ws[i],
        ) by {
            lemma_readable(&self@[i], &other@[i]);
        }
        lemma_array_unique(vs, ws, r1, r2);
        assert forall|i: int| 0 <= i < self@.len() implies #[trigger] self@[i].same(&other@[i]) by {
            assert(vs[i] == ws[i]);
            lemma_wire_injective(&self@[i], &other@[i]);
        }
    }
}

impl<T: WireUnique> WireValue for Vec<T> {
    proof fn lemma_not_null(&self) {
    }
}

} // verus!
