//! The canonical text of a device collection is faithful: collections that
//! differ never have the same text, so that only a collision of the hash can
//! give two different collections the same digest.

use vstd::prelude::*;
use vstd::string::*;
use crate::device::{family_name, DeviceType, DeviceView};
use crate::digest::{
    entry_json, entry_pieces, escaped_char, escaped_text, hex_lower_char, joined, json_list,
    json_string, json_text_lists, json_texts, record_json, record_member, record_pieces,
    registry_json, text_digest,
};
use crate::download::{digits_value, is_digit};
use crate::entry::EntryView;
use crate::registry::{content_digest, content_valid, records_of};
use crate::text::{concat_all, decimal, decimal_digits, digit_char};

verus! {

/// Whether the texts `p` and `q` can be told apart at the front of any
/// text: where `p` followed by something reads the same as `q` followed by
/// something, `p` is `q` and what follows is the same.
pub open spec fn separable(p: Seq<char>, q: Seq<char>) -> bool {
    forall|u: Seq<char>, v: Seq<char>| #[trigger] (p + u) == #[trigger] (q + v) ==> p == q && u == v
}

/// What follows the same text is the same if the whole is.
pub proof fn lemma_same_front(p: Seq<char>, u: Seq<char>, v: Seq<char>)
    requires
        p + u == p + v,
    ensures
        u == v,
{
    assert((p + u).skip(p.len() as int) =~= u);
    assert((p + v).skip(p.len() as int) =~= v);
}

/// A text can be told apart from itself.
pub proof fn lemma_separable_from_itself(p: Seq<char>)
    ensures
        separable(p, p),
{
    assert forall|u: Seq<char>, v: Seq<char>| #[trigger] (p + u) == #[trigger] (p + v) implies p
        == p && u == v by {
        lemma_same_front(p, u, v);
    }
}

/// The first of several texts stands at the front of them all.
pub proof fn lemma_concat_first(texts: Seq<Seq<char>>)
    requires
        texts.len() > 0,
    ensures
        concat_all(texts) == texts[0] + concat_all(texts.drop_first()),
    decreases texts.len(),
{
    if texts.len() == 1 {
        assert(texts.drop_last() =~= Seq::<Seq<char>>::empty());
        assert(texts.drop_first() =~= Seq::<Seq<char>>::empty());
        assert(concat_all(texts) =~= texts[0] + concat_all(texts.drop_first()));
    } else {
        let front = texts.drop_last();
        lemma_concat_first(front);
        assert(front.drop_first() =~= texts.drop_first().drop_last());
        assert(front[0] == texts[0]);
        assert(texts.drop_first().last() == texts.last());
        assert(concat_all(texts) =~= texts[0] + concat_all(texts.drop_first()));
    }
}

/// Two runs of pieces that can be told apart piece by piece read the same,
/// each followed by something, only if they are the same pieces followed by
/// the same.
pub proof fn lemma_pieces(ps: Seq<Seq<char>>, qs: Seq<Seq<char>>, x: Seq<char>, y: Seq<char>)
    requires
        ps.len() == qs.len(),
        forall|i: int| 0 <= i < ps.len() ==> separable(#[trigger] ps[i], qs[i]),
        concat_all(ps) + x == concat_all(qs) + y,
    ensures
        ps == qs,
        x == y,
    decreases ps.len(),
{
    if ps.len() == 0 {
        assert(concat_all(ps) + x =~= x);
        assert(concat_all(qs) + y =~= y);
        assert(ps =~= qs);
    } else {
        lemma_concat_first(ps);
        lemma_concat_first(qs);
        let u = concat_all(ps.drop_first()) + x;
        let v = concat_all(qs.drop_first()) + y;
        assert(ps[0] + u =~= concat_all(ps) + x);
        assert(qs[0] + v =~= concat_all(qs) + y);
        assert(separable(ps[0], qs[0]));
        assert(ps[0] + u == qs[0] + v);
        assert(ps[0] == qs[0] && u == v);
        assert forall|i: int| 0 <= i < ps.drop_first().len() implies separable(
            #[trigger] ps.drop_first()[i],
            qs.drop_first()[i],
        ) by {
            assert(ps.drop_first()[i] == ps[i + 1]);
            assert(qs.drop_first()[i] == qs[i + 1]);
        }
        lemma_pieces(ps.drop_first(), qs.drop_first(), x, y);
        assert(ps =~= seq![ps[0]] + ps.drop_first());
        assert(qs =~= seq![qs[0]] + qs.drop_first());
    }
}

/// Whether a character is written with a backslash in a JSON string
/// literal.
pub open spec fn is_escaped(c: char) -> bool {
    (c as u32) < 0x20 || c as u32 == 0x22 || c as u32 == 0x5C
}

/// The lower-case hexadecimal digits of different values are different
/// characters, and none is a backslash or a double quote.
proof fn lemma_hex_digits_differ(a: int, b: int)
    requires
        0 <= a < 16,
        0 <= b < 16,
    ensures
        hex_lower_char(a) == hex_lower_char(b) ==> a == b,
{
    let p = hex_lower_char(a);
    let q = hex_lower_char(b);
    assert(p as u32 == if a < 10 {
        48 + a
    } else {
        87 + a
    });
    assert(q as u32 == if b < 10 {
        48 + b
    } else {
        87 + b
    });
}

/// The shape of an escaped character: it is not empty, it begins with a
/// backslash exactly where the character is escaped, and it never begins
/// with a double quote.
pub proof fn lemma_escaped_char_shape(c: char)
    ensures
        escaped_char(c).len() >= 1,
        escaped_char(c)[0] != '"',
        is_escaped(c) ==> escaped_char(c)[0] == '\\' && escaped_char(c).len() >= 2,
        !is_escaped(c) ==> escaped_char(c) == seq![c] && c != '\\',
{
}

/// An escaped character can be told apart from every other at the front of
/// any text.
pub proof fn lemma_escaped_char_code(c: char, d: char, x: Seq<char>, y: Seq<char>)
    requires
        escaped_char(c) + x == escaped_char(d) + y,
    ensures
        c == d,
        x == y,
{
    let e = escaped_char(c);
    let f = escaped_char(d);
    let l = e + x;
    let r = f + y;
    lemma_escaped_char_shape(c);
    lemma_escaped_char_shape(d);
    assert(l[0] == e[0] && r[0] == f[0]);
    vstd::utf8::char_u32_cast(c, c as u32);
    vstd::utf8::char_u32_cast(d, d as u32);
    if is_escaped(c) {
        assert(is_escaped(d));
        assert(l[1] == e[1] && r[1] == f[1]);
        if e[1] == 'u' {
            assert(e.len() == 6 && f.len() == 6);
            assert(l[4] == e[4] && r[4] == f[4]);
            assert(l[5] == e[5] && r[5] == f[5]);
            lemma_hex_digits_differ(c as u32 as int / 16, d as u32 as int / 16);
            lemma_hex_digits_differ(c as u32 as int % 16, d as u32 as int % 16);
        }
    }
    assert(c == d);
    lemma_same_front(e, x, y);
}

/// The first character of a text is the first to be escaped.
pub proof fn lemma_escaped_text_first(text: Seq<char>)
    requires
        text.len() > 0,
    ensures
        escaped_text(text) == escaped_char(text[0]) + escaped_text(text.drop_first()),
    decreases text.len(),
{
    if text.len() == 1 {
        assert(text.drop_last() =~= Seq::<char>::empty());
        assert(text.drop_first() =~= Seq::<char>::empty());
        assert(escaped_text(text) =~= escaped_char(text[0]) + escaped_text(text.drop_first()));
    } else {
        let front = text.drop_last();
        lemma_escaped_text_first(front);
        assert(front.drop_first() =~= text.drop_first().drop_last());
        assert(front[0] == text[0]);
        assert(text.drop_first().last() == text.last());
        assert(escaped_text(text) =~= escaped_char(text[0]) + escaped_text(text.drop_first()));
    }
}

/// Escaped texts, each closed by a double quote, can be told apart at the
/// front of any text.
proof fn lemma_escaped_text_code(a: Seq<char>, b: Seq<char>, x: Seq<char>, y: Seq<char>)
    requires
        escaped_text(a) + seq!['"'] + x == escaped_text(b) + seq!['"'] + y,
    ensures
        a == b,
        x == y,
    decreases a.len(),
{
    let l = escaped_text(a) + seq!['"'] + x;
    let r = escaped_text(b) + seq!['"'] + y;
    if a.len() == 0 {
        assert(l[0] == '"');
        if b.len() > 0 {
            lemma_escaped_text_first(b);
            lemma_escaped_char_shape(b[0]);
            assert(r[0] == escaped_char(b[0])[0]);
        }
        assert(b.len() == 0);
        assert(a =~= b);
        assert(l =~= seq!['"'] + x);
        assert(r =~= seq!['"'] + y);
        lemma_same_front(seq!['"'], x, y);
    } else {
        lemma_escaped_text_first(a);
        lemma_escaped_char_shape(a[0]);
        assert(l[0] == escaped_char(a[0])[0]);
        if b.len() == 0 {
            assert(r[0] == '"');
        }
        lemma_escaped_text_first(b);
        let u = escaped_text(a.drop_first()) + seq!['"'] + x;
        let v = escaped_text(b.drop_first()) + seq!['"'] + y;
        assert(l =~= escaped_char(a[0]) + u);
        assert(r =~= escaped_char(b[0]) + v);
        lemma_escaped_char_code(a[0], b[0], u, v);
        lemma_escaped_text_code(a.drop_first(), b.drop_first(), x, y);
        assert(a =~= seq![a[0]] + a.drop_first());
        assert(b =~= seq![b[0]] + b.drop_first());
    }
}

/// JSON string literals can be told apart at the front of any text: a
/// literal followed by something reads the same as another followed by
/// something only if they write the same text and the same follows.
pub proof fn lemma_string_code(a: Seq<char>, b: Seq<char>, x: Seq<char>, y: Seq<char>)
    requires
        json_string(a) + x == json_string(b) + y,
    ensures
        a == b,
        x == y,
{
    let u = escaped_text(a) + seq!['"'] + x;
    let v = escaped_text(b) + seq!['"'] + y;
    assert(json_string(a) + x =~= seq!['"'] + u);
    assert(json_string(b) + y =~= seq!['"'] + v);
    lemma_same_front(seq!['"'], u, v);
    lemma_escaped_text_code(a, b, x, y);
}

/// A JSON string literal begins with a double quote.
pub proof fn lemma_string_shape(a: Seq<char>)
    ensures
        json_string(a).len() >= 2,
        json_string(a)[0] == '"',
{
}

/// The items of a list as `code` writes them.
pub open spec fn written<T>(code: spec_fn(T) -> Seq<char>, items: Seq<T>) -> Seq<Seq<char>> {
    Seq::new(items.len(), |i: int| code(items[i]))
}

/// The first of several joined parts stands at the front, and a comma
/// behind it where more follow.
pub proof fn lemma_joined_first(parts: Seq<Seq<char>>)
    requires
        parts.len() > 0,
    ensures
        joined(parts) == if parts.len() == 1 {
            parts[0]
        } else {
            parts[0] + seq![','] + joined(parts.drop_first())
        },
    decreases parts.len(),
{
    reveal_strlit(",");
    assert(","@ =~= seq![',']);
    if parts.len() > 1 {
        let front = parts.drop_last();
        lemma_joined_first(front);
        assert(front[0] == parts[0]);
        assert(parts.drop_first().last() == parts.last());
        if parts.len() == 2 {
            assert(parts.drop_first().len() == 1);
            assert(parts.drop_first()[0] == parts.last());
            assert(joined(parts) =~= parts[0] + seq![','] + joined(parts.drop_first()));
        } else {
            assert(front.drop_first() =~= parts.drop_first().drop_last());
            assert(joined(parts) =~= parts[0] + seq![','] + joined(parts.drop_first()));
        }
    }
}

/// Lists of items, joined by commas and closed by `close`, can be told
/// apart at the front of any text, where the items can: where what `code`
/// writes for two items can be told apart and is the same only for the same
/// item, and never begins with `close`.
pub proof fn lemma_joined_code<T>(
    code: spec_fn(T) -> Seq<char>,
    close: char,
    a: Seq<T>,
    b: Seq<T>,
    x: Seq<char>,
    y: Seq<char>,
)
    requires
        close != ',',
        forall|p: T, q: T| separable(#[trigger] code(p), #[trigger] code(q)),
        forall|p: T, q: T| #[trigger] code(p) == #[trigger] code(q) ==> p == q,
        forall|p: T| (#[trigger] code(p)).len() > 0 && code(p)[0] != close,
        joined(written(code, a)) + seq![close] + x == joined(written(code, b)) + seq![close] + y,
    ensures
        a == b,
        x == y,
    decreases a.len(),
{
    let l = joined(written(code, a)) + seq![close] + x;
    let r = joined(written(code, b)) + seq![close] + y;
    if a.len() == 0 && b.len() == 0 {
        assert(a =~= b);
        assert(l =~= seq![close] + x);
        assert(r =~= seq![close] + y);
        lemma_same_front(seq![close], x, y);
    } else if a.len() == 0 {
        lemma_joined_first(written(code, b));
        assert(written(code, b)[0] == code(b[0]));
        assert(code(b[0]).len() > 0 && code(b[0])[0] != close);
        assert(l[0] == close);
        assert(r[0] == code(b[0])[0]);
    } else if b.len() == 0 {
        lemma_joined_first(written(code, a));
        assert(written(code, a)[0] == code(a[0]));
        assert(code(a[0]).len() > 0 && code(a[0])[0] != close);
        assert(r[0] == close);
        assert(l[0] == code(a[0])[0]);
    } else {
        let wa = written(code, a);
        let wb = written(code, b);
        lemma_joined_first(wa);
        lemma_joined_first(wb);
        assert(wa[0] == code(a[0]) && wb[0] == code(b[0]));
        assert(wa.drop_first() =~= written(code, a.drop_first()));
        assert(wb.drop_first() =~= written(code, b.drop_first()));
        let ta = if a.len() == 1 {
            seq![close] + x
        } else {
            seq![','] + (joined(wa.drop_first()) + seq![close] + x)
        };
        let tb = if b.len() == 1 {
            seq![close] + y
        } else {
            seq![','] + (joined(wb.drop_first()) + seq![close] + y)
        };
        assert(l =~= code(a[0]) + ta);
        assert(r =~= code(b[0]) + tb);
        assert(separable(code(a[0]), code(b[0])));
        assert(code(a[0]) + ta == code(b[0]) + tb);
        assert(code(a[0]) == code(b[0]) && ta == tb);
        assert(a[0] == b[0]);
        assert(ta[0] == tb[0]);
        if a.len() == 1 {
            assert(b.len() == 1);
            lemma_same_front(seq![close], x, y);
            assert(a =~= b);
        } else {
            assert(b.len() > 1);
            lemma_same_front(
                seq![','],
                joined(wa.drop_first()) + seq![close] + x,
                joined(wb.drop_first()) + seq![close] + y,
            );
            lemma_joined_code(code, close, a.drop_first(), b.drop_first(), x, y);
            assert(a =~= seq![a[0]] + a.drop_first());
            assert(b =~= seq![b[0]] + b.drop_first());
        }
    }
}

/// JSON arrays of string literals can be told apart at the front of any
/// text.
pub proof fn lemma_texts_code(a: Seq<Seq<char>>, b: Seq<Seq<char>>, x: Seq<char>, y: Seq<char>)
    requires
        json_texts(a) + x == json_texts(b) + y,
    ensures
        a == b,
        x == y,
{
    reveal_strlit("[");
    reveal_strlit("]");
    assert("["@ =~= seq!['['] && "]"@ =~= seq![']']);
    let code = |t: Seq<char>| json_string(t);
    assert(written(code, a) =~= Seq::new(a.len(), |i: int| json_string(a[i])));
    assert(written(code, b) =~= Seq::new(b.len(), |i: int| json_string(b[i])));
    let u = joined(written(code, a)) + seq![']'] + x;
    let v = joined(written(code, b)) + seq![']'] + y;
    assert(json_texts(a) + x =~= seq!['['] + u);
    assert(json_texts(b) + y =~= seq!['['] + v);
    lemma_same_front(seq!['['], u, v);
    assert forall|p: Seq<char>, q: Seq<char>| separable(#[trigger] code(p), #[trigger] code(q)) by {
        assert forall|s: Seq<char>, t: Seq<char>| #[trigger] (code(p) + s) == #[trigger] (code(q)
            + t) implies code(p) == code(q) && s == t by {
            lemma_string_code(p, q, s, t);
        }
    }
    assert forall|p: Seq<char>, q: Seq<char>| #[trigger] code(p) == #[trigger] code(q) implies p
        == q by {
        assert(code(p) + Seq::<char>::empty() == code(q) + Seq::<char>::empty());
        lemma_string_code(p, q, Seq::empty(), Seq::empty());
    }
    assert forall|p: Seq<char>| (#[trigger] code(p)).len() > 0 && code(p)[0] != ']' by {
        lemma_string_shape(p);
    }
    lemma_joined_code(code, ']', a, b, x, y);
}

/// A JSON array begins with an opening bracket.
pub proof fn lemma_list_shape(parts: Seq<Seq<char>>)
    ensures
        json_list(parts).len() >= 2,
        json_list(parts)[0] == '[',
{
    reveal_strlit("[");
    reveal_strlit("]");
    assert("["@ =~= seq!['['] && "]"@ =~= seq![']']);
}

/// JSON arrays of arrays of string literals can be told apart at the front
/// of any text.
pub proof fn lemma_text_lists_code(
    a: Seq<Seq<Seq<char>>>,
    b: Seq<Seq<Seq<char>>>,
    x: Seq<char>,
    y: Seq<char>,
)
    requires
        json_text_lists(a) + x == json_text_lists(b) + y,
    ensures
        a == b,
        x == y,
{
    reveal_strlit("[");
    reveal_strlit("]");
    assert("["@ =~= seq!['['] && "]"@ =~= seq![']']);
    let code = |t: Seq<Seq<char>>| json_texts(t);
    assert(written(code, a) =~= Seq::new(a.len(), |i: int| json_texts(a[i])));
    assert(written(code, b) =~= Seq::new(b.len(), |i: int| json_texts(b[i])));
    let u = joined(written(code, a)) + seq![']'] + x;
    let v = joined(written(code, b)) + seq![']'] + y;
    assert(json_text_lists(a) + x =~= seq!['['] + u);
    assert(json_text_lists(b) + y =~= seq!['['] + v);
    lemma_same_front(seq!['['], u, v);
    assert forall|p: Seq<Seq<char>>, q: Seq<Seq<char>>|
        separable(#[trigger] code(p), #[trigger] code(q)) by {
        assert forall|s: Seq<char>, t: Seq<char>| #[trigger] (code(p) + s) == #[trigger] (code(q)
            + t) implies code(p) == code(q) && s == t by {
            lemma_texts_code(p, q, s, t);
        }
    }
    assert forall|p: Seq<Seq<char>>, q: Seq<Seq<char>>| #[trigger] code(p) == #[trigger] code(
        q,
    ) implies p == q by {
        assert(code(p) + Seq::<char>::empty() == code(q) + Seq::<char>::empty());
        lemma_texts_code(p, q, Seq::empty(), Seq::empty());
    }
    assert forall|p: Seq<Seq<char>>| (#[trigger] code(p)).len() > 0 && code(p)[0] != ']' by {
        lemma_list_shape(Seq::new(p.len(), |i: int| json_string(p[i])));
    }
    lemma_joined_code(code, ']', a, b, x, y);
}

/// The decimal digits of a number are digits, at least one, and write that
/// number.
pub proof fn lemma_decimal_digits_shape(n: nat)
    ensures
        decimal_digits(n).len() >= 1,
        forall|i: int| 0 <= i < decimal_digits(n).len() ==> is_digit(#[trigger] decimal_digits(n)[i]),
        digits_value(decimal_digits(n)) == n,
    decreases n,
{
    if n < 10 {
        let digits = decimal_digits(n);
        assert(digits.drop_last() =~= Seq::<char>::empty());
        assert(digits.last() == digit_char(n as int));
        assert(digits_value(digits.drop_last()) == 0);
    } else {
        lemma_decimal_digits_shape(n / 10);
        let digits = decimal_digits(n);
        assert(digits.drop_last() =~= decimal_digits(n / 10));
        assert(digits.last() == digit_char((n % 10) as int));
        assert forall|i: int| 0 <= i < digits.len() implies is_digit(#[trigger] digits[i]) by {
            if i < digits.len() - 1 {
                assert(digits[i] == decimal_digits(n / 10)[i]);
            }
        }
    }
}

/// Decimal texts, each closed by a brace, can be told apart at the front of
/// any text.
pub proof fn lemma_decimal_code(n: int, m: int, x: Seq<char>, y: Seq<char>)
    requires
        decimal(n) + seq!['}'] + x == decimal(m) + seq!['}'] + y,
    ensures
        n == m,
        x == y,
{
    let d = decimal(n);
    let e = decimal(m);
    let l = d + seq!['}'] + x;
    let r = e + seq!['}'] + y;
    let p = if n < 0 {
        (-n) as nat
    } else {
        n as nat
    };
    let q = if m < 0 {
        (-m) as nat
    } else {
        m as nat
    };
    lemma_decimal_digits_shape(p);
    lemma_decimal_digits_shape(q);
    assert forall|i: int| 0 <= i < d.len() implies #[trigger] d[i] != '}' by {
        if n < 0 && i > 0 {
            assert(d[i] == decimal_digits(p)[i - 1]);
        }
    }
    assert forall|i: int| 0 <= i < e.len() implies #[trigger] e[i] != '}' by {
        if m < 0 && i > 0 {
            assert(e[i] == decimal_digits(q)[i - 1]);
        }
    }
    if d.len() < e.len() {
        assert(l[d.len() as int] == '}');
        assert(r[d.len() as int] == e[d.len() as int]);
    }
    if e.len() < d.len() {
        assert(r[e.len() as int] == '}');
        assert(l[e.len() as int] == d[e.len() as int]);
    }
    assert(d =~= l.take(d.len() as int));
    assert(e =~= r.take(e.len() as int));
    assert(d == e);
    assert(d[0] == e[0]);
    assert(is_digit(decimal_digits(p)[0]) && is_digit(decimal_digits(q)[0]));
    if n < 0 {
        assert(d[0] == '-');
        assert(m < 0);
        assert(decimal_digits(p) =~= d.skip(1));
        assert(decimal_digits(q) =~= e.skip(1));
    } else {
        assert(m >= 0);
    }
    assert(decimal_digits(p) == decimal_digits(q));
    assert(l =~= (d + seq!['}']) + x);
    assert(r =~= (d + seq!['}']) + y);
    lemma_same_front(d + seq!['}'], x, y);
}

/// The names of two families can be told apart at the front of any text,
/// and are the same only for the same family.
pub proof fn lemma_family_code(t: DeviceType, u: DeviceType)
    ensures
        separable(family_name(t), family_name(u)),
        family_name(t) == family_name(u) ==> t == u,
{
    reveal_strlit("HEADLESS");
    reveal_strlit("MODEL01");
    reveal_strlit("MODEL02");
    reveal_strlit("UNKNOWN");
    let p = family_name(t);
    let q = family_name(u);
    assert("HEADLESS"@[0] == 'H' && "MODEL01"@[0] == 'M' && "MODEL02"@[0] == 'M' && "UNKNOWN"@[0]
        == 'U');
    assert("MODEL01"@[6] == '1' && "MODEL02"@[6] == '2');
    assert("HEADLESS"@.len() == 8 && "MODEL01"@.len() == 7 && "MODEL02"@.len() == 7
        && "UNKNOWN"@.len() == 7);
    if t == u {
        lemma_separable_from_itself(p);
    } else {
        assert(p[0] != q[0] || p[6] != q[6]);
        assert forall|x: Seq<char>, y: Seq<char>| #[trigger] (p + x) == #[trigger] (q + y) implies p
            == q && x == y by {
            assert((p + x)[0] == p[0] && (q + y)[0] == q[0]);
            assert((p + x)[6] == p[6] && (q + y)[6] == q[6]);
        }
    }
}

/// String literals can be told apart.
proof fn lemma_strings_separable(a: Seq<char>, b: Seq<char>)
    ensures
        separable(json_string(a), json_string(b)),
        json_string(a) == json_string(b) ==> a == b,
{
    assert forall|u: Seq<char>, v: Seq<char>| #[trigger] (json_string(a) + u) == #[trigger] (
    json_string(b) + v) implies json_string(a) == json_string(b) && u == v by {
        lemma_string_code(a, b, u, v);
    }
    if json_string(a) == json_string(b) {
        assert(json_string(a) + Seq::<char>::empty() == json_string(b) + Seq::<char>::empty());
        lemma_string_code(a, b, Seq::empty(), Seq::empty());
    }
}

/// Arrays of string literals can be told apart.
proof fn lemma_texts_separable(a: Seq<Seq<char>>, b: Seq<Seq<char>>)
    ensures
        separable(json_texts(a), json_texts(b)),
        json_texts(a) == json_texts(b) ==> a == b,
{
    assert forall|u: Seq<char>, v: Seq<char>| #[trigger] (json_texts(a) + u) == #[trigger] (
    json_texts(b) + v) implies json_texts(a) == json_texts(b) && u == v by {
        lemma_texts_code(a, b, u, v);
    }
    if json_texts(a) == json_texts(b) {
        assert(json_texts(a) + Seq::<char>::empty() == json_texts(b) + Seq::<char>::empty());
        lemma_texts_code(a, b, Seq::empty(), Seq::empty());
    }
}

/// Arrays of arrays of string literals can be told apart.
proof fn lemma_text_lists_separable(a: Seq<Seq<Seq<char>>>, b: Seq<Seq<Seq<char>>>)
    ensures
        separable(json_text_lists(a), json_text_lists(b)),
        json_text_lists(a) == json_text_lists(b) ==> a == b,
{
    assert forall|u: Seq<char>, v: Seq<char>| #[trigger] (json_text_lists(a) + u) == #[trigger] (
    json_text_lists(b) + v) implies json_text_lists(a) == json_text_lists(b) && u == v by {
        lemma_text_lists_code(a, b, u, v);
    }
    if json_text_lists(a) == json_text_lists(b) {
        assert(json_text_lists(a) + Seq::<char>::empty() == json_text_lists(b) + Seq::<
            char,
        >::empty());
        lemma_text_lists_code(a, b, Seq::empty(), Seq::empty());
    }
}

/// The objects that write descriptors can be told apart at the front of any
/// text: an object followed by something reads the same as another
/// followed by something only if they write the same descriptor and the
/// same follows.
pub proof fn lemma_entry_code(a: EntryView, b: EntryView, x: Seq<char>, y: Seq<char>)
    requires
        entry_json(a) + x == entry_json(b) + y,
    ensures
        a == b,
        x == y,
{
    let ps = entry_pieces(a);
    let qs = entry_pieces(b);
    lemma_strings_separable(a.action, b.action);
    lemma_texts_separable(a.capabilities, b.capabilities);
    lemma_strings_separable(a.description, b.description);
    lemma_text_lists_separable(a.interfaces, b.interfaces);
    lemma_strings_separable(a.location, b.location);
    lemma_strings_separable(a.model, b.model);
    lemma_strings_separable(a.serial, b.serial);
    lemma_strings_separable(a.tag, b.tag);
    assert forall|i: int| 0 <= i < ps.len() implies separable(#[trigger] ps[i], qs[i]) by {
        if i % 2 == 0 {
            assert(ps[i] == qs[i]);
            lemma_separable_from_itself(ps[i]);
        }
    }
    lemma_pieces(ps, qs, x, y);
    assert(ps[1] == qs[1] && ps[3] == qs[3] && ps[5] == qs[5] && ps[7] == qs[7] && ps[9] == qs[9]
        && ps[11] == qs[11] && ps[13] == qs[13] && ps[15] == qs[15]);
}

/// The objects that write descriptors can be told apart.
proof fn lemma_entries_separable(a: EntryView, b: EntryView)
    ensures
        separable(entry_json(a), entry_json(b)),
        entry_json(a) == entry_json(b) ==> a == b,
{
    assert forall|u: Seq<char>, v: Seq<char>| #[trigger] (entry_json(a) + u) == #[trigger] (
    entry_json(b) + v) implies entry_json(a) == entry_json(b) && u == v by {
        lemma_entry_code(a, b, u, v);
    }
    if entry_json(a) == entry_json(b) {
        assert(entry_json(a) + Seq::<char>::empty() == entry_json(b) + Seq::<char>::empty());
        lemma_entry_code(a, b, Seq::empty(), Seq::empty());
    }
}

/// The objects that write records can be told apart at the front of any
/// text.
pub proof fn lemma_record_code(a: DeviceView, b: DeviceView, x: Seq<char>, y: Seq<char>)
    requires
        record_json(a) + x == record_json(b) + y,
    ensures
        a == b,
        x == y,
{
    reveal_strlit("}");
    assert("}"@ =~= seq!['}']);
    let ps = record_pieces(a);
    let qs = record_pieces(b);
    lemma_texts_separable(a.action_history, b.action_history);
    lemma_family_code(a.device_type, b.device_type);
    lemma_entries_separable(a.ty_cmd_info, b.ty_cmd_info);
    assert forall|u: Seq<char>, v: Seq<char>| #[trigger] (ps[7] + u) == #[trigger] (qs[7]
        + v) implies ps[7] == qs[7] && u == v by {
        assert(ps[7] + u =~= decimal(a.updated_at) + seq!['}'] + u);
        assert(qs[7] + v =~= decimal(b.updated_at) + seq!['}'] + v);
        lemma_decimal_code(a.updated_at, b.updated_at, u, v);
    }
    assert forall|i: int| 0 <= i < ps.len() implies separable(#[trigger] ps[i], qs[i]) by {
        if i % 2 == 0 {
            assert(ps[i] == qs[i]);
            lemma_separable_from_itself(ps[i]);
        }
    }
    lemma_pieces(ps, qs, x, y);
    assert(ps[1] == qs[1] && ps[3] == qs[3] && ps[5] == qs[5] && ps[7] == qs[7]);
    assert(ps[7] + Seq::<char>::empty() =~= decimal(a.updated_at) + seq!['}'] + Seq::<
        char,
    >::empty());
    assert(qs[7] + Seq::<char>::empty() =~= decimal(b.updated_at) + seq!['}'] + Seq::<
        char,
    >::empty());
    lemma_decimal_code(a.updated_at, b.updated_at, Seq::empty(), Seq::empty());
}

/// The members that write records can be told apart at the front of any
/// text.
pub proof fn lemma_member_code(a: DeviceView, b: DeviceView, x: Seq<char>, y: Seq<char>)
    requires
        record_member(a) + x == record_member(b) + y,
    ensures
        a == b,
        x == y,
{
    reveal_strlit(":");
    assert(":"@ =~= seq![':']);
    let u = seq![':'] + (record_json(a) + x);
    let v = seq![':'] + (record_json(b) + y);
    assert(record_member(a) + x =~= json_string(a.ty_cmd_info.tag) + u);
    assert(record_member(b) + y =~= json_string(b.ty_cmd_info.tag) + v);
    lemma_string_code(a.ty_cmd_info.tag, b.ty_cmd_info.tag, u, v);
    lemma_same_front(seq![':'], record_json(a) + x, record_json(b) + y);
    lemma_record_code(a, b, x, y);
}

/// The canonical text of a device collection is faithful: two sequences of
/// records have the same text only if they are the same sequence.
pub proof fn lemma_canonical_text_is_faithful(a: Seq<DeviceView>, b: Seq<DeviceView>)
    requires
        registry_json(a) == registry_json(b),
    ensures
        a == b,
{
    reveal_strlit("{");
    reveal_strlit("}");
    reveal_strlit(":");
    assert("{"@ =~= seq!['{'] && "}"@ =~= seq!['}'] && ":"@ =~= seq![':']);
    let code = |r: DeviceView| record_member(r);
    assert(written(code, a) =~= Seq::new(a.len(), |i: int| record_member(a[i])));
    assert(written(code, b) =~= Seq::new(b.len(), |i: int| record_member(b[i])));
    let nothing = Seq::<char>::empty();
    let u = joined(written(code, a)) + seq!['}'] + nothing;
    let v = joined(written(code, b)) + seq!['}'] + nothing;
    assert(registry_json(a) =~= seq!['{'] + u);
    assert(registry_json(b) =~= seq!['{'] + v);
    lemma_same_front(seq!['{'], u, v);
    assert forall|p: DeviceView, q: DeviceView|
        separable(#[trigger] code(p), #[trigger] code(q)) by {
        assert forall|s: Seq<char>, t: Seq<char>| #[trigger] (code(p) + s) == #[trigger] (code(q)
            + t) implies code(p) == code(q) && s == t by {
            lemma_member_code(p, q, s, t);
        }
    }
    assert forall|p: DeviceView, q: DeviceView| #[trigger] code(p) == #[trigger] code(
        q,
    ) implies p == q by {
        assert(code(p) + Seq::<char>::empty() == code(q) + Seq::<char>::empty());
        lemma_member_code(p, q, Seq::empty(), Seq::empty());
    }
    assert forall|p: DeviceView| (#[trigger] code(p)).len() > 0 && code(p)[0] != '}' by {
        lemma_string_shape(p.ty_cmd_info.tag);
        assert(code(p)[0] == json_string(p.ty_cmd_info.tag)[0]);
    }
    lemma_joined_code(code, '}', a, b, nothing, nothing);
}

/// Any change of the content of a device collection changes its canonical
/// text: two well-formed collections that differ, be it in one field of one
/// record, have different texts. Their digests are the hashes of different
/// texts, and can only be the same where the hash collides.
pub proof fn lemma_content_change_changes_text(
    one: Map<Seq<char>, DeviceView>,
    other: Map<Seq<char>, DeviceView>,
)
    requires
        content_valid(one),
        content_valid(other),
        one != other,
    ensures
        registry_json(records_of(one)) != registry_json(records_of(other)),
        content_digest(one) == text_digest(registry_json(records_of(one))),
        content_digest(other) == text_digest(registry_json(records_of(other))),
{
    if registry_json(records_of(one)) == registry_json(records_of(other)) {
        lemma_canonical_text_is_faithful(records_of(one), records_of(other));
    }
}

} // verus!
