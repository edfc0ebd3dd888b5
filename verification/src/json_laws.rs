//! Laws of the JSON tree reader: every well-formed tree, written out in the canonical
//! form below, is read back as the same tree.

use vstd::prelude::*;
use crate::json::{
    after_sign, digits_end, is_digit, is_num_char, lemma_ws_end_bounds, is_ws, num_end, parse_spec, read_elements, read_members, read_str_body, read_value,
    valid_float, word_at, ws_end, JsonError, JsonTree,
};

verus! {

/// A string body with `"` and `\` escaped by a backslash.
pub open spec fn escape(s: Seq<char>) -> Seq<char>
    decreases s.len(),
{
    if s.len() == 0 {
        Seq::empty()
    } else {
        let c = s[0];
        let head = if c == '"' || c == '\\' {
            seq!['\\', c]
        } else {
            seq![c]
        };
        head + escape(s.drop_first())
    }
}

/// Canonical compact text of a tree (no whitespace, keys and strings escaped).
pub open spec fn render(t: JsonTree) -> Seq<char>
    decreases t,
{
    match t {
        JsonTree::Num(l) => l,
        JsonTree::Str(s) => seq!['"'] + escape(s) + seq!['"'],
        JsonTree::Bool(b) => if b {
            seq!['t', 'r', 'u', 'e']
        } else {
            seq!['f', 'a', 'l', 's', 'e']
        },
        JsonTree::Null => seq!['n', 'u', 'l', 'l'],
        JsonTree::Arr(xs) => seq!['['] + render_elements(xs) + seq![']'],
        JsonTree::Obj(ms) => seq!['{'] + render_members(ms) + seq!['}'],
    }
}

/// Comma-separated texts of array elements.
pub open spec fn render_elements(xs: Seq<JsonTree>) -> Seq<char>
    decreases xs,
{
    if xs.len() == 0 {
        Seq::empty()
    } else if xs.len() == 1 {
        render(xs[0])
    } else {
        render(xs[0]) + seq![','] + render_elements(xs.drop_first())
    }
}

/// Comma-separated `"key":value` texts of object members.
pub open spec fn render_members(ms: Seq<(Seq<char>, JsonTree)>) -> Seq<char>
    decreases ms,
{
    if ms.len() == 0 {
        Seq::empty()
    } else if ms.len() == 1 {
        render_member(ms[0])
    } else {
        render_member(ms[0]) + seq![','] + render_members(ms.drop_first())
    }
}

/// Text of one object member: `"key":value`.
pub open spec fn render_member(m: (Seq<char>, JsonTree)) -> Seq<char>
    decreases m,
{
    seq!['"'] + escape(m.0) + seq!['"', ':'] + render(m.1)
}

/// A tree whose number lexemes are decimal float literals made of number characters.
pub open spec fn well_formed(t: JsonTree) -> bool
    decreases t,
{
    match t {
        JsonTree::Num(l) => valid_float(l) && forall|k: int| 0 <= k < l.len() ==> is_num_char(l[k]),
        JsonTree::Arr(xs) => all_well_formed(xs),
        JsonTree::Obj(ms) => members_well_formed(ms),
        _ => true,
    }
}

/// Every tree of the sequence is well formed.
pub open spec fn all_well_formed(xs: Seq<JsonTree>) -> bool
    decreases xs,
{
    xs.len() > 0 ==> (well_formed(xs[0]) && all_well_formed(xs.drop_first()))
}

/// Every member value of the sequence is well formed.
pub open spec fn members_well_formed(ms: Seq<(Seq<char>, JsonTree)>) -> bool
    decreases ms,
{
    ms.len() > 0 ==> (well_formed(ms[0].1) && members_well_formed(ms.drop_first()))
}

/// `r` stands in `s` at position `i`.
pub open spec fn matches_at(s: Seq<char>, i: int, r: Seq<char>) -> bool {
    &&& 0 <= i
    &&& i + r.len() <= s.len()
    &&& forall|k: int| 0 <= k < r.len() ==> s[i + k] == r[k]
}

/// Position `j` ends the input or holds a character that cannot continue a number.
pub open spec fn number_may_end(s: Seq<char>, j: int) -> bool {
    j == s.len() || (0 <= j < s.len() && !is_num_char(s[j]))
}

/// Two texts stand one after the other exactly when their concatenation stands there.
pub proof fn lemma_matches_concat(s: Seq<char>, i: int, a: Seq<char>, b: Seq<char>)
    ensures
        matches_at(s, i, a + b) <==> (matches_at(s, i, a) && matches_at(s, i + a.len(), b)),
{
    if matches_at(s, i, a + b) {
        assert forall|k: int| 0 <= k < a.len() implies s[i + k] == a[k] by {
            assert((a + b)[k] == a[k]);
        }
        assert forall|k: int| 0 <= k < b.len() implies s[i + a.len() + k] == b[k] by {
            assert((a + b)[a.len() + k] == b[k]);
            assert(s[i + (a.len() + k)] == (a + b)[a.len() + k]);
        }
    }
    if matches_at(s, i, a) && matches_at(s, i + a.len(), b) {
        assert forall|k: int| 0 <= k < (a + b).len() implies s[i + k] == (a + b)[k] by {
            if k < a.len() {
            } else {
                assert(s[i + a.len() + (k - a.len())] == b[k - a.len()]);
            }
        }
    }
}

/// Skipping whitespace from a non-whitespace character stays put.
pub proof fn lemma_ws_end_at_non_ws(s: Seq<char>, i: int)
    requires
        0 <= i < s.len(),
        !is_ws(s[i]),
    ensures
        ws_end(s, i) == i,
{
}

/// A string body written with `escape` and closed by a quote is read back exactly.
pub proof fn lemma_read_escaped(k: Seq<char>, s: Seq<char>, j: int)
    requires
        matches_at(s, j, escape(k) + seq!['"']),
    ensures
        read_str_body(s, j) == Ok::<(Seq<char>, int), JsonError>((k, j + escape(k).len() + 1)),
    decreases k.len(),
{
    lemma_matches_concat(s, j, escape(k), seq!['"']);
    if k.len() == 0 {
        assert(escape(k).len() == 0);
        assert(seq!['"'][0] == '"');
        assert(s[j + 0] == '"');
        assert(k =~= Seq::<char>::empty());
    } else {
        let c = k[0];
        let rest = k.drop_first();
        if c == '"' || c == '\\' {
            let head = seq!['\\', c];
            assert(escape(k) == head + escape(rest));
            assert(head + escape(rest) + seq!['"'] =~= head + (escape(rest) + seq!['"']));
            lemma_matches_concat(s, j, head, escape(rest) + seq!['"']);
            assert(head[0] == '\\' && head[1] == c);
            assert(s[j + 0] == '\\');
            assert(s[j + 1] == c);
            lemma_read_escaped(rest, s, j + 2);
            assert(seq![c].add(rest) =~= k);
        } else {
            let head = seq![c];
            assert(escape(k) == head + escape(rest));
            assert(head + escape(rest) + seq!['"'] =~= head + (escape(rest) + seq!['"']));
            lemma_matches_concat(s, j, head, escape(rest) + seq!['"']);
            assert(head[0] == c);
            assert(s[j + 0] == c);
            lemma_read_escaped(rest, s, j + 1);
            assert(seq![c].add(rest) =~= k);
        }
    }
}

/// A run of number characters that is not followed by another one ends the number.
pub proof fn lemma_num_end_of_run(s: Seq<char>, i: int, n: int)
    requires
        0 <= i,
        0 <= n,
        i + n <= s.len(),
        forall|k: int| i <= k < i + n ==> is_num_char(s[k]),
        number_may_end(s, i + n),
    ensures
        num_end(s, i) == i + n,
    decreases n,
{
    if n > 0 {
        lemma_num_end_of_run(s, i + 1, n - 1);
    }
}

/// A rendered well-formed tree is never empty and starts with a character that is not
/// whitespace nor a closing bracket or brace.
pub proof fn lemma_render_head(t: JsonTree)
    requires
        well_formed(t),
    ensures
        render(t).len() > 0,
        !is_ws(render(t)[0]),
        render(t)[0] != ']',
        render(t)[0] != '}',
{
    match t {
        JsonTree::Num(l) => {
            assert(is_num_char(l[0]));
        },
        JsonTree::Str(k) => {
            assert(render(t)[0] == '"');
        },
        JsonTree::Arr(xs) => {
            assert(render(t)[0] == '[');
        },
        JsonTree::Obj(ms) => {
            assert(render(t)[0] == '{');
        },
        JsonTree::Bool(b) => {},
        JsonTree::Null => {},
    }
}

/// A well-formed tree written out canonically at position `i` is read back from there as
/// the same tree, ending right after its text (when a number is not glued to further
/// number characters).
pub proof fn lemma_read_rendered(t: JsonTree, s: Seq<char>, i: int)
    requires
        well_formed(t),
        matches_at(s, i, render(t)),
        number_may_end(s, i + render(t).len()),
    ensures
        read_value(s, i) == Ok::<(JsonTree, int), JsonError>((t, i + render(t).len())),
    decreases t,
{
    lemma_render_head(t);
    let r = render(t);
    assert(s[i + 0] == r[0]);
    lemma_ws_end_at_non_ws(s, i);
    match t {
        JsonTree::Num(l) => {
            assert forall|k: int| i <= k < i + l.len() implies is_num_char(s[k]) by {
                assert(s[i + (k - i)] == l[k - i]);
            }
            lemma_num_end_of_run(s, i, l.len() as int);
            assert(s.subrange(i, i + l.len()) =~= l);
        },
        JsonTree::Str(k) => {
            assert(r =~= seq!['"'] + (escape(k) + seq!['"']));
            lemma_matches_concat(s, i, seq!['"'], escape(k) + seq!['"']);
            lemma_read_escaped(k, s, i + 1);
        },
        JsonTree::Bool(b) => {
            if b {
                assert(s.subrange(i, i + 4) =~= seq!['t', 'r', 'u', 'e']);
            } else {
                assert(s.subrange(i, i + 5) =~= seq!['f', 'a', 'l', 's', 'e']);
                assert(!word_at(s, i, seq!['t', 'r', 'u', 'e'])) by {
                    if i + 4 <= s.len() {
                        assert(s.subrange(i, i + 4)[0] == 'f');
                    }
                }
            }
        },
        JsonTree::Null => {
            assert(s.subrange(i, i + 4) =~= seq!['n', 'u', 'l', 'l']);
        },
        JsonTree::Arr(xs) => {
            let body = render_elements(xs);
            assert(r =~= seq!['['] + (body + seq![']']));
            lemma_matches_concat(s, i, seq!['['], body + seq![']']);
            lemma_read_elements(xs, s, i + 1);
        },
        JsonTree::Obj(ms) => {
            let body = render_members(ms);
            assert(r =~= seq!['{'] + (body + seq!['}']));
            lemma_matches_concat(s, i, seq!['{'], body + seq!['}']);
            lemma_read_members(ms, s, i + 1);
        },
    }
}

/// Canonically written array elements followed by `]` are read back exactly.
pub proof fn lemma_read_elements(xs: Seq<JsonTree>, s: Seq<char>, i: int)
    requires
        all_well_formed(xs),
        matches_at(s, i, render_elements(xs) + seq![']']),
    ensures
        read_elements(s, i) == Ok::<(Seq<JsonTree>, int), JsonError>(
            (xs, i + render_elements(xs).len() + 1),
        ),
    decreases xs,
{
    let body = render_elements(xs);
    lemma_matches_concat(s, i, body, seq![']']);
    if xs.len() == 0 {
        assert(body.len() == 0);
        assert(seq![']'][0] == ']');
        assert(s[i + body.len() + 0] == seq![']'][0]);
        assert(s[i + 0] == ']');
        lemma_ws_end_at_non_ws(s, i);
        assert(xs =~= Seq::<JsonTree>::empty());
    } else {
        let x = xs[0];
        let rx = render(x);
        lemma_render_head(x);
        if xs.len() == 1 {
            assert(body == rx);
            assert(s[i + 0] == rx[0]);
            lemma_ws_end_at_non_ws(s, i);
            let e = i + rx.len();
            assert(seq![']'][0] == ']');
            assert(s[i + body.len() + 0] == seq![']'][0]);
            assert(s[e + 0] == ']');
            lemma_read_rendered(x, s, i);
            lemma_ws_end_at_non_ws(s, e);
            assert(seq![x] =~= xs);
        } else {
            let rest = xs.drop_first();
            let tail = render_elements(rest) + seq![']'];
            assert(body + seq![']'] =~= rx + (seq![','] + tail));
            lemma_matches_concat(s, i, rx, seq![','] + tail);
            lemma_matches_concat(s, i + rx.len(), seq![','], tail);
            assert(s[i + 0] == rx[0]);
            lemma_ws_end_at_non_ws(s, i);
            let e = i + rx.len();
            assert(seq![','][0] == ',');
            assert(s[e + 0] == seq![','][0]);
            assert(s[e + 0] == ',');
            lemma_read_rendered(x, s, i);
            lemma_ws_end_at_non_ws(s, e);
            lemma_read_elements(rest, s, e + 1);
            assert(seq![x].add(rest) =~= xs);
        }
    }
}

/// Canonically written object members followed by `}` are read back exactly.
pub proof fn lemma_read_members(ms: Seq<(Seq<char>, JsonTree)>, s: Seq<char>, i: int)
    requires
        members_well_formed(ms),
        matches_at(s, i, render_members(ms) + seq!['}']),
    ensures
        read_members(s, i) == Ok::<(Seq<(Seq<char>, JsonTree)>, int), JsonError>(
            (ms, i + render_members(ms).len() + 1),
        ),
    decreases ms,
{
    let body = render_members(ms);
    lemma_matches_concat(s, i, body, seq!['}']);
    if ms.len() == 0 {
        assert(body.len() == 0);
        assert(seq!['}'][0] == '}');
        assert(s[i + body.len() + 0] == seq!['}'][0]);
        assert(s[i + 0] == '}');
        lemma_ws_end_at_non_ws(s, i);
        assert(ms =~= Seq::<(Seq<char>, JsonTree)>::empty());
    } else {
        let m = ms[0];
        let key = m.0;
        let v = m.1;
        let ek = escape(key);
        let rv = render(v);
        let mt = render_member(m);
        lemma_render_head(v);
        let after = if ms.len() == 1 {
            seq!['}']
        } else {
            seq![','] + (render_members(ms.drop_first()) + seq!['}'])
        };
        assert(body + seq!['}'] =~= seq!['"'] + (ek + (seq!['"', ':'] + (rv + after)))) by {
            if ms.len() == 1 {
                assert(body == mt);
            } else {
                assert(body == mt + seq![','] + render_members(ms.drop_first()));
            }
        }
        lemma_matches_concat(s, i, seq!['"'], ek + (seq!['"', ':'] + (rv + after)));
        lemma_matches_concat(s, i + 1, ek, seq!['"', ':'] + (rv + after));
        let q0 = i + 1 + ek.len();
        lemma_matches_concat(s, q0, seq!['"', ':'], rv + after);
        lemma_matches_concat(s, q0 + 2, rv, after);
        assert(seq!['"'][0] == '"');
        assert(s[i + 0] == '"');
        lemma_ws_end_at_non_ws(s, i);
        assert(s[q0 + 0] == '"');
        assert(matches_at(s, q0, seq!['"']));
        lemma_matches_concat(s, i + 1, ek, seq!['"']);
        lemma_read_escaped(key, s, i + 1);
        let q = q0 + 1;
        assert(s[q0 + 1] == ':');
        lemma_ws_end_at_non_ws(s, q);
        let e = q + 1 + rv.len();
        assert(s[e + 0] == after[0]);
        lemma_read_rendered(v, s, q + 1);
        lemma_ws_end_at_non_ws(s, e);
        if ms.len() == 1 {
            assert(seq![(key, v)] =~= ms);
        } else {
            let rest = ms.drop_first();
            lemma_matches_concat(s, e, seq![','], render_members(rest) + seq!['}']);
            lemma_read_members(rest, s, e + 1);
            assert(seq![(key, v)].add(rest) =~= ms);
        }
    }
}

/// Every well-formed tree, written out canonically, is parsed back as the same tree.
pub proof fn lemma_parse_render_roundtrip(t: JsonTree)
    requires
        well_formed(t),
    ensures
        parse_spec(render(t)) == Ok::<JsonTree, JsonError>(t),
{
    let s = render(t);
    assert(matches_at(s, 0, s));
    lemma_read_rendered(t, s, 0);
}

/// Every character of `d` is an ASCII decimal digit.
pub open spec fn ascii_digits(d: Seq<char>) -> bool {
    forall|k: int| 0 <= k < d.len() ==> 0x30 <= (#[trigger] d[k] as u32) <= 0x39
}

/// `s` is empty or a single `+` or `-`.
pub open spec fn optional_sign(s: Seq<char>) -> bool {
    s.len() == 0 || (s.len() == 1 && (s[0] == '+' || s[0] == '-'))
}

/// The parts of a decimal literal: sign, whole digits, optional fraction digits (after a
/// `.`), optional exponent (marker, sign, digits).
pub struct DecimalParts {
    pub sign: Seq<char>,
    pub whole: Seq<char>,
    pub fraction: Option<Seq<char>>,
    pub exponent: Option<(char, Seq<char>, Seq<char>)>,
}

/// The text of a decimal literal made of these parts.
pub open spec fn decimal_text(p: DecimalParts) -> Seq<char> {
    p.sign + p.whole + match p.fraction {
        Some(f) => seq!['.'] + f,
        None => Seq::<char>::empty(),
    } + match p.exponent {
        Some((e, es, ed)) => seq![e] + es + ed,
        None => Seq::<char>::empty(),
    }
}

/// The decimal float grammar `[+-]? (d+ | d+ '.' d* | d* '.' d+) ([eE] [+-]? d+)?`.
pub open spec fn is_decimal_form(p: DecimalParts) -> bool {
    &&& optional_sign(p.sign)
    &&& ascii_digits(p.whole)
    &&& match p.fraction {
        Some(f) => ascii_digits(f) && p.whole.len() + f.len() > 0,
        None => p.whole.len() > 0,
    }
    &&& match p.exponent {
        Some((e, es, ed)) => (e == 'e' || e == 'E') && optional_sign(es) && ascii_digits(ed)
            && ed.len() > 0,
        None => true,
    }
}

/// A run of `n` digits from `i` that is not followed by another digit ends at `i + n`.
proof fn lemma_digits_run(t: Seq<char>, i: int, n: int)
    requires
        0 <= i,
        0 <= n,
        i + n <= t.len(),
        forall|k: int| i <= k < i + n ==> is_digit(t[k]),
        i + n == t.len() || !is_digit(t[i + n]),
    ensures
        digits_end(t, i) == i + n,
    decreases n,
{
    if n > 0 {
        lemma_digits_run(t, i + 1, n - 1);
    }
}

/// Every literal of the decimal float grammar is accepted as a number lexeme, and a
/// document made of it alone is read as that number.
pub proof fn lemma_decimal_form_is_number(p: DecimalParts)
    requires
        is_decimal_form(p),
    ensures
        valid_float(decimal_text(p)),
        parse_spec(decimal_text(p)) == Ok::<JsonTree, JsonError>(JsonTree::Num(decimal_text(p))),
{
    let t = decimal_text(p);
    let fr = match p.fraction {
        Some(f) => seq!['.'] + f,
        None => Seq::<char>::empty(),
    };
    let ex = match p.exponent {
        Some((e, es, ed)) => seq![e] + es + ed,
        None => Seq::<char>::empty(),
    };
    let ls = p.sign.len() as int;
    let lw = p.whole.len() as int;
    let b = ls + lw;
    let c = b + fr.len();
    assert(t =~= p.sign + p.whole + fr + ex);
    assert(t.len() == c + ex.len());
    assert forall|k: int| 0 <= k < ls implies t[k] == p.sign[k] by {}
    assert forall|k: int| ls <= k < b implies t[k] == p.whole[k - ls] by {}
    assert forall|k: int| b <= k < c implies t[k] == fr[k - b] by {}
    assert forall|k: int| c <= k < t.len() implies t[k] == ex[k - c] by {}
    // sign
    assert(after_sign(t, 0) == ls) by {
        if ls == 1 {
            assert(t[0] == p.sign[0]);
        } else if t.len() > 0 {
            assert(t[0] != '+' && t[0] != '-') by {
                if lw > 0 {
                    assert(t[0] == p.whole[0]);
                } else if fr.len() > 0 {
                    assert(t[0] == fr[0]);
                }
            }
        }
    }
    // whole digits
    assert forall|k: int| ls <= k < b implies is_digit(#[trigger] t[k]) by {
        assert(t[k] == p.whole[k - ls]);
    }
    if b < t.len() {
        if fr.len() > 0 {
            assert(t[b] == fr[0]);
            assert(fr[0] == '.');
        } else {
            assert(t[b] == ex[0]);
        }
    }
    lemma_digits_run(t, ls, lw);
    // fraction digits
    match p.fraction {
        Some(f) => {
            assert(t[b] == '.');
            assert forall|k: int| b + 1 <= k < c implies is_digit(#[trigger] t[k]) by {
                assert(t[k] == fr[k - b]);
                assert(fr[k - b] == f[k - b - 1]);
            }
            if c < t.len() {
                assert(t[c] == ex[0]);
            }
            lemma_digits_run(t, b + 1, f.len() as int);
        },
        None => {},
    }
    // exponent
    match p.exponent {
        Some((e, es, ed)) => {
            assert(t[c] == e);
            let d = c + 1 + es.len();
            assert(after_sign(t, c + 1) == d) by {
                if es.len() == 1 {
                    assert(t[c + 1] == ex[1]);
                    assert(ex[1] == es[0]);
                } else {
                    assert(t[c + 1] == ex[1]);
                    assert(ex[1] == ed[0]);
                }
            }
            assert forall|k: int| d <= k < t.len() implies is_digit(#[trigger] t[k]) by {
                assert(t[k] == ex[k - c]);
                assert(ex[k - c] == ed[k - d]);
            }
            lemma_digits_run(t, d, ed.len() as int);
        },
        None => {},
    }
    assert(valid_float(t));
    // the whole document is one number lexeme
    assert forall|k: int| 0 <= k < t.len() implies is_num_char(#[trigger] t[k]) by {
        if k < ls {
            assert(t[k] == p.sign[k]);
        } else if k < b {
            assert(is_digit(t[k]));
        } else if k < c {
            if k > b {
                assert(is_digit(t[k]));
            }
        } else {
            match p.exponent {
                Some((e, es, ed)) => {
                    assert(t[k] == ex[k - c]);
                    if k == c {
                    } else if k < c + 1 + es.len() {
                        assert(ex[k - c] == es[k - c - 1]);
                    } else {
                        assert(ex[k - c] == ed[k - c - 1 - es.len()]);
                    }
                },
                None => {},
            }
        }
    }
    assert(t.len() > 0);
    assert(!is_ws(t[0]));
    assert(ws_end(t, 0) == 0);
    lemma_num_end_of_run(t, 0, t.len() as int);
    assert(t.subrange(0, t.len() as int) =~= t);
}

/// What `digits_end` finds: a run of digits from `i`, not followed by another digit.
proof fn lemma_digits_end_props(t: Seq<char>, i: int)
    requires
        0 <= i <= t.len(),
    ensures
        i <= digits_end(t, i) <= t.len(),
        forall|k: int| i <= k < digits_end(t, i) ==> is_digit(#[trigger] t[k]),
        digits_end(t, i) == t.len() || !is_digit(t[digits_end(t, i)]),
    decreases t.len() - i,
{
    if i < t.len() && is_digit(t[i]) {
        lemma_digits_end_props(t, i + 1);
    }
}

/// Every accepted number lexeme is a literal of the decimal float grammar: the returned
/// parts spell it exactly.
pub proof fn lemma_float_literal_has_decimal_form(t: Seq<char>) -> (p: DecimalParts)
    requires
        valid_float(t),
    ensures
        is_decimal_form(p),
        decimal_text(p) == t,
{
    let a = after_sign(t, 0);
    lemma_digits_end_props(t, a);
    let b = digits_end(t, a);
    let has_dot = b < t.len() && t[b] == '.';
    if has_dot {
        lemma_digits_end_props(t, b + 1);
    }
    let c = if has_dot { digits_end(t, b + 1) } else { b };
    let sign = t.subrange(0, a);
    let whole = t.subrange(a, b);
    let fraction = if has_dot { Some(t.subrange(b + 1, c)) } else { None };
    let exponent = if c < t.len() {
        let d = after_sign(t, c + 1);
        Some((t[c], t.subrange(c + 1, d), t.subrange(d, t.len() as int)))
    } else {
        None
    };
    if c < t.len() {
        let d = after_sign(t, c + 1);
        lemma_digits_end_props(t, d);
    }
    let p = DecimalParts { sign, whole, fraction, exponent };
    assert(ascii_digits(whole)) by {
        assert forall|k: int| 0 <= k < whole.len() implies 0x30 <= (#[trigger] whole[k] as u32) <= 0x39 by {
            assert(whole[k] == t[a + k]);
            assert(is_digit(t[a + k]));
        }
    }
    if has_dot {
        let f = t.subrange(b + 1, c);
        assert(ascii_digits(f)) by {
            assert forall|k: int| 0 <= k < f.len() implies 0x30 <= (#[trigger] f[k] as u32) <= 0x39 by {
                assert(f[k] == t[b + 1 + k]);
                assert(is_digit(t[b + 1 + k]));
            }
        }
    }
    if c < t.len() {
        let d = after_sign(t, c + 1);
        let ed = t.subrange(d, t.len() as int);
        assert(ascii_digits(ed)) by {
            assert forall|k: int| 0 <= k < ed.len() implies 0x30 <= (#[trigger] ed[k] as u32) <= 0x39 by {
                assert(ed[k] == t[d + k]);
                assert(is_digit(t[d + k]));
            }
        }
        assert(decimal_text(p) =~= t);
    } else {
        assert(decimal_text(p) =~= t);
    }
    p
}

/// A document that reads as a single number holds a literal of the decimal float grammar.
pub proof fn lemma_read_number_has_decimal_form(s: Seq<char>, l: Seq<char>) -> (p: DecimalParts)
    requires
        parse_spec(s) == Ok::<JsonTree, JsonError>(JsonTree::Num(l)),
    ensures
        is_decimal_form(p),
        decimal_text(p) == l,
{
    lemma_ws_end_bounds(s, 0);
    let q = ws_end(s, 0);
    let e = num_end(s, q);
    assert(valid_float(s.subrange(q, e)) && l == s.subrange(q, e));
    lemma_float_literal_has_decimal_form(l)
}

} // verus!
