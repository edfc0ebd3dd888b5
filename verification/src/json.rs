//! Lightweight zero-dependency JSON tree reader used to load trained operator weights.
//!
//! Numbers are kept as their source lexeme (checked against the decimal float grammar);
//! turning a lexeme into a value is left to the numeric layer.

use vstd::prelude::*;
use vstd::std_specs::iter::IteratorSpec;

verus! {

/// Mathematical JSON tree: what a parsed document denotes.
pub enum JsonTree {
    Num(Seq<char>),
    Str(Seq<char>),
    Arr(Seq<JsonTree>),
    Obj(Seq<(Seq<char>, JsonTree)>),
    Bool(bool),
    Null,
}

/// Parsed JSON value; numbers are held as their lexeme.
#[derive(Debug, PartialEq)]
pub enum SimpleJson {
    Num(String),
    Str(String),
    Arr(Vec<SimpleJson>),
    Obj(Vec<(String, SimpleJson)>),
    Bool(bool),
    Null,
}

impl SimpleJson {
    /// The tree this value denotes.
    pub open spec fn tree(self) -> JsonTree
        decreases self,
    {
        match self {
            SimpleJson::Num(s) => JsonTree::Num(s@),
            SimpleJson::Str(s) => JsonTree::Str(s@),
            SimpleJson::Arr(v) => JsonTree::Arr(trees_of(v@)),
            SimpleJson::Obj(v) => JsonTree::Obj(members_of(v@)),
            SimpleJson::Bool(b) => JsonTree::Bool(b),
            SimpleJson::Null => JsonTree::Null,
        }
    }
}

/// `k` is the first position of an object entry named `key`.
pub open spec fn first_key_at(ps: Seq<(String, SimpleJson)>, key: Seq<char>, k: int) -> bool {
    &&& 0 <= k < ps.len()
    &&& ps[k].0@ == key
    &&& forall|j: int| 0 <= j < k ==> ps[j].0@ != key
}

/// Trees of a sequence of values.
pub open spec fn trees_of(s: Seq<SimpleJson>) -> Seq<JsonTree>
    decreases s,
{
    if s.len() == 0 {
        Seq::empty()
    } else {
        trees_of(s.drop_last()).push(s.last().tree())
    }
}

/// Members (key, tree) of a sequence of object entries.
pub open spec fn members_of(s: Seq<(String, SimpleJson)>) -> Seq<(Seq<char>, JsonTree)>
    decreases s,
{
    if s.len() == 0 {
        Seq::empty()
    } else {
        members_of(s.drop_last()).push((s.last().0@, s.last().1.tree()))
    }
}

/// Why a document could not be read; positions count characters from the start.
#[derive(Clone, Copy, PartialEq, Eq, Debug)]
pub enum JsonError {
    /// Nothing but whitespace where a value was expected.
    UnexpectedEof,
    /// The input ended inside an object.
    UnterminatedObject,
    /// An object member did not start with a string key.
    ExpectedKey { at: usize },
    /// A key was not followed by `:`.
    ExpectedColon { at: usize },
    /// An object member was followed by neither `,` nor `}`.
    ExpectedObjectSeparator { at: usize },
    /// The input ended inside an array.
    UnterminatedArray,
    /// An array element was followed by neither `,` nor `]`.
    ExpectedArraySeparator { at: usize },
    /// The input ended inside a string.
    UnterminatedString,
    /// The characters `start..end` do not form a decimal floating-point literal.
    InvalidNumber { start: usize, end: usize },
    /// A value starting with `t` or `f` is neither `true` nor `false`.
    InvalidBoolean,
    /// A value starting with `n` is not `null`.
    InvalidNull,
}

/// Unicode `White_Space`, the property that `char::is_whitespace` tests.
pub open spec fn is_ws(c: char) -> bool {
    let u = c as u32;
    ||| 0x09 <= u <= 0x0D
    ||| u == 0x20
    ||| u == 0x85
    ||| u == 0xA0
    ||| u == 0x1680
    ||| 0x2000 <= u <= 0x200A
    ||| u == 0x2028
    ||| u == 0x2029
    ||| u == 0x202F
    ||| u == 0x205F
    ||| u == 0x3000
}

/// An ASCII decimal digit.
pub open spec fn is_digit(c: char) -> bool {
    0x30 <= (c as u32) <= 0x39
}

/// A character that may occur in a number lexeme.
pub open spec fn is_num_char(c: char) -> bool {
    is_digit(c) || c == '-' || c == '+' || c == '.' || c == 'e' || c == 'E'
}

/// First position at or after `i` that does not hold whitespace.
pub open spec fn ws_end(s: Seq<char>, i: int) -> int
    decreases s.len() - i,
{
    if 0 <= i < s.len() && is_ws(s[i]) {
        ws_end(s, i + 1)
    } else {
        i
    }
}

/// First position at or after `i` that does not hold a number character.
pub open spec fn num_end(s: Seq<char>, i: int) -> int
    decreases s.len() - i,
{
    if 0 <= i < s.len() && is_num_char(s[i]) {
        num_end(s, i + 1)
    } else {
        i
    }
}

/// First position at or after `i` that does not hold a decimal digit.
pub open spec fn digits_end(t: Seq<char>, i: int) -> int
    decreases t.len() - i,
{
    if 0 <= i < t.len() && is_digit(t[i]) {
        digits_end(t, i + 1)
    } else {
        i
    }
}

/// Position after an optional `+` or `-` at `i`.
pub open spec fn after_sign(t: Seq<char>, i: int) -> int {
    if 0 <= i < t.len() && (t[i] == '+' || t[i] == '-') {
        i + 1
    } else {
        i
    }
}

/// The decimal float grammar that `f64::from_str` accepts, for lexemes made of digits,
/// signs, `.`, `e` and `E`:  `[+-]? (d+ | d+ '.' d* | d* '.' d+) ([eE] [+-]? d+)?`.
pub open spec fn valid_float(t: Seq<char>) -> bool {
    let a = after_sign(t, 0);
    let b = digits_end(t, a);
    let has_dot = b < t.len() && t[b] == '.';
    let c = if has_dot { digits_end(t, b + 1) } else { b };
    let mantissa_digits = if has_dot { (b - a) + (c - (b + 1)) } else { b - a };
    &&& mantissa_digits > 0
    &&& (c == t.len() || {
        &&& (t[c] == 'e' || t[c] == 'E')
        &&& {
            let d = after_sign(t, c + 1);
            let f = digits_end(t, d);
            f > d && f == t.len()
        }
    })
}

/// Result of reading one item: the item and the position after it.
pub type Read<T> = Result<(T, int), JsonError>;

/// Puts `x` in front of the items of a successful read.
pub open spec fn cons_read<T>(x: T, r: Read<Seq<T>>) -> Read<Seq<T>> {
    match r {
        Ok((xs, e)) => Ok((seq![x].add(xs), e)),
        Err(err) => Err(err),
    }
}

/// Body of a string literal whose opening quote stands before `j`.
pub open spec fn read_str_body(s: Seq<char>, j: int) -> Read<Seq<char>>
    decreases s.len() - j,
{
    if j < 0 || j >= s.len() {
        Err(JsonError::UnterminatedString)
    } else if s[j] == '"' {
        Ok((Seq::empty(), j + 1))
    } else if s[j] == '\\' && j + 1 < s.len() {
        cons_read(s[j + 1], read_str_body(s, j + 2))
    } else {
        cons_read(s[j], read_str_body(s, j + 1))
    }
}

/// A literal word (`true`, `false`, `null`) stands at `i`.
pub open spec fn word_at(s: Seq<char>, i: int, w: Seq<char>) -> bool {
    0 <= i && i + w.len() <= s.len() && s.subrange(i, i + w.len()) == w
}

/// Reads the value starting at the first non-whitespace position at or after `i`.
pub open spec fn read_value(s: Seq<char>, i: int) -> Read<JsonTree>
    decreases s.len() - i, 0int,
{
    let p = ws_end(s, i);
    if i < 0 || p >= s.len() {
        Err(JsonError::UnexpectedEof)
    } else {
        proof {
            lemma_ws_end_bounds(s, i);
        }
        let c = s[p];
        if c == '{' {
            match read_members(s, p + 1) {
                Ok((ms, e)) => Ok((JsonTree::Obj(ms), e)),
                Err(err) => Err(err),
            }
        } else if c == '[' {
            match read_elements(s, p + 1) {
                Ok((xs, e)) => Ok((JsonTree::Arr(xs), e)),
                Err(err) => Err(err),
            }
        } else if c == '"' {
            match read_str_body(s, p + 1) {
                Ok((t, e)) => Ok((JsonTree::Str(t), e)),
                Err(err) => Err(err),
            }
        } else if c == 't' || c == 'f' {
            if word_at(s, p, seq!['t', 'r', 'u', 'e']) {
                Ok((JsonTree::Bool(true), p + 4))
            } else if word_at(s, p, seq!['f', 'a', 'l', 's', 'e']) {
                Ok((JsonTree::Bool(false), p + 5))
            } else {
                Err(JsonError::InvalidBoolean)
            }
        } else if c == 'n' {
            if word_at(s, p, seq!['n', 'u', 'l', 'l']) {
                Ok((JsonTree::Null, p + 4))
            } else {
                Err(JsonError::InvalidNull)
            }
        } else {
            let e = num_end(s, p);
            if valid_float(s.subrange(p, e)) {
                Ok((JsonTree::Num(s.subrange(p, e)), e))
            } else {
                Err(JsonError::InvalidNumber { start: p as usize, end: e as usize })
            }
        }
    }
}

/// Reads object members after `{` (or after a `,`), up to and including the closing `}`.
/// A `,` may stand before the closing brace.
pub open spec fn read_members(s: Seq<char>, i: int) -> Read<Seq<(Seq<char>, JsonTree)>>
    decreases s.len() - i, 0int,
{
    let p = ws_end(s, i);
    if i < 0 || p >= s.len() {
        Err(JsonError::UnterminatedObject)
    } else if s[p] == '}' {
        Ok((Seq::empty(), p + 1))
    } else if s[p] != '"' {
        Err(JsonError::ExpectedKey { at: p as usize })
    } else {
        proof {
            lemma_ws_end_bounds(s, i);
        }
        match read_str_body(s, p + 1) {
            Err(err) => Err(err),
            Ok((key, q)) => {
                let r = ws_end(s, q);
                if r < i || r >= s.len() || s[r] != ':' {
                    Err(JsonError::ExpectedColon { at: r as usize })
                } else {
                    match read_value(s, r + 1) {
                        Err(err) => Err(err),
                        Ok((v, e)) => {
                            let t = ws_end(s, e);
                            if t < i || t >= s.len() {
                                Err(JsonError::ExpectedObjectSeparator { at: t as usize })
                            } else if s[t] == ',' {
                                cons_read((key, v), read_members(s, t + 1))
                            } else if s[t] == '}' {
                                Ok((seq![(key, v)], t + 1))
                            } else {
                                Err(JsonError::ExpectedObjectSeparator { at: t as usize })
                            }
                        },
                    }
                }
            },
        }
    }
}

/// Reads array elements after `[` (or after a `,`), up to and including the closing `]`.
/// A `,` may stand before the closing bracket.
pub open spec fn read_elements(s: Seq<char>, i: int) -> Read<Seq<JsonTree>>
    decreases s.len() - i, 1int,
{
    let p = ws_end(s, i);
    if i < 0 || p >= s.len() {
        Err(JsonError::UnterminatedArray)
    } else if s[p] == ']' {
        Ok((Seq::empty(), p + 1))
    } else {
        proof {
            lemma_ws_end_bounds(s, i);
        }
        match read_value(s, p) {
            Err(err) => Err(err),
            Ok((v, e)) => {
                let t = ws_end(s, e);
                if t < i || t >= s.len() {
                    Err(JsonError::ExpectedArraySeparator { at: t as usize })
                } else if s[t] == ',' {
                    cons_read(v, read_elements(s, t + 1))
                } else if s[t] == ']' {
                    Ok((seq![v], t + 1))
                } else {
                    Err(JsonError::ExpectedArraySeparator { at: t as usize })
                }
            },
        }
    }
}

/// What a whole document denotes: the first value in it (text after it is ignored).
pub open spec fn parse_spec(s: Seq<char>) -> Result<JsonTree, JsonError> {
    match read_value(s, 0) {
        Ok((v, _)) => Ok(v),
        Err(err) => Err(err),
    }
}

/// Puts `a` in front of the items of a successful read.
pub open spec fn concat_read<T>(a: Seq<T>, r: Read<Seq<T>>) -> Read<Seq<T>> {
    match r {
        Ok((xs, e)) => Ok((a.add(xs), e)),
        Err(err) => Err(err),
    }
}

/// An executable read result agrees with the specified one: same error, or the same
/// end position and a value denoting the same tree.
pub open spec fn agrees(r: Result<(SimpleJson, usize), JsonError>, t: Read<JsonTree>) -> bool {
    match (r, t) {
        (Ok((v, e)), Ok((tv, te))) => v.tree() == tv && e as int == te,
        (Err(x), Err(y)) => x == y,
        _ => false,
    }
}

/// Prefixing nothing leaves a read unchanged.
pub proof fn lemma_concat_empty<T>(r: Read<Seq<T>>)
    ensures
        concat_read(Seq::<T>::empty(), r) == r,
{
    match r {
        Ok((xs, e)) => {
            assert(Seq::<T>::empty().add(xs) =~= xs);
        },
        Err(_) => {},
    }
}

/// Prefixing `a` to a read that starts with `x` prefixes `a` followed by `x`.
pub proof fn lemma_concat_cons<T>(a: Seq<T>, x: T, r: Read<Seq<T>>)
    ensures
        concat_read(a, cons_read(x, r)) == concat_read(a.push(x), r),
{
    match r {
        Ok((xs, e)) => {
            assert(a.add(seq![x].add(xs)) =~= a.push(x).add(xs));
        },
        Err(_) => {},
    }
}

/// Skipping whitespace moves forward, stays inside the text, and stops on a
/// non-whitespace character when it stops inside.
pub proof fn lemma_ws_end_bounds(s: Seq<char>, i: int)
    requires
        0 <= i,
    ensures
        i <= ws_end(s, i),
        i <= s.len() ==> ws_end(s, i) <= s.len(),
        ws_end(s, i) < s.len() ==> !is_ws(s[ws_end(s, i)]),
    decreases s.len() - i,
{
    if 0 <= i < s.len() && is_ws(s[i]) {
        lemma_ws_end_bounds(s, i + 1);
    }
}

impl SimpleJson {
    /// Parses a JSON document: the first value after leading whitespace; anything after
    /// that value is ignored.
    pub fn parse(input: &str) -> (res: Result<SimpleJson, JsonError>)
        ensures
            match (res, parse_spec(input@)) {
                (Ok(v), Ok(t)) => v.tree() == t,
                (Err(x), Err(y)) => x == y,
                _ => false,
            },
    {
        let chars = chars_of(input);
        match parse_value(&chars, 0) {
            Ok((v, _)) => Ok(v),
            Err(err) => Err(err),
        }
    }

    /// Value of the first member named `key` of an object; `None` for other values or when
    /// no member has that name.
    pub fn get_obj(&self, key: &str) -> (r: Option<&SimpleJson>)
        ensures
            !(*self is Obj) ==> r is None,
            *self is Obj ==> match r {
                Some(v) => exists|k: int| #[trigger]
                    first_key_at(self->Obj_0@, key@, k) && *v == self->Obj_0@[k].1,
                None => forall|k: int|
                    0 <= k < self->Obj_0@.len() ==> self->Obj_0@[k].0@ != key@,
            },
    {
        match self {
            SimpleJson::Obj(pairs) => {
                let wanted = String::from_str(key);
                let mut k: usize = 0;
                while k < pairs.len()
                    invariant
                        k <= pairs@.len(),
                        wanted@ == key@,
                        *self == SimpleJson::Obj(*pairs),
                        forall|j: int| 0 <= j < k ==> pairs@[j].0@ != key@,
                    decreases pairs.len() - k,
                {
                    if pairs[k].0.eq(&wanted) {
                        let found = &pairs[k].1;
                        assert(first_key_at(self->Obj_0@, key@, k as int) && *found
                            == self->Obj_0@[k as int].1);
                        return Some(found);
                    }
                    k = k + 1;
                }
                None
            },
            _ => None,
        }
    }

    /// The text of a string value.
    pub fn as_str(&self) -> (r: Option<&str>)
        ensures
            match *self {
                SimpleJson::Str(t) => r matches Some(u) && u@ == t@,
                _ => r is None,
            },
    {
        match self {
            SimpleJson::Str(t) => Some(t.as_str()),
            _ => None,
        }
    }

    /// The elements of an array value.
    pub fn as_vec_json(&self) -> (r: Option<&Vec<SimpleJson>>)
        ensures
            match *self {
                SimpleJson::Arr(xs) => r matches Some(u) && *u == xs,
                _ => r is None,
            },
    {
        match self {
            SimpleJson::Arr(xs) => Some(xs),
            _ => None,
        }
    }

    /// The lexeme of a number value.
    pub fn as_number_text(&self) -> (r: Option<&str>)
        ensures
            match *self {
                SimpleJson::Num(t) => r matches Some(u) && u@ == t@,
                _ => r is None,
            },
    {
        match self {
            SimpleJson::Num(t) => Some(t.as_str()),
            _ => None,
        }
    }
}

/// The characters of `s`, in order.
fn chars_of(s: &str) -> (v: Vec<char>)
    ensures
        v@ == s@,
{
    broadcast use vstd::string::axiom_spec_iter, vstd::string::next_postcondition;
    let mut out: Vec<char> = Vec::new();
    let mut iter = s.chars();
    loop
        invariant
            out@.add(iter.remaining()) == s@,
            iter.decrease() is Some,
        ensures
            out@ == s@,
        decreases iter.decrease()->0,
    {
        let ghost old_rem = iter.remaining();
        match iter.next() {
            Some(c) => {
                assert(out@.push(c).add(iter.remaining()) =~= out@.add(old_rem));
                out.push(c);
            },
            None => {
                assert(out@.add(iter.remaining()) =~= out@);
                break;
            },
        }
    }
    out
}

/// Appends a character to a string (`String::push`).
#[verifier::external_body]
fn push_char(s: &mut String, c: char)
    ensures
        final(s)@ == old(s)@.push(c),
{
    s.push(c);
}

fn is_ws_char(c: char) -> (b: bool)
    ensures
        b == is_ws(c),
{
    let u = c as u32;
    (0x09 <= u && u <= 0x0D) || u == 0x20 || u == 0x85 || u == 0xA0 || u == 0x1680 || (0x2000
        <= u && u <= 0x200A) || u == 0x2028 || u == 0x2029 || u == 0x202F || u == 0x205F || u
        == 0x3000
}

fn is_digit_char(c: char) -> (b: bool)
    ensures
        b == is_digit(c),
{
    let u = c as u32;
    0x30 <= u && u <= 0x39
}

fn is_num_char_exec(c: char) -> (b: bool)
    ensures
        b == is_num_char(c),
{
    is_digit_char(c) || c == '-' || c == '+' || c == '.' || c == 'e' || c == 'E'
}

/// Position of the first non-whitespace character at or after `idx`.
fn skip_ws(chars: &Vec<char>, idx: usize) -> (r: usize)
    requires
        idx <= chars.len(),
    ensures
        r as int == ws_end(chars@, idx as int),
        idx <= r <= chars.len(),
{
    let mut cur = idx;
    while cur < chars.len() && is_ws_char(chars[cur])
        invariant
            idx <= cur <= chars.len(),
            ws_end(chars@, idx as int) == ws_end(chars@, cur as int),
        decreases chars.len() - cur,
    {
        cur = cur + 1;
    }
    cur
}

/// Reads the body of a string literal from `j` (just after the opening quote).
fn parse_str_body(chars: &Vec<char>, j: usize) -> (res: Result<(String, usize), JsonError>)
    requires
        j <= chars.len(),
    ensures
        match (res, read_str_body(chars@, j as int)) {
            (Ok((t, e)), Ok((st, se))) => t@ == st && e as int == se && j < e <= chars.len(),
            (Err(x), Err(y)) => x == y,
            _ => false,
        },
{
    let ghost s = chars@;
    let mut out = String::new();
    let mut cur = j;
    proof {
        lemma_concat_empty(read_str_body(s, j as int));
    }
    while cur < chars.len()
        invariant
            j <= cur <= chars.len(),
            s == chars@,
            read_str_body(s, j as int) == concat_read(out@, read_str_body(s, cur as int)),
        decreases chars.len() - cur,
    {
        let c = chars[cur];
        if c == '"' {
            proof {
                assert(out@.add(Seq::empty()) =~= out@);
            }
            return Ok((out, cur + 1));
        } else if c == '\\' && cur + 1 < chars.len() {
            proof {
                lemma_concat_cons(out@, s[cur + 1], read_str_body(s, cur + 2));
            }
            push_char(&mut out, chars[cur + 1]);
            cur = cur + 2;
        } else {
            proof {
                lemma_concat_cons(out@, s[cur as int], read_str_body(s, cur + 1));
            }
            push_char(&mut out, c);
            cur = cur + 1;
        }
    }
    Err(JsonError::UnterminatedString)
}

/// End of the run of decimal digits starting at `i`.
fn digits_end_exec(t: &Vec<char>, i: usize) -> (r: usize)
    requires
        i <= t.len(),
    ensures
        r as int == digits_end(t@, i as int),
        i <= r <= t.len(),
{
    let mut cur = i;
    while cur < t.len() && is_digit_char(t[cur])
        invariant
            i <= cur <= t.len(),
            digits_end(t@, i as int) == digits_end(t@, cur as int),
        decreases t.len() - cur,
    {
        cur = cur + 1;
    }
    cur
}

fn after_sign_exec(t: &Vec<char>, i: usize) -> (r: usize)
    requires
        i <= t.len(),
    ensures
        r as int == after_sign(t@, i as int),
        i <= r <= t.len(),
{
    if i < t.len() && (t[i] == '+' || t[i] == '-') {
        i + 1
    } else {
        i
    }
}

/// Whether `t` is a decimal floating-point literal that `f64::from_str` accepts
/// (for characters among digits, signs, `.`, `e`, `E`).
pub fn is_float_literal(t: &Vec<char>) -> (b: bool)
    ensures
        b == valid_float(t@),
{
    let a = after_sign_exec(t, 0);
    let b = digits_end_exec(t, a);
    let has_dot = b < t.len() && t[b] == '.';
    let c = if has_dot {
        digits_end_exec(t, b + 1)
    } else {
        b
    };
    let mantissa_digits = if has_dot {
        (b - a) + (c - (b + 1))
    } else {
        b - a
    };
    if mantissa_digits == 0 {
        return false;
    }
    if c == t.len() {
        return true;
    }
    if !(t[c] == 'e' || t[c] == 'E') {
        return false;
    }
    let d = after_sign_exec(t, c + 1);
    let f = digits_end_exec(t, d);
    f > d && f == t.len()
}

/// Whether the characters `w` stand at position `p`.
fn has_word(chars: &Vec<char>, p: usize, w: &Vec<char>) -> (b: bool)
    requires
        p <= chars.len(),
    ensures
        b == word_at(chars@, p as int, w@),
{
    if w.len() > chars.len() - p {
        return false;
    }
    let mut k: usize = 0;
    while k < w.len()
        invariant
            p + w.len() <= chars.len(),
            k <= w.len(),
            forall|m: int| 0 <= m < k ==> chars@[p + m] == w@[m],
        decreases w.len() - k,
    {
        if chars[p + k] != w[k] {
            assert(chars@.subrange(p as int, p + w.len())[k as int] != w@[k as int]);
            return false;
        }
        k = k + 1;
    }
    assert(chars@.subrange(p as int, p + w.len()) =~= w@);
    true
}

/// Reads the number lexeme starting at `p`.
fn parse_num(chars: &Vec<char>, p: usize) -> (res: Result<(SimpleJson, usize), JsonError>)
    requires
        p < chars.len(),
    ensures
        ({
            let e = num_end(chars@, p as int);
            let lex = chars@.subrange(p as int, e);
            agrees(
                res,
                if valid_float(lex) {
                    Ok((JsonTree::Num(lex), e))
                } else {
                    Err(JsonError::InvalidNumber { start: p as usize, end: e as usize })
                },
            )
        }),
        res matches Ok((_, e)) ==> p < e <= chars.len(),
{
    let ghost s = chars@;
    let mut lex: Vec<char> = Vec::new();
    let mut text = String::new();
    let mut e = p;
    while e < chars.len() && is_num_char_exec(chars[e])
        invariant
            s == chars@,
            p <= e <= chars.len(),
            lex@ == s.subrange(p as int, e as int),
            text@ == lex@,
            num_end(s, p as int) == num_end(s, e as int),
        decreases chars.len() - e,
    {
        assert(s.subrange(p as int, e + 1) =~= s.subrange(p as int, e as int).push(s[e as int]));
        lex.push(chars[e]);
        push_char(&mut text, chars[e]);
        e = e + 1;
    }
    if is_float_literal(&lex) {
        assert(lex@.len() > 0);
        Ok((SimpleJson::Num(text), e))
    } else {
        Err(JsonError::InvalidNumber { start: p, end: e })
    }
}

/// Reads the value starting at the first non-whitespace position at or after `i`.
fn parse_value(chars: &Vec<char>, i: usize) -> (res: Result<(SimpleJson, usize), JsonError>)
    requires
        i <= chars.len(),
    ensures
        agrees(res, read_value(chars@, i as int)),
        res matches Ok((_, e)) ==> i < e <= chars.len(),
    decreases chars.len() - i, 0int,
{
    let ghost s = chars@;
    let p = skip_ws(chars, i);
    if p >= chars.len() {
        return Err(JsonError::UnexpectedEof);
    }
    proof {
        lemma_ws_end_bounds(s, i as int);
    }
    let c = chars[p];
    if c == '{' {
        match parse_members(chars, p + 1) {
            Ok((ms, e)) => Ok((SimpleJson::Obj(ms), e)),
            Err(err) => Err(err),
        }
    } else if c == '[' {
        match parse_elements(chars, p + 1) {
            Ok((xs, e)) => Ok((SimpleJson::Arr(xs), e)),
            Err(err) => Err(err),
        }
    } else if c == '"' {
        match parse_str_body(chars, p + 1) {
            Ok((t, e)) => Ok((SimpleJson::Str(t), e)),
            Err(err) => Err(err),
        }
    } else if c == 't' || c == 'f' {
        if has_word(chars, p, &vec!['t', 'r', 'u', 'e']) {
            Ok((SimpleJson::Bool(true), p + 4))
        } else if has_word(chars, p, &vec!['f', 'a', 'l', 's', 'e']) {
            Ok((SimpleJson::Bool(false), p + 5))
        } else {
            Err(JsonError::InvalidBoolean)
        }
    } else if c == 'n' {
        if has_word(chars, p, &vec!['n', 'u', 'l', 'l']) {
            Ok((SimpleJson::Null, p + 4))
        } else {
            Err(JsonError::InvalidNull)
        }
    } else {
        parse_num(chars, p)
    }
}

/// Reads object members after `{`, up to and including the closing `}`.
fn parse_members(chars: &Vec<char>, i: usize) -> (res: Result<(Vec<(String, SimpleJson)>, usize), JsonError>)
    requires
        i <= chars.len(),
    ensures
        match (res, read_members(chars@, i as int)) {
            (Ok((ms, e)), Ok((sm, se))) => members_of(ms@) == sm && e as int == se && i < e
                <= chars.len(),
            (Err(x), Err(y)) => x == y,
            _ => false,
        },
    decreases chars.len() - i, 0int,
{
    let ghost s = chars@;
    let mut acc: Vec<(String, SimpleJson)> = Vec::new();
    let mut cur = i;
    proof {
        lemma_concat_empty(read_members(s, i as int));
    }
    loop
        invariant
            s == chars@,
            i <= cur <= chars.len(),
            read_members(s, i as int) == concat_read(members_of(acc@), read_members(s, cur as int)),
        decreases chars.len() - cur,
    {
        let p = skip_ws(chars, cur);
        if p >= chars.len() {
            return Err(JsonError::UnterminatedObject);
        }
        if chars[p] == '}' {
            proof {
                assert(members_of(acc@).add(Seq::empty()) =~= members_of(acc@));
            }
            return Ok((acc, p + 1));
        }
        if chars[p] != '"' {
            return Err(JsonError::ExpectedKey { at: p });
        }
        let (key, q) = match parse_str_body(chars, p + 1) {
            Ok(kq) => kq,
            Err(err) => {
                return Err(err);
            },
        };
        let r = skip_ws(chars, q);
        if r >= chars.len() || chars[r] != ':' {
            return Err(JsonError::ExpectedColon { at: r });
        }
        let (v, e) = match parse_value(chars, r + 1) {
            Ok(ve) => ve,
            Err(err) => {
                return Err(err);
            },
        };
        let t = skip_ws(chars, e);
        if t >= chars.len() {
            return Err(JsonError::ExpectedObjectSeparator { at: t });
        }
        let ghost before = acc@;
        let ghost item = (key@, v.tree());
        acc.push((key, v));
        proof {
            assert(acc@.drop_last() =~= before);
            assert(members_of(acc@) == members_of(before).push(item));
        }
        if chars[t] == ',' {
            proof {
                lemma_concat_cons(members_of(before), item, read_members(s, t + 1));
            }
            cur = t + 1;
        } else if chars[t] == '}' {
            proof {
                assert(members_of(before).add(seq![item]) =~= members_of(acc@));
            }
            return Ok((acc, t + 1));
        } else {
            return Err(JsonError::ExpectedObjectSeparator { at: t });
        }
    }
}

/// Reads array elements after `[`, up to and including the closing `]`.
fn parse_elements(chars: &Vec<char>, i: usize) -> (res: Result<(Vec<SimpleJson>, usize), JsonError>)
    requires
        i <= chars.len(),
    ensures
        match (res, read_elements(chars@, i as int)) {
            (Ok((xs, e)), Ok((sx, se))) => trees_of(xs@) == sx && e as int == se && i < e
                <= chars.len(),
            (Err(x), Err(y)) => x == y,
            _ => false,
        },
    decreases chars.len() - i, 1int,
{
    let ghost s = chars@;
    let mut acc: Vec<SimpleJson> = Vec::new();
    let mut cur = i;
    proof {
        lemma_concat_empty(read_elements(s, i as int));
    }
    loop
        invariant
            s == chars@,
            i <= cur <= chars.len(),
            read_elements(s, i as int) == concat_read(trees_of(acc@), read_elements(s, cur as int)),
        decreases chars.len() - cur,
    {
        let p = skip_ws(chars, cur);
        if p >= chars.len() {
            return Err(JsonError::UnterminatedArray);
        }
        if chars[p] == ']' {
            proof {
                assert(trees_of(acc@).add(Seq::empty()) =~= trees_of(acc@));
            }
            return Ok((acc, p + 1));
        }
        let (v, e) = match parse_value(chars, p) {
            Ok(ve) => ve,
            Err(err) => {
                return Err(err);
            },
        };
        let t = skip_ws(chars, e);
        if t >= chars.len() {
            return Err(JsonError::ExpectedArraySeparator { at: t });
        }
        let ghost before = acc@;
        let ghost item = v.tree();
        acc.push(v);
        proof {
            assert(acc@.drop_last() =~= before);
            assert(trees_of(acc@) == trees_of(before).push(item));
        }
        if chars[t] == ',' {
            proof {
                lemma_concat_cons(trees_of(before), item, read_elements(s, t + 1));
            }
            cur = t + 1;
        } else if chars[t] == ']' {
            proof {
                assert(trees_of(before).add(seq![item]) =~= trees_of(acc@));
            }
            return Ok((acc, t + 1));
        } else {
            return Err(JsonError::ExpectedArraySeparator { at: t });
        }
    }
}

} // verus!
