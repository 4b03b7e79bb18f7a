//! The text half of the wire codec: a JSON tree, its canonical printer,
//! and its parser, with the printer and parser proved inverse.
//!
//! Numbers are carried verbatim as their wire tokens (see `number`), so
//! printing and reparsing loses nothing. Object members keep their order;
//! field lookup is by name.

use vstd::prelude::*;

use crate::number::is_num_token;
use crate::signal::NumberLit;
use crate::text::str_to_chars;

verus! {

/// A JSON value. Numbers are raw tokens; strings are decoded contents.
#[derive(Debug)]
pub enum Json {
    Null,
    Bool(bool),
    Num(NumberLit),
    Str(String),
    Arr(Vec<Json>),
    Obj(Vec<(String, Json)>),
}

/// Spec-level JSON value.
pub enum JsonV {
    Null,
    Bool(bool),
    Num(Seq<char>),
    Str(Seq<char>),
    Arr(Seq<JsonV>),
    Obj(Seq<(Seq<char>, JsonV)>),
}

impl View for Json {
    type V = JsonV;

    open spec fn view(&self) -> JsonV
        decreases self, 1int,
    {
        match self {
            Json::Null => JsonV::Null,
            Json::Bool(b) => JsonV::Bool(*b),
            Json::Num(n) => JsonV::Num(n@),
            Json::Str(s) => JsonV::Str(s@),
            Json::Arr(a) => JsonV::Arr(view_list(a@)),
            Json::Obj(ms) => JsonV::Obj(view_members(ms@)),
        }
    }
}

/// The views of a list of values, in order.
pub open spec fn view_list(a: Seq<Json>) -> Seq<JsonV>
    decreases a, 0int,
{
    if a.len() == 0 {
        Seq::empty()
    } else {
        seq![a.first()@] + view_list(a.drop_first())
    }
}

/// The views of a member list, in order.
pub open spec fn view_members(ms: Seq<(String, Json)>) -> Seq<(Seq<char>, JsonV)>
    decreases ms, 0int,
{
    if ms.len() == 0 {
        Seq::empty()
    } else {
        seq![(ms.first().0@, ms.first().1@)] + view_members(ms.drop_first())
    }
}

pub proof fn lemma_view_list(a: Seq<Json>)
    ensures
        view_list(a).len() == a.len(),
        forall|i: int| 0 <= i < a.len() ==> view_list(a)[i] == #[trigger] a[i]@,
    decreases a.len(),
{
    if a.len() > 0 {
        lemma_view_list(a.drop_first());
        assert(view_list(a) == seq![a.first()@] + view_list(a.drop_first()));
        assert forall|i: int| 0 <= i < a.len() implies view_list(a)[i] == #[trigger] a[i]@ by {
            if i > 0 {
                assert(a.drop_first()[i - 1] == a[i]);
                assert(view_list(a)[i] == view_list(a.drop_first())[i - 1]);
            }
        }
    }
}

pub proof fn lemma_view_members(ms: Seq<(String, Json)>)
    ensures
        view_members(ms).len() == ms.len(),
        forall|i: int|
            0 <= i < ms.len() ==> view_members(ms)[i] == (
            (#[trigger] ms[i]).0@,
            ms[i].1@,
            ),
    decreases ms.len(),
{
    if ms.len() > 0 {
        lemma_view_members(ms.drop_first());
        assert(view_members(ms) == seq![(ms.first().0@, ms.first().1@)] + view_members(
            ms.drop_first(),
        ));
        assert forall|i: int|
            0 <= i < ms.len() implies view_members(ms)[i] == ((#[trigger] ms[i]).0@, ms[i].1@) by {
            if i > 0 {
                assert(ms.drop_first()[i - 1] == ms[i]);
                assert(view_members(ms)[i] == view_members(ms.drop_first())[i - 1]);
            }
        }
    }
}

/// Well-formedness: every number token satisfies the number grammar.
pub open spec fn wf_json(v: JsonV) -> bool
    decreases v, 1int,
{
    match v {
        JsonV::Null => true,
        JsonV::Bool(_) => true,
        JsonV::Num(t) => is_num_token(t),
        JsonV::Str(_) => true,
        JsonV::Arr(a) => wf_json_list(a),
        JsonV::Obj(ms) => wf_json_members(ms),
    }
}

pub open spec fn wf_json_list(a: Seq<JsonV>) -> bool
    decreases a, 0int,
{
    if a.len() == 0 {
        true
    } else {
        wf_json(a.first()) && wf_json_list(a.drop_first())
    }
}

pub open spec fn wf_json_members(ms: Seq<(Seq<char>, JsonV)>) -> bool
    decreases ms, 0int,
{
    if ms.len() == 0 {
        true
    } else {
        wf_json(ms.first().1) && wf_json_members(ms.drop_first())
    }
}

/// The hexadecimal digit character for a value in 0..=15, lower case.
pub open spec fn hex_digit_char(d: int) -> char {
    if d == 0 { '0' }
    else if d == 1 { '1' }
    else if d == 2 { '2' }
    else if d == 3 { '3' }
    else if d == 4 { '4' }
    else if d == 5 { '5' }
    else if d == 6 { '6' }
    else if d == 7 { '7' }
    else if d == 8 { '8' }
    else if d == 9 { '9' }
    else if d == 10 { 'a' }
    else if d == 11 { 'b' }
    else if d == 12 { 'c' }
    else if d == 13 { 'd' }
    else if d == 14 { 'e' }
    else { 'f' }
}

/// The value of a hexadecimal digit character, upper or lower case.
pub open spec fn hex_val_spec(c: char) -> Option<u32> {
    if '0' <= c && c <= '9' {
        Option::Some((c as u32 - '0' as u32) as u32)
    } else if 'a' <= c && c <= 'f' {
        Option::Some((10 + c as u32 - 'a' as u32) as u32)
    } else if 'A' <= c && c <= 'F' {
        Option::Some((10 + c as u32 - 'A' as u32) as u32)
    } else {
        Option::None
    }
}

pub proof fn lemma_hex_roundtrip(d: int)
    requires
        0 <= d <= 15,
    ensures
        hex_val_spec(hex_digit_char(d)) == Option::Some(d as u32),
{
}

/// The printed escape of one string character: the two-character escapes
/// of the quote, backslash and common controls, the hexadecimal escape of
/// the other control characters, and every other character itself.
pub open spec fn esc_char(c: char) -> Seq<char> {
    if c == '"' {
        seq!['\\', '"']
    } else if c == '\\' {
        seq!['\\', '\\']
    } else if c == '\n' {
        seq!['\\', 'n']
    } else if c == '\r' {
        seq!['\\', 'r']
    } else if c == '\t' {
        seq!['\\', 't']
    } else if (c as u32) < 32 {
        seq!['\\', 'u', '0', '0', hex_digit_char(c as int / 16), hex_digit_char(c as int % 16)]
    } else {
        seq![c]
    }
}

pub open spec fn esc_str(s: Seq<char>) -> Seq<char>
    decreases s.len(),
{
    if s.len() == 0 {
        Seq::empty()
    } else {
        esc_char(s.first()) + esc_str(s.drop_first())
    }
}

/// The printed form of a string: its escaped contents in quotes.
pub open spec fn print_string(s: Seq<char>) -> Seq<char> {
    seq!['"'] + esc_str(s) + seq!['"']
}

/// The canonical printed form of a JSON value: no whitespace, members in
/// order.
pub open spec fn print_json(v: JsonV) -> Seq<char>
    decreases v, 1int,
{
    match v {
        JsonV::Null => "null"@,
        JsonV::Bool(b) => if b { "true"@ } else { "false"@ },
        JsonV::Num(t) => t,
        JsonV::Str(s) => print_string(s),
        JsonV::Arr(a) => seq!['['] + print_elems(a) + seq![']'],
        JsonV::Obj(ms) => seq!['{'] + print_members(ms) + seq!['}'],
    }
}

pub open spec fn print_elems(a: Seq<JsonV>) -> Seq<char>
    decreases a, 0int,
{
    if a.len() == 0 {
        Seq::empty()
    } else if a.len() == 1 {
        print_json(a.first())
    } else {
        print_json(a.first()) + seq![','] + print_elems(a.drop_first())
    }
}

pub open spec fn print_members(ms: Seq<(Seq<char>, JsonV)>) -> Seq<char>
    decreases ms, 0int,
{
    if ms.len() == 0 {
        Seq::empty()
    } else if ms.len() == 1 {
        print_string(ms.first().0) + seq![':'] + print_json(ms.first().1)
    } else {
        print_string(ms.first().0) + seq![':'] + print_json(ms.first().1) + seq![',']
            + print_members(ms.drop_first())
    }
}

proof fn lemma_esc_str_push(u: Seq<char>, c: char)
    ensures
        esc_str(u.push(c)) == esc_str(u) + esc_char(c),
    decreases u.len(),
{
    reveal_with_fuel(esc_str, 2);
    if u.len() == 0 {
        assert(u.push(c).first() == c);
        assert(u.push(c).drop_first() =~= Seq::<char>::empty());
        assert(esc_str(u.push(c)) =~= esc_char(c));
        assert(esc_str(u) + esc_char(c) =~= esc_char(c));
    } else {
        assert(u.push(c).first() == u.first());
        assert(u.push(c).drop_first() =~= u.drop_first().push(c));
        lemma_esc_str_push(u.drop_first(), c);
        assert(esc_str(u.push(c)) =~= esc_str(u) + esc_char(c));
    }
}

proof fn lemma_print_elems_snoc(a: Seq<JsonV>)
    requires
        a.len() >= 2,
    ensures
        print_elems(a) == print_elems(a.drop_last()) + seq![','] + print_json(a.last()),
    decreases a.len(),
{
    reveal_with_fuel(print_elems, 3);
    if a.len() == 2 {
        assert(a.drop_first().len() == 1);
        assert(a.drop_first().first() == a.last());
        assert(a.drop_last().len() == 1);
        assert(a.drop_last().first() == a.first());
        assert(print_elems(a) =~= print_elems(a.drop_last()) + seq![','] + print_json(a.last()));
    } else {
        lemma_print_elems_snoc(a.drop_first());
        assert(a.drop_first().drop_last() =~= a.drop_last().drop_first());
        assert(a.drop_first().last() == a.last());
        assert(a.drop_last().first() == a.first());
        assert(a.drop_last().len() >= 2);
        assert(print_elems(a) =~= print_elems(a.drop_last()) + seq![','] + print_json(a.last()));
    }
}

fn hex_digit_exec(d: u32) -> (c: char)
    requires
        d <= 15,
    ensures
        c == hex_digit_char(d as int),
{
    match d {
        0 => '0',
        1 => '1',
        2 => '2',
        3 => '3',
        4 => '4',
        5 => '5',
        6 => '6',
        7 => '7',
        8 => '8',
        9 => '9',
        10 => 'a',
        11 => 'b',
        12 => 'c',
        13 => 'd',
        14 => 'e',
        _ => 'f',
    }
}

fn push_esc_char(c: char, out: &mut Vec<char>)
    ensures
        final(out)@ == old(out)@ + esc_char(c),
{
    if c == '"' {
        out.push('\\');
        out.push('"');
    } else if c == '\\' {
        out.push('\\');
        out.push('\\');
    } else if c == '\n' {
        out.push('\\');
        out.push('n');
    } else if c == '\r' {
        out.push('\\');
        out.push('r');
    } else if c == '\t' {
        out.push('\\');
        out.push('t');
    } else if (c as u32) < 32 {
        let v = c as u32;
        out.push('\\');
        out.push('u');
        out.push('0');
        out.push('0');
        out.push(hex_digit_exec(v / 16));
        out.push(hex_digit_exec(v % 16));
    } else {
        out.push(c);
    }
    assert(out@ =~= old(out)@ + esc_char(c));
}

/// Appends the printed (quoted, escaped) form of `s`.
fn push_string_lit(s: &String, out: &mut Vec<char>)
    ensures
        final(out)@ == old(out)@ + print_string(s@),
{
    out.push('"');
    let cs = str_to_chars(s.as_str());
    let mut i: usize = 0;
    while i < cs.len()
        invariant
            cs@ == s@,
            i <= cs@.len(),
            out@ == old(out)@ + seq!['"'] + esc_str(s@.take(i as int)),
        decreases cs@.len() - i,
    {
        proof {
            lemma_esc_str_push(s@.take(i as int), s@[i as int]);
            assert(s@.take(i as int).push(s@[i as int]) =~= s@.take(i as int + 1));
        }
        push_esc_char(cs[i], out);
        i = i + 1;
    }
    out.push('"');
    proof {
        assert(s@.take(s@.len() as int) =~= s@);
        assert(out@ =~= old(out)@ + print_string(s@));
    }
}

/// Appends the canonical printed form of `v`.
pub fn print_json_onto(v: &Json, out: &mut Vec<char>)
    ensures
        final(out)@ == old(out)@ + print_json(v@),
    decreases v,
{
    match v {
        Json::Null => {
            out.push('n');
            out.push('u');
            out.push('l');
            out.push('l');
            proof {
                reveal_strlit("null");
                assert(out@ =~= old(out)@ + print_json(v@));
            }
        },
        Json::Bool(b) => {
            if *b {
                out.push('t');
                out.push('r');
                out.push('u');
                out.push('e');
                proof {
                    reveal_strlit("true");
                    assert(out@ =~= old(out)@ + print_json(v@));
                }
            } else {
                out.push('f');
                out.push('a');
                out.push('l');
                out.push('s');
                out.push('e');
                proof {
                    reveal_strlit("false");
                    assert(out@ =~= old(out)@ + print_json(v@));
                }
            }
        },
        Json::Num(n) => {
            let cs = str_to_chars(n.as_str());
            let mut i: usize = 0;
            while i < cs.len()
                invariant
                    cs@ == n@,
                    i <= cs@.len(),
                    out@ == old(out)@ + n@.take(i as int),
                decreases cs@.len() - i,
            {
                out.push(cs[i]);
                assert(out@ =~= old(out)@ + n@.take(i as int + 1));
                i = i + 1;
            }
            proof {
                assert(n@.take(n@.len() as int) =~= n@);
            }
        },
        Json::Str(s) => {
            push_string_lit(s, out);
        },
        Json::Arr(elems) => {
            let ghost av = v@->Arr_0;
            proof {
                assert(*v == Json::Arr(*elems));
                assert(av == view_list(elems@));
                lemma_view_list(elems@);
            }
            out.push('[');
            let mut i: usize = 0;
            while i < elems.len()
                invariant
                    *v == Json::Arr(*elems),
                    av == v@->Arr_0,
                    av.len() == elems@.len(),
                    forall|j: int| 0 <= j < elems@.len() ==> av[j] == #[trigger] elems@[j]@,
                    i <= elems@.len(),
                    out@ == old(out)@ + seq!['['] + print_elems(av.take(i as int)),
                decreases elems@.len() - i,
            {
                proof {
                    assert(decreases_to!(*v => v->Arr_0));
                    assert(decreases_to!(v->Arr_0 => v->Arr_0@));
                    assert(decreases_to!(v->Arr_0@ => v->Arr_0@[i as int]));
                    assert(decreases_to!(*v => elems@[i as int]));
                }
                if i > 0 {
                    out.push(',');
                    print_json_onto(&elems[i], out);
                    proof {
                        lemma_print_elems_snoc(av.take(i as int + 1));
                        assert(av.take(i as int + 1).drop_last() =~= av.take(i as int));
                        assert(av.take(i as int + 1).last() == av[i as int]);
                        assert(out@ =~= old(out)@ + seq!['['] + print_elems(av.take(i as int + 1)));
                    }
                } else {
                    print_json_onto(&elems[i], out);
                    proof {
                        let one = av.take(1int);
                        assert(one.len() == 1);
                        assert(one.first() == av[0]);
                        assert(print_elems(one) == print_json(av[0]));
                        assert(out@ =~= old(out)@ + seq!['['] + print_elems(av.take(1int)));
                    }
                }
                i = i + 1;
            }
            out.push(']');
            proof {
                assert(av.take(av.len() as int) =~= av);
                assert(out@ =~= old(out)@ + print_json(v@));
            }
        },
        Json::Obj(members) => {
            let ghost mv = v@->Obj_0;
            proof {
                assert(*v == Json::Obj(*members));
                assert(mv == view_members(members@));
                lemma_view_members(members@);
            }
            out.push('{');
            let mut i: usize = 0;
            while i < members.len()
                invariant
                    *v == Json::Obj(*members),
                    mv == v@->Obj_0,
                    mv.len() == members@.len(),
                    forall|j: int|
                        0 <= j < members@.len() ==> mv[j] == (
                        #[trigger] members@[j].0@,
                        members@[j].1@,
                        ),
                    i <= members@.len(),
                    out@ == old(out)@ + seq!['{'] + print_members(mv.take(i as int)),
                decreases members@.len() - i,
            {
                proof {
                    assert(decreases_to!(*v => v->Obj_0));
                    assert(decreases_to!(v->Obj_0 => v->Obj_0@));
                    assert(decreases_to!(v->Obj_0@ => v->Obj_0@[i as int]));
                    assert(decreases_to!(v->Obj_0@[i as int] => v->Obj_0@[i as int].1));
                    assert(decreases_to!(*v => members@[i as int].1));
                }
                if i > 0 {
                    out.push(',');
                }
                push_string_lit(&members[i].0, out);
                out.push(':');
                print_json_onto(&members[i].1, out);
                proof {
                    assert(mv[i as int] == (members@[i as int].0@, members@[i as int].1@));
                    if i > 0 {
                        lemma_print_members_snoc_front(mv.take(i as int + 1));
                        assert(mv.take(i as int + 1).drop_last() =~= mv.take(i as int));
                        assert(mv.take(i as int + 1).last() == mv[i as int]);
                        assert(out@ =~= old(out)@ + seq!['{'] + print_members(
                            mv.take(i as int + 1),
                        ));
                    } else {
                        let one = mv.take(1int);
                        assert(one.len() == 1);
                        assert(one.first() == mv[0]);
                        assert(print_members(one) == print_string(mv[0].0) + seq![':']
                            + print_json(mv[0].1));
                        assert(out@ =~= old(out)@ + seq!['{'] + print_members(mv.take(1int)));
                    }
                }
                i = i + 1;
            }
            out.push('}');
            proof {
                assert(mv.take(mv.len() as int) =~= mv);
                assert(out@ =~= old(out)@ + print_json(v@));
            }
        },
    }
}

proof fn lemma_print_members_snoc_front(ms: Seq<(Seq<char>, JsonV)>)
    requires
        ms.len() >= 2,
    ensures
        print_members(ms) == print_members(ms.drop_last()) + seq![','] + print_string(
            ms.last().0,
        ) + seq![':'] + print_json(ms.last().1),
    decreases ms.len(),
{
    reveal_with_fuel(print_members, 3);
    if ms.len() == 2 {
        assert(ms.drop_first().len() == 1);
        assert(ms.drop_first().first() == ms.last());
        assert(ms.drop_last().len() == 1);
        assert(ms.drop_last().first() == ms.first());
        assert(print_members(ms) =~= print_members(ms.drop_last()) + seq![','] + print_string(
            ms.last().0,
        ) + seq![':'] + print_json(ms.last().1));
    } else {
        lemma_print_members_snoc_front(ms.drop_first());
        assert(ms.drop_first().drop_last() =~= ms.drop_last().drop_first());
        assert(ms.drop_first().last() == ms.last());
        assert(ms.drop_last().first() == ms.first());
        assert(ms.drop_last().len() >= 2);
        assert(print_members(ms) =~= print_members(ms.drop_last()) + seq![','] + print_string(
            ms.last().0,
        ) + seq![':'] + print_json(ms.last().1));
    }
}


/// JSON whitespace.
pub open spec fn is_ws(c: char) -> bool {
    c == ' ' || c == '\t' || c == '\n' || c == '\r'
}

/// First position at or after `i` holding a non-whitespace (or the end).
pub open spec fn skip_ws(s: Seq<char>, i: int) -> int
    decreases s.len() - i,
{
    if 0 <= i < s.len() && is_ws(s[i]) {
        skip_ws(s, i + 1)
    } else {
        i
    }
}

/// A lexical token. String and number tokens carry their decoded contents
/// and raw text respectively.
pub enum TokV {
    LBrace,
    RBrace,
    LBrack,
    RBrack,
    Colon,
    Comma,
    LitTrue,
    LitFalse,
    LitNull,
    StrTok(Seq<char>),
    NumTok(Seq<char>),
}

/// A code point expressible by four hexadecimal digits that is a valid
/// character (not a surrogate).
pub open spec fn valid_scalar_val(v: u32) -> bool {
    v < 0xD800 || (0xE000 <= v && v <= 0xFFFF)
}

/// The value of four hexadecimal digits at `i`.
pub open spec fn hex4_val(s: Seq<char>, i: int) -> Option<u32> {
    if 0 <= i && i + 4 <= s.len() {
        match (hex_val_spec(s[i]), hex_val_spec(s[i + 1]), hex_val_spec(s[i + 2]), hex_val_spec(
            s[i + 3],
        )) {
            (Option::Some(a), Option::Some(b), Option::Some(c), Option::Some(d)) => Option::Some(
                (a * 4096 + b * 256 + c * 16 + d) as u32,
            ),
            _ => Option::None,
        }
    } else {
        Option::None
    }
}

/// Decodes one escape; `i` points just after the backslash. Yields the
/// decoded character and the position after the escape.
pub open spec fn esc_decode(s: Seq<char>, i: int) -> Option<(char, int)> {
    if 0 <= i < s.len() {
        let c = s[i];
        if c == '"' {
            Option::Some(('"', i + 1))
        } else if c == '\\' {
            Option::Some(('\\', i + 1))
        } else if c == '/' {
            Option::Some(('/', i + 1))
        } else if c == 'n' {
            Option::Some(('\n', i + 1))
        } else if c == 'r' {
            Option::Some(('\r', i + 1))
        } else if c == 't' {
            Option::Some(('\t', i + 1))
        } else if c == 'b' {
            Option::Some(('\u{8}', i + 1))
        } else if c == 'f' {
            Option::Some(('\u{c}', i + 1))
        } else if c == 'u' {
            match hex4_val(s, i + 1) {
                Option::Some(v) => if valid_scalar_val(v) {
                    Option::Some((v as char, i + 5))
                } else {
                    Option::None
                },
                Option::None => Option::None,
            }
        } else {
            Option::None
        }
    } else {
        Option::None
    }
}

/// Scans a string body from `i` (just after the opening quote) to its
/// closing quote: the decoded contents and the position after the quote.
/// Unterminated strings, bad escapes and raw control characters fail.
pub open spec fn lex_str_body(s: Seq<char>, i: int) -> Option<(Seq<char>, int)>
    decreases s.len() - i,
{
    if 0 <= i < s.len() {
        let c = s[i];
        if c == '"' {
            Option::Some((Seq::empty(), i + 1))
        } else if c == '\\' {
            match esc_decode(s, i + 1) {
                Option::Some((d, j)) => if i < j && j <= s.len() {
                    match lex_str_body(s, j) {
                        Option::Some((rest, k)) => Option::Some((seq![d] + rest, k)),
                        Option::None => Option::None,
                    }
                } else {
                    Option::None
                },
                Option::None => Option::None,
            }
        } else if (c as u32) < 32 {
            Option::None
        } else {
            match lex_str_body(s, i + 1) {
                Option::Some((rest, k)) => Option::Some((seq![c] + rest, k)),
                Option::None => Option::None,
            }
        }
    } else {
        Option::None
    }
}

/// Whether `lit` occurs at position `i`.
pub open spec fn match_lit(s: Seq<char>, i: int, lit: Seq<char>) -> bool {
    0 <= i && i + lit.len() <= s.len() && s.subrange(i, i + lit.len()) == lit
}

/// Reads one token at `i` (no leading whitespace): the token and the
/// position after it.
pub open spec fn lex_one(s: Seq<char>, i: int) -> Option<(TokV, int)> {
    if !(0 <= i < s.len()) {
        Option::None
    } else {
        let c = s[i];
        if c == '{' {
            Option::Some((TokV::LBrace, i + 1))
        } else if c == '}' {
            Option::Some((TokV::RBrace, i + 1))
        } else if c == '[' {
            Option::Some((TokV::LBrack, i + 1))
        } else if c == ']' {
            Option::Some((TokV::RBrack, i + 1))
        } else if c == ':' {
            Option::Some((TokV::Colon, i + 1))
        } else if c == ',' {
            Option::Some((TokV::Comma, i + 1))
        } else if c == '"' {
            match lex_str_body(s, i + 1) {
                Option::Some((cs, j)) => Option::Some((TokV::StrTok(cs), j)),
                Option::None => Option::None,
            }
        } else if c == 't' {
            if match_lit(s, i, "true"@) {
                Option::Some((TokV::LitTrue, i + 4))
            } else {
                Option::None
            }
        } else if c == 'f' {
            if match_lit(s, i, "false"@) {
                Option::Some((TokV::LitFalse, i + 5))
            } else {
                Option::None
            }
        } else if c == 'n' {
            if match_lit(s, i, "null"@) {
                Option::Some((TokV::LitNull, i + 4))
            } else {
                Option::None
            }
        } else if c == '-' || crate::number::is_digit(c) {
            match crate::number::num_end(s, i) {
                Option::Some(j) => Option::Some((TokV::NumTok(s.subrange(i, j)), j)),
                Option::None => Option::None,
            }
        } else {
            Option::None
        }
    }
}

/// Lexes the whole remainder from `i`, skipping whitespace between
/// tokens; fails on the first unreadable character.
pub open spec fn lex_all(s: Seq<char>, i: int) -> Option<Seq<TokV>>
    decreases s.len() - i,
{
    let j = skip_ws(s, i);
    if !(0 <= i <= j && j <= s.len()) {
        Option::None
    } else if j == s.len() {
        Option::Some(Seq::empty())
    } else {
        match lex_one(s, j) {
            Option::Some((t, k)) => if j < k && k <= s.len() {
                match lex_all(s, k) {
                    Option::Some(ts) => Option::Some(seq![t] + ts),
                    Option::None => Option::None,
                }
            } else {
                Option::None
            },
            Option::None => Option::None,
        }
    }
}

/// The token sequence of a text.
pub open spec fn lex_spec(s: Seq<char>) -> Option<Seq<TokV>> {
    lex_all(s, 0)
}


/// A lexical token, executable form.
#[derive(Debug)]
pub enum Token {
    LBrace,
    RBrace,
    LBrack,
    RBrack,
    Colon,
    Comma,
    LitTrue,
    LitFalse,
    LitNull,
    StrTok(Vec<char>),
    NumTok(Vec<char>),
}

impl View for Token {
    type V = TokV;

    open spec fn view(&self) -> TokV {
        match self {
            Token::LBrace => TokV::LBrace,
            Token::RBrace => TokV::RBrace,
            Token::LBrack => TokV::LBrack,
            Token::RBrack => TokV::RBrack,
            Token::Colon => TokV::Colon,
            Token::Comma => TokV::Comma,
            Token::LitTrue => TokV::LitTrue,
            Token::LitFalse => TokV::LitFalse,
            Token::LitNull => TokV::LitNull,
            Token::StrTok(v) => TokV::StrTok(v@),
            Token::NumTok(v) => TokV::NumTok(v@),
        }
    }
}

/// The views of a token list, in order.
pub open spec fn view_toks(ts: Seq<Token>) -> Seq<TokV>
    decreases ts.len(),
{
    if ts.len() == 0 {
        Seq::empty()
    } else {
        seq![ts.first()@] + view_toks(ts.drop_first())
    }
}

pub proof fn lemma_view_toks(ts: Seq<Token>)
    ensures
        view_toks(ts).len() == ts.len(),
        forall|i: int| 0 <= i < ts.len() ==> view_toks(ts)[i] == #[trigger] ts[i]@,
    decreases ts.len(),
{
    if ts.len() > 0 {
        lemma_view_toks(ts.drop_first());
        assert(view_toks(ts) == seq![ts.first()@] + view_toks(ts.drop_first()));
        assert forall|i: int| 0 <= i < ts.len() implies view_toks(ts)[i] == #[trigger] ts[i]@ by {
            if i > 0 {
                assert(ts.drop_first()[i - 1] == ts[i]);
                assert(view_toks(ts)[i] == view_toks(ts.drop_first())[i - 1]);
            }
        }
    }
}

/// Relies on `char::from_u32`: it yields the character of a code point
/// exactly for the valid scalar values (below the surrogates, or between
/// them and the greatest code point).
#[verifier::external_body]
fn char_from_u32(v: u32) -> (r: Option<char>)
    ensures
        r is Some <==> (v < 0xD800 || (0xE000 <= v && v <= 0x10FFFF)),
        r is Some ==> r->Some_0 == v as char,
{
    char::from_u32(v)
}

fn skip_ws_exec(s: &Vec<char>, i: usize) -> (j: usize)
    requires
        i <= s@.len(),
    ensures
        j as int == skip_ws(s@, i as int),
        i <= j <= s@.len(),
    decreases s@.len() - i,
{
    if i < s.len() {
        let c = s[i];
        if c == ' ' || c == '\t' || c == '\n' || c == '\r' {
            return skip_ws_exec(s, i + 1);
        }
    }
    i
}

fn hex_val_exec(c: char) -> (r: Option<u32>)
    ensures
        r == hex_val_spec(c),
{
    if '0' <= c && c <= '9' {
        Some(c as u32 - '0' as u32)
    } else if 'a' <= c && c <= 'f' {
        Some(10 + c as u32 - 'a' as u32)
    } else if 'A' <= c && c <= 'F' {
        Some(10 + c as u32 - 'A' as u32)
    } else {
        None
    }
}

fn hex4_exec(s: &Vec<char>, i: usize) -> (r: Option<u32>)
    requires
        i <= s@.len(),
    ensures
        r == hex4_val(s@, i as int),
        r is Some ==> r->Some_0 <= 0xFFFF,
{
    if s.len() >= 4 && i <= s.len() - 4 {
        let a = hex_val_exec(s[i]);
        let b = hex_val_exec(s[i + 1]);
        let c = hex_val_exec(s[i + 2]);
        let d = hex_val_exec(s[i + 3]);
        match (a, b, c, d) {
            (Some(a), Some(b), Some(c), Some(d)) => {
                assert(a <= 15 && b <= 15 && c <= 15 && d <= 15);
                Some(a * 4096 + b * 256 + c * 16 + d)
            },
            _ => None,
        }
    } else {
        None
    }
}

fn esc_decode_exec(s: &Vec<char>, i: usize) -> (r: Option<(char, usize)>)
    requires
        i <= s@.len(),
    ensures
        match r {
            Option::Some((c, j)) => esc_decode(s@, i as int) == Option::Some((c, j as int)) && i
                < j <= s@.len(),
            Option::None => esc_decode(s@, i as int) is None,
        },
{
    if i < s.len() {
        let c = s[i];
        if c == '"' {
            Some(('"', i + 1))
        } else if c == '\\' {
            Some(('\\', i + 1))
        } else if c == '/' {
            Some(('/', i + 1))
        } else if c == 'n' {
            Some(('\n', i + 1))
        } else if c == 'r' {
            Some(('\r', i + 1))
        } else if c == 't' {
            Some(('\t', i + 1))
        } else if c == 'b' {
            Some(('\u{8}', i + 1))
        } else if c == 'f' {
            Some(('\u{c}', i + 1))
        } else if c == 'u' {
            match hex4_exec(s, i + 1) {
                Some(v) => match char_from_u32(v) {
                    Some(d) => {
                        assert(valid_scalar_val(v));
                        Some((d, i + 5))
                    },
                    None => {
                        assert(!valid_scalar_val(v));
                        None
                    },
                },
                None => None,
            }
        } else {
            None
        }
    } else {
        None
    }
}

fn lex_str_body_exec(s: &Vec<char>, i: usize) -> (r: Option<(Vec<char>, usize)>)
    requires
        i <= s@.len(),
    ensures
        match r {
            Option::Some((cs, j)) => lex_str_body(s@, i as int) == Option::Some((cs@, j as int))
                && i < j <= s@.len(),
            Option::None => lex_str_body(s@, i as int) is None,
        },
    decreases s@.len() - i,
{
    if i < s.len() {
        let c = s[i];
        if c == '"' {
            let empty: Vec<char> = Vec::new();
            assert(empty@ =~= Seq::<char>::empty());
            Some((empty, i + 1))
        } else if c == '\\' {
            match esc_decode_exec(s, i + 1) {
                Some((d, j)) => {
                    match lex_str_body_exec(s, j) {
                        Some((mut rest, k)) => {
                            rest.insert(0, d);
                            proof {
                                let pre = lex_str_body(s@, j as int)->Some_0.0;
                                assert(rest@ =~= seq![d] + pre);
                            }
                            Some((rest, k))
                        },
                        None => None,
                    }
                },
                None => None,
            }
        } else if (c as u32) < 32 {
            None
        } else {
            match lex_str_body_exec(s, i + 1) {
                Some((mut rest, k)) => {
                    rest.insert(0, c);
                    proof {
                        let pre = lex_str_body(s@, i as int + 1)->Some_0.0;
                        assert(rest@ =~= seq![c] + pre);
                    }
                    Some((rest, k))
                },
                None => None,
            }
        }
    } else {
        None
    }
}

/// Copies `s[i..j]` out.
fn copy_range(s: &Vec<char>, i: usize, j: usize) -> (r: Vec<char>)
    requires
        i <= j <= s@.len(),
    ensures
        r@ == s@.subrange(i as int, j as int),
{
    let mut out: Vec<char> = Vec::new();
    let mut k: usize = i;
    while k < j
        invariant
            i <= k <= j <= s@.len(),
            out@ == s@.subrange(i as int, k as int),
        decreases j - k,
    {
        out.push(s[k]);
        assert(out@ =~= s@.subrange(i as int, k as int + 1));
        k = k + 1;
    }
    out
}

fn lex_one_exec(s: &Vec<char>, i: usize) -> (r: Option<(Token, usize)>)
    requires
        i <= s@.len(),
    ensures
        match r {
            Option::Some((t, j)) => lex_one(s@, i as int) == Option::Some((t@, j as int)) && i
                <= j <= s@.len(),
            Option::None => lex_one(s@, i as int) is None,
        },
{
    if i >= s.len() {
        return None;
    }
    let c = s[i];
    if c == '{' {
        Some((Token::LBrace, i + 1))
    } else if c == '}' {
        Some((Token::RBrace, i + 1))
    } else if c == '[' {
        Some((Token::LBrack, i + 1))
    } else if c == ']' {
        Some((Token::RBrack, i + 1))
    } else if c == ':' {
        Some((Token::Colon, i + 1))
    } else if c == ',' {
        Some((Token::Comma, i + 1))
    } else if c == '"' {
        match lex_str_body_exec(s, i + 1) {
            Some((cs, j)) => Some((Token::StrTok(cs), j)),
            None => None,
        }
    } else if c == 't' {
        proof {
            reveal_strlit("true");
        }
        if s.len() - i >= 4 && s[i + 1] == 'r' && s[i + 2] == 'u' && s[i + 3] == 'e' {
            proof {
                assert(s@.subrange(i as int, i as int + 4) =~= "true"@);
            }
            Some((Token::LitTrue, i + 4))
        } else {
            proof {
                if match_lit(s@, i as int, "true"@) {
                    assert(s@.subrange(i as int, i as int + 4)[1] == 'r');
                    assert(s@.subrange(i as int, i as int + 4)[2] == 'u');
                    assert(s@.subrange(i as int, i as int + 4)[3] == 'e');
                }
            }
            None
        }
    } else if c == 'f' {
        proof {
            reveal_strlit("false");
        }
        if s.len() - i >= 5 && s[i + 1] == 'a' && s[i + 2] == 'l' && s[i + 3] == 's' && s[i + 4]
            == 'e' {
            proof {
                assert(s@.subrange(i as int, i as int + 5) =~= "false"@);
            }
            Some((Token::LitFalse, i + 5))
        } else {
            proof {
                if match_lit(s@, i as int, "false"@) {
                    assert(s@.subrange(i as int, i as int + 5)[1] == 'a');
                    assert(s@.subrange(i as int, i as int + 5)[2] == 'l');
                    assert(s@.subrange(i as int, i as int + 5)[3] == 's');
                    assert(s@.subrange(i as int, i as int + 5)[4] == 'e');
                }
            }
            None
        }
    } else if c == 'n' {
        proof {
            reveal_strlit("null");
        }
        if s.len() - i >= 4 && s[i + 1] == 'u' && s[i + 2] == 'l' && s[i + 3] == 'l' {
            proof {
                assert(s@.subrange(i as int, i as int + 4) =~= "null"@);
            }
            Some((Token::LitNull, i + 4))
        } else {
            proof {
                if match_lit(s@, i as int, "null"@) {
                    assert(s@.subrange(i as int, i as int + 4)[1] == 'u');
                    assert(s@.subrange(i as int, i as int + 4)[2] == 'l');
                    assert(s@.subrange(i as int, i as int + 4)[3] == 'l');
                }
            }
            None
        }
    } else if c == '-' || (c >= '0' && c <= '9') {
        match crate::number::num_end_exec(s, i) {
            Some(j) => Some((Token::NumTok(copy_range(s, i, j)), j)),
            None => None,
        }
    } else {
        None
    }
}

/// Lexes a whole text into tokens; fails on the first unreadable
/// character.
pub fn lex_exec(s: &Vec<char>, i: usize) -> (r: Option<Vec<Token>>)
    requires
        i <= s@.len(),
    ensures
        match r {
            Option::Some(ts) => lex_all(s@, i as int) == Option::Some(view_toks(ts@)),
            Option::None => lex_all(s@, i as int) is None,
        },
    decreases s@.len() - i,
{
    let j = skip_ws_exec(s, i);
    if j == s.len() {
        let empty: Vec<Token> = Vec::new();
        assert(view_toks(empty@) =~= Seq::<TokV>::empty());
        Some(empty)
    } else {
        match lex_one_exec(s, j) {
            Some((t, k)) => {
                if j < k {
                    match lex_exec(s, k) {
                        Some(mut ts) => {
                            let ghost before = ts@;
                            ts.insert(0, t);
                            proof {
                                assert(ts@.drop_first() =~= before);
                                assert(ts@.first() == t);
                                assert(view_toks(ts@) == seq![t@] + view_toks(before));
                            }
                            Some(ts)
                        },
                        None => None,
                    }
                } else {
                    None
                }
            },
            None => None,
        }
    }
}


/// Parses one value at token position `i`: the value and the position
/// after it.
pub open spec fn parse_value(ts: Seq<TokV>, i: int) -> Option<(JsonV, int)>
    decreases ts.len() - i, 0int,
{
    if !(0 <= i < ts.len()) {
        Option::None
    } else {
        match ts[i] {
            TokV::LitNull => Option::Some((JsonV::Null, i + 1)),
            TokV::LitTrue => Option::Some((JsonV::Bool(true), i + 1)),
            TokV::LitFalse => Option::Some((JsonV::Bool(false), i + 1)),
            TokV::NumTok(t) => Option::Some((JsonV::Num(t), i + 1)),
            TokV::StrTok(cs) => Option::Some((JsonV::Str(cs), i + 1)),
            TokV::LBrack => if i + 1 < ts.len() && ts[i + 1] == TokV::RBrack {
                Option::Some((JsonV::Arr(Seq::empty()), i + 2))
            } else {
                match parse_elems(ts, i + 1) {
                    Option::Some((a, j)) => Option::Some((JsonV::Arr(a), j)),
                    Option::None => Option::None,
                }
            },
            TokV::LBrace => if i + 1 < ts.len() && ts[i + 1] == TokV::RBrace {
                Option::Some((JsonV::Obj(Seq::empty()), i + 2))
            } else {
                match parse_membs(ts, i + 1) {
                    Option::Some((ms, j)) => Option::Some((JsonV::Obj(ms), j)),
                    Option::None => Option::None,
                }
            },
            _ => Option::None,
        }
    }
}

/// Parses the non-empty element list of an array from `i`, consuming the
/// closing bracket.
pub open spec fn parse_elems(ts: Seq<TokV>, i: int) -> Option<(Seq<JsonV>, int)>
    decreases ts.len() - i, 1int,
{
    match parse_value(ts, i) {
        Option::Some((v, j)) => if i < j && j < ts.len() {
            if ts[j] == TokV::Comma {
                match parse_elems(ts, j + 1) {
                    Option::Some((rest, k)) => Option::Some((seq![v] + rest, k)),
                    Option::None => Option::None,
                }
            } else if ts[j] == TokV::RBrack {
                Option::Some((seq![v], j + 1))
            } else {
                Option::None
            }
        } else {
            Option::None
        },
        Option::None => Option::None,
    }
}

/// Parses the non-empty member list of an object from `i`, consuming the
/// closing brace. Members keep their order; duplicate names are kept.
pub open spec fn parse_membs(ts: Seq<TokV>, i: int) -> Option<(Seq<(Seq<char>, JsonV)>, int)>
    decreases ts.len() - i, 1int,
{
    if !(0 <= i < ts.len()) {
        Option::None
    } else {
        match ts[i] {
            TokV::StrTok(key) => if i + 1 < ts.len() && ts[i + 1] == TokV::Colon {
                match parse_value(ts, i + 2) {
                    Option::Some((v, j)) => if i + 2 < j && j < ts.len() {
                        if ts[j] == TokV::Comma {
                            match parse_membs(ts, j + 1) {
                                Option::Some((rest, k)) => Option::Some(
                                    (seq![(key, v)] + rest, k),
                                ),
                                Option::None => Option::None,
                            }
                        } else if ts[j] == TokV::RBrace {
                            Option::Some((seq![(key, v)], j + 1))
                        } else {
                            Option::None
                        }
                    } else {
                        Option::None
                    },
                    Option::None => Option::None,
                }
            } else {
                Option::None
            },
            _ => Option::None,
        }
    }
}

/// A whole token sequence as one value, nothing left over.
pub open spec fn parse_toks(ts: Seq<TokV>) -> Option<JsonV> {
    match parse_value(ts, 0) {
        Option::Some((v, j)) => if j == ts.len() { Option::Some(v) } else { Option::None },
        Option::None => Option::None,
    }
}

/// A text as one JSON value: lexed, then parsed, nothing left over.
pub open spec fn parse_json_spec(s: Seq<char>) -> Option<JsonV> {
    match lex_spec(s) {
        Option::Some(ts) => parse_toks(ts),
        Option::None => Option::None,
    }
}

fn parse_value_exec(ts: &Vec<Token>, i: usize) -> (r: Option<(Json, usize)>)
    requires
        i <= ts@.len(),
    ensures
        match r {
            Option::Some((v, j)) => parse_value(view_toks(ts@), i as int) == Option::Some(
                (v@, j as int),
            ) && i < j <= ts@.len(),
            Option::None => parse_value(view_toks(ts@), i as int) is None,
        },
    decreases ts@.len() - i, 0int,
{
    proof {
        lemma_view_toks(ts@);
    }
    if i >= ts.len() {
        return None;
    }
    proof {
        assert(view_toks(ts@)[i as int] == ts@[i as int]@);
    }
    match &ts[i] {
        Token::LitNull => Some((Json::Null, i + 1)),
        Token::LitTrue => Some((Json::Bool(true), i + 1)),
        Token::LitFalse => Some((Json::Bool(false), i + 1)),
        Token::NumTok(t) => {
            let text = crate::text::chars_to_string(t);
            Some((Json::Num(NumberLit::from_text(text)), i + 1))
        },
        Token::StrTok(cs) => {
            let text = crate::text::chars_to_string(cs);
            Some((Json::Str(text), i + 1))
        },
        Token::LBrack => {
            proof {
                if i + 1 < ts@.len() {
                    assert(view_toks(ts@)[i as int + 1] == ts@[i as int + 1]@);
                }
            }
            if i + 1 < ts.len() && matches!(&ts[i + 1], Token::RBrack) {
                let empty: Vec<Json> = Vec::new();
                proof {
                    assert(view_list(empty@) =~= Seq::<JsonV>::empty());
                }
                Some((Json::Arr(empty), i + 2))
            } else {
                proof {
                    if i + 1 < ts@.len() {
                        assert(view_toks(ts@)[i as int + 1] == ts@[i as int + 1]@);
                    }
                }
                match parse_elems_exec(ts, i + 1) {
                    Some((a, j)) => Some((Json::Arr(a), j)),
                    None => None,
                }
            }
        },
        Token::LBrace => {
            proof {
                if i + 1 < ts@.len() {
                    assert(view_toks(ts@)[i as int + 1] == ts@[i as int + 1]@);
                }
            }
            if i + 1 < ts.len() && matches!(&ts[i + 1], Token::RBrace) {
                let empty: Vec<(String, Json)> = Vec::new();
                proof {
                    assert(view_members(empty@) =~= Seq::<(Seq<char>, JsonV)>::empty());
                }
                Some((Json::Obj(empty), i + 2))
            } else {
                proof {
                    if i + 1 < ts@.len() {
                        assert(view_toks(ts@)[i as int + 1] == ts@[i as int + 1]@);
                    }
                }
                match parse_membs_exec(ts, i + 1) {
                    Some((ms, j)) => Some((Json::Obj(ms), j)),
                    None => None,
                }
            }
        },
        _ => None,
    }
}

fn parse_elems_exec(ts: &Vec<Token>, i: usize) -> (r: Option<(Vec<Json>, usize)>)
    requires
        i <= ts@.len(),
    ensures
        match r {
            Option::Some((a, j)) => parse_elems(view_toks(ts@), i as int) == Option::Some(
                (view_list(a@), j as int),
            ) && i < j <= ts@.len(),
            Option::None => parse_elems(view_toks(ts@), i as int) is None,
        },
    decreases ts@.len() - i, 1int,
{
    proof {
        lemma_view_toks(ts@);
    }
    match parse_value_exec(ts, i) {
        Some((v, j)) => {
            if j < ts.len() {
                proof {
                    assert(view_toks(ts@)[j as int] == ts@[j as int]@);
                }
                if matches!(&ts[j], Token::Comma) {
                    match parse_elems_exec(ts, j + 1) {
                        Some((mut rest, k)) => {
                            let ghost before = rest@;
                            rest.insert(0, v);
                            proof {
                                assert(rest@.drop_first() =~= before);
                                assert(rest@.first() == v);
                                assert(view_list(rest@) == seq![v@] + view_list(before));
                            }
                            Some((rest, k))
                        },
                        None => None,
                    }
                } else if matches!(&ts[j], Token::RBrack) {
                    let mut one: Vec<Json> = Vec::new();
                    one.push(v);
                    proof {
                        assert(one@.drop_first() =~= Seq::<Json>::empty());
                        assert(view_list(Seq::<Json>::empty()) =~= Seq::<JsonV>::empty());
                        assert(view_list(one@) =~= seq![one@.first()@]);
                    }
                    Some((one, j + 1))
                } else {
                    None
                }
            } else {
                None
            }
        },
        None => None,
    }
}

fn parse_membs_exec(ts: &Vec<Token>, i: usize) -> (r: Option<(Vec<(String, Json)>, usize)>)
    requires
        i <= ts@.len(),
    ensures
        match r {
            Option::Some((ms, j)) => parse_membs(view_toks(ts@), i as int) == Option::Some(
                (view_members(ms@), j as int),
            ) && i < j <= ts@.len(),
            Option::None => parse_membs(view_toks(ts@), i as int) is None,
        },
    decreases ts@.len() - i, 1int,
{
    proof {
        lemma_view_toks(ts@);
    }
    if i >= ts.len() {
        return None;
    }
    proof {
        assert(view_toks(ts@)[i as int] == ts@[i as int]@);
    }
    match &ts[i] {
        Token::StrTok(key_chars) => {
            proof {
                if i + 1 < ts@.len() {
                    assert(view_toks(ts@)[i as int + 1] == ts@[i as int + 1]@);
                }
            }
            if i + 1 < ts.len() && matches!(&ts[i + 1], Token::Colon) {
                let key = crate::text::chars_to_string(key_chars);
                match parse_value_exec(ts, i + 2) {
                    Some((v, j)) => {
                        if j < ts.len() {
                            proof {
                                assert(view_toks(ts@)[j as int] == ts@[j as int]@);
                            }
                            if matches!(&ts[j], Token::Comma) {
                                match parse_membs_exec(ts, j + 1) {
                                    Some((mut rest, k)) => {
                                        let ghost before = rest@;
                                        rest.insert(0, (key, v));
                                        proof {
                                            assert(rest@.drop_first() =~= before);
                                            assert(view_members(rest@) == seq![
                                                (rest@.first().0@, rest@.first().1@),
                                            ] + view_members(before));
                                        }
                                        Some((rest, k))
                                    },
                                    None => None,
                                }
                            } else if matches!(&ts[j], Token::RBrace) {
                                let mut one: Vec<(String, Json)> = Vec::new();
                                one.push((key, v));
                                proof {
                                    assert(one@.drop_first() =~= Seq::<(String, Json)>::empty());
                                    assert(view_members(Seq::<(String, Json)>::empty())
                                        =~= Seq::<(Seq<char>, JsonV)>::empty());
                                    assert(view_members(one@) =~= seq![
                                        (one@.first().0@, one@.first().1@),
                                    ]);
                                }
                                Some((one, j + 1))
                            } else {
                                None
                            }
                        } else {
                            None
                        }
                    },
                    None => None,
                }
            } else {
                proof {
                    if i + 1 < ts@.len() {
                        assert(view_toks(ts@)[i as int + 1] == ts@[i as int + 1]@);
                    }
                }
                None
            }
        },
        _ => None,
    }
}

/// Parses a text into a JSON value; fails exactly where the grammar does.
pub fn parse_json_exec(s: &Vec<char>) -> (r: Option<Json>)
    ensures
        match r {
            Option::Some(v) => parse_json_spec(s@) == Option::Some(v@),
            Option::None => parse_json_spec(s@) is None,
        },
{
    match lex_exec(s, 0) {
        Some(toks) => {
            proof {
                lemma_view_toks(toks@);
            }
            match parse_value_exec(&toks, 0) {
                Some((v, j)) => {
                    if j == toks.len() {
                        Some(v)
                    } else {
                        None
                    }
                },
                None => None,
            }
        },
        None => None,
    }
}


/// The canonical token sequence of a value (closers included).
pub open spec fn toks_of(v: JsonV) -> Seq<TokV>
    decreases v, 1int,
{
    match v {
        JsonV::Null => seq![TokV::LitNull],
        JsonV::Bool(b) => if b { seq![TokV::LitTrue] } else { seq![TokV::LitFalse] },
        JsonV::Num(t) => seq![TokV::NumTok(t)],
        JsonV::Str(s) => seq![TokV::StrTok(s)],
        JsonV::Arr(a) => if a.len() == 0 {
            seq![TokV::LBrack, TokV::RBrack]
        } else {
            seq![TokV::LBrack] + toks_of_elems(a)
        },
        JsonV::Obj(ms) => if ms.len() == 0 {
            seq![TokV::LBrace, TokV::RBrace]
        } else {
            seq![TokV::LBrace] + toks_of_membs(ms)
        },
    }
}

/// Tokens of a non-empty element list, the closing bracket included.
pub open spec fn toks_of_elems(a: Seq<JsonV>) -> Seq<TokV>
    decreases a, 0int,
{
    if a.len() == 0 {
        Seq::empty()
    } else if a.len() == 1 {
        toks_of(a.first()) + seq![TokV::RBrack]
    } else {
        toks_of(a.first()) + seq![TokV::Comma] + toks_of_elems(a.drop_first())
    }
}

/// Tokens of a non-empty member list, the closing brace included.
pub open spec fn toks_of_membs(ms: Seq<(Seq<char>, JsonV)>) -> Seq<TokV>
    decreases ms, 0int,
{
    if ms.len() == 0 {
        Seq::empty()
    } else if ms.len() == 1 {
        seq![TokV::StrTok(ms.first().0), TokV::Colon] + toks_of(ms.first().1) + seq![
            TokV::RBrace,
        ]
    } else {
        seq![TokV::StrTok(ms.first().0), TokV::Colon] + toks_of(ms.first().1) + seq![
            TokV::Comma,
        ] + toks_of_membs(ms.drop_first())
    }
}

/// Every canonical token sequence starts with a value-opening token.
proof fn lemma_toks_of_first(v: JsonV)
    ensures
        toks_of(v).len() >= 1,
        toks_of(v).first() != TokV::RBrack,
        toks_of(v).first() != TokV::RBrace,
        toks_of(v).first() != TokV::Comma,
        toks_of(v).first() != TokV::Colon,
    decreases v,
{
}

/// Parsing from the start of a canonical token sequence yields the value
/// and stops right after it.
proof fn lemma_parse_value_toks(v: JsonV, ts: Seq<TokV>, i: int)
    requires
        0 <= i,
        i + toks_of(v).len() <= ts.len(),
        ts.subrange(i, i + toks_of(v).len()) == toks_of(v),
    ensures
        parse_value(ts, i) == Option::Some((v, i + toks_of(v).len())),
    decreases v, 1int,
{
    let tk = toks_of(v);
    assert(ts[i] == tk[0]);
    match v {
        JsonV::Null => {},
        JsonV::Bool(b) => {},
        JsonV::Num(t) => {},
        JsonV::Str(s) => {},
        JsonV::Arr(a) => {
            if a.len() == 0 {
                assert(ts[i + 1] == tk[1]);
                assert(JsonV::Arr(a) == v);
                assert(a =~= Seq::<JsonV>::empty());
            } else {
                assert(tk =~= seq![TokV::LBrack] + toks_of_elems(a));
                lemma_toks_of_elems_len(a);
                assert(ts[i + 1] == tk[1]);
                assert(tk[1] == toks_of_elems(a)[0]);
                lemma_toks_of_first(a.first());
                if a.len() == 1 {
                    assert(toks_of_elems(a)[0] == toks_of(a.first()).first());
                } else {
                    assert(toks_of_elems(a)[0] == toks_of(a.first()).first());
                }
                assert(ts[i + 1] != TokV::RBrack);
                assert(ts.subrange(i + 1, i + 1 + toks_of_elems(a).len()) =~= toks_of_elems(a))
                    by {
                    assert forall|k: int|
                        0 <= k < toks_of_elems(a).len() implies ts.subrange(
                        i + 1,
                        i + 1 + toks_of_elems(a).len(),
                    )[k] == toks_of_elems(a)[k] by {
                        assert(ts[i + 1 + k] == tk[1 + k]);
                    }
                }
                lemma_parse_elems_toks(a, ts, i + 1);
            }
        },
        JsonV::Obj(ms) => {
            if ms.len() == 0 {
                assert(ts[i + 1] == tk[1]);
                assert(ms =~= Seq::<(Seq<char>, JsonV)>::empty());
            } else {
                assert(tk =~= seq![TokV::LBrace] + toks_of_membs(ms));
                lemma_toks_of_membs_len(ms);
                assert(ts[i + 1] == tk[1]);
                assert(tk[1] == toks_of_membs(ms)[0]);
                assert(toks_of_membs(ms)[0] == TokV::StrTok(ms.first().0));
                assert(ts[i + 1] != TokV::RBrace);
                assert(ts.subrange(i + 1, i + 1 + toks_of_membs(ms).len()) =~= toks_of_membs(ms))
                    by {
                    assert forall|k: int|
                        0 <= k < toks_of_membs(ms).len() implies ts.subrange(
                        i + 1,
                        i + 1 + toks_of_membs(ms).len(),
                    )[k] == toks_of_membs(ms)[k] by {
                        assert(ts[i + 1 + k] == tk[1 + k]);
                    }
                }
                lemma_parse_membs_toks(ms, ts, i + 1);
            }
        },
    }
}

proof fn lemma_toks_of_elems_len(a: Seq<JsonV>)
    requires
        a.len() >= 1,
    ensures
        toks_of_elems(a).len() >= 2,
    decreases a,
{
    lemma_toks_of_first(a.first());
}

proof fn lemma_toks_of_membs_len(ms: Seq<(Seq<char>, JsonV)>)
    requires
        ms.len() >= 1,
    ensures
        toks_of_membs(ms).len() >= 4,
    decreases ms,
{
    lemma_toks_of_first(ms.first().1);
}

proof fn lemma_parse_elems_toks(a: Seq<JsonV>, ts: Seq<TokV>, i: int)
    requires
        a.len() >= 1,
        0 <= i,
        i + toks_of_elems(a).len() <= ts.len(),
        ts.subrange(i, i + toks_of_elems(a).len()) == toks_of_elems(a),
    ensures
        parse_elems(ts, i) == Option::Some((a, i + toks_of_elems(a).len())),
    decreases a, 0int,
{
    let first = a.first();
    let ftk = toks_of(first);
    lemma_toks_of_first(first);
    if a.len() == 1 {
        assert(toks_of_elems(a) =~= ftk + seq![TokV::RBrack]);
        assert(ts.subrange(i, i + ftk.len()) =~= ftk) by {
            assert forall|k: int| 0 <= k < ftk.len() implies ts.subrange(i, i + ftk.len())[k]
                == ftk[k] by {
                assert(ts[i + k] == toks_of_elems(a)[k]);
            }
        }
        lemma_parse_value_toks(first, ts, i);
        let j = i + ftk.len();
        assert(ts[j] == toks_of_elems(a)[ftk.len() as int]);
        assert(ts[j] == TokV::RBrack);
        assert(seq![first] =~= a);
    } else {
        assert(toks_of_elems(a) =~= ftk + seq![TokV::Comma] + toks_of_elems(a.drop_first()));
        assert(ts.subrange(i, i + ftk.len()) =~= ftk) by {
            assert forall|k: int| 0 <= k < ftk.len() implies ts.subrange(i, i + ftk.len())[k]
                == ftk[k] by {
                assert(ts[i + k] == toks_of_elems(a)[k]);
            }
        }
        lemma_parse_value_toks(first, ts, i);
        let j = i + ftk.len();
        assert(ts[j] == toks_of_elems(a)[ftk.len() as int]);
        assert(ts[j] == TokV::Comma);
        let rest = a.drop_first();
        lemma_toks_of_elems_len(rest);
        assert(ts.subrange(j + 1, j + 1 + toks_of_elems(rest).len()) =~= toks_of_elems(rest)) by {
            assert forall|k: int|
                0 <= k < toks_of_elems(rest).len() implies ts.subrange(
                j + 1,
                j + 1 + toks_of_elems(rest).len(),
            )[k] == toks_of_elems(rest)[k] by {
                assert(ts[j + 1 + k] == toks_of_elems(a)[ftk.len() as int + 1 + k]);
            }
        }
        lemma_parse_elems_toks(rest, ts, j + 1);
        assert(seq![first] + rest =~= a);
    }
}

proof fn lemma_parse_membs_toks(ms: Seq<(Seq<char>, JsonV)>, ts: Seq<TokV>, i: int)
    requires
        ms.len() >= 1,
        0 <= i,
        i + toks_of_membs(ms).len() <= ts.len(),
        ts.subrange(i, i + toks_of_membs(ms).len()) == toks_of_membs(ms),
    ensures
        parse_membs(ts, i) == Option::Some((ms, i + toks_of_membs(ms).len())),
    decreases ms, 0int,
{
    let key = ms.first().0;
    let first = ms.first().1;
    let ftk = toks_of(first);
    lemma_toks_of_first(first);
    assert(ts[i] == toks_of_membs(ms)[0]);
    assert(ts[i] == TokV::StrTok(key));
    assert(ts[i + 1] == toks_of_membs(ms)[1]);
    assert(ts[i + 1] == TokV::Colon);
    if ms.len() == 1 {
        assert(toks_of_membs(ms) =~= seq![TokV::StrTok(key), TokV::Colon] + ftk + seq![
            TokV::RBrace,
        ]);
        assert(ts.subrange(i + 2, i + 2 + ftk.len()) =~= ftk) by {
            assert forall|k: int|
                0 <= k < ftk.len() implies ts.subrange(i + 2, i + 2 + ftk.len())[k] == ftk[k] by {
                assert(ts[i + 2 + k] == toks_of_membs(ms)[2 + k]);
            }
        }
        lemma_parse_value_toks(first, ts, i + 2);
        let j = i + 2 + ftk.len();
        assert(ts[j] == toks_of_membs(ms)[2 + ftk.len() as int]);
        assert(ts[j] == TokV::RBrace);
        assert(seq![(key, first)] =~= ms);
    } else {
        assert(toks_of_membs(ms) =~= seq![TokV::StrTok(key), TokV::Colon] + ftk + seq![
            TokV::Comma,
        ] + toks_of_membs(ms.drop_first()));
        assert(ts.subrange(i + 2, i + 2 + ftk.len()) =~= ftk) by {
            assert forall|k: int|
                0 <= k < ftk.len() implies ts.subrange(i + 2, i + 2 + ftk.len())[k] == ftk[k] by {
                assert(ts[i + 2 + k] == toks_of_membs(ms)[2 + k]);
            }
        }
        lemma_parse_value_toks(first, ts, i + 2);
        let j = i + 2 + ftk.len();
        assert(ts[j] == toks_of_membs(ms)[2 + ftk.len() as int]);
        assert(ts[j] == TokV::Comma);
        let rest = ms.drop_first();
        lemma_toks_of_membs_len(rest);
        assert(ts.subrange(j + 1, j + 1 + toks_of_membs(rest).len()) =~= toks_of_membs(rest)) by {
            assert forall|k: int|
                0 <= k < toks_of_membs(rest).len() implies ts.subrange(
                j + 1,
                j + 1 + toks_of_membs(rest).len(),
            )[k] == toks_of_membs(rest)[k] by {
                assert(ts[j + 1 + k] == toks_of_membs(ms)[3 + ftk.len() as int + k]);
            }
        }
        lemma_parse_membs_toks(rest, ts, j + 1);
        assert(seq![(key, first)] + rest =~= ms);
    }
}

/// A whole canonical token sequence parses back to its value.
pub proof fn lemma_parse_toks_roundtrip(v: JsonV)
    ensures
        parse_toks(toks_of(v)) == Option::Some(v),
{
    let ts = toks_of(v);
    assert(ts.subrange(0, ts.len() as int) =~= ts);
    lemma_parse_value_toks(v, ts, 0);
}


proof fn lemma_char_casts(c: char)
    ensures
        c as int == (c as u32) as int,
        (c as u32) < 32 ==> ((c as u32) as char) == c,
{
}

proof fn lemma_window_index(u: Seq<char>, i: int, p: Seq<char>, k: int)
    requires
        0 <= i,
        i + p.len() <= u.len(),
        u.subrange(i, i + p.len()) == p,
        0 <= k < p.len(),
    ensures
        u[i + k] == p[k],
{
    assert(u.subrange(i, i + p.len())[k] == u[i + k]);
}

proof fn lemma_subwindow(u: Seq<char>, i: int, p: Seq<char>, a: int, b: int)
    requires
        0 <= i,
        i + p.len() <= u.len(),
        u.subrange(i, i + p.len()) == p,
        0 <= a <= b <= p.len(),
    ensures
        u.subrange(i + a, i + b) == p.subrange(a, b),
{
    assert forall|k: int| 0 <= k < b - a implies #[trigger] u.subrange(i + a, i + b)[k]
        == p.subrange(a, b)[k] by {
        assert(u.subrange(i + a, i + b)[k] == u[i + a + k]);
        assert(u.subrange(i, i + p.len())[a + k] == u[i + a + k]);
        assert(p.subrange(a, b)[k] == p[a + k]);
    }
    assert(u.subrange(i + a, i + b) =~= p.subrange(a, b));
}

proof fn lemma_lex_cons(u: Seq<char>, i: int, t: TokV, k: int, ts: Seq<TokV>)
    requires
        0 <= i < u.len(),
        !is_ws(u[i]),
        lex_one(u, i) == Option::Some((t, k)),
        i < k <= u.len(),
        lex_all(u, k) == Option::Some(ts),
    ensures
        lex_all(u, i) == Option::Some(seq![t] + ts),
{
    assert(skip_ws(u, i) == i);
}

#[verifier::rlimit(60)]
proof fn lemma_lex_esc_str(s: Seq<char>, u: Seq<char>, i: int, j: int)
    requires
        0 <= i <= j < u.len(),
        u.subrange(i, j) == esc_str(s),
        u[j] == '"',
    ensures
        lex_str_body(u, i) == Option::Some((s, j + 1)),
    decreases s.len(),
{
    let es = esc_str(s);
    assert(es.len() == j - i);
    if s.len() == 0 {
        assert(i == j);
    } else {
        let c = s.first();
        let e = esc_char(c);
        assert(es == e + esc_str(s.drop_first()));
        let i2 = i + e.len();
        assert(i2 <= j);
        assert(forall|k: int| 0 <= k < e.len() ==> #[trigger] es[k] == e[k]);
        lemma_subwindow(u, i, es, e.len() as int, es.len() as int);
        assert(es.subrange(e.len() as int, es.len() as int) =~= esc_str(s.drop_first()));
        lemma_lex_esc_str(s.drop_first(), u, i2, j);
        if c == '"' || c == '\\' || c == '\n' || c == '\r' || c == '\t' {
            lemma_window_index(u, i, es, 0);
            lemma_window_index(u, i, es, 1);
            assert(u[i] == '\\');
            assert(esc_decode(u, i + 1) == Option::Some((c, i + 2)));
            assert(seq![c] + s.drop_first() =~= s);
        } else if (c as u32) < 32 {
            lemma_char_casts(c);
            assert(c as int == (c as u32) as int);
            assert(0 <= (c as int) && (c as int) < 32);
            lemma_window_index(u, i, es, 0);
            lemma_window_index(u, i, es, 1);
            lemma_window_index(u, i, es, 2);
            lemma_window_index(u, i, es, 3);
            lemma_window_index(u, i, es, 4);
            lemma_window_index(u, i, es, 5);
            assert(u[i] == '\\');
            assert(u[i + 1] == 'u');
            assert(u[i + 2] == '0');
            assert(u[i + 3] == '0');
            assert(u[i + 4] == hex_digit_char(c as int / 16));
            assert(u[i + 5] == hex_digit_char(c as int % 16));
            lemma_hex_roundtrip(0);
            lemma_hex_roundtrip(c as int / 16);
            lemma_hex_roundtrip(c as int % 16);
            assert(hex_val_spec('0') == Option::Some(0u32));
            let hi = (c as int / 16) as u32;
            let lo = (c as int % 16) as u32;
            assert(hex4_val(u, i + 2) == Option::Some(
                (0 * 4096 + 0 * 256 + hi * 16 + lo) as u32,
            ));
            assert((c as int) / 16 * 16 + (c as int) % 16 == (c as int));
            assert((hi as int) * 16 + (lo as int) == (c as int));
            assert(hi * 16 + lo == c as u32);
            assert(valid_scalar_val(c as u32));
            assert(((c as u32) as char) == c);
            assert(esc_decode(u, i + 1) == Option::Some((c, i + 6)));
            assert(seq![c] + s.drop_first() =~= s);
        } else {
            assert(e =~= seq![c]);
            lemma_window_index(u, i, es, 0);
            assert(u[i] == c);
            assert(u[i] != '"' && u[i] != '\\');
            assert(!((u[i] as u32) < 32));
            assert(seq![c] + s.drop_first() =~= s);
        }
    }
}

/// Lexing from the start of a printed value reads exactly its canonical
/// tokens and goes on after them.
#[verifier::rlimit(100)]
proof fn lemma_lex_print(v: JsonV, u: Seq<char>, i: int, ts: Seq<TokV>)
    requires
        wf_json(v),
        0 <= i,
        i + print_json(v).len() <= u.len(),
        u.subrange(i, i + print_json(v).len()) == print_json(v),
        v is Num ==> i + print_json(v).len() == u.len() || !crate::number::is_num_cont(
            u[i + print_json(v).len()],
        ),
        lex_all(u, i + print_json(v).len()) == Option::Some(ts),
    ensures
        lex_all(u, i) == Option::Some(toks_of(v) + ts),
    decreases v, 1int,
{
    let p = print_json(v);
    let n = p.len() as int;
    match v {
        JsonV::Null => {
            reveal_strlit("null");
            assert(n == 4);
            lemma_window_index(u, i, p, 0);
            assert(u[i] == 'n');
            lemma_subwindow(u, i, p, 0, 4);
            assert(p.subrange(0, 4) =~= "null"@);
            assert(match_lit(u, i, "null"@));
            assert(lex_one(u, i) == Option::Some((TokV::LitNull, i + 4)));
            lemma_lex_cons(u, i, TokV::LitNull, i + 4, ts);
            assert(seq![TokV::LitNull] + ts =~= toks_of(v) + ts);
        },
        JsonV::Bool(b) => {
            if b {
                reveal_strlit("true");
                assert(n == 4);
                lemma_window_index(u, i, p, 0);
                assert(u[i] == 't');
                lemma_subwindow(u, i, p, 0, 4);
                assert(p.subrange(0, 4) =~= "true"@);
                assert(match_lit(u, i, "true"@));
                assert(lex_one(u, i) == Option::Some((TokV::LitTrue, i + 4)));
                lemma_lex_cons(u, i, TokV::LitTrue, i + 4, ts);
                assert(seq![TokV::LitTrue] + ts =~= toks_of(v) + ts);
            } else {
                reveal_strlit("false");
                assert(n == 5);
                lemma_window_index(u, i, p, 0);
                assert(u[i] == 'f');
                lemma_subwindow(u, i, p, 0, 5);
                assert(p.subrange(0, 5) =~= "false"@);
                assert(match_lit(u, i, "false"@));
                assert(lex_one(u, i) == Option::Some((TokV::LitFalse, i + 5)));
                lemma_lex_cons(u, i, TokV::LitFalse, i + 5, ts);
                assert(seq![TokV::LitFalse] + ts =~= toks_of(v) + ts);
            }
        },
        JsonV::Num(t) => {
            assert(p == t);
            assert(crate::number::is_num_token(t));
            assert(crate::number::num_end(t, 0) == Option::Some(t.len() as int));
            assert(t.len() >= 1) by {
                if t.len() == 0 {
                    assert(crate::number::num_end(t, 0) is None);
                }
            }
            lemma_window_index(u, i, p, 0);
            assert(u[i] == t[0]);
            assert(t[0] == '-' || crate::number::is_digit(t[0])) by {
                if t[0] != '-' {
                    assert(crate::number::num_end(t, 0) is Some);
                }
            }
            crate::number::lemma_num_end_window(t, u, i);
            assert(u.subrange(i, i + t.len()) == t);
            assert(lex_one(u, i) == Option::Some((TokV::NumTok(t), i + t.len())));
            lemma_lex_cons(u, i, TokV::NumTok(t), i + t.len(), ts);
            assert(seq![TokV::NumTok(t)] + ts =~= toks_of(v) + ts);
        },
        JsonV::Str(s) => {
            assert(p == seq!['"'] + esc_str(s) + seq!['"']);
            lemma_window_index(u, i, p, 0);
            assert(u[i] == '"');
            let j = i + n - 1;
            lemma_window_index(u, i, p, n - 1);
            assert(u[j] == p[n - 1]);
            assert(p[n - 1] == '"');
            lemma_subwindow(u, i, p, 1, n - 1);
            assert(p.subrange(1, n - 1) =~= esc_str(s));
            lemma_lex_esc_str(s, u, i + 1, j);
            assert(lex_one(u, i) == Option::Some((TokV::StrTok(s), i + n)));
            lemma_lex_cons(u, i, TokV::StrTok(s), i + n, ts);
            assert(seq![TokV::StrTok(s)] + ts =~= toks_of(v) + ts);
        },
        JsonV::Arr(a) => {
            lemma_window_index(u, i, p, 0);
            assert(u[i] == p[0]);
            assert(p[0] == '[');
            if a.len() == 0 {
                assert(print_elems(a).len() == 0);
                assert(n == 2);
                lemma_window_index(u, i, p, 1);
                assert(u[i + 1] == ']');
                assert(lex_one(u, i + 1) == Option::Some((TokV::RBrack, i + 2)));
                lemma_lex_cons(u, i + 1, TokV::RBrack, i + 2, ts);
                assert(lex_one(u, i) == Option::Some((TokV::LBrack, i + 1)));
                lemma_lex_cons(u, i, TokV::LBrack, i + 1, seq![TokV::RBrack] + ts);
                assert(seq![TokV::LBrack] + (seq![TokV::RBrack] + ts) =~= toks_of(v) + ts);
            } else {
                let pe = print_elems(a);
                assert(p =~= seq!['['] + pe + seq![']']);
                lemma_window_index(u, i, p, 1 + pe.len() as int);
                assert(u[i + 1 + pe.len()] == ']');
                lemma_subwindow(u, i, p, 1, 1 + pe.len() as int);
                assert(p.subrange(1, 1 + pe.len() as int) =~= pe);
                lemma_lex_print_elems(a, u, i + 1, ts);
                assert(lex_one(u, i) == Option::Some((TokV::LBrack, i + 1)));
                lemma_lex_cons(u, i, TokV::LBrack, i + 1, toks_of_elems(a) + ts);
                assert(seq![TokV::LBrack] + (toks_of_elems(a) + ts) =~= toks_of(v) + ts);
            }
        },
        JsonV::Obj(ms) => {
            lemma_window_index(u, i, p, 0);
            assert(u[i] == p[0]);
            assert(p[0] == '{');
            if ms.len() == 0 {
                assert(print_members(ms).len() == 0);
                assert(n == 2);
                lemma_window_index(u, i, p, 1);
                assert(u[i + 1] == '}');
                assert(lex_one(u, i + 1) == Option::Some((TokV::RBrace, i + 2)));
                lemma_lex_cons(u, i + 1, TokV::RBrace, i + 2, ts);
                assert(lex_one(u, i) == Option::Some((TokV::LBrace, i + 1)));
                lemma_lex_cons(u, i, TokV::LBrace, i + 1, seq![TokV::RBrace] + ts);
                assert(seq![TokV::LBrace] + (seq![TokV::RBrace] + ts) =~= toks_of(v) + ts);
            } else {
                let pm = print_members(ms);
                assert(p =~= seq!['{'] + pm + seq!['}']);
                lemma_window_index(u, i, p, 1 + pm.len() as int);
                assert(u[i + 1 + pm.len()] == '}');
                lemma_subwindow(u, i, p, 1, 1 + pm.len() as int);
                assert(p.subrange(1, 1 + pm.len() as int) =~= pm);
                lemma_lex_print_membs(ms, u, i + 1, ts);
                assert(lex_one(u, i) == Option::Some((TokV::LBrace, i + 1)));
                lemma_lex_cons(u, i, TokV::LBrace, i + 1, toks_of_membs(ms) + ts);
                assert(seq![TokV::LBrace] + (toks_of_membs(ms) + ts) =~= toks_of(v) + ts);
            }
        },
    }
}

#[verifier::rlimit(100)]
proof fn lemma_lex_print_elems(a: Seq<JsonV>, u: Seq<char>, i: int, ts: Seq<TokV>)
    requires
        a.len() >= 1,
        wf_json_list(a),
        0 <= i,
        i + print_elems(a).len() < u.len(),
        u.subrange(i, i + print_elems(a).len()) == print_elems(a),
        u[i + print_elems(a).len()] == ']',
        lex_all(u, i + print_elems(a).len() + 1) == Option::Some(ts),
    ensures
        lex_all(u, i) == Option::Some(toks_of_elems(a) + ts),
    decreases a, 0int,
{
    let pe = print_elems(a);
    let first = a.first();
    let p1 = print_json(first);
    if a.len() == 1 {
        assert(pe == p1);
        let j = i + p1.len();
        assert(u[j] == ']');
        assert(lex_one(u, j) == Option::Some((TokV::RBrack, j + 1)));
        lemma_lex_cons(u, j, TokV::RBrack, j + 1, ts);
        assert(!crate::number::is_num_cont(']'));
        lemma_lex_print(first, u, i, seq![TokV::RBrack] + ts);
        assert(toks_of(first) + (seq![TokV::RBrack] + ts) =~= toks_of_elems(a) + ts);
    } else {
        assert(pe =~= p1 + seq![','] + print_elems(a.drop_first()));
        let j = i + p1.len();
        lemma_window_index(u, i, pe, p1.len() as int);
        assert(u[j] == ',');
        let rest = a.drop_first();
        let pr = print_elems(rest);
        lemma_subwindow(u, i, pe, p1.len() as int + 1, pe.len() as int);
        assert(pe.subrange(p1.len() as int + 1, pe.len() as int) =~= pr);
        assert(wf_json_list(rest));
        assert(u[j + 1 + pr.len()] == ']') by {
            assert(j + 1 + pr.len() == i + pe.len());
        }
        lemma_lex_print_elems(rest, u, j + 1, ts);
        assert(lex_one(u, j) == Option::Some((TokV::Comma, j + 1)));
        lemma_lex_cons(u, j, TokV::Comma, j + 1, toks_of_elems(rest) + ts);
        lemma_subwindow(u, i, pe, 0, p1.len() as int);
        assert(pe.subrange(0, p1.len() as int) =~= p1);
        assert(!crate::number::is_num_cont(','));
        assert(wf_json(first));
        lemma_lex_print(first, u, i, seq![TokV::Comma] + (toks_of_elems(rest) + ts));
        assert(toks_of(first) + (seq![TokV::Comma] + (toks_of_elems(rest) + ts))
            =~= toks_of_elems(a) + ts);
    }
}

#[verifier::rlimit(100)]
proof fn lemma_lex_print_membs(ms: Seq<(Seq<char>, JsonV)>, u: Seq<char>, i: int, ts: Seq<TokV>)
    requires
        ms.len() >= 1,
        wf_json_members(ms),
        0 <= i,
        i + print_members(ms).len() < u.len(),
        u.subrange(i, i + print_members(ms).len()) == print_members(ms),
        u[i + print_members(ms).len()] == '}',
        lex_all(u, i + print_members(ms).len() + 1) == Option::Some(ts),
    ensures
        lex_all(u, i) == Option::Some(toks_of_membs(ms) + ts),
    decreases ms, 0int,
{
    let pm = print_members(ms);
    let key = ms.first().0;
    let first = ms.first().1;
    let pk = print_string(key);
    let p1 = print_json(first);
    let tail_toks: Seq<TokV> = if ms.len() == 1 {
        seq![TokV::RBrace] + ts
    } else {
        seq![TokV::Comma] + (toks_of_membs(ms.drop_first()) + ts)
    };
    let vstart = i + pk.len() + 1;
    if ms.len() == 1 {
        assert(pm =~= pk + seq![':'] + p1);
        let j = i + pm.len();
        assert(u[j] == '}');
        assert(lex_one(u, j) == Option::Some((TokV::RBrace, j + 1)));
        lemma_lex_cons(u, j, TokV::RBrace, j + 1, ts);
        assert(lex_all(u, vstart + p1.len()) == Option::Some(tail_toks));
    } else {
        assert(pm =~= pk + seq![':'] + p1 + seq![','] + print_members(ms.drop_first()));
        let j = vstart + p1.len();
        lemma_window_index(u, i, pm, pk.len() + 1 + p1.len() as int);
        assert(u[j] == ',');
        let rest = ms.drop_first();
        let pr = print_members(rest);
        lemma_subwindow(u, i, pm, pk.len() as int + 1 + p1.len() as int + 1, pm.len() as int);
        assert(pm.subrange(pk.len() as int + 1 + p1.len() as int + 1, pm.len() as int) =~= pr);
        assert(wf_json_members(rest));
        assert(u[j + 1 + pr.len()] == '}') by {
            assert(j + 1 + pr.len() == i + pm.len());
        }
        lemma_lex_print_membs(rest, u, j + 1, ts);
        assert(lex_one(u, j) == Option::Some((TokV::Comma, j + 1)));
        lemma_lex_cons(u, j, TokV::Comma, j + 1, toks_of_membs(rest) + ts);
        assert(lex_all(u, vstart + p1.len()) == Option::Some(tail_toks));
    }
    lemma_subwindow(u, i, pm, pk.len() as int + 1, pk.len() as int + 1 + p1.len() as int);
    assert(pm.subrange(pk.len() as int + 1, pk.len() as int + 1 + p1.len() as int) =~= p1);
    assert(first is Num ==> !crate::number::is_num_cont(u[vstart + p1.len()])) by {
        if ms.len() == 1 {
            assert(u[vstart + p1.len()] == '}');
            assert(!crate::number::is_num_cont('}'));
        } else {
            assert(u[vstart + p1.len()] == ',');
            assert(!crate::number::is_num_cont(','));
        }
    }
    assert(wf_json(first));
    lemma_lex_print(first, u, vstart, tail_toks);
    assert(lex_all(u, vstart) == Option::Some(toks_of(first) + tail_toks));
    lemma_window_index(u, i, pm, 0);
    assert(u[i] == '"');
    let jq = i + pk.len() - 1;
    lemma_window_index(u, i, pm, pk.len() as int - 1);
    assert(u[jq] == '"');
    lemma_subwindow(u, i, pm, 1, pk.len() as int - 1);
    assert(pm.subrange(1, pk.len() as int - 1) =~= esc_str(key)) by {
        assert(pm.subrange(0, pk.len() as int) =~= pk) by {
            assert(forall|k: int|
                0 <= k < pk.len() ==> #[trigger] pm.subrange(0, pk.len() as int)[k] == pm[k]);
        }
        assert(forall|k: int|
            0 <= k < pk.len() - 2 ==> #[trigger] pm.subrange(1, pk.len() as int - 1)[k] == pm[1 + k]);
        assert(forall|k: int| 0 <= k < pk.len() ==> #[trigger] pm[k] == pk[k]);
        assert(forall|k: int|
            0 <= k < esc_str(key).len() ==> #[trigger] pk[1 + k] == esc_str(key)[k]);
    }
    lemma_lex_esc_str(key, u, i + 1, jq);
    assert(lex_one(u, i) == Option::Some((TokV::StrTok(key), i + pk.len())));
    lemma_window_index(u, i, pm, pk.len() as int);
    assert(u[i + pk.len()] == ':');
    assert(lex_one(u, i + pk.len()) == Option::Some((TokV::Colon, vstart)));
    lemma_lex_cons(u, i + pk.len(), TokV::Colon, vstart, toks_of(first) + tail_toks);
    lemma_lex_cons(u, i, TokV::StrTok(key), i + pk.len(), seq![TokV::Colon] + (toks_of(first)
        + tail_toks));
    if ms.len() == 1 {
        assert(seq![TokV::StrTok(key)] + (seq![TokV::Colon] + (toks_of(first) + (seq![
            TokV::RBrace,
        ] + ts))) =~= toks_of_membs(ms) + ts);
    } else {
        assert(seq![TokV::StrTok(key)] + (seq![TokV::Colon] + (toks_of(first) + (seq![
            TokV::Comma,
        ] + (toks_of_membs(ms.drop_first()) + ts)))) =~= toks_of_membs(ms) + ts);
    }
}

/// Printing a well-formed value and lexing the text back yields exactly
/// its canonical tokens.
pub proof fn lemma_lex_print_roundtrip(v: JsonV)
    requires
        wf_json(v),
    ensures
        lex_spec(print_json(v)) == Option::Some(toks_of(v)),
{
    let u = print_json(v);
    assert(skip_ws(u, u.len() as int) == u.len());
    assert(lex_all(u, u.len() as int) == Option::Some(Seq::<TokV>::empty()));
    assert(u.subrange(0, u.len() as int) =~= u);
    lemma_lex_print(v, u, 0, Seq::empty());
    assert(toks_of(v) + Seq::<TokV>::empty() =~= toks_of(v));
}

/// Round trip: a well-formed value printed and parsed back is itself.
pub proof fn lemma_print_parse_roundtrip(v: JsonV)
    requires
        wf_json(v),
    ensures
        parse_json_spec(print_json(v)) == Option::Some(v),
{
    lemma_lex_print_roundtrip(v);
    lemma_parse_toks_roundtrip(v);
}

} // verus!
