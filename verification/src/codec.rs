//! The storage codec for list-valued columns.
//!
//! A message row keeps its tokens, tags, reactions and media types as one
//! encoded text column each: the values quoted, escaped and joined with
//! commas inside square brackets.  Reading is total: a corrupt or missing
//! encoding decodes to the empty sequence instead of failing, so one bad row
//! can never fail a whole query.
//!
//! The row also carries a "search surface": the tokens joined with single
//! spaces and framed by a leading and a trailing space, so that a substring
//! match against a space-delimited pattern hits whole tokens only.

use vstd::prelude::*;
use vstd::string::*;
use crate::text::{push_char, chars_of, string_from_chars};

verus! {

/// The views of a vector of strings.
pub open spec fn seq_views(vs: Seq<String>) -> Seq<Seq<char>> {
    vs.map_values(|s: String| s@)
}

// ---------------------------------------------------------------------------
// Encoding
// ---------------------------------------------------------------------------

/// One character as it appears inside an encoded quoted value.
pub open spec fn escape_char(c: char) -> Seq<char> {
    if c == '"' {
        seq!['\\', '"']
    } else if c == '\\' {
        seq!['\\', '\\']
    } else if c == '\n' {
        seq!['\\', 'n']
    } else if c == '\r' {
        seq!['\\', 'r']
    } else if c == '\t' {
        seq!['\\', 't']
    } else {
        seq![c]
    }
}

/// A value's characters, escaped.
pub open spec fn escape_str(s: Seq<char>) -> Seq<char>
    decreases s.len(),
{
    if s.len() == 0 {
        Seq::empty()
    } else {
        escape_char(s[0]) + escape_str(s.drop_first())
    }
}

/// A value, escaped and wrapped in double quotes.
pub open spec fn quote_str(s: Seq<char>) -> Seq<char> {
    seq!['"'] + escape_str(s) + seq!['"']
}

/// The quoted values joined with commas.
pub open spec fn encode_items(vs: Seq<Seq<char>>) -> Seq<char>
    decreases vs.len(),
{
    if vs.len() == 0 {
        Seq::empty()
    } else if vs.len() == 1 {
        quote_str(vs[0])
    } else {
        encode_items(vs.drop_last()) + seq![','] + quote_str(vs.last())
    }
}

/// The encoded form of a list of values.
pub open spec fn encode_list_spec(vs: Seq<Seq<char>>) -> Seq<char> {
    seq!['['] + encode_items(vs) + seq![']']
}

// ---------------------------------------------------------------------------
// Decoding
// ---------------------------------------------------------------------------

/// The character that an escape code stands for, if the code is recognised.
pub open spec fn unescape_char(c: char) -> Option<char> {
    if c == '"' {
        Some('"')
    } else if c == '\\' {
        Some('\\')
    } else if c == 'n' {
        Some('\n')
    } else if c == 'r' {
        Some('\r')
    } else if c == 't' {
        Some('\t')
    } else if c == '/' {
        Some('/')
    } else if c == 'b' {
        Some('\u{8}')
    } else if c == 'f' {
        Some('\u{C}')
    } else {
        None
    }
}

/// Parses the body of a quoted value, the opening quote already consumed.
/// Returns the value and what follows the closing quote.
pub open spec fn parse_string_body(s: Seq<char>) -> Option<(Seq<char>, Seq<char>)>
    decreases s.len(),
{
    if s.len() == 0 {
        None
    } else if s[0] == '"' {
        Some((Seq::empty(), s.drop_first()))
    } else if s[0] == '\\' {
        if s.len() >= 2 {
            match unescape_char(s[1]) {
                Some(c) => match parse_string_body(s.skip(2)) {
                    Some(p) => Some((seq![c] + p.0, p.1)),
                    None => None,
                },
                None => None,
            }
        } else {
            None
        }
    } else {
        match parse_string_body(s.drop_first()) {
            Some(p) => Some((seq![s[0]] + p.0, p.1)),
            None => None,
        }
    }
}

/// A successful parse consumes at least the closing quote.
pub proof fn lemma_parse_string_body_advances(s: Seq<char>)
    requires
        parse_string_body(s) is Some,
    ensures
        parse_string_body(s)->Some_0.1.len() < s.len(),
    decreases s.len(),
{
    if s[0] == '"' {
    } else if s[0] == '\\' {
        lemma_parse_string_body_advances(s.skip(2));
    } else {
        lemma_parse_string_body_advances(s.drop_first());
    }
}

/// Parses a nonempty run of quoted values separated by commas and closed by
/// a square bracket.  Returns the values and what follows the bracket.
pub open spec fn parse_tail(s: Seq<char>) -> Option<(Seq<Seq<char>>, Seq<char>)>
    decreases s.len(),
    via parse_tail_dec
{
    if s.len() == 0 || s[0] != '"' {
        None
    } else {
        match parse_string_body(s.drop_first()) {
            Some(p) => {
                if p.1.len() > 0 && p.1[0] == ']' {
                    Some((seq![p.0], p.1.drop_first()))
                } else if p.1.len() > 0 && p.1[0] == ',' {
                    match parse_tail(p.1.drop_first()) {
                        Some(q) => Some((seq![p.0] + q.0, q.1)),
                        None => None,
                    }
                } else {
                    None
                }
            },
            None => None,
        }
    }
}

#[via_fn]
proof fn parse_tail_dec(s: Seq<char>) {
    if s.len() > 0 && s[0] == '"' {
        if parse_string_body(s.drop_first()) is Some {
            lemma_parse_string_body_advances(s.drop_first());
        }
    }
}

/// The values stored in an encoded list column.  A text that is not a
/// well-formed encoding decodes to the empty sequence.
pub open spec fn decode_list_spec(s: Seq<char>) -> Seq<Seq<char>> {
    if s.len() >= 2 && s[0] == '[' {
        if s.len() == 2 && s[1] == ']' {
            Seq::empty()
        } else {
            match parse_tail(s.drop_first()) {
                Some(q) => if q.1.len() == 0 {
                    q.0
                } else {
                    Seq::empty()
                },
                None => Seq::empty(),
            }
        }
    } else {
        Seq::empty()
    }
}

// ---------------------------------------------------------------------------
// The round trip
// ---------------------------------------------------------------------------

proof fn lemma_parse_escaped(v: Seq<char>, rest: Seq<char>)
    ensures
        parse_string_body(escape_str(v) + seq!['"'] + rest) == Some((v, rest)),
    decreases v.len(),
{
    let s = escape_str(v) + seq!['"'] + rest;
    if v.len() == 0 {
        assert(s =~= seq!['"'] + rest);
        assert(s[0] == '"');
        assert(s.drop_first() =~= rest);
        assert(parse_string_body(s) == Some((Seq::<char>::empty(), rest)));
    } else {
        let c = v[0];
        let v2 = v.drop_first();
        assert(escape_str(v) == escape_char(c) + escape_str(v2));
        let s2 = escape_str(v2) + seq!['"'] + rest;
        lemma_parse_escaped(v2, rest);
        if c == '"' || c == '\\' || c == '\n' || c == '\r' || c == '\t' {
            assert(escape_char(c).len() == 2);
            assert(s =~= seq![escape_char(c)[0], escape_char(c)[1]] + s2);
            assert(s[0] == '\\');
            assert(unescape_char(s[1]) == Some(c));
            assert(s.skip(2) =~= s2);
            assert(parse_string_body(s) == Some((seq![c] + v2, rest)));
        } else {
            assert(escape_char(c) =~= seq![c]);
            assert(s =~= seq![c] + s2);
            assert(s[0] == c && c != '"' && c != '\\');
            assert(s.drop_first() =~= s2);
            assert(parse_string_body(s) == Some((seq![c] + v2, rest)));
        }
        assert(seq![c] + v2 =~= v);
    }
}

proof fn lemma_encode_items_head(vs: Seq<Seq<char>>)
    requires
        vs.len() >= 2,
    ensures
        encode_items(vs) == quote_str(vs[0]) + seq![','] + encode_items(vs.drop_first()),
    decreases vs.len(),
{
    if vs.len() == 2 {
        assert(vs.drop_last() =~= seq![vs[0]]);
        assert(encode_items(seq![vs[0]]) == quote_str(vs[0]));
        assert(vs.drop_first() =~= seq![vs[1]]);
        assert(encode_items(vs.drop_first()) == quote_str(vs[1]));
        assert(vs.last() == vs[1]);
        assert(quote_str(vs[0]) + seq![','] + quote_str(vs[1]) =~= quote_str(vs[0]) + (seq![',']
            + quote_str(vs[1])));
        assert(quote_str(vs[0]) + seq![','] + encode_items(vs.drop_first()) =~= encode_items(vs));
    } else {
        let front = vs.drop_last();
        lemma_encode_items_head(front);
        assert(front[0] == vs[0]);
        assert(front.drop_first() =~= vs.drop_first().drop_last());
        let mid = vs.drop_first();
        assert(mid.len() >= 2);
        assert(encode_items(mid) == encode_items(mid.drop_last()) + seq![','] + quote_str(
            mid.last(),
        ));
        assert(mid.last() == vs.last());
        assert(encode_items(vs) == (quote_str(vs[0]) + seq![','] + encode_items(mid.drop_last()))
            + seq![','] + quote_str(vs.last()));
        assert((quote_str(vs[0]) + seq![','] + encode_items(mid.drop_last())) + seq![',']
            + quote_str(vs.last()) =~= quote_str(vs[0]) + seq![','] + (encode_items(
            mid.drop_last(),
        ) + seq![','] + quote_str(vs.last())));
    }
}

proof fn lemma_parse_tail_of_encoded(vs: Seq<Seq<char>>, ctx: Seq<char>)
    requires
        vs.len() >= 1,
    ensures
        parse_tail(encode_items(vs) + seq![']'] + ctx) == Some((vs, ctx)),
    decreases vs.len(),
{
    let s = encode_items(vs) + seq![']'] + ctx;
    if vs.len() == 1 {
        assert(encode_items(vs) == quote_str(vs[0]));
        assert(s =~= seq!['"'] + (escape_str(vs[0]) + seq!['"'] + (seq![']'] + ctx)));
        assert(s[0] == '"');
        assert(s.drop_first() =~= escape_str(vs[0]) + seq!['"'] + (seq![']'] + ctx));
        lemma_parse_escaped(vs[0], seq![']'] + ctx);
        let p = parse_string_body(s.drop_first())->Some_0;
        assert(p.0 == vs[0] && p.1 == seq![']'] + ctx);
        assert(p.1[0] == ']');
        assert(p.1.drop_first() =~= ctx);
        assert(seq![p.0] =~= vs);
    } else {
        lemma_encode_items_head(vs);
        let tail_enc = encode_items(vs.drop_first()) + seq![']'] + ctx;
        assert(s =~= seq!['"'] + (escape_str(vs[0]) + seq!['"'] + (seq![','] + tail_enc)));
        assert(s[0] == '"');
        assert(s.drop_first() =~= escape_str(vs[0]) + seq!['"'] + (seq![','] + tail_enc));
        lemma_parse_escaped(vs[0], seq![','] + tail_enc);
        let p = parse_string_body(s.drop_first())->Some_0;
        assert(p.0 == vs[0] && p.1 == seq![','] + tail_enc);
        assert(p.1[0] == ',');
        assert(p.1[0] != ']');
        assert(p.1.drop_first() =~= tail_enc);
        lemma_parse_tail_of_encoded(vs.drop_first(), ctx);
        assert(parse_tail(s) == Some((seq![p.0] + vs.drop_first(), ctx)));
        assert(seq![p.0] + vs.drop_first() =~= vs);
    }
}

proof fn lemma_encode_items_len(vs: Seq<Seq<char>>)
    requires
        vs.len() >= 1,
    ensures
        encode_items(vs).len() >= 2,
    decreases vs.len(),
{
    if vs.len() > 1 {
        lemma_encode_items_len(vs.drop_last());
    }
}

/// Law: reading a stored list back yields the same sequence of values that
/// was written, whatever the values hold.
pub proof fn lemma_list_round_trip(vs: Seq<Seq<char>>)
    ensures
        decode_list_spec(encode_list_spec(vs)) == vs,
{
    let s = encode_list_spec(vs);
    if vs.len() == 0 {
        assert(s =~= seq!['[', ']']);
        assert(s[0] == '[' && s[1] == ']' && s.len() == 2);
        assert(decode_list_spec(s) =~= vs);
    } else {
        lemma_encode_items_len(vs);
        assert(s.len() >= 4);
        assert(s[0] == '[');
        assert(s.drop_first() =~= encode_items(vs) + seq![']'] + Seq::<char>::empty());
        lemma_parse_tail_of_encoded(vs, Seq::<char>::empty());
        assert(decode_list_spec(s) == vs);
    }
}

// ---------------------------------------------------------------------------
// Executable encoder
// ---------------------------------------------------------------------------

fn escape_into(out: &mut String, s: &str)
    ensures
        final(out)@ == old(out)@ + escape_str(s@),
{
    let cs = chars_of(s);
    let mut i: usize = 0;
    proof {
        assert(old(out)@ + escape_str(cs@.take(0)) =~= old(out)@);
    }
    while i < cs.len()
        invariant
            cs@ == s@,
            i <= cs@.len(),
            out@ == old(out)@ + escape_str(cs@.take(i as int)),
        decreases cs@.len() - i,
    {
        let c = cs[i];
        if c == '"' {
            push_char(out, '\\');
            push_char(out, '"');
        } else if c == '\\' {
            push_char(out, '\\');
            push_char(out, '\\');
        } else if c == '\n' {
            push_char(out, '\\');
            push_char(out, 'n');
        } else if c == '\r' {
            push_char(out, '\\');
            push_char(out, 'r');
        } else if c == '\t' {
            push_char(out, '\\');
            push_char(out, 't');
        } else {
            push_char(out, c);
        }
        proof {
            lemma_escape_str_snoc(cs@.take(i as int), cs@[i as int]);
            assert(cs@.take(i + 1) =~= cs@.take(i as int).push(cs@[i as int]));
            assert(out@ =~= old(out)@ + escape_str(cs@.take(i + 1)));
        }
        i = i + 1;
    }
    assert(cs@.take(cs@.len() as int) =~= cs@);
}

/// Escaping distributes over extending a value by one character.
proof fn lemma_escape_str_snoc(s: Seq<char>, c: char)
    ensures
        escape_str(s.push(c)) == escape_str(s) + escape_char(c),
    decreases s.len(),
{
    if s.len() == 0 {
        assert(s.push(c)[0] == c);
        assert(s.push(c).drop_first() =~= Seq::<char>::empty());
        assert(escape_str(s.push(c)) == escape_char(c) + escape_str(s.push(c).drop_first()));
        assert(escape_str(s.push(c).drop_first()) == Seq::<char>::empty());
        assert(escape_char(c) + Seq::<char>::empty() =~= Seq::<char>::empty() + escape_char(c));
    } else {
        assert(s.push(c).drop_first() =~= s.drop_first().push(c));
        lemma_escape_str_snoc(s.drop_first(), c);
        assert(s.push(c)[0] == s[0]);
        assert(escape_str(s.push(c)) == escape_char(s[0]) + (escape_str(s.drop_first())
            + escape_char(c)));
        assert(escape_char(s[0]) + (escape_str(s.drop_first()) + escape_char(c)) =~= (escape_char(
            s[0],
        ) + escape_str(s.drop_first())) + escape_char(c));
    }
}

/// The encoded form of a list of values, as stored in a list column.
pub fn encode_list(values: &Vec<String>) -> (r: String)
    ensures
        r@ == encode_list_spec(seq_views(values@)),
{
    let ghost vs = seq_views(values@);
    let mut out = String::new();
    push_char(&mut out, '[');
    let mut i: usize = 0;
    proof {
        assert(out@ =~= seq!['['] + encode_items(vs.take(0)));
    }
    while i < values.len()
        invariant
            vs == seq_views(values@),
            i <= values@.len(),
            out@ == seq!['['] + encode_items(vs.take(i as int)),
        decreases values@.len() - i,
    {
        if i > 0 {
            push_char(&mut out, ',');
        }
        push_char(&mut out, '"');
        escape_into(&mut out, values[i].as_str());
        push_char(&mut out, '"');
        proof {
            assert(vs.take(i + 1).drop_last() =~= vs.take(i as int));
            assert(vs.take(i + 1).last() == vs[i as int]);
            assert(vs[i as int] == values@[i as int]@);
            if i == 0 {
                assert(encode_items(vs.take(1)) == quote_str(vs[0]));
            }
            assert(out@ =~= seq!['['] + encode_items(vs.take(i + 1)));
        }
        i = i + 1;
    }
    push_char(&mut out, ']');
    proof {
        assert(vs.take(vs.len() as int) =~= vs);
        assert(out@ =~= encode_list_spec(vs));
    }
    out
}

// ---------------------------------------------------------------------------
// Executable decoder
// ---------------------------------------------------------------------------

fn unescape_char_exec(c: char) -> (r: Option<char>)
    ensures
        r == unescape_char(c),
{
    if c == '"' {
        Some('"')
    } else if c == '\\' {
        Some('\\')
    } else if c == 'n' {
        Some('\n')
    } else if c == 'r' {
        Some('\r')
    } else if c == 't' {
        Some('\t')
    } else if c == '/' {
        Some('/')
    } else if c == 'b' {
        Some('\u{8}')
    } else if c == 'f' {
        Some('\u{C}')
    } else {
        None
    }
}

fn parse_string_body_exec(cs: &Vec<char>, i: usize) -> (r: Option<(Vec<char>, usize)>)
    requires
        i <= cs@.len(),
    ensures
        match r {
            Some(p) => {
                &&& parse_string_body(cs@.skip(i as int)) matches Some(q)
                &&& p.0@ == q.0
                &&& i <= p.1 <= cs@.len()
                &&& cs@.skip(p.1 as int) == q.1
            },
            None => parse_string_body(cs@.skip(i as int)) is None,
        },
    decreases cs@.len() - i,
{
    let ghost s = cs@.skip(i as int);
    if i == cs.len() {
        assert(s.len() == 0);
        return None;
    }
    let c = cs[i];
    assert(c == s[0]);
    if c == '"' {
        assert(s.drop_first() =~= cs@.skip(i + 1));
        Some((Vec::new(), i + 1))
    } else if c == '\\' {
        if i + 1 < cs.len() {
            match unescape_char_exec(cs[i + 1]) {
                Some(u) => {
                    assert(s[1] == cs@[i + 1]);
                    assert(s.skip(2) =~= cs@.skip(i + 2));
                    match parse_string_body_exec(cs, i + 2) {
                        Some(p) => {
                            let (mut v, j) = p;
                            v.insert(0, u);
                            assert(v@ =~= seq![u] + parse_string_body(s.skip(2))->Some_0.0);
                            Some((v, j))
                        },
                        None => None,
                    }
                },
                None => {
                    assert(s[1] == cs@[i + 1]);
                    None
                },
            }
        } else {
            assert(s.len() < 2);
            None
        }
    } else {
        assert(s.drop_first() =~= cs@.skip(i + 1));
        match parse_string_body_exec(cs, i + 1) {
            Some(p) => {
                let (mut v, j) = p;
                v.insert(0, c);
                assert(v@ =~= seq![s[0]] + parse_string_body(s.drop_first())->Some_0.0);
                Some((v, j))
            },
            None => None,
        }
    }
}

fn parse_tail_exec(cs: &Vec<char>, i: usize) -> (r: Option<(Vec<String>, usize)>)
    requires
        i <= cs@.len(),
    ensures
        match r {
            Some(p) => {
                &&& parse_tail(cs@.skip(i as int)) matches Some(q)
                &&& seq_views(p.0@) == q.0
                &&& i <= p.1 <= cs@.len()
                &&& cs@.skip(p.1 as int) == q.1
            },
            None => parse_tail(cs@.skip(i as int)) is None,
        },
    decreases cs@.len() - i,
{
    let ghost s = cs@.skip(i as int);
    if i == cs.len() {
        assert(s.len() == 0);
        return None;
    }
    if cs[i] != '"' {
        assert(s[0] != '"');
        return None;
    }
    assert(s[0] == '"');
    assert(s.drop_first() =~= cs@.skip(i + 1));
    match parse_string_body_exec(cs, i + 1) {
        Some(p) => {
            let (v, j) = p;
            let ghost q = parse_string_body(s.drop_first())->Some_0;
            assert(cs@.skip(j as int) == q.1);
            if j < cs.len() && cs[j] == ']' {
                assert(q.1.len() > 0 && q.1[0] == ']');
                assert(q.1.drop_first() =~= cs@.skip(j + 1));
                let value = string_from_chars(&v);
                let mut vs: Vec<String> = Vec::new();
                vs.push(value);
                assert(seq_views(vs@) =~= seq![q.0]);
                Some((vs, j + 1))
            } else if j < cs.len() && cs[j] == ',' {
                assert(q.1.len() > 0 && q.1[0] == ',');
                assert(q.1.drop_first() =~= cs@.skip(j + 1));
                proof {
                    lemma_parse_string_body_advances(s.drop_first());
                }
                match parse_tail_exec(cs, j + 1) {
                    Some(t) => {
                        let (mut vs, k) = t;
                        let value = string_from_chars(&v);
                        vs.insert(0, value);
                        assert(seq_views(vs@) =~= seq![q.0] + parse_tail(
                            q.1.drop_first(),
                        )->Some_0.0);
                        Some((vs, k))
                    },
                    None => None,
                }
            } else {
                proof {
                    if q.1.len() > 0 {
                        assert(q.1[0] == cs@[j as int]);
                    }
                }
                None
            }
        },
        None => None,
    }
}

/// The values held by an encoded list column.  A text that is not a
/// well-formed encoding yields the empty vector.
pub fn decode_list(s: &str) -> (r: Vec<String>)
    ensures
        seq_views(r@) == decode_list_spec(s@),
{
    let cs = chars_of(s);
    if cs.len() < 2 || cs[0] != '[' {
        let r: Vec<String> = Vec::new();
        assert(seq_views(r@) =~= decode_list_spec(s@));
        return r;
    }
    if cs.len() == 2 && cs[1] == ']' {
        let r: Vec<String> = Vec::new();
        assert(seq_views(r@) =~= decode_list_spec(s@));
        return r;
    }
    assert(cs@.drop_first() =~= cs@.skip(1));
    match parse_tail_exec(&cs, 1) {
        Some(p) => {
            let (vs, j) = p;
            if j == cs.len() {
                assert(cs@.skip(j as int).len() == 0);
                vs
            } else {
                let r: Vec<String> = Vec::new();
                assert(cs@.skip(j as int).len() != 0);
                assert(seq_views(r@) =~= decode_list_spec(s@));
                r
            }
        },
        None => {
            let r: Vec<String> = Vec::new();
            assert(seq_views(r@) =~= decode_list_spec(s@));
            r
        },
    }
}

// ---------------------------------------------------------------------------
// The search surface
// ---------------------------------------------------------------------------

/// The values joined with one space between each pair.
pub open spec fn join_spaces(toks: Seq<Seq<char>>) -> Seq<char>
    decreases toks.len(),
{
    if toks.len() == 0 {
        Seq::empty()
    } else if toks.len() == 1 {
        toks[0]
    } else {
        join_spaces(toks.drop_last()) + seq![' '] + toks.last()
    }
}

/// The search surface of a token list: the tokens joined with single spaces
/// and framed by one leading and one trailing space.
pub open spec fn search_surface(toks: Seq<Seq<char>>) -> Seq<char> {
    seq![' '] + join_spaces(toks) + seq![' ']
}

/// The search surface of the given tokens, as a string.
pub fn build_search_surface(tokens: &Vec<String>) -> (r: String)
    ensures
        r@ == search_surface(seq_views(tokens@)),
{
    let ghost toks = seq_views(tokens@);
    let mut out = String::new();
    push_char(&mut out, ' ');
    let mut i: usize = 0;
    proof {
        assert(out@ =~= seq![' '] + join_spaces(toks.take(0)));
    }
    while i < tokens.len()
        invariant
            toks == seq_views(tokens@),
            i <= tokens@.len(),
            out@ == seq![' '] + join_spaces(toks.take(i as int)),
        decreases tokens@.len() - i,
    {
        if i > 0 {
            push_char(&mut out, ' ');
        }
        out.append(tokens[i].as_str());
        proof {
            assert(toks.take(i + 1).drop_last() =~= toks.take(i as int));
            assert(toks.take(i + 1).last() == toks[i as int]);
            assert(toks[i as int] == tokens@[i as int]@);
            if i == 0 {
                assert(join_spaces(toks.take(1)) == toks[0]);
            }
            assert(out@ =~= seq![' '] + join_spaces(toks.take(i + 1)));
        }
        i = i + 1;
    }
    push_char(&mut out, ' ');
    proof {
        assert(toks.take(toks.len() as int) =~= toks);
        assert(out@ =~= search_surface(toks));
    }
    out
}

} // verus!
