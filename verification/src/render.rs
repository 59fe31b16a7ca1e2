//! The JSON text of a document: compact (as `serde_json::to_string`
//! writes it) and pretty (as `serde_json::to_string_pretty` writes it).
//! String literals are escaped by `serde_json` itself; this module frames
//! them into arrays and objects.
use vstd::prelude::*;

use crate::json::{
    items_view, lemma_items_view, lemma_member_values, member_keys, member_values,
    Json, JsonV,
};
use crate::text::push_char;

verus! {

broadcast use vstd::std_specs::vec::group_vec_axioms;

/// A lowercase hexadecimal digit.
pub open spec fn hex_lower(d: nat) -> char {
    if d < 10 {
        (48 + d) as char
    } else {
        (87 + d) as char
    }
}

/// How one character is written inside a JSON string literal.
pub open spec fn escape_char(c: char) -> Seq<char> {
    if c == '"' {
        seq!['\\', '"']
    } else if c == '\\' {
        seq!['\\', '\\']
    } else if c == '\u{8}' {
        seq!['\\', 'b']
    } else if c == '\t' {
        seq!['\\', 't']
    } else if c == '\n' {
        seq!['\\', 'n']
    } else if c == '\u{c}' {
        seq!['\\', 'f']
    } else if c == '\r' {
        seq!['\\', 'r']
    } else if (c as u32) < 0x20 {
        seq![
            '\\',
            'u',
            '0',
            '0',
            hex_lower(((c as u32) / 16) as nat),
            hex_lower(((c as u32) % 16) as nat),
        ]
    } else {
        seq![c]
    }
}

/// The escaped body of a JSON string literal.
pub open spec fn escaped(s: Seq<char>) -> Seq<char>
    decreases s.len(),
{
    if s.len() == 0 {
        Seq::empty()
    } else {
        escaped(s.drop_last()) + escape_char(s.last())
    }
}

/// A JSON string literal.
pub open spec fn quoted(s: Seq<char>) -> Seq<char> {
    seq!['"'] + escaped(s) + seq!['"']
}

/// The JSON string literal for `s`.
///
/// Calls `serde_json::to_string` on the slice. Its source writes a quote,
/// then each character, with `"`, `\`, and the control characters below
/// U+0020 escaped (`\b`, `\t`, `\n`, `\f`, `\r` by name, the others as
/// `\u00` and two lowercase hex digits), then a closing quote. Serializing
/// a string slice does not fail.
#[verifier::external_body]
pub(crate) fn quote(s: &str) -> (r: String)
    ensures
        r@ == quoted(s@),
{
    match serde_json::to_string(s) {
        Ok(t) => t,
        Err(_) => String::new(),
    }
}

/// Compact JSON text.
pub open spec fn compact(v: JsonV) -> Seq<char>
    decreases v,
{
    match v {
        JsonV::Null => "null"@,
        JsonV::Bool(b) => if b {
            "true"@
        } else {
            "false"@
        },
        JsonV::Number(t, _) => t,
        JsonV::Str(s) => quoted(s),
        JsonV::Array(items) => seq!['['] + compact_items(items) + seq![']'],
        JsonV::Object(keys, vals) => seq!['{'] + compact_members(keys, vals) + seq!['}'],
    }
}

/// Array items in compact text, separated by commas.
pub open spec fn compact_items(items: Seq<JsonV>) -> Seq<char>
    decreases items,
{
    if items.len() == 0 {
        Seq::empty()
    } else if items.len() == 1 {
        compact(items[0])
    } else {
        compact_items(items.drop_last()) + seq![','] + compact(items.last())
    }
}

/// Object members in compact text, separated by commas.
pub open spec fn compact_members(keys: Seq<Seq<char>>, vals: Seq<JsonV>) -> Seq<char>
    decreases vals,
{
    if vals.len() == 0 {
        Seq::empty()
    } else {
        let entry = quoted(keys[vals.len() - 1]) + seq![':'] + compact(vals.last());
        if vals.len() == 1 {
            entry
        } else {
            compact_members(keys.drop_last(), vals.drop_last()) + seq![','] + entry
        }
    }
}

/// Two spaces per level.
pub open spec fn indent(level: nat) -> Seq<char> {
    Seq::new(2 * level, |i: int| ' ')
}

/// Pretty JSON text at the given nesting level.
pub open spec fn pretty(v: JsonV, level: nat) -> Seq<char>
    decreases v,
{
    match v {
        JsonV::Array(items) => if items.len() == 0 {
            seq!['[', ']']
        } else {
            seq!['['] + pretty_items(items, level + 1) + seq!['\n'] + indent(level) + seq![']']
        },
        JsonV::Object(keys, vals) => if vals.len() == 0 {
            seq!['{', '}']
        } else {
            seq!['{'] + pretty_members(keys, vals, level + 1) + seq!['\n'] + indent(level) + seq![
                '}',
            ]
        },
        _ => compact(v),
    }
}

/// The line break and separator before item `i` of a pretty array or object.
pub open spec fn pretty_sep(i: int) -> Seq<char> {
    if i == 0 {
        seq!['\n']
    } else {
        seq![',', '\n']
    }
}

/// Array items in pretty text, one per line.
pub open spec fn pretty_items(items: Seq<JsonV>, level: nat) -> Seq<char>
    decreases items,
{
    if items.len() == 0 {
        Seq::empty()
    } else {
        pretty_items(items.drop_last(), level) + pretty_sep(items.len() - 1) + indent(level)
            + pretty(items.last(), level)
    }
}

/// Object members in pretty text, one per line.
pub open spec fn pretty_members(keys: Seq<Seq<char>>, vals: Seq<JsonV>, level: nat) -> Seq<char>
    decreases vals,
{
    if vals.len() == 0 {
        Seq::empty()
    } else {
        pretty_members(keys.drop_last(), vals.drop_last(), level) + pretty_sep(vals.len() - 1)
            + indent(level) + quoted(keys[vals.len() - 1]) + seq![':', ' '] + pretty(
            vals.last(),
            level,
        )
    }
}

/// Appends the compact JSON text of `j` to `out`.
pub fn write_compact(j: &Json, out: &mut String)
    ensures
        final(out)@ == old(out)@ + compact(j@),
    decreases j,
{
    match j {
        Json::Null => out.append("null"),
        Json::Bool(b) => {
            if *b {
                out.append("true")
            } else {
                out.append("false")
            }
        },
        Json::Number(n) => out.append(n.text.as_str()),
        Json::Str(s) => {
            let q = quote(s.as_str());
            out.append(q.as_str());
        },
        Json::Array(v) => {
            push_char(out, '[');
            write_compact_items(v, out);
            push_char(out, ']');
        },
        Json::Object(m) => {
            push_char(out, '{');
            write_compact_members(m, out);
            push_char(out, '}');
        },
    }
}

fn write_compact_items(v: &Vec<Json>, out: &mut String)
    ensures
        final(out)@ == old(out)@ + compact_items(items_view(v@)),
    decreases v,
{
    let ghost start = out@;
    let ghost items = items_view(v@);
    proof {
        lemma_items_view(v@);
    }
    let mut i: usize = 0;
    while i < v.len()
        invariant
            i <= v.len(),
            items == items_view(v@),
            items.len() == v.len(),
            forall|k: int| 0 <= k < v.len() ==> #[trigger] items[k] == v@[k]@,
            out@ == start + compact_items(items.take(i as int)),
        decreases v.len() - i,
    {
        if i > 0 {
            push_char(out, ',');
        }
        write_compact(&v[i], out);
        proof {
            let t = items.take(i + 1);
            assert(t.drop_last() =~= items.take(i as int));
            assert(t.last() == items[i as int]);
        }
        i = i + 1;
    }
    assert(items.take(v.len() as int) =~= items);
}

fn write_compact_members(m: &Vec<(String, Json)>, out: &mut String)
    ensures
        final(out)@ == old(out)@ + compact_members(member_keys(m@), member_values(m@)),
    decreases m,
{
    let ghost start = out@;
    let ghost keys = member_keys(m@);
    let ghost vals = member_values(m@);
    proof {
        lemma_member_values(m@);
    }
    let mut i: usize = 0;
    while i < m.len()
        invariant
            i <= m.len(),
            keys == member_keys(m@),
            vals == member_values(m@),
            vals.len() == m.len(),
            forall|k: int| 0 <= k < m.len() ==> #[trigger] vals[k] == m@[k].1@,
            out@ == start + compact_members(keys.take(i as int), vals.take(i as int)),
        decreases m.len() - i,
    {
        if i > 0 {
            push_char(out, ',');
        }
        let q = quote(m[i].0.as_str());
        out.append(q.as_str());
        push_char(out, ':');
        write_compact(&m[i].1, out);
        proof {
            let tk = keys.take(i + 1);
            let tv = vals.take(i + 1);
            assert(tk.drop_last() =~= keys.take(i as int));
            assert(tv.drop_last() =~= vals.take(i as int));
            assert(tv.last() == vals[i as int]);
            assert(tk[i as int] == m@[i as int].0@);
        }
        i = i + 1;
    }
    assert(keys.take(m.len() as int) =~= keys);
    assert(vals.take(m.len() as int) =~= vals);
}

/// The compact JSON text of an array holding the documents of `v`.
pub fn array_to_compact(v: &Vec<Json>) -> (r: String)
    ensures
        r@ == compact(JsonV::Array(items_view(v@))),
{
    let mut out = String::new();
    push_char(&mut out, '[');
    write_compact_items(v, &mut out);
    push_char(&mut out, ']');
    assert(out@ =~= compact(JsonV::Array(items_view(v@))));
    out
}

/// The compact JSON text of `j`.
pub fn to_compact(j: &Json) -> (r: String)
    ensures
        r@ == compact(j@),
{
    let mut out = String::new();
    write_compact(j, &mut out);
    out
}

/// Appends the pretty JSON text of `j`, nested at `level`, to `out`;
/// `pad` holds the indentation of that level.
fn write_pretty(j: &Json, pad: &String, Ghost(level): Ghost<nat>, out: &mut String)
    requires
        pad@ == indent(level),
    ensures
        final(out)@ == old(out)@ + pretty(j@, level),
    decreases j,
{
    match j {
        Json::Array(v) => {
            if v.len() == 0 {
                push_char(out, '[');
                push_char(out, ']');
            } else {
                push_char(out, '[');
                write_pretty_items(v, pad, Ghost(level), out);
                push_char(out, '\n');
                out.append(pad.as_str());
                push_char(out, ']');
            }
        },
        Json::Object(m) => {
            proof {
                lemma_member_values(m@);
            }
            if m.len() == 0 {
                push_char(out, '{');
                push_char(out, '}');
            } else {
                push_char(out, '{');
                write_pretty_members(m, pad, Ghost(level), out);
                push_char(out, '\n');
                out.append(pad.as_str());
                push_char(out, '}');
            }
        },
        _ => write_compact(j, out),
    }
}

fn deeper(pad: &String, Ghost(level): Ghost<nat>) -> (r: String)
    requires
        pad@ == indent(level),
    ensures
        r@ == indent(level + 1),
{
    let mut inner = pad.clone();
    push_char(&mut inner, ' ');
    push_char(&mut inner, ' ');
    assert(inner@ =~= indent(level + 1));
    inner
}

fn write_pretty_items(v: &Vec<Json>, pad: &String, Ghost(level): Ghost<nat>, out: &mut String)
    requires
        pad@ == indent(level),
    ensures
        final(out)@ == old(out)@ + pretty_items(items_view(v@), level + 1),
    decreases v,
{
    let inner = deeper(pad, Ghost(level));
    let ghost start = out@;
    let ghost items = items_view(v@);
    proof {
        lemma_items_view(v@);
    }
    let mut i: usize = 0;
    while i < v.len()
        invariant
            i <= v.len(),
            inner@ == indent(level + 1),
            items == items_view(v@),
            items.len() == v.len(),
            forall|k: int| 0 <= k < v.len() ==> #[trigger] items[k] == v@[k]@,
            out@ == start + pretty_items(items.take(i as int), level + 1),
        decreases v.len() - i,
    {
        if i > 0 {
            push_char(out, ',');
        }
        push_char(out, '\n');
        out.append(inner.as_str());
        write_pretty(&v[i], &inner, Ghost(level + 1), out);
        proof {
            let t = items.take(i + 1);
            assert(t.drop_last() =~= items.take(i as int));
            assert(t.last() == items[i as int]);
            assert(pretty_sep(i as int) == if i == 0 { seq!['\n'] } else { seq![',', '\n'] });
        }
        i = i + 1;
    }
    assert(items.take(v.len() as int) =~= items);
}

fn write_pretty_members(
    m: &Vec<(String, Json)>,
    pad: &String,
    Ghost(level): Ghost<nat>,
    out: &mut String,
)
    requires
        pad@ == indent(level),
    ensures
        final(out)@ == old(out)@ + pretty_members(member_keys(m@), member_values(m@), level + 1),
    decreases m,
{
    let inner = deeper(pad, Ghost(level));
    let ghost start = out@;
    let ghost keys = member_keys(m@);
    let ghost vals = member_values(m@);
    proof {
        lemma_member_values(m@);
    }
    let mut i: usize = 0;
    while i < m.len()
        invariant
            i <= m.len(),
            inner@ == indent(level + 1),
            keys == member_keys(m@),
            vals == member_values(m@),
            vals.len() == m.len(),
            forall|k: int| 0 <= k < m.len() ==> #[trigger] vals[k] == m@[k].1@,
            out@ == start + pretty_members(keys.take(i as int), vals.take(i as int), level + 1),
        decreases m.len() - i,
    {
        if i > 0 {
            push_char(out, ',');
        }
        push_char(out, '\n');
        out.append(inner.as_str());
        let q = quote(m[i].0.as_str());
        out.append(q.as_str());
        push_char(out, ':');
        push_char(out, ' ');
        write_pretty(&m[i].1, &inner, Ghost(level + 1), out);
        proof {
            let tk = keys.take(i + 1);
            let tv = vals.take(i + 1);
            assert(tk.drop_last() =~= keys.take(i as int));
            assert(tv.drop_last() =~= vals.take(i as int));
            assert(tv.last() == vals[i as int]);
            assert(tk[i as int] == m@[i as int].0@);
        }
        i = i + 1;
    }
    assert(keys.take(m.len() as int) =~= keys);
    assert(vals.take(m.len() as int) =~= vals);
}

/// The pretty JSON text of `j`.
pub fn to_pretty(j: &Json) -> (r: String)
    ensures
        r@ == pretty(j@, 0),
{
    let mut out = String::new();
    let pad = String::new();
    assert(pad@ =~= indent(0));
    write_pretty(j, &pad, Ghost(0), &mut out);
    out
}

} // verus!

verus! {

/// Whether a text fits on one line: it holds no line feed.
pub open spec fn one_line(s: Seq<char>) -> bool {
    forall|i: int| 0 <= i < s.len() ==> s[i] != '\n'
}

/// Whether every number in a document is written without a line feed.
pub open spec fn numbers_one_line(v: JsonV) -> bool
    decreases v,
{
    match v {
        JsonV::Number(t, _) => one_line(t),
        JsonV::Array(items) => items_one_line(items),
        JsonV::Object(_, vals) => items_one_line(vals),
        _ => true,
    }
}

/// Whether every number in a sequence of documents is written without a
/// line feed.
pub open spec fn items_one_line(items: Seq<JsonV>) -> bool
    decreases items,
{
    if items.len() == 0 {
        true
    } else {
        items_one_line(items.drop_last()) && numbers_one_line(items.last())
    }
}

proof fn lemma_join_one_line(a: Seq<char>, b: Seq<char>)
    requires
        one_line(a),
        one_line(b),
    ensures
        one_line(a + b),
{
    assert forall|i: int| 0 <= i < (a + b).len() implies (a + b)[i] != '\n' by {
        if i >= a.len() {
            assert((a + b)[i] == b[i - a.len()]);
        }
    }
}

proof fn lemma_escaped_one_line(s: Seq<char>)
    ensures
        one_line(escaped(s)),
    decreases s.len(),
{
    if s.len() > 0 {
        lemma_escaped_one_line(s.drop_last());
        let c = s.last();
        let e = escape_char(c);
        assert(one_line(e)) by {
            if (c as u32) < 0x20 && c != '\u{8}' && c != '\t' && c != '\n' && c != '\u{c}' && c
                != '\r' {
                assert(hex_lower(((c as u32) / 16) as nat) != '\n');
                assert(hex_lower(((c as u32) % 16) as nat) != '\n');
            }
        }
        lemma_join_one_line(escaped(s.drop_last()), e);
    }
}

proof fn lemma_quoted_one_line(s: Seq<char>)
    ensures
        one_line(quoted(s)),
{
    lemma_escaped_one_line(s);
    lemma_join_one_line(seq!['"'], escaped(s));
    lemma_join_one_line(seq!['"'] + escaped(s), seq!['"']);
}

proof fn lemma_items_one_line(items: Seq<JsonV>)
    requires
        items_one_line(items),
    ensures
        one_line(compact_items(items)),
    decreases items,
{
    if items.len() == 1 {
        assert(items.drop_last().len() == 0);
        compact_text_is_one_line(items[0]);
    } else if items.len() > 1 {
        lemma_items_one_line(items.drop_last());
        compact_text_is_one_line(items.last());
        lemma_join_one_line(compact_items(items.drop_last()), seq![',']);
        lemma_join_one_line(compact_items(items.drop_last()) + seq![','], compact(items.last()));
    }
}

proof fn lemma_members_one_line(keys: Seq<Seq<char>>, vals: Seq<JsonV>)
    requires
        items_one_line(vals),
    ensures
        one_line(compact_members(keys, vals)),
    decreases vals,
{
    if vals.len() > 0 {
        let k = quoted(keys[vals.len() - 1]);
        lemma_quoted_one_line(keys[vals.len() - 1]);
        compact_text_is_one_line(vals.last());
        lemma_join_one_line(k, seq![':']);
        lemma_join_one_line(k + seq![':'], compact(vals.last()));
        let entry = k + seq![':'] + compact(vals.last());
        if vals.len() > 1 {
            lemma_members_one_line(keys.drop_last(), vals.drop_last());
            let rest = compact_members(keys.drop_last(), vals.drop_last());
            lemma_join_one_line(rest, seq![',']);
            lemma_join_one_line(rest + seq![','], entry);
        }
    }
}

/// Compact JSON text fits on one line, as long as the document's numbers
/// are written without a line feed: strings escape their line feeds, and
/// nothing else puts one in. The stdio transport relies on this to send
/// one answer per line.
pub proof fn compact_text_is_one_line(v: JsonV)
    requires
        numbers_one_line(v),
    ensures
        one_line(compact(v)),
    decreases v,
{
    match v {
        JsonV::Null => {
            reveal_strlit("null");
        },
        JsonV::Bool(b) => {
            reveal_strlit("true");
            reveal_strlit("false");
        },
        JsonV::Number(t, _) => {},
        JsonV::Str(s) => {
            lemma_quoted_one_line(s);
        },
        JsonV::Array(items) => {
            lemma_items_one_line(items);
            lemma_join_one_line(seq!['['], compact_items(items));
            lemma_join_one_line(seq!['['] + compact_items(items), seq![']']);
        },
        JsonV::Object(keys, vals) => {
            lemma_members_one_line(keys, vals);
            lemma_join_one_line(seq!['{'], compact_members(keys, vals));
            lemma_join_one_line(seq!['{'] + compact_members(keys, vals), seq!['}']);
        },
    }
}

} // verus!
