//! Human-readable rendering of log entries, search results, index lists
//! and log context, with Elastic Common Schema fields shown first.
use vstd::prelude::*;
use vstd::string::StringSliceAdditionalSpecFns;
use vstd::utf8::{decode_utf8, encode_utf8, encode_utf8_decode_utf8, is_char_boundary};

use crate::kibana::{infos_view, IndexInfo, IndexInfoV, SearchResponse};
use crate::json::{lemma_items_view, items_view, member, lemma_member_values, member_keys, member_values, Json, JsonV};
use crate::render::{array_to_compact, compact, to_compact};
use crate::text::{decimal, owned, str_eq, u64_text};

verus! {

broadcast use vstd::std_specs::vec::group_vec_axioms;

/// How a field value is shown as a headline field: strings as they are,
/// `null` not at all, anything else as compact JSON.
pub open spec fn shown(v: JsonV) -> Option<Seq<char>> {
    match v {
        JsonV::Str(s) => Some(s),
        JsonV::Null => None,
        _ => Some(compact(v)),
    }
}

/// The shown text of the member `field` of `source`.
pub open spec fn field_text(source: JsonV, field: Seq<char>) -> Option<Seq<char>> {
    match member(source, field) {
        Some(v) => shown(v),
        None => None,
    }
}

/// The value reached from `v` by following the keys of `path`.
pub open spec fn nested_value(v: JsonV, path: Seq<Seq<char>>) -> Option<JsonV>
    decreases path.len(),
{
    if path.len() == 0 {
        Some(v)
    } else {
        match member(v, path[0]) {
            Some(x) => nested_value(x, path.drop_first()),
            None => None,
        }
    }
}

/// The shown text of the value reached by following `path`.
pub open spec fn nested_text(v: JsonV, path: Seq<Seq<char>>) -> Option<Seq<char>> {
    match nested_value(v, path) {
        Some(x) => shown(x),
        None => None,
    }
}

fn shown_value(v: &Json) -> (r: Option<String>)
    ensures
        r is Some <==> shown(v@) is Some,
        r matches Some(t) ==> shown(v@) == Some(t@),
{
    match v {
        Json::Str(s) => Some(s.clone()),
        Json::Null => None,
        _ => Some(to_compact(v)),
    }
}

/// The shown text of the member `field` of `source`, if it has one.
pub fn get_field(source: &Json, field: &str) -> (r: Option<String>)
    ensures
        r is Some <==> field_text(source@, field@) is Some,
        r matches Some(t) ==> field_text(source@, field@) == Some(t@),
{
    match source.get(field) {
        Some(v) => shown_value(v),
        None => None,
    }
}

/// The views of a sequence of string slices.
pub open spec fn path_view(path: Seq<&str>) -> Seq<Seq<char>> {
    Seq::new(path.len(), |i: int| path[i]@)
}

/// The shown text of the value reached from `source` by following `path`.
pub fn get_nested_field(source: &Json, path: &[&str]) -> (r: Option<String>)
    ensures
        r is Some <==> nested_text(source@, path_view(path@)) is Some,
        r matches Some(t) ==> nested_text(source@, path_view(path@)) == Some(t@),
{
    let ghost p = path_view(path@);
    let mut current: &Json = source;
    let mut i: usize = 0;
    assert(p.skip(0) =~= p);
    while i < path.len()
        invariant
            i <= path.len(),
            p == path_view(path@),
            nested_value(source@, p) == nested_value(current@, p.skip(i as int)),
        decreases path.len() - i,
    {
        proof {
            assert(p.skip(i as int)[0] == path@[i as int]@);
            assert(p.skip(i as int).drop_first() =~= p.skip(i + 1));
        }
        match current.get(path[i]) {
            Some(next) => {
                current = next;
            },
            None => {
                return None;
            },
        }
        i = i + 1;
    }
    assert(p.skip(path.len() as int).len() == 0);
    shown_value(current)
}

/// The first available of two optional texts.
pub open spec fn either(a: Option<Seq<char>>, b: Option<Seq<char>>) -> Option<Seq<char>> {
    if a is Some {
        a
    } else {
        b
    }
}

/// `pre`, the text and `post` when there is a text; nothing otherwise.
pub open spec fn opt_piece(pre: Seq<char>, v: Option<Seq<char>>, post: Seq<char>) -> Seq<char> {
    match v {
        Some(t) => pre + t + post,
        None => Seq::empty(),
    }
}

/// `pre`, the text and `post` when the text is not empty; nothing otherwise.
pub open spec fn nonempty_piece(pre: Seq<char>, t: Seq<char>, post: Seq<char>) -> Seq<char> {
    if t.len() > 0 {
        pre + t + post
    } else {
        Seq::empty()
    }
}

fn append_opt(out: &mut String, pre: &str, v: &Option<String>, post: &str)
    ensures
        final(out)@ == old(out)@ + opt_piece(
            pre@,
            match v {
                Some(t) => Some(t@),
                None => None,
            },
            post@,
        ),
{
    match v {
        Some(t) => {
            out.append(pre);
            out.append(t.as_str());
            out.append(post);
            assert(final(out)@ =~= old(out)@ + (pre@ + t@ + post@));
        },
        None => {
            assert(out@ =~= old(out)@ + Seq::<char>::empty());
        },
    }
}

fn append_nonempty(out: &mut String, pre: &str, t: &str, post: &str)
    ensures
        final(out)@ == old(out)@ + nonempty_piece(pre@, t@, post@),
{
    if t.unicode_len() > 0 {
        out.append(pre);
        out.append(t);
        out.append(post);
        assert(final(out)@ =~= old(out)@ + (pre@ + t@ + post@));
    } else {
        assert(out@ =~= old(out)@ + Seq::<char>::empty());
    }
}

/// The document of a hit: its `_source` member, or the hit itself.
pub open spec fn hit_source(hit: JsonV) -> JsonV {
    match member(hit, "_source"@) {
        Some(s) => s,
        None => hit,
    }
}

/// The text of a string member of a hit, or the empty text.
pub open spec fn hit_label(hit: JsonV, key: Seq<char>) -> Seq<char> {
    match member(hit, key) {
        Some(JsonV::Str(s)) => s,
        _ => Seq::empty(),
    }
}

/// Keys shown in the headline of a hit, or left out of its extra fields.
pub open spec fn is_priority_key(k: Seq<char>) -> bool {
    ||| k == "@timestamp"@
    ||| k == "message"@
    ||| k == "level"@
    ||| k == "log"@
    ||| k == "host"@
    ||| k == "service"@
}

/// The members of an object that are not headline keys, in order.
pub open spec fn extra_fields(keys: Seq<Seq<char>>, vals: Seq<JsonV>) -> Seq<(Seq<char>, JsonV)>
    decreases keys.len(),
{
    if keys.len() == 0 {
        Seq::empty()
    } else {
        let rest = extra_fields(keys.drop_last(), vals.drop_last());
        if is_priority_key(keys.last()) {
            rest
        } else {
            rest.push((keys.last(), vals[keys.len() - 1]))
        }
    }
}

/// How an extra field's value is shown before truncation.
pub open spec fn display_text(v: JsonV) -> Seq<char> {
    match v {
        JsonV::Str(s) => s,
        _ => compact(v),
    }
}

/// Text longer than 200 bytes of UTF-8 is cut to its first 200 bytes and
/// marked with an ellipsis.
pub open spec fn truncated(t: Seq<char>) -> Seq<char> {
    let b = encode_utf8(t);
    if b.len() > 200 {
        decode_utf8(b.subrange(0, 200)) + "..."@
    } else {
        t
    }
}

/// Whether the text can be cut as `truncated` does: it is at most 200
/// bytes long, or byte 200 begins a character.
pub open spec fn cut_ok(t: Seq<char>) -> bool {
    let b = encode_utf8(t);
    b.len() <= 200 || is_char_boundary(b, 200)
}

/// The line for one extra field.
pub open spec fn extra_line(f: (Seq<char>, JsonV)) -> Seq<char> {
    "  "@ + f.0 + ": "@ + truncated(display_text(f.1)) + "\n"@
}

/// The lines for the first `n` extra fields.
pub open spec fn extra_lines(fields: Seq<(Seq<char>, JsonV)>, n: nat) -> Seq<char>
    decreases n,
{
    if n == 0 {
        Seq::empty()
    } else {
        extra_lines(fields, (n - 1) as nat) + extra_line(fields[n - 1])
    }
}

/// The number of extra fields that are listed.
pub open spec fn listed(count: nat) -> nat {
    if count < 5 {
        count
    } else {
        5
    }
}

/// The note on extra fields that are not listed.
pub open spec fn more_note(count: nat) -> Seq<char> {
    if count > 5 {
        "  ... and "@ + decimal((count - 5) as nat) + " more fields\n"@
    } else {
        Seq::empty()
    }
}

/// The extra-field section of a hit's document.
pub open spec fn extras_text(source: JsonV) -> Seq<char> {
    match source {
        JsonV::Object(keys, vals) => {
            let f = extra_fields(keys, vals);
            extra_lines(f, listed(f.len())) + more_note(f.len())
        },
        _ => Seq::empty(),
    }
}

/// Whether every listed extra field of a document can be cut where needed.
pub open spec fn extras_cuttable(source: JsonV) -> bool {
    match source {
        JsonV::Object(keys, vals) => fields_cuttable(extra_fields(keys, vals)),
        _ => true,
    }
}

/// Whether every listed field can be cut where needed.
pub open spec fn fields_cuttable(f: Seq<(Seq<char>, JsonV)>) -> bool {
    forall|i: int| 0 <= i < listed(f.len()) ==> cut_ok(display_text(#[trigger] f[i].1))
}

/// Whether every listed extra field of the hit can be cut where needed.
pub open spec fn hit_displayable(hit: JsonV) -> bool {
    extras_cuttable(hit_source(hit))
}

/// The ECS level of a document: `level`, else `log.level`.
pub open spec fn level_of(source: JsonV) -> Option<Seq<char>> {
    either(field_text(source, "level"@), nested_text(source, seq!["log"@, "level"@]))
}

/// The host of a document: `host.name`, else the nested `host` / `name`.
pub open spec fn host_of(source: JsonV) -> Option<Seq<char>> {
    either(field_text(source, "host.name"@), nested_text(source, seq!["host"@, "name"@]))
}

/// The service of a document: `service.name`, else the nested form.
pub open spec fn service_of(source: JsonV) -> Option<Seq<char>> {
    either(field_text(source, "service.name"@), nested_text(source, seq!["service"@, "name"@]))
}

/// The headline of a hit: timestamp, level and message.
pub open spec fn headline(source: JsonV) -> Seq<char> {
    opt_piece("["@, field_text(source, "@timestamp"@), "]"@) + opt_piece(
        " ["@,
        level_of(source),
        "]"@,
    ) + opt_piece(" "@, field_text(source, "message"@), Seq::empty()) + "\n"@
}

/// The metadata lines of a hit: index, id, host and service.
pub open spec fn metadata(hit: JsonV) -> Seq<char> {
    let source = hit_source(hit);
    nonempty_piece("  index: "@, hit_label(hit, "_index"@), "\n"@) + nonempty_piece(
        "  _id: "@,
        hit_label(hit, "_id"@),
        "\n"@,
    ) + opt_piece("  host: "@, host_of(source), "\n"@) + opt_piece(
        "  service: "@,
        service_of(source),
        "\n"@,
    )
}

/// The rendering of one search hit.
pub open spec fn hit_text(hit: JsonV) -> Seq<char> {
    headline(hit_source(hit)) + metadata(hit) + extras_text(hit_source(hit))
}

} // verus!

verus! {

/// The shown text of an optional value's view.
pub open spec fn opt_view(v: Option<String>) -> Option<Seq<char>> {
    match v {
        Some(t) => Some(t@),
        None => None,
    }
}

fn is_priority(k: &str) -> (r: bool)
    ensures
        r == is_priority_key(k@),
{
    str_eq(k, "@timestamp") || str_eq(k, "message") || str_eq(k, "level") || str_eq(k, "log")
        || str_eq(k, "host") || str_eq(k, "service")
}

fn display_value(v: &Json) -> (r: String)
    ensures
        r@ == display_text(v@),
{
    match v {
        Json::Str(s) => s.clone(),
        _ => to_compact(v),
    }
}

fn truncate_display(t: String) -> (r: String)
    requires
        cut_ok(t@),
    ensures
        r@ == truncated(t@),
{
    let n = t.as_str().as_bytes().len();
    if n > 200 {
        let (head, _rest) = t.as_str().split_at(200);
        proof {
            encode_utf8_decode_utf8(head@);
            assert(head.spec_bytes() =~= encode_utf8(t@).subrange(0, 200));
            assert(decode_utf8(encode_utf8(t@).subrange(0, 200)) == head@);
        }
        let mut r = owned(head);
        r.append("...");
        assert(r@ == truncated(t@));
        r
    } else {
        t
    }
}

/// Positions of the extra fields among an object's members.
fn extra_positions(m: &Vec<(String, Json)>) -> (idx: Vec<usize>)
    ensures
        ({
            let f = extra_fields(member_keys(m@), member_values(m@));
            &&& idx.len() == f.len()
            &&& forall|j: int|
                0 <= j < idx.len() ==> #[trigger] idx@[j] < m.len() && f[j] == (
                    m@[idx@[j] as int].0@,
                    m@[idx@[j] as int].1@,
                )
        }),
{
    let ghost keys = member_keys(m@);
    let ghost vals = member_values(m@);
    proof {
        lemma_member_values(m@);
    }
    let mut idx: Vec<usize> = Vec::new();
    let mut i: usize = 0;
    while i < m.len()
        invariant
            i <= m.len(),
            keys == member_keys(m@),
            vals == member_values(m@),
            vals.len() == m.len(),
            forall|k: int| 0 <= k < m.len() ==> #[trigger] vals[k] == m@[k].1@,
            ({
                let f = extra_fields(keys.take(i as int), vals.take(i as int));
                &&& idx.len() == f.len()
                &&& forall|j: int|
                    0 <= j < idx.len() ==> #[trigger] idx@[j] < i && f[j] == (
                        m@[idx@[j] as int].0@,
                        m@[idx@[j] as int].1@,
                    )
            }),
        decreases m.len() - i,
    {
        let ghost old_idx = idx@;
        let p = is_priority(m[i].0.as_str());
        if !p {
            idx.push(i);
        }
        proof {
            let tk = keys.take(i + 1);
            let tv = vals.take(i + 1);
            assert(tk.drop_last() =~= keys.take(i as int));
            assert(tv.drop_last() =~= vals.take(i as int));
            assert(tk.last() == m@[i as int].0@);
            assert(tv[i as int] == m@[i as int].1@);
        }
        i = i + 1;
    }
    assert(keys.take(m.len() as int) =~= keys);
    assert(vals.take(m.len() as int) =~= vals);
    idx
}

fn write_extras(source: &Json, out: &mut String)
    requires
        extras_cuttable(source@),
    ensures
        final(out)@ == old(out)@ + extras_text(source@),
{
    match source {
        Json::Object(m) => {
            let ghost f = extra_fields(member_keys(m@), member_values(m@));
            let idx = extra_positions(m);
            let count = idx.len();
            let shown_count: usize = if count < 5 {
                count
            } else {
                5
            };
            let ghost start = out@;
            let mut j: usize = 0;
            while j < shown_count
                invariant
                    j <= shown_count,
                    shown_count == listed(f.len()),
                    idx.len() == f.len(),
                    forall|k: int|
                        0 <= k < idx.len() ==> #[trigger] idx@[k] < m.len() && f[k] == (
                            m@[idx@[k] as int].0@,
                            m@[idx@[k] as int].1@,
                        ),
                    forall|k: int| 0 <= k < listed(f.len()) ==> cut_ok(display_text(#[trigger] f[k].1)),
                    out@ == start + extra_lines(f, j as nat),
                decreases shown_count - j,
            {
                let p = idx[j];
                let d = display_value(&m[p].1);
                assert(f[j as int].1 == m@[p as int].1@);
                let t = truncate_display(d);
                out.append("  ");
                out.append(m[p].0.as_str());
                out.append(": ");
                out.append(t.as_str());
                out.append("\n");
                proof {
                    assert(extra_line(f[j as int]) =~= "  "@ + m@[p as int].0@ + ": "@ + t@ + "\n"@);
                    assert(out@ =~= start + extra_lines(f, j as nat) + extra_line(f[j as int]));
                }
                j = j + 1;
            }
            if count > 5 {
                let more = u64_text((count - 5) as u64);
                out.append("  ... and ");
                out.append(more.as_str());
                out.append(" more fields\n");
                assert(out@ =~= start + extra_lines(f, listed(f.len())) + more_note(f.len()));
            } else {
                assert(out@ =~= start + extra_lines(f, listed(f.len())) + more_note(f.len()));
            }
        },
        _ => {
            assert(out@ =~= old(out)@ + Seq::<char>::empty());
        },
    }
}

/// Whether every listed extra field of the hit can be cut where needed.
pub fn is_hit_displayable(hit: &Json) -> (r: bool)
    ensures
        r == hit_displayable(hit@),
{
    let source: &Json = match hit.get("_source") {
        Some(s) => s,
        None => hit,
    };
    match source {
        Json::Object(m) => {
            let ghost f = extra_fields(member_keys(m@), member_values(m@));
            let idx = extra_positions(m);
            let count = idx.len();
            let shown_count: usize = if count < 5 {
                count
            } else {
                5
            };
            assert(source@ == hit_source(hit@));
            assert(source@ == JsonV::Object(member_keys(m@), member_values(m@)));
            let mut j: usize = 0;
            while j < shown_count
                invariant
                    j <= shown_count,
                    shown_count == listed(f.len()),
                    idx.len() == f.len(),
                    forall|k: int|
                        0 <= k < idx.len() ==> #[trigger] idx@[k] < m.len() && f[k] == (
                            m@[idx@[k] as int].0@,
                            m@[idx@[k] as int].1@,
                        ),
                    forall|k: int| 0 <= k < j ==> cut_ok(display_text(#[trigger] f[k].1)),
                    hit_displayable(hit@) == fields_cuttable(f),
                decreases shown_count - j,
            {
                let p = idx[j];
                let d = display_value(&m[p].1);
                assert(f[j as int].1 == m@[p as int].1@);
                let n = d.as_str().as_bytes().len();
                if n > 200 && !d.as_str().is_char_boundary(200) {
                    assert(!cut_ok(display_text(f[j as int].1)));
                    return false;
                }
                assert(cut_ok(display_text(f[j as int].1)));
                j = j + 1;
            }
            true
        },
        _ => true,
    }
}

fn write_headline(source: &Json, out: &mut String)
    ensures
        final(out)@ == old(out)@ + headline(source@),
{
    let timestamp = get_field(source, "@timestamp");
    let message = get_field(source, "message");
    let level = ecs_field(source, "level", "log", "level");
    let ghost start = out@;
    append_opt(out, "[", &timestamp, "]");
    append_opt(out, " [", &level, "]");
    append_opt(out, " ", &message, "");
    out.append("\n");
    proof {
        reveal_strlit("");
    }
    assert(out@ =~= start + headline(source@));
}

fn label_of(hit: &Json, key: &str) -> (r: String)
    ensures
        r@ == hit_label(hit@, key@),
{
    match hit.get(key) {
        Some(v) => match v.as_str() {
            Some(s) => s.clone(),
            None => String::new(),
        },
        None => String::new(),
    }
}

/// The shown text of the flat field `flat`, else of the nested `outer` /
/// `inner` field.
fn ecs_field(source: &Json, flat: &str, outer: &str, inner: &str) -> (r: Option<String>)
    ensures
        opt_view(r) == either(field_text(source@, flat@), nested_text(source@, seq![outer@, inner@])),
{
    match get_field(source, flat) {
        Some(h) => Some(h),
        None => {
            let path = [outer, inner];
            let r = get_nested_field(source, &path);
            assert(path_view(path@) =~= seq![outer@, inner@]);
            r
        },
    }
}

fn write_metadata(hit: &Json, source: &Json, out: &mut String)
    requires
        source@ == hit_source(hit@),
    ensures
        final(out)@ == old(out)@ + metadata(hit@),
{
    let index = label_of(hit, "_index");
    let doc_id = label_of(hit, "_id");
    let host = ecs_field(source, "host.name", "host", "name");
    let service = ecs_field(source, "service.name", "service", "name");
    let ghost start = out@;
    append_nonempty(out, "  index: ", index.as_str(), "\n");
    append_nonempty(out, "  _id: ", doc_id.as_str(), "\n");
    append_opt(out, "  host: ", &host, "\n");
    append_opt(out, "  service: ", &service, "\n");
    assert(out@ =~= start + metadata(hit@));
}

/// The rendering of one search hit: a headline with timestamp, level and
/// message, the index, id, host and service, and up to five other fields.
pub fn format_hit(hit: &Json) -> (r: String)
    requires
        hit_displayable(hit@),
    ensures
        r@ == hit_text(hit@),
{
    let source: &Json = match hit.get("_source") {
        Some(s) => s,
        None => hit,
    };
    let mut out = String::new();
    write_headline(source, &mut out);
    write_metadata(hit, source, &mut out);
    write_extras(source, &mut out);
    assert(out@ =~= hit_text(hit@));
    out
}

} // verus!

verus! {

/// Each hit rendered and followed by an empty line.
pub open spec fn hits_text(hits: Seq<JsonV>) -> Seq<char>
    decreases hits.len(),
{
    if hits.len() == 0 {
        Seq::empty()
    } else {
        hits_text(hits.drop_last()) + hit_text(hits.last()) + "\n"@
    }
}

/// Whether every hit can be rendered.
pub open spec fn hits_displayable(hits: Seq<JsonV>) -> bool {
    forall|i: int| 0 <= i < hits.len() ==> hit_displayable(#[trigger] hits[i])
}

/// Appends the rendering of each hit, each followed by a line break.
pub fn write_hits(hits: &Vec<Json>, out: &mut String)
    requires
        hits_displayable(items_view(hits@)),
    ensures
        final(out)@ == old(out)@ + hits_text(items_view(hits@)),
{
    let ghost items = items_view(hits@);
    proof {
        lemma_items_view(hits@);
    }
    let ghost start = out@;
    let mut i: usize = 0;
    while i < hits.len()
        invariant
            i <= hits.len(),
            items == items_view(hits@),
            items.len() == hits.len(),
            forall|k: int| 0 <= k < hits.len() ==> #[trigger] items[k] == hits@[k]@,
            hits_displayable(items),
            out@ == start + hits_text(items.take(i as int)),
        decreases hits.len() - i,
    {
        assert(hit_displayable(items[i as int]));
        let t = format_hit(&hits[i]);
        out.append(t.as_str());
        out.append("\n");
        proof {
            let tk = items.take(i + 1);
            assert(tk.drop_last() =~= items.take(i as int));
            assert(tk.last() == hits@[i as int]@);
            assert(out@ =~= start + hits_text(tk));
        }
        i = i + 1;
    }
    assert(items.take(hits.len() as int) =~= items);
}

/// Whether every hit can be rendered.
pub fn are_hits_displayable(hits: &Vec<Json>) -> (r: bool)
    ensures
        r == hits_displayable(items_view(hits@)),
{
    let ghost items = items_view(hits@);
    proof {
        lemma_items_view(hits@);
    }
    let mut i: usize = 0;
    while i < hits.len()
        invariant
            i <= hits.len(),
            items == items_view(hits@),
            items.len() == hits.len(),
            forall|k: int| 0 <= k < hits.len() ==> #[trigger] items[k] == hits@[k]@,
            forall|k: int| 0 <= k < i ==> hit_displayable(#[trigger] items[k]),
        decreases hits.len() - i,
    {
        if !is_hit_displayable(&hits[i]) {
            assert(!hit_displayable(items[i as int]));
            return false;
        }
        i = i + 1;
    }
    true
}

/// The note that offers the cursor for the next page.
pub open spec fn cursor_note(cursor: Option<Seq<JsonV>>) -> Seq<char> {
    match cursor {
        Some(items) => "\nUse cursor "@ + compact(JsonV::Array(items)) + " for next page.\n"@,
        None => Seq::empty(),
    }
}

/// The rendering of a page of search results.
pub open spec fn search_text(
    total: u64,
    took_ms: u64,
    hits: Seq<JsonV>,
    cursor: Option<Seq<JsonV>>,
) -> Seq<char> {
    "Found "@ + decimal(total as nat) + " results ("@ + decimal(took_ms as nat) + "ms). Showing "@
        + decimal(hits.len()) + ":\n\n"@ + hits_text(hits) + cursor_note(cursor)
}

/// The values of an optional sequence of documents.
pub open spec fn opt_items_view(c: Option<Vec<Json>>) -> Option<Seq<JsonV>> {
    match c {
        Some(v) => Some(items_view(v@)),
        None => None,
    }
}

/// Renders a page of search results: the counts, each hit, and the cursor
/// for the next page when there is one.
pub fn format_search_response(response: &SearchResponse) -> (r: String)
    requires
        hits_displayable(response@.hits),
    ensures
        r@ == search_text(response@.total, response@.took_ms, response@.hits, response@.next_cursor),
{
    let total = response.total;
    let took_ms = response.took_ms;
    let hits = &response.hits;
    let next_cursor = &response.next_cursor;
    proof {
        lemma_items_view(hits@);
    }
    let mut out = String::new();
    out.append("Found ");
    out.append(u64_text(total).as_str());
    out.append(" results (");
    out.append(u64_text(took_ms).as_str());
    out.append("ms). Showing ");
    out.append(u64_text(hits.len() as u64).as_str());
    out.append(":\n\n");
    write_hits(hits, &mut out);
    match next_cursor {
        Some(c) => {
            let ct = array_to_compact(c);
            out.append("\nUse cursor ");
            out.append(ct.as_str());
            out.append(" for next page.\n");
        },
        None => {},
    }
    assert(out@ =~= search_text(total, took_ms, items_view(hits@), opt_items_view(*next_cursor)));
    out
}

/// The rendering of a log entry with the entries around it.
pub open spec fn context_text(before: Seq<JsonV>, target: JsonV, after: Seq<JsonV>) -> Seq<char> {
    (if before.len() > 0 {
        "--- Before ---\n"@ + hits_text(before) + "\n"@
    } else {
        Seq::empty()
    }) + ">>> Target document <<<\n"@ + hit_text(target) + "\n"@ + (if after.len() > 0 {
        "\n--- After ---\n"@ + hits_text(after)
    } else {
        Seq::empty()
    })
}

/// Renders a log entry with the entries before and after it.
pub fn format_context(before: &Vec<Json>, target: &Json, after: &Vec<Json>) -> (r: String)
    requires
        hits_displayable(items_view(before@)),
        hit_displayable(target@),
        hits_displayable(items_view(after@)),
    ensures
        r@ == context_text(items_view(before@), target@, items_view(after@)),
{
    proof {
        lemma_items_view(before@);
        lemma_items_view(after@);
    }
    let mut out = String::new();
    if before.len() > 0 {
        out.append("--- Before ---\n");
        write_hits(before, &mut out);
        out.append("\n");
    }
    let ghost first = out@;
    assert(first =~= (if items_view(before@).len() > 0 {
        "--- Before ---\n"@ + hits_text(items_view(before@)) + "\n"@
    } else {
        Seq::<char>::empty()
    }));
    out.append(">>> Target document <<<\n");
    out.append(format_hit(target).as_str());
    out.append("\n");
    let ghost second = out@;
    if after.len() > 0 {
        out.append("\n--- After ---\n");
        write_hits(after, &mut out);
    }
    assert(out@ =~= context_text(items_view(before@), target@, items_view(after@)));
    out
}

} // verus!

verus! {

/// The line for one index: its name, and its document count and store
/// size when known.
pub open spec fn index_line(i: IndexInfoV) -> Seq<char> {
    "- "@ + i.0 + (match i.1 {
        Some(c) => " ("@ + c + " docs"@ + (match i.2 {
            Some(s) => ", "@ + s,
            None => Seq::empty(),
        }) + ")"@,
        None => Seq::empty(),
    }) + "\n"@
}

/// The lines for a sequence of indices.
pub open spec fn index_lines(s: Seq<IndexInfoV>) -> Seq<char>
    decreases s.len(),
{
    if s.len() == 0 {
        Seq::empty()
    } else {
        index_lines(s.drop_last()) + index_line(s.last())
    }
}

/// The rendering of an index listing.
pub open spec fn indices_text(s: Seq<IndexInfoV>) -> Seq<char> {
    if s.len() == 0 {
        "No indices found."@
    } else {
        "Found "@ + decimal(s.len()) + " indices:\n\n"@ + index_lines(s)
    }
}

fn write_index_line(i: &IndexInfo, out: &mut String)
    ensures
        final(out)@ == old(out)@ + index_line(i@),
{
    let ghost start = out@;
    out.append("- ");
    out.append(i.name.as_str());
    let ghost mid = out@;
    match &i.docs_count {
        Some(c) => {
            out.append(" (");
            out.append(c.as_str());
            out.append(" docs");
            match &i.store_size {
                Some(s) => {
                    out.append(", ");
                    out.append(s.as_str());
                },
                None => {},
            }
            out.append(")");
        },
        None => {},
    }
    out.append("\n");
    assert(out@ =~= start + index_line(i@));
}

/// Renders an index listing: a count and one line per index.
pub fn format_indices(indices: &Vec<IndexInfo>) -> (r: String)
    ensures
        r@ == indices_text(infos_view(indices@)),
{
    let ghost s = infos_view(indices@);
    if indices.len() == 0 {
        return owned("No indices found.");
    }
    let mut out = owned("Found ");
    out.append(u64_text(indices.len() as u64).as_str());
    out.append(" indices:\n\n");
    let ghost start = out@;
    let mut i: usize = 0;
    while i < indices.len()
        invariant
            i <= indices.len(),
            s == infos_view(indices@),
            out@ == start + index_lines(s.take(i as int)),
        decreases indices.len() - i,
    {
        write_index_line(&indices[i], &mut out);
        proof {
            let t = s.take(i + 1);
            assert(t.drop_last() =~= s.take(i as int));
        }
        i = i + 1;
    }
    assert(s.take(indices.len() as int) =~= s);
    out
}

} // verus!

verus! {

/// The members of an object document as key and value pairs, in order.
pub open spec fn members_of(keys: Seq<Seq<char>>, vals: Seq<JsonV>) -> Seq<(Seq<char>, JsonV)> {
    Seq::new(vals.len(), |i: int| (keys[i], vals[i]))
}

/// The members of an object document whose key is not a headline key, in
/// document order.
pub open spec fn non_headline_members(keys: Seq<Seq<char>>, vals: Seq<JsonV>) -> Seq<
    (Seq<char>, JsonV),
> {
    members_of(keys, vals).filter(|m: (Seq<char>, JsonV)| !is_priority_key(m.0))
}

/// The line that lists one field: two spaces, the key, `: `, and the value
/// (a string as it is, anything else as compact JSON), cut to its first
/// 200 bytes and marked with `...` when longer.
pub open spec fn field_line(key: Seq<char>, value: JsonV) -> Seq<char> {
    "  "@ + key + ": "@ + truncated(display_text(value)) + "\n"@
}

/// The note that follows the listed fields: `  ... and N more fields` when
/// N > 0 fields are left unlisted, nothing otherwise.
pub open spec fn unlisted_note(count: nat) -> Seq<char> {
    if count > 5 {
        "  ... and "@ + decimal((count - 5) as nat) + " more fields\n"@
    } else {
        Seq::empty()
    }
}

proof fn lemma_extra_fields_filter(keys: Seq<Seq<char>>, vals: Seq<JsonV>)
    requires
        keys.len() == vals.len(),
    ensures
        extra_fields(keys, vals) == non_headline_members(keys, vals),
    decreases keys.len(),
{
    reveal(Seq::filter);
    if keys.len() > 0 {
        lemma_extra_fields_filter(keys.drop_last(), vals.drop_last());
        let m = members_of(keys, vals);
        assert(m.drop_last() =~= members_of(keys.drop_last(), vals.drop_last()));
        assert(m.last() == (keys.last(), vals[keys.len() - 1]));
        let rest = non_headline_members(keys.drop_last(), vals.drop_last());
        if is_priority_key(keys.last()) {
            assert(non_headline_members(keys, vals) == rest);
        } else {
            assert(non_headline_members(keys, vals) == rest.push(m.last()));
        }
    } else {
        assert(members_of(keys, vals) =~= Seq::<(Seq<char>, JsonV)>::empty());
    }
}

proof fn lemma_extra_lines_flat(f: Seq<(Seq<char>, JsonV)>, n: nat)
    requires
        n <= f.len(),
    ensures
        extra_lines(f, n) == Seq::new(n, |i: int| field_line(f[i].0, f[i].1)).flatten(),
    decreases n,
{
    let lines = Seq::new(n, |i: int| field_line(f[i].0, f[i].1));
    lines.lemma_flatten_and_flatten_alt_are_equivalent();
    if n > 0 {
        lemma_extra_lines_flat(f, (n - 1) as nat);
        let shorter = Seq::new((n - 1) as nat, |i: int| field_line(f[i].0, f[i].1));
        assert(lines.drop_last() =~= shorter);
        shorter.lemma_flatten_and_flatten_alt_are_equivalent();
        assert(lines.last() == extra_line(f[n - 1]));
    } else {
        assert(lines =~= Seq::<Seq<char>>::empty());
    }
}

/// How a hit's fields beyond its headline are listed. Its document is its
/// `_source`, else the hit itself. Of the document's members whose key is
/// not `@timestamp`, `message`, `level`, `log`, `host` or `service`, in
/// document order, the first five (all of them when fewer) are listed one
/// line each, and `  ... and N more fields` follows exactly when N more are
/// left. This listing ends the hit's text.
pub proof fn hit_extra_fields(hit: JsonV, keys: Seq<Seq<char>>, vals: Seq<JsonV>)
    requires
        hit_source(hit) == JsonV::Object(keys, vals),
        keys.len() == vals.len(),
    ensures
        ({
            let f = non_headline_members(keys, vals);
            let shown = if f.len() < 5 {
                f.len()
            } else {
                5
            };
            hit_text(hit) == headline(hit_source(hit)) + metadata(hit) + Seq::new(
                shown,
                |i: int| field_line(f[i].0, f[i].1),
            ).flatten() + unlisted_note(f.len())
        }),
{
    lemma_extra_fields_filter(keys, vals);
    let f = extra_fields(keys, vals);
    lemma_extra_lines_flat(f, listed(f.len()));
}

} // verus!
