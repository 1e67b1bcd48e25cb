//! Serialization of a `JsonVal` to compact JSON text.
//!
//! The output format matches the common compact form: no whitespace, strings
//! with `\"`, `\\`, `\b`, `\t`, `\n`, `\f`, `\r` and `\u00xx` escapes for the
//! remaining control characters. A `Num` is emitted as the literal text it
//! carries, which is where the parser put the number's rendering.

use crate::json::{
    entries_view, items_view, lemma_entries_view_index, lemma_items_view_index, JsonVal, JsonView,
};
use crate::text::push_char;
use vstd::prelude::*;

verus! {

broadcast use vstd::std_specs::vec::group_vec_axioms;

/// The lower-case hexadecimal digit for a value below sixteen.
pub open spec fn hex_digit(n: int) -> char {
    if n < 10 {
        ((48 + n) as u8) as char
    } else {
        ((87 + n) as u8) as char
    }
}

fn hex_digit_exec(n: u8) -> (r: char)
    requires
        n < 16,
    ensures
        r == hex_digit(n as int),
{
    if n < 10 {
        (48 + n) as char
    } else {
        (87 + n) as char
    }
}

/// The JSON rendering of one character inside a string literal.
pub open spec fn escaped_char(c: char) -> Seq<char> {
    if c == '"' {
        "\\\""@
    } else if c == '\\' {
        "\\\\"@
    } else if c == '\u{8}' {
        "\\b"@
    } else if c == '\t' {
        "\\t"@
    } else if c == '\n' {
        "\\n"@
    } else if c == '\u{c}' {
        "\\f"@
    } else if c == '\r' {
        "\\r"@
    } else if (c as u32) < 32 {
        "\\u00"@ + seq![hex_digit((c as u32) as int / 16), hex_digit((c as u32) as int % 16)]
    } else {
        seq![c]
    }
}

/// The JSON rendering of a whole string body, character by character.
pub open spec fn escaped_chars(s: Seq<char>) -> Seq<char>
    decreases s.len(),
{
    if s.len() == 0 {
        Seq::empty()
    } else {
        escaped_char(s[0]) + escaped_chars(s.drop_first())
    }
}

proof fn lemma_escaped_chars_push(s: Seq<char>, c: char)
    ensures
        escaped_chars(s.push(c)) == escaped_chars(s) + escaped_char(c),
    decreases s.len(),
{
    if s.len() == 0 {
        assert(s.push(c) =~= seq![c]);
        assert(s.push(c).drop_first() =~= Seq::<char>::empty());
        assert(escaped_chars(Seq::<char>::empty()) == Seq::<char>::empty());
        assert(escaped_chars(s.push(c)) == escaped_char(c) + escaped_chars(
            Seq::<char>::empty(),
        ));
        assert(escaped_char(c) + Seq::<char>::empty() =~= escaped_char(c));
        assert(escaped_chars(s) + escaped_char(c) =~= escaped_char(c));
    } else {
        lemma_escaped_chars_push(s.drop_first(), c);
        assert(s.push(c).drop_first() =~= s.drop_first().push(c));
        assert(s.push(c)[0] == s[0]);
        assert(escaped_char(s[0]) + (escaped_chars(s.drop_first()) + escaped_char(c)) =~= (
        escaped_char(s[0]) + escaped_chars(s.drop_first())) + escaped_char(c));
    }
}

fn escape_char_into(out: &mut String, c: char)
    ensures
        final(out)@ == old(out)@ + escaped_char(c),
{
    if c == '"' {
        out.append("\\\"");
    } else if c == '\\' {
        out.append("\\\\");
    } else if c == '\u{8}' {
        out.append("\\b");
    } else if c == '\t' {
        out.append("\\t");
    } else if c == '\n' {
        out.append("\\n");
    } else if c == '\u{c}' {
        out.append("\\f");
    } else if (c as u32) < 32 {
        if c == '\r' {
            out.append("\\r");
        } else {
            let u = c as u32;
            out.append("\\u00");
            push_char(out, hex_digit_exec((u / 16) as u8));
            push_char(out, hex_digit_exec((u % 16) as u8));
            proof {
                assert(old(out)@ + "\\u00"@ + seq![
                    hex_digit(u as int / 16),
                    hex_digit(u as int % 16),
                ] =~= old(out)@ + escaped_char(c));
            }
        }
    } else {
        push_char(out, c);
        proof {
            assert(old(out)@.push(c) =~= old(out)@ + seq![c]);
        }
    }
}

fn escape_into(out: &mut String, s: &str)
    ensures
        final(out)@ == old(out)@ + escaped_chars(s@),
{
    let n = s.unicode_len();
    let mut i: usize = 0;
    while i < n
        invariant
            n == s@.len(),
            i <= n,
            out@ == old(out)@ + escaped_chars(s@.take(i as int)),
        decreases n - i,
    {
        let c = s.get_char(i);
        escape_char_into(out, c);
        proof {
            lemma_escaped_chars_push(s@.take(i as int), c);
            assert(s@.take(i as int).push(c) =~= s@.take(i + 1 as int));
            assert((old(out)@ + escaped_chars(s@.take(i as int))) + escaped_char(c) =~= old(out)@
                + escaped_chars(s@.take(i + 1 as int)));
        }
        i = i + 1;
    }
    proof {
        assert(s@.take(n as int) =~= s@);
    }
}

/// The compact JSON text of a value.
pub open spec fn spec_json_text(v: JsonView) -> Seq<char>
    decreases v,
{
    match v {
        JsonView::Null => "null"@,
        JsonView::Bool(b) => if b {
            "true"@
        } else {
            "false"@
        },
        JsonView::Num(s) => s,
        JsonView::Str(s) => "\""@ + escaped_chars(s) + "\""@,
        JsonView::Arr(items) => "["@ + spec_items_text(items) + "]"@,
        JsonView::Obj(es) => "{"@ + spec_entries_text(es) + "}"@,
    }
}

/// Array elements joined by commas.
pub open spec fn spec_items_text(items: Seq<JsonView>) -> Seq<char>
    decreases items,
{
    if items.len() == 0 {
        Seq::empty()
    } else if items.len() == 1 {
        spec_json_text(items[0])
    } else {
        spec_json_text(items[0]) + ","@ + spec_items_text(items.drop_first())
    }
}

/// Object entries joined by commas; each entry is the quoted, escaped key, a
/// colon, and the value.
pub open spec fn spec_entries_text(es: Seq<(Seq<char>, JsonView)>) -> Seq<char>
    decreases es,
{
    if es.len() == 0 {
        Seq::empty()
    } else if es.len() == 1 {
        "\""@ + escaped_chars(es[0].0) + "\":"@ + spec_json_text(es[0].1)
    } else {
        "\""@ + escaped_chars(es[0].0) + "\":"@ + spec_json_text(es[0].1) + ","@
            + spec_entries_text(es.drop_first())
    }
}

/// The text of one object entry: the quoted, escaped key, a colon, the value.
pub open spec fn spec_entry_text(k: Seq<char>, v: JsonView) -> Seq<char> {
    "\""@ + escaped_chars(k) + "\":"@ + spec_json_text(v)
}

proof fn lemma_items_text_push(items: Seq<JsonView>, x: JsonView)
    ensures
        spec_items_text(items.push(x)) == if items.len() == 0 {
            spec_json_text(x)
        } else {
            spec_items_text(items) + ","@ + spec_json_text(x)
        },
    decreases items.len(),
{
    if items.len() == 0 {
        assert(items.push(x) =~= seq![x]);
        assert(spec_items_text(seq![x]) == spec_json_text(x));
    } else if items.len() == 1 {
        assert(items.push(x).drop_first() =~= seq![x]);
        assert(items.push(x)[0] == items[0]);
        assert(spec_items_text(seq![x]) == spec_json_text(x));
        assert(spec_items_text(items) == spec_json_text(items[0]));
        assert(spec_items_text(items.push(x)) == spec_json_text(items[0]) + ","@
            + spec_items_text(seq![x]));
    } else {
        lemma_items_text_push(items.drop_first(), x);
        assert(items.push(x).drop_first() =~= items.drop_first().push(x));
        assert(items.push(x)[0] == items[0]);
        assert(spec_json_text(items[0]) + ","@ + (spec_items_text(items.drop_first()) + ","@
            + spec_json_text(x)) =~= (spec_json_text(items[0]) + ","@ + spec_items_text(
            items.drop_first(),
        )) + ","@ + spec_json_text(x));
    }
}

proof fn lemma_entries_text_push(es: Seq<(Seq<char>, JsonView)>, k: Seq<char>, v: JsonView)
    ensures
        spec_entries_text(es.push((k, v))) == if es.len() == 0 {
            spec_entry_text(k, v)
        } else {
            spec_entries_text(es) + ","@ + spec_entry_text(k, v)
        },
    decreases es.len(),
{
    if es.len() == 0 {
        assert(es.push((k, v)) =~= seq![(k, v)]);
        assert(spec_entries_text(seq![(k, v)]) == spec_entry_text(k, v));
    } else if es.len() == 1 {
        assert(es.push((k, v)).drop_first() =~= seq![(k, v)]);
        assert(es.push((k, v))[0] == es[0]);
        assert(spec_entries_text(seq![(k, v)]) == spec_entry_text(k, v));
        assert(spec_entries_text(es) == spec_entry_text(es[0].0, es[0].1));
        assert(spec_entries_text(es.push((k, v))) == spec_entry_text(es[0].0, es[0].1) + ","@
            + spec_entries_text(seq![(k, v)]));
    } else {
        lemma_entries_text_push(es.drop_first(), k, v);
        assert(es.push((k, v)).drop_first() =~= es.drop_first().push((k, v)));
        assert(es.push((k, v))[0] == es[0]);
        assert(spec_entry_text(es[0].0, es[0].1) + ","@ + (spec_entries_text(es.drop_first())
            + ","@ + spec_entry_text(k, v)) =~= (spec_entry_text(es[0].0, es[0].1) + ","@
            + spec_entries_text(es.drop_first())) + ","@ + spec_entry_text(k, v));
    }
}

/// Renders a value as compact JSON text.
pub fn json_text(v: &JsonVal) -> (r: String)
    ensures
        r@ == spec_json_text(v@),
    decreases v,
{
    match v {
        JsonVal::Null => {
            let mut r = String::new();
            r.append("null");
            r
        },
        JsonVal::Bool(b) => {
            let mut r = String::new();
            if *b {
                r.append("true");
            } else {
                r.append("false");
            }
            r
        },
        JsonVal::Num(s) => s.clone(),
        JsonVal::Str(s) => {
            let mut r = String::new();
            r.append("\"");
            escape_into(&mut r, s.as_str());
            r.append("\"");
            r
        },
        JsonVal::Arr(items) => {
            proof {
                lemma_items_view_index(items@);
            }
            let ghost iv = items_view(items@);
            let mut r = String::new();
            r.append("[");
            let mut i: usize = 0;
            while i < items.len()
                invariant
                    *v == JsonVal::Arr(*items),
                    iv == items_view(items@),
                    iv.len() == items@.len(),
                    forall|j: int| 0 <= j < items@.len() ==> iv[j] == items@[j]@,
                    i <= items@.len(),
                    r@ == "["@ + spec_items_text(iv.take(i as int)),
                decreases items@.len() - i,
            {
                proof {
                    assert(decreases_to!(*v => (*v)->Arr_0));
                    assert((*v)->Arr_0 == *items);
                    assert(decreases_to!(*items => items@[i as int]));
                }
                if i > 0 {
                    r.append(",");
                }
                let piece = json_text(&items[i]);
                r.append(piece.as_str());
                proof {
                    lemma_items_text_push(iv.take(i as int), iv[i as int]);
                    assert(iv.take(i as int).push(iv[i as int]) =~= iv.take(i + 1 as int));
                    if i > 0 {
                        assert((("["@ + spec_items_text(iv.take(i as int))) + ","@) + piece@ =~= "["@
                            + spec_items_text(iv.take(i + 1 as int)));
                    } else {
                        assert(("["@ + spec_items_text(iv.take(0 as int))) + piece@ =~= "["@
                            + spec_items_text(iv.take(1 as int)));
                    }
                }
                i = i + 1;
            }
            r.append("]");
            proof {
                assert(iv.take(items@.len() as int) =~= iv);
            }
            r
        },
        JsonVal::Obj(entries) => {
            proof {
                lemma_entries_view_index(entries@);
            }
            let ghost ev = entries_view(entries@);
            let mut r = String::new();
            r.append("{");
            let mut i: usize = 0;
            while i < entries.len()
                invariant
                    *v == JsonVal::Obj(*entries),
                    ev == entries_view(entries@),
                    ev.len() == entries@.len(),
                    forall|j: int|
                        0 <= j < entries@.len() ==> ev[j] == (entries@[j].0@, entries@[j].1@),
                    i <= entries@.len(),
                    r@ == "{"@ + spec_entries_text(ev.take(i as int)),
                decreases entries@.len() - i,
            {
                proof {
                    assert(decreases_to!(*v => (*v)->Obj_0));
                    assert((*v)->Obj_0 == *entries);
                    assert(decreases_to!(*entries => entries@[i as int]));
                    assert(decreases_to!(entries@[i as int] => entries@[i as int].1));
                }
                if i > 0 {
                    r.append(",");
                }
                r.append("\"");
                escape_into(&mut r, entries[i].0.as_str());
                r.append("\":");
                let piece = json_text(&entries[i].1);
                r.append(piece.as_str());
                proof {
                    lemma_entries_text_push(ev.take(i as int), ev[i as int].0, ev[i as int].1);
                    assert(ev.take(i as int).push((ev[i as int].0, ev[i as int].1)) =~= ev.take(
                        i + 1 as int,
                    ));
                    if i > 0 {
                        assert(((((("{"@ + spec_entries_text(ev.take(i as int))) + ","@) + "\""@
                            + escaped_chars(entries@[i as int].0@)) + "\":"@) + piece@) =~= "{"@
                            + spec_entries_text(ev.take(i + 1 as int)));
                    } else {
                        assert((((("{"@ + spec_entries_text(ev.take(0 as int))) + "\""@
                            + escaped_chars(entries@[i as int].0@)) + "\":"@) + piece@) =~= "{"@
                            + spec_entries_text(ev.take(1 as int)));
                    }
                }
                i = i + 1;
            }
            r.append("}");
            proof {
                assert(ev.take(entries@.len() as int) =~= ev);
            }
            r
        },
    }
}

} // verus!
