use vstd::prelude::*;
use vstd::string::*;
use crate::chunk::RecordData;
use crate::err::Error;
use crate::model::{XmlContent, XmlNode};
use crate::text::{dec_str, dec_str_signed, dec_u64, dec_i64, hex_char_upper, hex_to_char_upper,
    push_char, char_from_u32};
use crate::values::{BinXmlValue, value_renderable};
use crate::xml_output::{node_renderable, content_renderable, list_renderable};

verus! {

/// A JSON document: the structural image of one record.
#[derive(Debug)]
pub enum JsonValue {
    Null,
    Bool(bool),
    I64(i64),
    U64(u64),
    Str(String),
    Array(Vec<JsonValue>),
    Object(Vec<(String, JsonValue)>),
}

/// JSON string escaping: quote, backslash, and control characters.
pub open spec fn json_escape(s: Seq<char>) -> Seq<char>
    decreases s.len(),
{
    if s.len() == 0 {
        Seq::empty()
    } else {
        json_escape_char(s[0]) + json_escape(s.drop_first())
    }
}

pub open spec fn json_escape_char(c: char) -> Seq<char> {
    if c == '"' {
        seq!['\\', '"']
    } else if c == '\\' {
        seq!['\\', '\\']
    } else if (c as u32) < 0x20 {
        seq!['\\', 'u', '0', '0', hex_char_upper((c as u32 / 16) as nat), hex_char_upper(
            (c as u32 % 16) as nat,
        )]
    } else {
        seq![c]
    }
}

/// The compact text of a JSON value.
pub open spec fn json_text(v: JsonValue) -> Seq<char>
    decreases v,
{
    match v {
        JsonValue::Null => "null"@,
        JsonValue::Bool(b) => if b {
            "true"@
        } else {
            "false"@
        },
        JsonValue::I64(n) => dec_str_signed(n as int),
        JsonValue::U64(n) => dec_str(n as nat),
        JsonValue::Str(s) => seq!['"'] + json_escape(s@) + seq!['"'],
        JsonValue::Array(items) => seq!['['] + json_items_text(items@) + seq![']'],
        JsonValue::Object(entries) => seq!['{'] + json_entries_text(entries@) + seq!['}'],
    }
}

pub open spec fn json_items_text(items: Seq<JsonValue>) -> Seq<char>
    decreases items,
{
    if items.len() == 0 {
        Seq::empty()
    } else if items.len() == 1 {
        json_text(items[0])
    } else {
        json_text(items[0]) + seq![','] + json_items_text(items.drop_first())
    }
}

pub open spec fn json_entries_text(entries: Seq<(String, JsonValue)>) -> Seq<char>
    decreases entries,
{
    if entries.len() == 0 {
        Seq::empty()
    } else if entries.len() == 1 {
        json_entry_text(entries[0])
    } else {
        json_entry_text(entries[0]) + seq![','] + json_entries_text(entries.drop_first())
    }
}

pub open spec fn json_entry_text(e: (String, JsonValue)) -> Seq<char>
    decreases e,
{
    seq!['"'] + json_escape(e.0@) + seq!['"', ':'] + json_text(e.1)
}

/// Appends the escaped form of `s`.
#[verifier::loop_isolation(false)]
fn push_json_escaped(out: &mut String, s: &str)
    ensures
        final(out)@ == old(out)@ + json_escape(s@),
{
    let ghost start = out@;
    let n = s.unicode_len();
    let mut i: usize = 0;
    proof {
        assert(s@.skip(0) =~= s@);
        assert(start + Seq::<char>::empty() =~= start);
    }
    while i < n
        invariant
            i <= n,
            n == s@.len(),
            start + json_escape(s@) == out@ + json_escape(s@.skip(i as int)),
        decreases n - i,
    {
        let ghost pre = out@;
        let ghost tail = s@.skip(i as int);
        let c = s.get_char(i);
        proof {
            assert(tail[0] == c);
            assert(tail.drop_first() =~= s@.skip(i + 1));
        }
        if c == '"' {
            push_char(out, '\\');
            push_char(out, '"');
        } else if c == '\\' {
            push_char(out, '\\');
            push_char(out, '\\');
        } else if (c as u32) < 0x20 {
            let b = c as u32;
            push_char(out, '\\');
            push_char(out, 'u');
            push_char(out, '0');
            push_char(out, '0');
            push_char(out, hex_to_char_upper((b / 16) as u8));
            push_char(out, hex_to_char_upper((b % 16) as u8));
        } else {
            push_char(out, c);
        }
        proof {
            assert(out@ =~= pre + json_escape_char(c));
            assert(pre + (json_escape_char(c) + json_escape(s@.skip(i + 1))) =~= out@ + json_escape(
                s@.skip(i + 1),
            ));
        }
        i = i + 1;
    }
    proof {
        assert(s@.skip(n as int) =~= Seq::<char>::empty());
        assert(out@ + Seq::<char>::empty() =~= out@);
    }
}

/// Appends the compact text of `v`.
#[verifier::loop_isolation(false)]
pub fn push_json_text(out: &mut String, v: &JsonValue)
    ensures
        final(out)@ == old(out)@ + json_text(*v),
    decreases *v,
{
    match v {
        JsonValue::Null => {
            out.append("null");
        },
        JsonValue::Bool(b) => {
            if *b {
                out.append("true");
            } else {
                out.append("false");
            }
        },
        JsonValue::I64(n) => {
            let t = dec_i64(*n);
            out.append(t.as_str());
        },
        JsonValue::U64(n) => {
            let t = dec_u64(*n);
            out.append(t.as_str());
        },
        JsonValue::Str(s) => {
            push_char(out, '"');
            push_json_escaped(out, s.as_str());
            push_char(out, '"');
            proof {
                assert(old(out)@ + (seq!['"'] + json_escape(s@) + seq!['"']) =~= out@);
            }
        },
        JsonValue::Array(items) => {
            push_char(out, '[');
            let ghost start = out@;
            let mut i: usize = 0;
            let n = items.len();
            proof {
                assert(items@.skip(0) =~= items@);
                assert(start + Seq::<char>::empty() =~= start);
            }
            while i < n
                invariant
                    i <= n,
                    n == items@.len(),
                    start + json_items_text(items@) == out@ + json_items_text(
                        items@.skip(i as int),
                    ),
                decreases n - i,
            {
                let ghost pre = out@;
                let ghost tail = items@.skip(i as int);
                proof {
                    assert(decreases_to!(items@ => items@[i as int]));
                    assert(tail[0] == items@[i as int]);
                    assert(tail.drop_first() =~= items@.skip(i + 1));
                }
                push_json_text(out, &items[i]);
                if i + 1 < n {
                    push_char(out, ',');
                    proof {
                        assert(pre + (json_text(tail[0]) + (seq![','] + json_items_text(
                            items@.skip(i + 1),
                        ))) =~= out@ + json_items_text(items@.skip(i + 1)));
                    }
                } else {
                    proof {
                        assert(items@.skip(i + 1) =~= Seq::<JsonValue>::empty());
                        assert(pre + json_text(tail[0]) =~= out@);
                        assert(out@ + Seq::<char>::empty() =~= out@);
                    }
                }
                i = i + 1;
            }
            proof {
                assert(items@.skip(n as int) =~= Seq::<JsonValue>::empty());
                assert(out@ + Seq::<char>::empty() =~= out@);
            }
            push_char(out, ']');
            proof {
                assert(old(out)@ + (seq!['['] + json_items_text(items@) + seq![']']) =~= out@);
            }
        },
        JsonValue::Object(entries) => {
            push_char(out, '{');
            let ghost start = out@;
            let mut i: usize = 0;
            let n = entries.len();
            proof {
                assert(entries@.skip(0) =~= entries@);
                assert(start + Seq::<char>::empty() =~= start);
            }
            while i < n
                invariant
                    i <= n,
                    n == entries@.len(),
                    start + json_entries_text(entries@) == out@ + json_entries_text(
                        entries@.skip(i as int),
                    ),
                decreases n - i,
            {
                let ghost pre = out@;
                let ghost tail = entries@.skip(i as int);
                proof {
                    assert(decreases_to!(entries@ => entries@[i as int]));
                    assert(decreases_to!(entries@[i as int] => entries@[i as int].1));
                    assert(tail[0] == entries@[i as int]);
                    assert(tail.drop_first() =~= entries@.skip(i + 1));
                }
                push_char(out, '"');
                push_json_escaped(out, entries[i].0.as_str());
                push_char(out, '"');
                push_char(out, ':');
                push_json_text(out, &entries[i].1);
                proof {
                    assert(pre + json_entry_text(tail[0]) =~= out@);
                }
                if i + 1 < n {
                    push_char(out, ',');
                    proof {
                        assert(pre + (json_entry_text(tail[0]) + (seq![','] + json_entries_text(
                            entries@.skip(i + 1),
                        ))) =~= out@ + json_entries_text(entries@.skip(i + 1)));
                    }
                } else {
                    proof {
                        assert(entries@.skip(i + 1) =~= Seq::<(String, JsonValue)>::empty());
                        assert(out@ + Seq::<char>::empty() =~= out@);
                    }
                }
                i = i + 1;
            }
            proof {
                assert(entries@.skip(n as int) =~= Seq::<(String, JsonValue)>::empty());
                assert(out@ + Seq::<char>::empty() =~= out@);
            }
            push_char(out, '}');
            proof {
                assert(old(out)@ + (seq!['{'] + json_entries_text(entries@) + seq!['}']) =~= out@);
            }
        },
    }
}

/// The JSON image of one typed value: native where JSON has the type.
/// Succeeds exactly on values with a text form.
fn value_to_json(v: &BinXmlValue) -> (r: Result<JsonValue, Error>)
    ensures
        (r is Ok) == value_renderable(*v),
{
    match v {
        BinXmlValue::NullType => Ok(JsonValue::Null),
        BinXmlValue::BoolType(b) => Ok(JsonValue::Bool(*b != 0)),
        BinXmlValue::Int8Type(n) => Ok(JsonValue::I64(*n as i64)),
        BinXmlValue::UInt8Type(n) => Ok(JsonValue::U64(*n as u64)),
        BinXmlValue::Int16Type(n) => Ok(JsonValue::I64(*n as i64)),
        BinXmlValue::UInt16Type(n) => Ok(JsonValue::U64(*n as u64)),
        BinXmlValue::Int32Type(n) => Ok(JsonValue::I64(*n as i64)),
        BinXmlValue::UInt32Type(n) => Ok(JsonValue::U64(*n as u64)),
        BinXmlValue::Int64Type(n) => Ok(JsonValue::I64(*n)),
        BinXmlValue::UInt64Type(n) => Ok(JsonValue::U64(*n)),
        _ => {
            match v.as_string() {
                Ok(s) => Ok(JsonValue::Str(s)),
                Err(e) => Err(e),
            }
        },
    }
}

/// Inserts `(key, value)` into an object under the collapse rule: a
/// repeated key turns into an array that collects the values in order.
#[verifier::loop_isolation(false)]
fn insert_collapsing(entries: &mut Vec<(String, JsonValue)>, key: String, value: JsonValue) {
    let mut i: usize = 0;
    let n = entries.len();
    while i < n
        invariant
            i <= n,
            n == entries@.len(),
        decreases n - i,
    {
        if entries[i].0.eq(&key) {
            let (k, old_v) = entries.remove(i);
            match old_v {
                JsonValue::Array(mut items) => {
                    items.push(value);
                    entries.insert(i, (k, JsonValue::Array(items)));
                },
                other => {
                    let mut items: Vec<JsonValue> = Vec::new();
                    items.push(other);
                    items.push(value);
                    entries.insert(i, (k, JsonValue::Array(items)));
                },
            }
            return ;
        }
        i = i + 1;
    }
    entries.push((key, value));
}

/// The JSON image of one element, by the structural rules: text-only
/// elements without attributes become scalars, everything else an object;
/// repeated child names collapse into arrays; attributes are merged in,
/// or put under a `<name>_attributes` sibling when asked.  Succeeds
/// exactly when every value below the element has a text form.
#[verifier::loop_isolation(false)]
fn node_to_json(
    node: &XmlNode,
    separate_attributes: bool,
    out_parent: &mut Vec<(String, JsonValue)>,
) -> (r: Result<(), Error>)
    ensures
        (r is Ok) == node_renderable(*node),
    decreases *node,
{
    let simple_text: Option<&BinXmlValue> = if node.content.len() == 1 {
        match &node.content[0] {
            XmlContent::Value(v) => Some(v),
            _ => None,
        }
    } else if node.content.len() == 0 {
        None
    } else {
        None
    };
    if node.attributes.len() == 0 {
        if node.content.len() == 0 {
            insert_collapsing(out_parent, node.name.clone(), JsonValue::Null);
            return Ok(());
        }
        if let Some(v) = simple_text {
            proof {
                assert(node.content@.drop_first() =~= Seq::<XmlContent>::empty());
                assert(node_renderable(*node) == value_renderable(*v));
            }
            let jv = match value_to_json(v) {
                Ok(jv) => jv,
                Err(e) => {
                    return Err(e);
                },
            };
            insert_collapsing(out_parent, node.name.clone(), jv);
            return Ok(());
        }
    }
    // the element becomes an object
    let mut entries: Vec<(String, JsonValue)> = Vec::new();
    let mut attr_entries: Vec<(String, JsonValue)> = Vec::new();
    let mut i: usize = 0;
    while i < node.attributes.len()
        invariant
            i <= node.attributes@.len(),
        decreases node.attributes@.len() - i,
    {
        let a = &node.attributes[i];
        if separate_attributes {
            insert_collapsing(&mut attr_entries, a.name.clone(), JsonValue::Str(a.value.clone()));
        } else {
            insert_collapsing(&mut entries, a.name.clone(), JsonValue::Str(a.value.clone()));
        }
        i = i + 1;
    }
    let mut i: usize = 0;
    let n = node.content.len();
    proof {
        assert(node.content@.skip(0) =~= node.content@);
    }
    while i < n
        invariant
            i <= n,
            n == node.content@.len(),
            list_renderable(node.content@) == list_renderable(
                node.content@.skip(i as int),
            ),
        decreases n - i,
    {
        let ghost tail = node.content@.skip(i as int);
        proof {
            assert(decreases_to!(*node => node.content@));
            assert(decreases_to!(node.content@ => node.content@[i as int]));
            assert(tail[0] == node.content@[i as int]);
            assert(tail.drop_first() =~= node.content@.skip(i + 1));
        }
        match &node.content[i] {
            XmlContent::Element(child) => {
                match node_to_json(child, separate_attributes, &mut entries) {
                    Ok(()) => {},
                    Err(e) => {
                        proof {
                            assert(!content_renderable(tail[0]));
                            assert(!list_renderable(tail));
                        }
                        return Err(e);
                    },
                }
            },
            XmlContent::Value(v) => {
                // character data in an object position lives under a text
                // key of its own
                let null = v.is_null();
                if !null {
                    let jv = match value_to_json(v) {
                        Ok(jv) => jv,
                        Err(e) => {
                            proof {
                                assert(!content_renderable(tail[0]));
                                assert(!list_renderable(tail));
                            }
                            return Err(e);
                        },
                    };
                    insert_collapsing(&mut entries, String::from_str("#text"), jv);
                }
            },
            XmlContent::CharRef(x) => {
                // a character reference reaches JSON as the expanded
                // character; one outside the scalar range keeps its
                // decimal form
                let text = if *x < 0xD800 {
                    let mut t = String::new();
                    push_char(&mut t, char_from_u32(*x));
                    t
                } else {
                    dec_u64(*x as u64)
                };
                insert_collapsing(&mut entries, String::from_str("#text"), JsonValue::Str(text));
            },
            XmlContent::EntityRef(name) => {
                insert_collapsing(
                    &mut entries,
                    String::from_str("#text"),
                    JsonValue::Str(name.clone()),
                );
            },
            XmlContent::PI(_) => {},
        }
        proof {
            assert(content_renderable(tail[0]));
            assert(list_renderable(tail) == (content_renderable(tail[0]) && list_renderable(
                node.content@.skip(i + 1),
            )));
        }
        i = i + 1;
    }
    proof {
        assert(node.content@.skip(n as int) =~= Seq::<XmlContent>::empty());
    }
    if separate_attributes && attr_entries.len() > 0 {
        let mut key = node.name.clone();
        key = key.concat("_attributes");
        insert_collapsing(out_parent, key, JsonValue::Object(attr_entries));
    }
    insert_collapsing(out_parent, node.name.clone(), JsonValue::Object(entries));
    Ok(())
}

/// Whether every element of the record's top level can render: only the
/// elements reach the JSON document, and their values must have a text
/// form.
pub open spec fn json_top_renderable(cs: Seq<XmlContent>) -> bool
    decreases cs,
{
    cs.len() == 0 || ((cs[0] matches XmlContent::Element(n) ==> node_renderable(n))
        && json_top_renderable(cs.drop_first()))
}

/// Renders one expanded record as a compact JSON document.  Succeeds
/// exactly when every element of the record can render.
#[verifier::loop_isolation(false)]
pub fn record_to_json_string(rec: &RecordData, separate_attributes: bool) -> (r: Result<
    String,
    Error,
>)
    ensures
        (r is Ok) == json_top_renderable(rec.content@),
{
    let mut entries: Vec<(String, JsonValue)> = Vec::new();
    let mut i: usize = 0;
    let n = rec.content.len();
    proof {
        assert(rec.content@.skip(0) =~= rec.content@);
    }
    while i < n
        invariant
            i <= n,
            n == rec.content@.len(),
            json_top_renderable(rec.content@) == json_top_renderable(rec.content@.skip(i as int)),
        decreases n - i,
    {
        let ghost tail = rec.content@.skip(i as int);
        proof {
            assert(tail[0] == rec.content@[i as int]);
            assert(tail.drop_first() =~= rec.content@.skip(i + 1));
        }
        match &rec.content[i] {
            XmlContent::Element(node) => {
                match node_to_json(node, separate_attributes, &mut entries) {
                    Ok(()) => {},
                    Err(e) => {
                        return Err(e);
                    },
                }
            },
            _ => {},
        }
        i = i + 1;
    }
    proof {
        assert(rec.content@.skip(n as int) =~= Seq::<XmlContent>::empty());
    }
    let doc = JsonValue::Object(entries);
    let mut out = String::new();
    push_json_text(&mut out, &doc);
    Ok(out)
}

} // verus!
