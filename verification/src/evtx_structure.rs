use vstd::prelude::*;
use vstd::string::*;
use crate::chunk::RecordData;
use crate::err::{SerializationError, SerializationResult};
use crate::model::{XmlAttribute, XmlContent, XmlElement, XmlNode, BinXmlPI};
use crate::time::{Timestamp, UNIX_EPOCH_TICKS};
use crate::values::{BinXmlValue, value_renderable, value_text};
use crate::xml_output::{BinXmlOutput, content_renderable, list_renderable, node_renderable};

verus! {

/// What an element holds: text, children, or nothing yet.
#[derive(Debug)]
pub enum EvtxXmlContentType {
    Simple(String),
    Complex(Vec<EvtxXmlElement>),
    Empty,
}

/// An owned element tree, the structure handed to structure visitors.
#[derive(Debug)]
pub struct EvtxXmlElement {
    pub name: String,
    pub attributes: Vec<XmlAttribute>,
    pub content: EvtxXmlContentType,
}

/// The value an attribute list associates with `name`.
pub open spec fn attr_lookup(attrs: Seq<XmlAttribute>, name: Seq<char>) -> Option<Seq<char>>
    decreases attrs.len(),
{
    if attrs.len() == 0 {
        None
    } else if attrs[0].name@ == name {
        Some(attrs[0].value@)
    } else {
        attr_lookup(attrs.drop_first(), name)
    }
}

impl EvtxXmlElement {
    pub fn new(name: &str) -> (r: Self)
        ensures
            r.name@ == name@,
            r.attributes@.len() == 0,
            r.content is Empty,
    {
        Self {
            name: name.to_owned(),
            attributes: Vec::new(),
            content: EvtxXmlContentType::Empty,
        }
    }

    /// Sets `name` to `value`, replacing an earlier binding of the same
    /// name and keeping every other binding as it was.
    #[verifier::loop_isolation(false)]
    pub fn add_attribute(&mut self, name: &str, value: &str)
        ensures
            attr_lookup(final(self).attributes@, name@) == Some(value@),
            forall|k: Seq<char>|
                k != name@ ==> attr_lookup(final(self).attributes@, k) == attr_lookup(
                    old(self).attributes@,
                    k,
                ),
            final(self).name == old(self).name,
            final(self).content == old(self).content,
    {
        let name_s = name.to_owned();
        let mut i: usize = 0;
        let n = self.attributes.len();
        while i < n
            invariant
                i <= n,
                n == self.attributes@.len(),
                name_s@ == name@,
                *self == *old(self),
                forall|j: int| 0 <= j < i ==> (#[trigger] self.attributes@[j].name)@ != name@,
            decreases n - i,
        {
            if self.attributes[i].name.eq(&name_s) {
                let ghost before = self.attributes@;
                self.attributes.set(
                    i,
                    XmlAttribute { name: name.to_owned(), value: value.to_owned() },
                );
                proof {
                    lemma_attr_lookup_set(before, self.attributes@, i as int, name@, value@);
                }
                return ;
            }
            i = i + 1;
        }
        let ghost before = self.attributes@;
        self.attributes.push(XmlAttribute { name: name.to_owned(), value: value.to_owned() });
        proof {
            lemma_attr_lookup_absent(before, name@);
            lemma_attr_lookup_push(before, self.attributes@.last());
            assert(before.push(self.attributes@.last()) =~= self.attributes@);
        }
    }

    /// Appends character data: fresh content becomes text, text grows,
    /// and on an element that already has children only the empty string
    /// is accepted.
    pub fn add_simple_content(&mut self, value: &str)
        requires
            old(self).content matches EvtxXmlContentType::Complex(_) ==> value@.len() == 0,
        ensures
            final(self).name == old(self).name,
            final(self).attributes == old(self).attributes,
            old(self).content is Empty ==> (final(self).content matches
                EvtxXmlContentType::Simple(s) && s@ == value@),
            old(self).content matches EvtxXmlContentType::Simple(s) ==> (final(self).content
                matches EvtxXmlContentType::Simple(t) && t@ == s@ + value@),
            old(self).content matches EvtxXmlContentType::Complex(c) ==> final(self).content
                == old(self).content,
    {
        match &mut self.content {
            EvtxXmlContentType::Empty => {
                self.content = EvtxXmlContentType::Simple(value.to_owned());
            },
            EvtxXmlContentType::Simple(s) => {
                s.append(value);
            },
            EvtxXmlContentType::Complex(_) => {},
        }
    }

    /// Appends a child element; a text node takes no children.
    pub fn add_child(&mut self, child: EvtxXmlElement)
        requires
            !(old(self).content matches EvtxXmlContentType::Simple(_)),
        ensures
            final(self).name == old(self).name,
            final(self).attributes == old(self).attributes,
            old(self).content is Empty ==> (final(self).content matches
                EvtxXmlContentType::Complex(v) && v@.len() == 1 && v@[0] == child),
            old(self).content matches EvtxXmlContentType::Complex(c) ==> (final(self).content
                matches EvtxXmlContentType::Complex(v) && v@ == c@.push(child)),
    {
        match &mut self.content {
            EvtxXmlContentType::Simple(_) => {},
            EvtxXmlContentType::Empty => {
                let mut v: Vec<EvtxXmlElement> = Vec::new();
                v.push(child);
                self.content = EvtxXmlContentType::Complex(v);
            },
            EvtxXmlContentType::Complex(v) => {
                v.push(child);
            },
        }
    }
}

/// Replacing index `i` (whose old name differs from no earlier one and
/// equals `name`) rebinds `name` and leaves other lookups alone.
proof fn lemma_attr_lookup_set(
    before: Seq<XmlAttribute>,
    after: Seq<XmlAttribute>,
    i: int,
    name: Seq<char>,
    value: Seq<char>,
)
    requires
        0 <= i < before.len(),
        after.len() == before.len(),
        forall|j: int| 0 <= j < before.len() && j != i ==> after[j] == before[j],
        after[i].name@ == name,
        after[i].value@ == value,
        before[i].name@ == name,
        forall|j: int| 0 <= j < i ==> (#[trigger] before[j].name)@ != name,
    ensures
        attr_lookup(after, name) == Some(value),
        forall|k: Seq<char>| k != name ==> attr_lookup(after, k) == attr_lookup(before, k),
    decreases i,
{
    if i == 0 {
        assert forall|k: Seq<char>| k != name implies attr_lookup(after, k) == attr_lookup(
            before,
            k,
        ) by {
            assert(after.drop_first() =~= before.drop_first());
        }
    } else {
        lemma_attr_lookup_set(before.drop_first(), after.drop_first(), i - 1, name, value);
        assert(after[0] == before[0]);
        assert(before[0].name@ != name);
        assert(attr_lookup(after, name) == attr_lookup(after.drop_first(), name));
        assert forall|k: Seq<char>| k != name implies attr_lookup(after, k) == attr_lookup(
            before,
            k,
        ) by {
            if after[0].name@ == k {
            } else {
                assert(attr_lookup(after, k) == attr_lookup(after.drop_first(), k));
                assert(attr_lookup(before, k) == attr_lookup(before.drop_first(), k));
            }
        }
    }
}

/// Pushing a pair binds its name (when it was absent) and leaves other
/// lookups alone.
proof fn lemma_attr_lookup_push(before: Seq<XmlAttribute>, a: XmlAttribute)
    ensures
        attr_lookup(before, a.name@) is None ==> attr_lookup(before.push(a), a.name@) == Some(
            a.value@,
        ),
        forall|k: Seq<char>| k != a.name@ ==> attr_lookup(before.push(a), k) == attr_lookup(
            before,
            k,
        ),
    decreases before.len(),
{
    if before.len() == 0 {
        assert(before.push(a)[0] == a);
        assert(before.push(a).drop_first() =~= Seq::<XmlAttribute>::empty());
        assert forall|k: Seq<char>| k != a.name@ implies attr_lookup(before.push(a), k)
            == attr_lookup(before, k) by {
            assert(attr_lookup(before.push(a), k) == attr_lookup(
                Seq::<XmlAttribute>::empty(),
                k,
            ));
        }
    } else {
        lemma_attr_lookup_push(before.drop_first(), a);
        assert(before.push(a)[0] == before[0]);
        assert(before.push(a).drop_first() =~= before.drop_first().push(a));
        if attr_lookup(before, a.name@) is None {
            assert(before[0].name@ != a.name@);
            assert(attr_lookup(before.drop_first(), a.name@) is None);
            assert(attr_lookup(before.push(a), a.name@) == attr_lookup(
                before.drop_first().push(a),
                a.name@,
            ));
        }
        assert forall|k: Seq<char>| k != a.name@ implies attr_lookup(before.push(a), k)
            == attr_lookup(before, k) by {
            if before[0].name@ == k {
            } else {
                assert(attr_lookup(before.push(a), k) == attr_lookup(
                    before.drop_first().push(a),
                    k,
                ));
                assert(attr_lookup(before, k) == attr_lookup(before.drop_first(), k));
            }
        }
    }
}

/// A list whose entries all carry other names binds `name` to nothing.
proof fn lemma_attr_lookup_absent(attrs: Seq<XmlAttribute>, name: Seq<char>)
    requires
        forall|j: int| 0 <= j < attrs.len() ==> (#[trigger] attrs[j].name)@ != name,
    ensures
        attr_lookup(attrs, name) is None,
    decreases attrs.len(),
{
    if attrs.len() > 0 {
        lemma_attr_lookup_absent(attrs.drop_first(), name);
    }
}

/// The value the latest pair with name `k` carries, searching from the
/// end: feeding pairs to `add_attribute` in order leaves exactly this.
pub open spec fn lookup_last(pairs: Seq<XmlAttribute>, k: Seq<char>) -> Option<Seq<char>>
    decreases pairs.len(),
{
    if pairs.len() == 0 {
        None
    } else if pairs.last().name@ == k {
        Some(pairs.last().value@)
    } else {
        lookup_last(pairs.drop_last(), k)
    }
}

/// One parsed record as an owned structure: id, timestamp, content tree.
#[derive(Debug)]
pub struct EvtxStructure {
    pub event_record_id: u64,
    pub timestamp: Timestamp,
    pub content: EvtxXmlElement,
}

impl EvtxStructure {
    pub fn new(event_record_id: u64, timestamp: Timestamp) -> (r: Self)
        ensures
            r.event_record_id == event_record_id,
            r.timestamp == timestamp,
            r.content.name@ == Seq::<char>::empty(),
            r.content.attributes@.len() == 0,
            r.content.content is Empty,
    {
        proof {
            reveal_strlit("");
            assert(""@ =~= Seq::<char>::empty());
        }
        Self { event_record_id, timestamp, content: EvtxXmlElement::new("") }
    }

    pub fn new_empty() -> (r: Self)
        ensures
            r.event_record_id == 0,
            r.timestamp.ticks == UNIX_EPOCH_TICKS,
            r.content.name@ == Seq::<char>::empty(),
            r.content.attributes@.len() == 0,
            r.content.content is Empty,
    {
        proof {
            reveal_strlit("");
            assert(""@ =~= Seq::<char>::empty());
        }
        Self {
            event_record_id: 0,
            timestamp: Timestamp { ticks: UNIX_EPOCH_TICKS },
            content: EvtxXmlElement::new(""),
        }
    }

    pub fn event_record_id(&self) -> (r: u64)
        ensures
            r == self.event_record_id,
    {
        self.event_record_id
    }

    pub fn timestamp(&self) -> (r: &Timestamp)
        ensures
            r == &self.timestamp,
    {
        &self.timestamp
    }
}

/// Builds an `EvtxStructure` out of visitor events, keeping the open
/// elements on a stack.
pub struct StructureBuilder {
    pub result: EvtxStructure,
    pub node_stack: Vec<EvtxXmlElement>,
}

impl StructureBuilder {
    pub fn new(event_record_id: u64, timestamp: Timestamp) -> (r: Self)
        ensures
            r.result.event_record_id == event_record_id,
            r.result.timestamp == timestamp,
            r.node_stack@.len() == 0,
    {
        Self { result: EvtxStructure::new(event_record_id, timestamp), node_stack: Vec::new() }
    }

    /// Hands the finished structure out and leaves a fresh empty one:
    /// record id zero, the Unix epoch, a nameless empty root.
    pub fn get_structure(&mut self) -> (r: EvtxStructure)
        ensures
            r == old(self).result,
            final(self).result.event_record_id == 0,
            final(self).result.timestamp.ticks == UNIX_EPOCH_TICKS,
            final(self).result.content.name@ == Seq::<char>::empty(),
            final(self).result.content.attributes@.len() == 0,
            final(self).result.content.content is Empty,
            final(self).node_stack == old(self).node_stack,
    {
        let mut result = EvtxStructure::new_empty();
        core::mem::swap(&mut self.result, &mut result);
        result
    }

    /// Opens a named node with the given attributes: the new top carries
    /// the name, binds each attribute name to its latest given value, and
    /// holds no content yet.
    #[verifier::loop_isolation(false)]
    pub fn enter_named_node(&mut self, name: &str, attributes: &Vec<XmlAttribute>)
        ensures
            final(self).node_stack@.len() == old(self).node_stack@.len() + 1,
            final(self).node_stack@.last().name@ == name@,
            final(self).node_stack@.last().content is Empty,
            forall|k: Seq<char>|
                attr_lookup(final(self).node_stack@.last().attributes@, k) == lookup_last(
                    attributes@,
                    k,
                ),
            final(self).node_stack@.drop_last() == old(self).node_stack@,
            final(self).result == old(self).result,
    {
        let mut element = EvtxXmlElement::new(name);
        let mut i: usize = 0;
        let n = attributes.len();
        proof {
            assert forall|k: Seq<char>|
                attr_lookup(element.attributes@, k) == lookup_last(
                    attributes@.take(0),
                    k,
                ) by {
                assert(attributes@.take(0) =~= Seq::<XmlAttribute>::empty());
            }
        }
        while i < n
            invariant
                i <= n,
                n == attributes@.len(),
                element.name@ == name@,
                element.content is Empty,
                forall|k: Seq<char>|
                    attr_lookup(element.attributes@, k) == lookup_last(attributes@.take(i as int), k),
            decreases n - i,
        {
            let a = &attributes[i];
            element.add_attribute(a.name.as_str(), a.value.as_str());
            proof {
                assert forall|k: Seq<char>|
                    attr_lookup(element.attributes@, k) == lookup_last(
                        attributes@.take(i + 1),
                        k,
                    ) by {
                    assert(attributes@.take(i + 1).last() == attributes@[i as int]);
                    assert(attributes@.take(i + 1).drop_last() =~= attributes@.take(i as int));
                }
            }
            i = i + 1;
        }
        proof {
            assert(attributes@.take(n as int) =~= attributes@);
        }
        self.node_stack.push(element);
    }

    /// Closes the innermost open node: it becomes the result's content
    /// when it was the outermost, else the last child of the node around
    /// it, which pairs tags by nesting, never by name.  On an error the
    /// builder is exactly as it was.
    pub fn leave_node(&mut self, _name: &str) -> (r: SerializationResult<()>)
        ensures
            (r is Ok) == (old(self).node_stack@.len() > 0 && (old(self).node_stack@.len() > 1
                ==> !(old(self).node_stack@[old(self).node_stack@.len() - 2].content
                matches EvtxXmlContentType::Simple(_)))),
            r is Err ==> final(self).result == old(self).result && final(self).node_stack@
                == old(self).node_stack@,
            r is Ok && old(self).node_stack@.len() == 1 ==> {
                &&& final(self).node_stack@.len() == 0
                &&& final(self).result.event_record_id == old(self).result.event_record_id
                &&& final(self).result.timestamp == old(self).result.timestamp
                &&& final(self).result.content == old(self).node_stack@.last()
            },
            r is Ok && old(self).node_stack@.len() > 1 ==> {
                let closed = old(self).node_stack@.last();
                let parent = old(self).node_stack@[old(self).node_stack@.len() - 2];
                let top = final(self).node_stack@.last();
                &&& final(self).result == old(self).result
                &&& final(self).node_stack@.len() == old(self).node_stack@.len() - 1
                &&& final(self).node_stack@.drop_last() == old(
                    self,
                ).node_stack@.drop_last().drop_last()
                &&& top.name == parent.name
                &&& top.attributes == parent.attributes
                &&& (parent.content is Empty ==> (top.content
                    matches EvtxXmlContentType::Complex(v) && v@.len() == 1 && v@[0] == closed))
                &&& (parent.content matches EvtxXmlContentType::Complex(c) ==> (top.content
                    matches EvtxXmlContentType::Complex(v) && v@ == c@.push(closed)))
            },
    {
        let my_node = match self.node_stack.pop() {
            Some(n) => n,
            None => {
                return Err(SerializationError::StructureBuilderError {
                    message: String::from_str("stack underflow"),
                });
            },
        };
        if self.node_stack.len() == 0 {
            self.result.content = my_node;
            return Ok(());
        }
        let mut parent = self.node_stack.pop().unwrap();
        match parent.content {
            EvtxXmlContentType::Simple(_) => {
                self.node_stack.push(parent);
                self.node_stack.push(my_node);
                proof {
                    assert(self.node_stack@ =~= old(self).node_stack@);
                }
                Err(SerializationError::StructureBuilderError {
                    message: String::from_str("text node cannot hold child elements"),
                })
            },
            _ => {
                parent.add_child(my_node);
                self.node_stack.push(parent);
                Ok(())
            },
        }
    }
}

impl BinXmlOutput for StructureBuilder {
    /// Called once when EOF is reached: succeeds exactly when every
    /// opened node has been closed, and changes nothing.
    fn visit_end_of_stream(&mut self) -> (r: SerializationResult<()>)
        ensures
            (r is Ok) == (old(self).node_stack@.len() == 0),
            *final(self) == *old(self),
    {
        if self.node_stack.len() != 0 {
            return Err(SerializationError::StructureBuilderError {
                message: String::from_str("node stack is not empty"),
            });
        }
        Ok(())
    }

    /// Called on `<Tag attr="value" another_attr="value">`: opens a node
    /// carrying the element's name and attributes.
    fn visit_open_start_element(&mut self, element: &XmlElement) -> (r: SerializationResult<()>)
        ensures
            r is Ok,
            final(self).node_stack@.len() == old(self).node_stack@.len() + 1,
            final(self).node_stack@.last().name@ == element.name@,
            final(self).node_stack@.last().content is Empty,
            forall|k: Seq<char>|
                attr_lookup(final(self).node_stack@.last().attributes@, k) == lookup_last(
                    element.attributes@,
                    k,
                ),
            final(self).node_stack@.drop_last() == old(self).node_stack@,
            final(self).result == old(self).result,
    {
        self.enter_named_node(element.name.as_str(), &element.attributes);
        Ok(())
    }

    /// Called on `</Tag>`: closes the innermost node, pairing by nesting,
    /// never by name; the closed node becomes the result's content or its
    /// parent's last child, as `leave_node` states.
    fn visit_close_element(&mut self, element: &XmlElement) -> (r: SerializationResult<()>)
        ensures
            (r is Ok) == (old(self).node_stack@.len() > 0 && (old(self).node_stack@.len() > 1
                ==> !(old(self).node_stack@[old(self).node_stack@.len() - 2].content
                matches EvtxXmlContentType::Simple(_)))),
            r is Err ==> final(self).result == old(self).result && final(self).node_stack@
                == old(self).node_stack@,
            r is Ok && old(self).node_stack@.len() == 1 ==> final(self).node_stack@.len() == 0
                && final(self).result.content == old(self).node_stack@.last(),
            r is Ok && old(self).node_stack@.len() > 1 ==> {
                let closed = old(self).node_stack@.last();
                let parent = old(self).node_stack@[old(self).node_stack@.len() - 2];
                let top = final(self).node_stack@.last();
                &&& final(self).result == old(self).result
                &&& final(self).node_stack@.len() == old(self).node_stack@.len() - 1
                &&& final(self).node_stack@.drop_last() == old(
                    self,
                ).node_stack@.drop_last().drop_last()
                &&& top.name == parent.name
                &&& top.attributes == parent.attributes
                &&& (parent.content is Empty ==> (top.content
                    matches EvtxXmlContentType::Complex(v) && v@.len() == 1 && v@[0] == closed))
                &&& (parent.content matches EvtxXmlContentType::Complex(c) ==> (top.content
                    matches EvtxXmlContentType::Complex(v) && v@ == c@.push(closed)))
            },
    {
        self.leave_node(element.name.as_str())
    }

    /// Called with the value of an xml text node: appends its text to the
    /// innermost node under `add_simple_content`'s rules.
    fn visit_characters(&mut self, value: &BinXmlValue) -> (r: SerializationResult<()>)
        ensures
            (r is Ok) == (value_renderable(*value) && old(self).node_stack@.len() > 0 && !(old(
                self,
            ).node_stack@.last().content matches EvtxXmlContentType::Complex(_) && value_text(
                *value,
            ).len() > 0)),
            r is Err ==> final(self).result == old(self).result && final(self).node_stack@
                == old(self).node_stack@,
            r is Ok ==> {
                let top = old(self).node_stack@.last();
                let new_top = final(self).node_stack@.last();
                &&& final(self).result == old(self).result
                &&& final(self).node_stack@.len() == old(self).node_stack@.len()
                &&& final(self).node_stack@.drop_last() == old(self).node_stack@.drop_last()
                &&& new_top.name == top.name
                &&& new_top.attributes == top.attributes
                &&& (top.content is Empty ==> (new_top.content
                    matches EvtxXmlContentType::Simple(t) && t@ == value_text(*value)))
                &&& (top.content matches EvtxXmlContentType::Simple(u) ==> (new_top.content
                    matches EvtxXmlContentType::Simple(t) && t@ == u@ + value_text(*value)))
                &&& (top.content matches EvtxXmlContentType::Complex(_) ==> new_top.content
                    == top.content)
            },
    {
        let text = match value.as_string() {
            Ok(t) => t,
            Err(_) => {
                return Err(SerializationError::Unimplemented {
                    message: String::from_str("value has no text form"),
                });
            },
        };
        if self.node_stack.len() == 0 {
            return Err(SerializationError::StructureBuilderError {
                message: String::from_str("no open node for character data"),
            });
        }
        let mut node = self.node_stack.pop().unwrap();
        match &node.content {
            EvtxXmlContentType::Complex(_) => {
                if text.as_str().unicode_len() > 0 {
                    self.node_stack.push(node);
                    proof {
                        assert(self.node_stack@ =~= old(self).node_stack@);
                    }
                    return Err(SerializationError::StructureBuilderError {
                        message: String::from_str("this xml element already has child elements"),
                    });
                }
            },
            _ => {},
        }
        node.add_simple_content(text.as_str());
        self.node_stack.push(node);
        proof {
            assert(self.node_stack@.drop_last() =~= old(self).node_stack@.drop_last());
        }
        Ok(())
    }

    /// Unimplemented: ignored, and nothing changes.
    fn visit_cdata_section(&mut self) -> (r: SerializationResult<()>)
        ensures
            r is Ok,
            *final(self) == *old(self),
    {
        Ok(())
    }

    /// The structure keeps references unexpanded: nothing changes.
    fn visit_entity_reference(&mut self, _name: &String) -> (r: SerializationResult<()>)
        ensures
            r is Ok,
            *final(self) == *old(self),
    {
        Ok(())
    }

    /// The structure keeps references unexpanded: nothing changes.
    fn visit_character_reference(&mut self, _digits: &String) -> (r: SerializationResult<()>)
        ensures
            r is Ok,
            *final(self) == *old(self),
    {
        Ok(())
    }

    /// Unimplemented: ignored, and nothing changes.
    fn visit_processing_instruction(&mut self, _pi: &BinXmlPI) -> (r: SerializationResult<()>)
        ensures
            r is Ok,
            *final(self) == *old(self),
    {
        Ok(())
    }

    /// Called once at the beginning of parsing: succeeds exactly on an
    /// empty node stack, and changes nothing.
    fn visit_start_of_stream(&mut self) -> (r: SerializationResult<()>)
        ensures
            (r is Ok) == (old(self).node_stack@.len() == 0),
            *final(self) == *old(self),
    {
        if self.node_stack.len() != 0 {
            return Err(SerializationError::StructureBuilderError {
                message: String::from_str("node stack is not empty"),
            });
        }
        Ok(())
    }
}

/// The visitor surface for structure consumers: a callback per element
/// shape, and a result collected when the record ends.
pub trait EvtxStructureVisitor {
    type VisitorResult;

    /// Called when the current record is finished, with its id and time.
    fn get_result(&self, event_record_id: u64, timestamp: Timestamp) -> Self::VisitorResult;

    /// Called when a new record starts.
    fn start_record(&mut self);

    /// Called when the current record is finished.
    fn finalize_record(&mut self);

    /// Called upon element content.
    fn visit_characters(&mut self, value: &str);

    /// Called on an element with no content at all.
    fn visit_empty_element(&mut self, name: &str, attributes: &Vec<XmlAttribute>);

    /// Called on an element whose only content is character data.
    fn visit_simple_element(&mut self, name: &str, attributes: &Vec<XmlAttribute>, content: &str);

    /// Called when an element with child elements starts.
    fn visit_start_element(&mut self, name: &str, attributes: &Vec<XmlAttribute>);

    /// Called when an element with child elements ends.
    fn visit_end_element(&mut self, name: &str);
}

/// Whether an expanded element holds exactly one renderable text value.
pub open spec fn node_is_simple(n: XmlNode) -> bool {
    n.content@.len() == 1 && n.content@[0] matches XmlContent::Value(_)
}

/// Drives a structure visitor over one expanded record, in document
/// order: attributes are delivered with their element, text before
/// children, and simple elements in one call.  Succeeds exactly when
/// every value in the record has a text form.
pub fn visit_record<V: EvtxStructureVisitor>(rec: &RecordData, visitor: &mut V) -> (r: Result<
    V::VisitorResult,
    crate::err::Error,
>)
    ensures
        (r is Ok) == list_renderable(rec.content@),
{
    visitor.start_record();
    match visit_content_list(&rec.content, visitor) {
        Ok(()) => {},
        Err(e) => {
            return Err(e);
        },
    }
    visitor.finalize_record();
    Ok(visitor.get_result(rec.event_record_id, rec.timestamp))
}

#[verifier::loop_isolation(false)]
fn visit_content_list<V: EvtxStructureVisitor>(cs: &Vec<XmlContent>, visitor: &mut V) -> (r: Result<
    (),
    crate::err::Error,
>)
    ensures
        (r is Ok) == list_renderable(cs@),
    decreases cs@,
{
    let mut i: usize = 0;
    let n = cs.len();
    proof {
        assert(cs@.skip(0) =~= cs@);
    }
    while i < n
        invariant
            i <= n,
            n == cs@.len(),
            list_renderable(cs@) == list_renderable(cs@.skip(i as int)),
        decreases n - i,
    {
        let ghost tail = cs@.skip(i as int);
        proof {
            assert(decreases_to!(cs@ => cs@[i as int]));
            assert(tail[0] == cs@[i as int]);
            assert(tail.drop_first() =~= cs@.skip(i + 1));
        }
        match visit_content(&cs[i], visitor) {
            Ok(()) => {},
            Err(e) => {
                proof {
                    assert(!list_renderable(tail));
                }
                return Err(e);
            },
        }
        proof {
            assert(list_renderable(tail) == (content_renderable(tail[0]) && list_renderable(
                cs@.skip(i + 1),
            )));
        }
        i = i + 1;
    }
    proof {
        assert(cs@.skip(n as int) =~= Seq::<XmlContent>::empty());
    }
    Ok(())
}

fn visit_content<V: EvtxStructureVisitor>(c: &XmlContent, visitor: &mut V) -> (r: Result<
    (),
    crate::err::Error,
>)
    ensures
        (r is Ok) == content_renderable(*c),
    decreases *c,
{
    match c {
        XmlContent::Element(node) => {
            proof {
                assert(decreases_to!(*c => *node));
            }
            visit_node(node, visitor)
        },
        XmlContent::Value(v) => {
            match v.as_string() {
                Ok(t) => {
                    visitor.visit_characters(t.as_str());
                    Ok(())
                },
                Err(e) => Err(e),
            }
        },
        XmlContent::CharRef(x) => {
            let digits = crate::text::dec_u64(*x as u64);
            visitor.visit_characters(digits.as_str());
            Ok(())
        },
        XmlContent::EntityRef(name) => {
            visitor.visit_characters(name.as_str());
            Ok(())
        },
        XmlContent::PI(_) => Ok(()),
    }
}

fn visit_node<V: EvtxStructureVisitor>(node: &XmlNode, visitor: &mut V) -> (r: Result<
    (),
    crate::err::Error,
>)
    ensures
        (r is Ok) == node_renderable(*node),
    decreases *node,
{
    if node.content.len() == 0 {
        visitor.visit_empty_element(node.name.as_str(), &node.attributes);
        return Ok(());
    }
    if node.content.len() == 1 {
        if let XmlContent::Value(v) = &node.content[0] {
            proof {
                assert(node.content@.drop_first() =~= Seq::<XmlContent>::empty());
                assert(node_renderable(*node) == crate::values::value_renderable(*v));
            }
            match v.as_string() {
                Ok(t) => {
                    visitor.visit_simple_element(node.name.as_str(), &node.attributes, t.as_str());
                    return Ok(());
                },
                Err(e) => {
                    return Err(e);
                },
            }
        }
    }
    visitor.visit_start_element(node.name.as_str(), &node.attributes);
    proof {
        assert(decreases_to!(*node => node.content@));
    }
    match visit_content_list(&node.content, visitor) {
        Ok(()) => {},
        Err(e) => {
            return Err(e);
        },
    }
    visitor.visit_end_element(node.name.as_str());
    Ok(())
}

} // verus!
