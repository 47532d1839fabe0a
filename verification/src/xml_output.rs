use vstd::prelude::*;
use vstd::string::*;
use crate::err::{SerializationError, SerializationResult};
use crate::model::{XmlAttribute, XmlElement, XmlContent, XmlNode, BinXmlPI};
use crate::settings::ParserSettings;
use crate::text::{dec_u64, dec_str, push_char};
use crate::values::{BinXmlValue, value_renderable, value_text};

verus! {

/// The visitor surface that output adapters implement: one callback per
/// structural event, delivered in document order.
pub trait BinXmlOutput {
    /// Called once when EOF is reached.
    fn visit_end_of_stream(&mut self) -> SerializationResult<()>;

    /// Called on `<Tag attr="value" another_attr="value">`.
    fn visit_open_start_element(&mut self, open_start_element: &XmlElement) -> SerializationResult<
        (),
    >;

    /// Called on `</Tag>`; an implementor may keep a stack to pair tags.
    fn visit_close_element(&mut self, element: &XmlElement) -> SerializationResult<()>;

    /// Called with the value of an xml text node.
    fn visit_characters(&mut self, value: &BinXmlValue) -> SerializationResult<()>;

    /// Unimplemented.
    fn visit_cdata_section(&mut self) -> SerializationResult<()>;

    /// Emits the literal `&name;` form.
    fn visit_entity_reference(&mut self, name: &String) -> SerializationResult<()>;

    /// Emits the literal `&#n;` form; the argument is the decimal text of n.
    fn visit_character_reference(&mut self, digits: &String) -> SerializationResult<()>;

    /// Unimplemented.
    fn visit_processing_instruction(&mut self, pi: &BinXmlPI) -> SerializationResult<()>;

    /// Called once at the beginning of parsing.
    fn visit_start_of_stream(&mut self) -> SerializationResult<()>;
}

/// The bytes `quick-xml` has pushed into the writer's sink.
pub uninterp spec fn writer_bytes(w: XmlSink) -> Seq<u8>;

/// Whether the writer was created with indentation.
pub uninterp spec fn writer_indent(w: XmlSink) -> bool;

/// What `quick-xml` appends for an XML declaration with the given version.
pub uninterp spec fn xml_decl_bytes(version: Seq<char>) -> Seq<u8>;

/// What `quick-xml` appends for a start tag with the given name and
/// (name, escaped-on-write value) attribute pairs.
pub uninterp spec fn xml_start_bytes(name: Seq<char>, attrs: Seq<(Seq<char>, Seq<char>)>) -> Seq<
    u8,
>;

/// What `quick-xml` appends for an end tag.
pub uninterp spec fn xml_end_bytes(name: Seq<char>) -> Seq<u8>;

/// What `quick-xml` appends for a text node, escaping on write.
pub uninterp spec fn xml_text_bytes(text: Seq<char>) -> Seq<u8>;

/// What `quick-xml` appends for pre-escaped text: the text's own bytes.
pub uninterp spec fn xml_raw_bytes(text: Seq<char>) -> Seq<u8>;

/// What `quick-xml` appends for a processing instruction: the text
/// wrapped in `<?` and `?>`.
pub uninterp spec fn xml_pi_bytes(text: Seq<char>) -> Seq<u8>;

/// Holds the `quick_xml::Writer` over its in-memory sink; the writer's
/// own generic bound keeps Verus from declaring the type directly, so it
/// lives behind this opaque wrapper.
#[verifier::external_body]
pub struct XmlSink {
    inner: quick_xml::Writer<Vec<u8>>,
}

/// Relies on `quick_xml::Writer::new`: a fresh writer, nothing written.
#[verifier::external_body]
fn new_writer_plain() -> (w: XmlSink)
    ensures
        writer_bytes(w) == Seq::<u8>::empty(),
        writer_indent(w) == false,
{
    XmlSink { inner: quick_xml::Writer::new(Vec::new()) }
}

/// Relies on `quick_xml::Writer::new_with_indent`: a fresh writer that
/// pretty-prints with two-space indent, nothing written yet.
#[verifier::external_body]
fn new_writer_indented() -> (w: XmlSink)
    ensures
        writer_bytes(w) == Seq::<u8>::empty(),
        writer_indent(w) == true,
{
    XmlSink { inner: quick_xml::Writer::new_with_indent(Vec::new(), 0x20, 2) }
}

/// Relies on `quick_xml::Writer::into_inner`: hands back the sink, which
/// holds exactly the written bytes.
#[verifier::external_body]
fn writer_into_bytes(w: XmlSink) -> (r: Vec<u8>)
    ensures
        r@ == writer_bytes(w),
{
    w.inner.into_inner()
}

/// Relies on `BytesDecl::new` and `Writer::write_event`: appends the XML
/// declaration for the given version with utf-8 encoding.  The sink is an
/// owned `Vec<u8>`, whose writes cannot fail.
#[verifier::external_body]
fn write_decl_event(w: &mut XmlSink, version: &str) -> (r: Result<(), String>)
    ensures
        r is Ok,
        writer_indent(*final(w)) == writer_indent(*old(w)),
        !writer_indent(*old(w)) ==> writer_bytes(*final(w)) == writer_bytes(*old(w))
            + xml_decl_bytes(version@),
{
    let decl = quick_xml::events::BytesDecl::new(version.as_bytes(), Some(b"utf-8"), None);
    w.inner.write_event(quick_xml::events::Event::Decl(decl)).map_err(|e| format!("{}", e))
}

/// Relies on `BytesStart::borrowed_name`, `BytesStart::with_attributes`
/// and `Writer::write_event`: appends a start tag carrying every given
/// attribute, values escaped on conversion.  The sink is an owned
/// `Vec<u8>`, whose writes cannot fail.
#[verifier::external_body]
fn write_start_event(
    w: &mut XmlSink,
    name: &str,
    attrs: &Vec<XmlAttribute>,
) -> (r: Result<(), String>)
    ensures
        r is Ok,
        writer_indent(*final(w)) == writer_indent(*old(w)),
        !writer_indent(*old(w)) ==> writer_bytes(*final(w)) == writer_bytes(*old(w))
            + xml_start_bytes(name@, attrs_view(attrs@)),
{
    let event = quick_xml::events::BytesStart::borrowed_name(name.as_bytes()).with_attributes(
        attrs.iter().map(|a| (a.name.as_str(), a.value.as_str())),
    );
    w.inner.write_event(quick_xml::events::Event::Start(event)).map_err(|e| format!("{}", e))
}

/// Relies on `BytesEnd::borrowed` and `Writer::write_event`: appends an
/// end tag.  The sink is an owned `Vec<u8>`, whose writes cannot fail.
#[verifier::external_body]
fn write_end_event(w: &mut XmlSink, name: &str) -> (r: Result<(), String>)
    ensures
        r is Ok,
        writer_indent(*final(w)) == writer_indent(*old(w)),
        !writer_indent(*old(w)) ==> writer_bytes(*final(w)) == writer_bytes(*old(w))
            + xml_end_bytes(name@),
{
    let event = quick_xml::events::BytesEnd::borrowed(name.as_bytes());
    w.inner.write_event(quick_xml::events::Event::End(event)).map_err(|e| format!("{}", e))
}

/// Relies on `BytesText::from_plain_str` and `Writer::write_event`:
/// appends character data, escaped on conversion.  The sink is an owned
/// `Vec<u8>`, whose writes cannot fail.
#[verifier::external_body]
fn write_text_event(w: &mut XmlSink, text: &str) -> (r: Result<(), String>)
    ensures
        r is Ok,
        writer_indent(*final(w)) == writer_indent(*old(w)),
        !writer_indent(*old(w)) ==> writer_bytes(*final(w)) == writer_bytes(*old(w))
            + xml_text_bytes(text@),
{
    let event = quick_xml::events::BytesText::from_plain_str(text);
    w.inner.write_event(quick_xml::events::Event::Text(event)).map_err(|e| format!("{}", e))
}

/// Relies on `BytesText::from_escaped_str` and `Writer::write_event`:
/// appends text taken as already escaped, so references stay literal.
/// The sink is an owned `Vec<u8>`, whose writes cannot fail.
#[verifier::external_body]
fn write_raw_event(w: &mut XmlSink, text: &str) -> (r: Result<(), String>)
    ensures
        r is Ok,
        writer_indent(*final(w)) == writer_indent(*old(w)),
        !writer_indent(*old(w)) ==> writer_bytes(*final(w)) == writer_bytes(*old(w))
            + xml_raw_bytes(text@),
{
    let event = quick_xml::events::BytesText::from_escaped_str(text);
    w.inner.write_event(quick_xml::events::Event::Text(event)).map_err(|e| format!("{}", e))
}

/// Relies on `BytesText::from_escaped_str` and `Writer::write_event` with
/// a processing-instruction event: appends `<?`, the text as-is, `?>`.
/// The sink is an owned `Vec<u8>`, whose writes cannot fail.
#[verifier::external_body]
fn write_pi_event(w: &mut XmlSink, text: &str) -> (r: Result<(), String>)
    ensures
        r is Ok,
        writer_indent(*final(w)) == writer_indent(*old(w)),
        !writer_indent(*old(w)) ==> writer_bytes(*final(w)) == writer_bytes(*old(w))
            + xml_pi_bytes(text@),
{
    let event = quick_xml::events::BytesText::from_escaped_str(text);
    w.inner.write_event(quick_xml::events::Event::PI(event)).map_err(|e| format!("{}", e))
}

/// The (name, value) pairs of an attribute list.
pub open spec fn attrs_view(attrs: Seq<XmlAttribute>) -> Seq<(Seq<char>, Seq<char>)> {
    attrs.map(|i: int, a: XmlAttribute| (a.name@, a.value@))
}

/// Attributes whose values render to something: the empty-valued ones are
/// omitted from the output.
pub open spec fn nonempty_attrs(attrs: Seq<XmlAttribute>) -> Seq<XmlAttribute>
    decreases attrs.len(),
{
    if attrs.len() == 0 {
        Seq::empty()
    } else if attrs[0].value@.len() > 0 {
        seq![attrs[0]] + nonempty_attrs(attrs.drop_first())
    } else {
        nonempty_attrs(attrs.drop_first())
    }
}

/// The bytes of one expanded record rendered as an XML document body,
/// without indentation.
pub open spec fn xml_content_bytes(c: XmlContent) -> Seq<u8>
    decreases c,
{
    match c {
        XmlContent::Element(n) => xml_node_bytes(n),
        XmlContent::Value(v) => xml_text_bytes(value_text(v)),
        XmlContent::CharRef(x) => xml_raw_bytes(seq!['&', '#'] + dec_str(x as nat) + seq![';']),
        XmlContent::EntityRef(name) => xml_raw_bytes(seq!['&'] + name@ + seq![';']),
        XmlContent::PI(pi) => xml_pi_bytes(pi.name@ + seq![' '] + pi.data@),
    }
}

pub open spec fn xml_node_bytes(n: XmlNode) -> Seq<u8>
    decreases n,
{
    xml_start_bytes(n.name@, attrs_view(nonempty_attrs(n.attributes@))) + xml_list_bytes(
        n.content@,
    ) + xml_end_bytes(n.name@)
}

pub open spec fn xml_list_bytes(cs: Seq<XmlContent>) -> Seq<u8>
    decreases cs,
{
    if cs.len() == 0 {
        Seq::empty()
    } else {
        xml_content_bytes(cs[0]) + xml_list_bytes(cs.drop_first())
    }
}

/// Whether every value in the content has a text form: rendering
/// succeeds exactly on such content.
pub open spec fn content_renderable(c: XmlContent) -> bool
    decreases c,
{
    match c {
        XmlContent::Element(n) => node_renderable(n),
        XmlContent::Value(v) => value_renderable(v),
        XmlContent::CharRef(_) => true,
        XmlContent::EntityRef(_) => true,
        XmlContent::PI(_) => true,
    }
}

pub open spec fn node_renderable(n: XmlNode) -> bool
    decreases n,
{
    list_renderable(n.content@)
}

pub open spec fn list_renderable(cs: Seq<XmlContent>) -> bool
    decreases cs,
{
    cs.len() == 0 || (content_renderable(cs[0]) && list_renderable(cs.drop_first()))
}

/// Keeps the attributes whose values render to something; the
/// empty-valued ones are omitted from the output.
fn filter_nonempty_attrs(attrs: &Vec<XmlAttribute>) -> (r: Vec<XmlAttribute>)
    ensures
        r@ == nonempty_attrs(attrs@),
{
    let mut out: Vec<XmlAttribute> = Vec::new();
    let mut i: usize = 0;
    let n = attrs.len();
    proof {
        assert(attrs@.skip(0) =~= attrs@);
        assert(out@ + nonempty_attrs(attrs@) =~= nonempty_attrs(attrs@));
    }
    while i < n
        invariant
            i <= n,
            n == attrs@.len(),
            nonempty_attrs(attrs@) == out@ + nonempty_attrs(attrs@.skip(i as int)),
        decreases n - i,
    {
        let ghost tail = attrs@.skip(i as int);
        let ghost pre = out@;
        proof {
            assert(tail[0] == attrs@[i as int]);
            assert(tail.drop_first() =~= attrs@.skip(i + 1));
        }
        let a = &attrs[i];
        if a.value.as_str().unicode_len() > 0 {
            out.push(XmlAttribute { name: a.name.clone(), value: a.value.clone() });
            proof {
                assert(nonempty_attrs(tail) =~= seq![tail[0]] + nonempty_attrs(
                    attrs@.skip(i + 1),
                ));
                assert(pre + (seq![tail[0]] + nonempty_attrs(attrs@.skip(i + 1))) =~= out@
                    + nonempty_attrs(attrs@.skip(i + 1)));
            }
        } else {
            proof {
                assert(nonempty_attrs(tail) =~= nonempty_attrs(attrs@.skip(i + 1)));
            }
        }
        i = i + 1;
    }
    proof {
        assert(attrs@.skip(n as int) =~= Seq::<XmlAttribute>::empty());
        assert(out@ + Seq::<XmlAttribute>::empty() =~= out@);
    }
    out
}

/// Adapter between the record model and `quick-xml` events.
pub struct XmlOutput {
    pub writer: XmlSink,
}

impl XmlOutput {
    pub open spec fn bytes(&self) -> Seq<u8> {
        writer_bytes(self.writer)
    }

    pub open spec fn indent(&self) -> bool {
        writer_indent(self.writer)
    }

    /// Builds the adapter over an in-memory sink; the settings decide
    /// whether the document is pretty-printed.
    pub fn with_writer(settings: &ParserSettings) -> (r: XmlOutput)
        ensures
            r.bytes() == Seq::<u8>::empty(),
            r.indent() == settings.indent,
    {
        if settings.should_indent() {
            XmlOutput { writer: new_writer_indented() }
        } else {
            XmlOutput { writer: new_writer_plain() }
        }
    }

    /// Hands back the rendered bytes.
    pub fn into_writer(self) -> (r: Vec<u8>)
        ensures
            r@ == self.bytes(),
    {
        writer_into_bytes(self.writer)
    }

    /// Writes the standalone XML declaration.
    pub fn write_declaration(&mut self) -> (r: SerializationResult<()>)
        ensures
            r is Ok,
            final(self).indent() == old(self).indent(),
            !old(self).indent() ==> final(self).bytes() == old(self).bytes() + xml_decl_bytes(
                "1.0"@,
            ),
    {
        match write_decl_event(&mut self.writer, "1.0") {
            Ok(()) => Ok(()),
            Err(m) => Err(SerializationError::XmlOutputError { message: m }),
        }
    }

    /// Renders a whole expanded record under the current position.
    #[verifier::loop_isolation(false)]
    pub fn write_content_list(&mut self, cs: &Vec<XmlContent>) -> (r: SerializationResult<()>)
        ensures
            (r is Ok) == list_renderable(cs@),
            final(self).indent() == old(self).indent(),
            r is Ok && !old(self).indent() ==> final(self).bytes() == old(self).bytes()
                + xml_list_bytes(cs@),
        decreases cs@,
    {
        let ghost start = self.bytes();
        let mut i: usize = 0;
        let n = cs.len();
        proof {
            assert(cs@.skip(0) =~= cs@);
            assert(start + Seq::<u8>::empty() =~= start);
        }
        while i < n
            invariant
                i <= n,
                self.indent() == old(self).indent(),
                list_renderable(cs@) == list_renderable(cs@.skip(i as int)),
                !old(self).indent() ==> start + xml_list_bytes(cs@) == self.bytes()
                    + xml_list_bytes(cs@.skip(i as int)),
            decreases n - i,
        {
            let ghost pre = self.bytes();
            let ghost tail = cs@.skip(i as int);
            proof {
                assert(decreases_to!(cs@ => cs@[i as int]));
                assert(tail[0] == cs@[i as int]);
                assert(tail.drop_first() =~= cs@.skip(i + 1));
            }
            match self.write_content(&cs[i]) {
                Ok(()) => {},
                Err(e) => {
                    return Err(e);
                },
            }
            proof {
                if !old(self).indent() {
                    assert(pre + (xml_content_bytes(cs@[i as int]) + xml_list_bytes(
                        cs@.skip(i + 1),
                    )) =~= (pre + xml_content_bytes(cs@[i as int])) + xml_list_bytes(
                        cs@.skip(i + 1),
                    ));
                }
            }
            i = i + 1;
        }
        proof {
            assert(cs@.skip(n as int) =~= Seq::<XmlContent>::empty());
            assert(self.bytes() + Seq::<u8>::empty() =~= self.bytes());
        }
        Ok(())
    }

    /// Renders one content item.
    fn write_content(&mut self, c: &XmlContent) -> (r: SerializationResult<()>)
        ensures
            (r is Ok) == content_renderable(*c),
            final(self).indent() == old(self).indent(),
            r is Ok && !old(self).indent() ==> final(self).bytes() == old(self).bytes()
                + xml_content_bytes(*c),
        decreases *c,
    {
        match c {
            XmlContent::Element(node) => {
                proof {
                    assert(decreases_to!(*c => *node));
                }
                self.write_node(node)
            },
            XmlContent::Value(v) => {
                let text = match v.as_string() {
                    Ok(t) => t,
                    Err(_) => {
                        return Err(SerializationError::Unimplemented {
                            message: String::from_str("value has no text form"),
                        });
                    },
                };
                match write_text_event(&mut self.writer, text.as_str()) {
                    Ok(()) => Ok(()),
                    Err(m) => Err(SerializationError::XmlOutputError { message: m }),
                }
            },
            XmlContent::CharRef(x) => {
                let mut s = String::from_str("&#");
                let digits = dec_u64(*x as u64);
                let mut s = s.concat(digits.as_str());
                push_char(&mut s, ';');
                proof {
                    reveal_strlit("&#");
                    assert(s@ =~= seq!['&', '#'] + dec_str(*x as nat) + seq![';']);
                }
                match write_raw_event(&mut self.writer, s.as_str()) {
                    Ok(()) => Ok(()),
                    Err(m) => Err(SerializationError::XmlOutputError { message: m }),
                }
            },
            XmlContent::EntityRef(name) => {
                let mut s = String::from_str("&");
                let mut s = s.concat(name.as_str());
                push_char(&mut s, ';');
                proof {
                    reveal_strlit("&");
                    assert(s@ =~= seq!['&'] + name@ + seq![';']);
                }
                match write_raw_event(&mut self.writer, s.as_str()) {
                    Ok(()) => Ok(()),
                    Err(m) => Err(SerializationError::XmlOutputError { message: m }),
                }
            },
            XmlContent::PI(pi) => {
                let mut s = pi.name.clone();
                push_char(&mut s, ' ');
                let s = s.concat(pi.data.as_str());
                proof {
                    assert(s@ =~= pi.name@ + seq![' '] + pi.data@);
                }
                match write_pi_event(&mut self.writer, s.as_str()) {
                    Ok(()) => Ok(()),
                    Err(m) => Err(SerializationError::XmlOutputError { message: m }),
                }
            },
        }
    }

    /// Renders one element: start tag with its non-empty attributes, the
    /// children, and the end tag.
    fn write_node(&mut self, node: &XmlNode) -> (r: SerializationResult<()>)
        ensures
            (r is Ok) == node_renderable(*node),
            final(self).indent() == old(self).indent(),
            r is Ok && !old(self).indent() ==> final(self).bytes() == old(self).bytes()
                + xml_node_bytes(*node),
        decreases *node,
    {
        let attrs = filter_nonempty_attrs(&node.attributes);
        match write_start_event(&mut self.writer, node.name.as_str(), &attrs) {
            Ok(()) => {},
            Err(m) => {
                return Err(SerializationError::XmlOutputError { message: m });
            },
        }
        proof {
            assert(decreases_to!(*node => node.content@));
        }
        match self.write_content_list(&node.content) {
            Ok(()) => {},
            Err(e) => {
                return Err(e);
            },
        }
        match write_end_event(&mut self.writer, node.name.as_str()) {
            Ok(()) => {},
            Err(m) => {
                return Err(SerializationError::XmlOutputError { message: m });
            },
        }
        proof {
            if !old(self).indent() {
                assert(old(self).bytes() + xml_node_bytes(*node) =~= ((old(self).bytes()
                    + xml_start_bytes(
                    node.name@,
                    attrs_view(nonempty_attrs(node.attributes@)),
                )) + xml_list_bytes(node.content@)) + xml_end_bytes(node.name@));
            }
        }
        Ok(())
    }
}

impl BinXmlOutput for XmlOutput {
    /// Writes nothing: the document ends where the content ends.
    fn visit_end_of_stream(&mut self) -> (r: SerializationResult<()>)
        ensures
            r is Ok,
            *final(self) == *old(self),
    {
        Ok(())
    }

    /// Appends the start tag, its empty-valued attributes omitted.
    fn visit_open_start_element(&mut self, element: &XmlElement) -> (r: SerializationResult<()>)
        ensures
            r is Ok,
            final(self).indent() == old(self).indent(),
            !old(self).indent() ==> final(self).bytes() == old(self).bytes() + xml_start_bytes(
                element.name@,
                attrs_view(nonempty_attrs(element.attributes@)),
            ),
    {
        let attrs = filter_nonempty_attrs(&element.attributes);
        match write_start_event(&mut self.writer, element.name.as_str(), &attrs) {
            Ok(()) => Ok(()),
            Err(m) => Err(SerializationError::XmlOutputError { message: m }),
        }
    }

    /// Appends the end tag.
    fn visit_close_element(&mut self, element: &XmlElement) -> (r: SerializationResult<()>)
        ensures
            r is Ok,
            final(self).indent() == old(self).indent(),
            !old(self).indent() ==> final(self).bytes() == old(self).bytes() + xml_end_bytes(
                element.name@,
            ),
    {
        match write_end_event(&mut self.writer, element.name.as_str()) {
            Ok(()) => Ok(()),
            Err(m) => Err(SerializationError::XmlOutputError { message: m }),
        }
    }

    /// Appends the value's text, escaped on write; succeeds exactly on
    /// values with a text form.
    fn visit_characters(&mut self, value: &BinXmlValue) -> (r: SerializationResult<()>)
        ensures
            (r is Ok) == value_renderable(*value),
            final(self).indent() == old(self).indent(),
            r is Ok && !old(self).indent() ==> final(self).bytes() == old(self).bytes()
                + xml_text_bytes(value_text(*value)),
    {
        let text = match value.as_string() {
            Ok(t) => t,
            Err(_) => {
                return Err(SerializationError::Unimplemented {
                    message: String::from_str("value has no text form"),
                });
            },
        };
        match write_text_event(&mut self.writer, text.as_str()) {
            Ok(()) => Ok(()),
            Err(m) => Err(SerializationError::XmlOutputError { message: m }),
        }
    }

    /// Unimplemented: nothing is written.
    fn visit_cdata_section(&mut self) -> (r: SerializationResult<()>)
        ensures
            r is Err,
            *final(self) == *old(self),
    {
        Err(SerializationError::Unimplemented { message: String::from_str("visit_cdata_section") })
    }

    /// Appends the literal `&name;` form.
    fn visit_entity_reference(&mut self, name: &String) -> (r: SerializationResult<()>)
        ensures
            r is Ok,
            final(self).indent() == old(self).indent(),
            !old(self).indent() ==> final(self).bytes() == old(self).bytes() + xml_raw_bytes(
                seq!['&'] + name@ + seq![';'],
            ),
    {
        let mut s = String::from_str("&");
        let mut s = s.concat(name.as_str());
        push_char(&mut s, ';');
        proof {
            reveal_strlit("&");
            assert(s@ =~= seq!['&'] + name@ + seq![';']);
        }
        match write_raw_event(&mut self.writer, s.as_str()) {
            Ok(()) => Ok(()),
            Err(m) => Err(SerializationError::XmlOutputError { message: m }),
        }
    }

    /// Appends the literal `&#n;` form.
    fn visit_character_reference(&mut self, digits: &String) -> (r: SerializationResult<()>)
        ensures
            r is Ok,
            final(self).indent() == old(self).indent(),
            !old(self).indent() ==> final(self).bytes() == old(self).bytes() + xml_raw_bytes(
                seq!['&', '#'] + digits@ + seq![';'],
            ),
    {
        let mut s = String::from_str("&#");
        let mut s = s.concat(digits.as_str());
        push_char(&mut s, ';');
        proof {
            reveal_strlit("&#");
            assert(s@ =~= seq!['&', '#'] + digits@ + seq![';']);
        }
        match write_raw_event(&mut self.writer, s.as_str()) {
            Ok(()) => Ok(()),
            Err(m) => Err(SerializationError::XmlOutputError { message: m }),
        }
    }

    /// Appends `<?name data?>`.
    fn visit_processing_instruction(&mut self, pi: &BinXmlPI) -> (r: SerializationResult<()>)
        ensures
            r is Ok,
            final(self).indent() == old(self).indent(),
            !old(self).indent() ==> final(self).bytes() == old(self).bytes() + xml_pi_bytes(
                pi.name@ + seq![' '] + pi.data@,
            ),
    {
        let mut s = pi.name.clone();
        push_char(&mut s, ' ');
        let s = s.concat(pi.data.as_str());
        proof {
            assert(s@ =~= pi.name@ + seq![' '] + pi.data@);
        }
        match write_pi_event(&mut self.writer, s.as_str()) {
            Ok(()) => Ok(()),
            Err(m) => Err(SerializationError::XmlOutputError { message: m }),
        }
    }

    /// Writes the standalone XML declaration.
    fn visit_start_of_stream(&mut self) -> (r: SerializationResult<()>)
        ensures
            r is Ok,
            final(self).indent() == old(self).indent(),
            !old(self).indent() ==> final(self).bytes() == old(self).bytes() + xml_decl_bytes(
                "1.0"@,
            ),
    {
        self.write_declaration()
    }
}

/// Renders one expanded record as a standalone XML document; without
/// indentation the bytes are exactly the declaration followed by the
/// record's content.
pub fn render_record_xml(cs: &Vec<XmlContent>, settings: &ParserSettings) -> (r: Result<
    Vec<u8>,
    SerializationError,
>)
    ensures
        (r is Ok) == list_renderable(cs@),
        !settings.indent ==> (r matches Ok(b) ==> b@ == xml_decl_bytes("1.0"@) + xml_list_bytes(
            cs@,
        )),
{
    let mut out = XmlOutput::with_writer(settings);
    match out.write_declaration() {
        Ok(()) => {},
        Err(e) => {
            return Err(e);
        },
    }
    match out.write_content_list(cs) {
        Ok(()) => {},
        Err(e) => {
            return Err(e);
        },
    }
    proof {
        if !settings.indent {
            assert(Seq::<u8>::empty() + xml_decl_bytes("1.0"@) =~= xml_decl_bytes("1.0"@));
        }
    }
    Ok(out.into_writer())
}

/// Rendering is a function of the record content alone: two renderings
/// of the same content, without indentation, are byte-identical.
pub proof fn lemma_xml_rendering_deterministic(cs: Seq<XmlContent>, b1: Seq<u8>, b2: Seq<u8>)
    requires
        b1 == xml_decl_bytes("1.0"@) + xml_list_bytes(cs),
        b2 == xml_decl_bytes("1.0"@) + xml_list_bytes(cs),
    ensures
        b1 == b2,
{
}


} // verus!
