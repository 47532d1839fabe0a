use evtx::chunk::RecordData;
use evtx::model::{XmlContent, XmlElement, XmlNode};
use evtx::xml_output::BinXmlOutput;
use evtx::name_cache::NameCache;
use evtx::values::BinXmlValue;
use evtx::template_cache::TemplateCache;
use evtx::evtx_structure::{EvtxXmlContentType, EvtxXmlElement, StructureBuilder};
use evtx::model::XmlAttribute;
use evtx::time::{Timestamp, UNIX_EPOCH_TICKS};
use evtx::settings::ParserSettings;

fn name_entry(name: &str) -> Vec<u8> {
    let mut buf = Vec::new();
    buf.extend_from_slice(&0u32.to_le_bytes());
    buf.extend_from_slice(&0u16.to_le_bytes());
    let units: Vec<u16> = name.encode_utf16().collect();
    buf.extend_from_slice(&(units.len() as u16).to_le_bytes());
    for u in &units {
        buf.extend_from_slice(&u.to_le_bytes());
    }
    buf.extend_from_slice(&0u16.to_le_bytes());
    buf
}

#[test]
fn test_name_interning_same_offset_same_string() {
    let chunk = name_entry("Computer");
    let mut nc = NameCache::new();
    let first = nc.get_name(&chunk, 0).unwrap();
    let second = nc.get_name(&chunk, 0).unwrap();
    assert_eq!(first, "Computer");
    assert_eq!(first, second);
}

#[test]
fn test_name_out_of_bounds_is_error() {
    let chunk = name_entry("Computer");
    let mut nc = NameCache::new();
    assert!(nc.get_name(&chunk, 1000).is_err());
}

/// A template definition at offset 0 whose body is an empty fragment.
fn tiny_template_buffer() -> Vec<u8> {
    let mut buf = Vec::new();
    buf.extend_from_slice(&0u32.to_le_bytes());
    buf.extend_from_slice(&[0u8; 16]);
    let body: Vec<u8> = vec![0x0F, 0x01, 0x01, 0x00, 0x00];
    buf.extend_from_slice(&(body.len() as u32).to_le_bytes());
    buf.extend_from_slice(&body);
    buf
}

#[test]
fn test_template_parsed_at_most_once() {
    let buf = tiny_template_buffer();
    let mut nc = NameCache::new();
    let mut tc = TemplateCache::new();
    assert_eq!(tc.len(), 0);
    tc.ensure_template(&buf, 0, &mut nc, 4).unwrap();
    assert_eq!(tc.len(), 1);
    // a second reference to the same offset parses nothing new
    tc.ensure_template(&buf, 0, &mut nc, 4).unwrap();
    assert_eq!(tc.len(), 1);
    assert!(tc.get_template(0).is_some());
    assert!(tc.get_template(4).is_none());
}

#[test]
fn test_populate_skips_zero_offsets() {
    let buf = tiny_template_buffer();
    let mut nc = NameCache::new();
    let offsets = [0u32, 0, 0];
    let tc = TemplateCache::populate(&buf, &offsets, &mut nc).unwrap();
    assert_eq!(tc.len(), 0);
}

#[test]
fn test_element_attributes_replace() {
    let mut e = EvtxXmlElement::new("Ev");
    e.add_attribute("a", "1");
    e.add_attribute("b", "2");
    e.add_attribute("a", "3");
    assert_eq!(e.attributes.len(), 2);
    assert_eq!(e.attributes[0].name, "a");
    assert_eq!(e.attributes[0].value, "3");
    assert_eq!(e.attributes[1].name, "b");
    assert_eq!(e.attributes[1].value, "2");
}

#[test]
fn test_element_content_transitions() {
    let mut e = EvtxXmlElement::new("Ev");
    assert!(matches!(e.content, EvtxXmlContentType::Empty));
    e.add_simple_content("he");
    e.add_simple_content("llo");
    match &e.content {
        EvtxXmlContentType::Simple(s) => assert_eq!(s, "hello"),
        _ => panic!("expected text content"),
    }
    let mut parent = EvtxXmlElement::new("P");
    parent.add_child(e);
    let other = EvtxXmlElement::new("Q");
    parent.add_child(other);
    match &parent.content {
        EvtxXmlContentType::Complex(v) => {
            assert_eq!(v.len(), 2);
            assert_eq!(v[0].name, "Ev");
            assert_eq!(v[1].name, "Q");
        },
        _ => panic!("expected children"),
    }
}

#[test]
fn test_structure_builder_stack() {
    let mut b = StructureBuilder::new(42, Timestamp::from_ticks(UNIX_EPOCH_TICKS));
    let attrs: Vec<XmlAttribute> = vec![XmlAttribute {
        name: "x".to_string(),
        value: "1".to_string(),
    }];
    b.enter_named_node("Root", &attrs);
    b.enter_named_node("Child", &Vec::new());
    b.leave_node("Child").unwrap();
    b.leave_node("Root").unwrap();
    let s = b.get_structure();
    assert_eq!(s.event_record_id(), 42);
    assert_eq!(s.content.name, "Root");
    assert_eq!(s.content.attributes[0].name, "x");
    match &s.content.content {
        EvtxXmlContentType::Complex(v) => assert_eq!(v[0].name, "Child"),
        _ => panic!("expected children"),
    }
    // after the swap the builder holds a fresh empty structure
    let fresh = b.get_structure();
    assert_eq!(fresh.event_record_id(), 0);
    assert_eq!(fresh.timestamp().ticks, UNIX_EPOCH_TICKS);
}

#[test]
fn test_structure_builder_underflow_is_error() {
    let mut b = StructureBuilder::new(1, Timestamp::from_ticks(0));
    assert!(b.leave_node("nothing").is_err());
}

#[test]
fn test_settings_defaults() {
    let s = ParserSettings::new();
    assert_eq!(s.num_threads, 0);
    assert!(s.should_validate_checksums());
    assert!(!s.should_separate_json_attributes());
    assert!(!s.should_indent());
    let s = s.num_threads(8).indent(true);
    assert_eq!(s.num_threads, 8);
    assert!(s.should_indent());
}

struct EventLog {
    events: Vec<String>,
}

impl evtx::evtx_structure::EvtxStructureVisitor for EventLog {
    type VisitorResult = usize;

    fn get_result(&self, _event_record_id: u64, _timestamp: Timestamp) -> usize {
        self.events.len()
    }

    fn start_record(&mut self) {
        self.events.push("start".to_string());
    }

    fn finalize_record(&mut self) {
        self.events.push("finalize".to_string());
    }

    fn visit_characters(&mut self, value: &str) {
        self.events.push(format!("chars:{}", value));
    }

    fn visit_empty_element(&mut self, name: &str, _attributes: &Vec<XmlAttribute>) {
        self.events.push(format!("empty:{}", name));
    }

    fn visit_simple_element(&mut self, name: &str, _attributes: &Vec<XmlAttribute>, content: &str) {
        self.events.push(format!("simple:{}:{}", name, content));
    }

    fn visit_start_element(&mut self, name: &str, _attributes: &Vec<XmlAttribute>) {
        self.events.push(format!("open:{}", name));
    }

    fn visit_end_element(&mut self, name: &str) {
        self.events.push(format!("close:{}", name));
    }
}

#[test]
fn test_visitor_classification_and_order() {
    // <Root><A>x</A><B/></Root>
    let a = XmlNode {
        name: "A".to_string(),
        attributes: Vec::new(),
        content: vec![XmlContent::Value(BinXmlValue::StringType("x".to_string()))],
    };
    let b = XmlNode { name: "B".to_string(), attributes: Vec::new(), content: Vec::new() };
    let root = XmlNode {
        name: "Root".to_string(),
        attributes: Vec::new(),
        content: vec![XmlContent::Element(a), XmlContent::Element(b)],
    };
    let rec = RecordData {
        event_record_id: 11,
        timestamp: Timestamp::from_ticks(0),
        content: vec![XmlContent::Element(root)],
    };
    let mut v = EventLog { events: Vec::new() };
    let n = evtx::parser::record_to_visitor(&rec, &mut v).unwrap();
    assert_eq!(
        v.events,
        vec![
            "start".to_string(),
            "open:Root".to_string(),
            "simple:A:x".to_string(),
            "empty:B".to_string(),
            "close:Root".to_string(),
            "finalize".to_string(),
        ]
    );
    assert_eq!(n, 6);
}

#[test]
fn test_structure_builder_as_binxml_output() {
    let mut b = StructureBuilder::new(1, Timestamp::from_ticks(0));
    b.visit_start_of_stream().unwrap();
    let root = XmlElement { name: "Root".to_string(), attributes: Vec::new() };
    b.visit_open_start_element(&root).unwrap();
    b.visit_characters(&BinXmlValue::StringType("text".to_string())).unwrap();
    b.visit_close_element(&root).unwrap();
    b.visit_end_of_stream().unwrap();
    let s = b.get_structure();
    assert_eq!(s.content.name, "Root");
    match &s.content.content {
        EvtxXmlContentType::Simple(t) => assert_eq!(t, "text"),
        _ => panic!("expected text content"),
    }
}

#[test]
fn test_structure_builder_rejects_text_after_children() {
    let mut b = StructureBuilder::new(1, Timestamp::from_ticks(0));
    b.visit_start_of_stream().unwrap();
    let root = XmlElement { name: "Root".to_string(), attributes: Vec::new() };
    let child = XmlElement { name: "C".to_string(), attributes: Vec::new() };
    b.visit_open_start_element(&root).unwrap();
    b.visit_open_start_element(&child).unwrap();
    b.visit_close_element(&child).unwrap();
    assert!(b.visit_characters(&BinXmlValue::StringType("x".to_string())).is_err());
}

#[test]
fn test_populate_fails_on_unparseable_offset() {
    // a nonzero table offset pointing past the buffer cannot parse
    let buf = tiny_template_buffer();
    let mut nc = NameCache::new();
    let offsets = [0u32, 4000, 0];
    assert!(TemplateCache::populate(&buf, &offsets, &mut nc).is_err());
}

#[test]
fn test_ensure_template_absent_unparseable_is_error() {
    let buf = tiny_template_buffer();
    let mut nc = NameCache::new();
    let mut tc = TemplateCache::new();
    assert!(tc.ensure_template(&buf, 4000, &mut nc, 4).is_err());
    assert_eq!(tc.len(), 0);
}
