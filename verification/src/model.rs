use vstd::prelude::*;
use crate::values::BinXmlValue;

verus! {

/// An attribute as delivered to the visitor: its value is already rendered.
#[derive(Debug, Clone)]
pub struct XmlAttribute {
    pub name: String,
    pub value: String,
}

/// The element shape handed to `BinXmlOutput` visitors.
#[derive(Debug, Clone)]
pub struct XmlElement {
    pub name: String,
    pub attributes: Vec<XmlAttribute>,
}

/// A processing instruction.
#[derive(Debug, Clone)]
pub struct BinXmlPI {
    pub name: String,
    pub data: String,
}

/// One fully expanded element: substitutions are already resolved.
#[derive(Debug)]
pub struct XmlNode {
    pub name: String,
    pub attributes: Vec<XmlAttribute>,
    pub content: Vec<XmlContent>,
}

/// Expanded record content in document order.
#[derive(Debug)]
pub enum XmlContent {
    Element(XmlNode),
    Value(BinXmlValue),
    CharRef(u32),
    EntityRef(String),
    PI(BinXmlPI),
}

} // verus!
