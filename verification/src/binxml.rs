use vstd::prelude::*;
use vstd::string::*;
use crate::bytes::{le16_at, le32_at, le64_at, read_u8, read_u16, read_u32, read_u64, read_bytes,
    read_u16_units};
use crate::err::Error;
use crate::guid::{Guid, guid_matches, guid_wf};
use crate::model::{XmlAttribute, XmlNode, XmlContent, BinXmlPI};
use crate::name_cache::{NameCache, name_chars_at};
use crate::sid::{Sid, sid_matches};
use crate::template_cache::TemplateCache;
use crate::text::{utf16_decode, utf16_to_string};
use crate::time::Timestamp;
use crate::values::{BinXmlValue, SysTime, value_renderable, value_text};

verus! {

/// A value position inside a template: either a literal, or a placeholder
/// resolved from the substitution array at instantiation time.
#[derive(Debug)]
pub enum TplValue {
    Literal(BinXmlValue),
    Sub { index: u16, optional: bool },
}

#[derive(Debug)]
pub struct TplAttribute {
    pub name: String,
    pub value: TplValue,
}

#[derive(Debug)]
pub struct TplNode {
    pub name: String,
    pub attributes: Vec<TplAttribute>,
    pub content: Vec<TplContent>,
}

/// Tokenised template content with substitution placeholders.
#[derive(Debug)]
pub enum TplContent {
    Element(TplNode),
    Value(BinXmlValue),
    Sub { index: u16, optional: bool },
    CharRef(u32),
    EntityRef(String),
    PI(BinXmlPI),
}

/// A parsed template definition: a tokenised element tree stored once per
/// chunk and instantiated by records through a substitution array.
#[derive(Debug)]
pub struct TemplateDefinition {
    pub guid: Guid,
    pub data_size: u32,
    pub content: Vec<TplContent>,
}

/// The maximum nesting of template instances and embedded binxml values.
pub const MAX_BINXML_DEPTH: u32 = 64;

/// `n` little-endian code units starting at `pos`.
pub open spec fn units_at(d: Seq<u8>, pos: int, n: nat) -> Seq<u16> {
    Seq::new(n, |j: int| le16_at(d, pos + 2 * j))
}


/// Where the cursor lands after a possibly inline name entry at `pos`.
pub open spec fn spec_skip_inline_name(d: Seq<u8>, pos: int, name_offset: u32) -> int {
    if name_offset as int == pos && d.len() - pos >= 8 {
        let skip = 8 + 2 * (le16_at(d, pos + 6) as int) + 2;
        if skip <= d.len() - pos {
            pos + skip
        } else {
            d.len() as int
        }
    } else {
        pos
    }
}

/// Where an inline value token body ends, `None` where it is rejected.
#[verifier::opaque]
pub open spec fn spec_value_token_end(d: Seq<u8>, pos: int, end: int) -> Option<int> {
    if pos >= end {
        None
    } else {
        let vtype = d[pos];
        let vp = pos + 1;
        if vtype == 0x00 {
            Some(vp)
        } else if vtype == 0x01 {
            if end - vp < 2 {
                None
            } else {
                let n = le16_at(d, vp) as int;
                if end - vp - 2 < 2 * n {
                    None
                } else if utf16_decode(units_at(d, vp + 2, n as nat)) is Some {
                    Some(vp + 2 + 2 * n)
                } else {
                    None
                }
            }
        } else if vtype == 0x03 || vtype == 0x04 {
            if end - vp < 1 {
                None
            } else {
                Some(vp + 1)
            }
        } else if vtype == 0x05 || vtype == 0x06 {
            if end - vp < 2 {
                None
            } else {
                Some(vp + 2)
            }
        } else if vtype == 0x07 || vtype == 0x08 || vtype == 0x0b || vtype == 0x0d || vtype
            == 0x14 {
            if end - vp < 4 {
                None
            } else {
                Some(vp + 4)
            }
        } else if vtype == 0x09 || vtype == 0x0a || vtype == 0x0c || vtype == 0x11 || vtype
            == 0x15 {
            if end - vp < 8 {
                None
            } else {
                Some(vp + 8)
            }
        } else if vtype == 0x0f {
            if end - vp < 16 {
                None
            } else {
                Some(vp + 16)
            }
        } else {
            None
        }
    }
}

/// Where a processing instruction ends, after its target token byte.
#[verifier::opaque]
pub open spec fn spec_pi_end(d: Seq<u8>, pos: int, end: int) -> Option<int> {
    if end - pos < 4 {
        None
    } else {
        let name_offset = le32_at(d, pos);
        if name_chars_at(d, name_offset as int) is Some {
            let p = spec_skip_inline_name(d, pos + 4, name_offset);
            if p >= end {
                None
            } else if d[p] & 0x0F != 0x0B {
                None
            } else if end - p < 3 {
                None
            } else {
                let n = le16_at(d, p + 1) as int;
                if (end - p - 3) / 2 < n {
                    None
                } else if utf16_decode(units_at(d, p + 3, n as nat)) is Some {
                    Some(p + 3 + 2 * n)
                } else {
                    None
                }
            }
        } else {
            None
        }
    }
}

/// Where an attribute list ends, one attribute per step until the
/// more-attributes flag clears.
#[verifier::opaque]
pub open spec fn spec_attrs_end(d: Seq<u8>, pos: int, end: int) -> Option<int>
    decreases end - pos, 0int,
{
    if pos >= end {
        None
    } else {
        let tok = d[pos];
        if tok & 0x0F != 0x06 {
            None
        } else if end - pos < 5 {
            None
        } else {
            let name_offset = le32_at(d, pos + 1);
            if name_chars_at(d, name_offset as int) is Some {
                let p2 = spec_skip_inline_name(d, pos + 5, name_offset);
                if p2 >= end {
                    None
                } else {
                    let vtok = d[p2];
                    let kind = vtok & 0x0F;
                    let after = if kind == 0x05 {
                        spec_value_token_end(d, p2 + 1, end)
                    } else if kind == 0x0D || kind == 0x0E {
                        if end - p2 < 4 {
                            None
                        } else {
                            Some(p2 + 4)
                        }
                    } else {
                        None
                    };
                    match after {
                        None => None,
                        Some(np) => if tok & 0x40 != 0 {
                            if np <= pos || np > end {
                                None
                            } else {
                                spec_attrs_end(d, np, end)
                            }
                        } else {
                            Some(np)
                        },
                    }
                }
            } else {
                None
            }
        }
    }
}

/// Where an element ends, after its open token byte: the mirror of the
/// element grammar, `None` where it is rejected.
#[verifier::opaque]
pub open spec fn spec_element_end(d: Seq<u8>, pos: int, end: int, has_attrs: bool) -> Option<int>
    decreases end - pos, 1int,
{
    if end - pos < 10 {
        None
    } else {
        let name_offset = le32_at(d, pos + 6);
        if name_chars_at(d, name_offset as int) is Some {
            let p = spec_skip_inline_name(d, pos + 10, name_offset);
            if p > end {
                None
            } else {
                let after_attrs = if has_attrs {
                    if end - p < 4 {
                        None
                    } else {
                        spec_attrs_end(d, p + 4, end)
                    }
                } else {
                    Some(p)
                };
                match after_attrs {
                    None => None,
                    Some(p2) => if p2 < pos || p2 >= end {
                        None
                    } else if d[p2] == 0x03 {
                        Some(p2 + 1)
                    } else if d[p2] != 0x02 {
                        None
                    } else {
                        spec_content_list_end(d, p2 + 1, end)
                    },
                }
            }
        } else {
            None
        }
    }
}

/// Where a content list ends, its closing token consumed: the mirror of
/// the template-path tokenizer, `None` where it rejects.
#[verifier::opaque]
pub open spec fn spec_content_list_end(d: Seq<u8>, pos: int, end: int) -> Option<int>
    decreases end - pos, 2int,
{
    if pos >= end {
        None
    } else {
        let tok = d[pos];
        let kind = tok & 0x0F;
        if tok == 0x00 || tok == 0x04 {
            Some(pos + 1)
        } else if kind == 0x01 {
            match spec_element_end(d, pos + 1, end, tok & 0x40 != 0) {
                None => None,
                Some(np) => if np <= pos || np > end {
                    None
                } else {
                    spec_content_list_end(d, np, end)
                },
            }
        } else if kind == 0x05 {
            match spec_value_token_end(d, pos + 1, end) {
                None => None,
                Some(np) => if np <= pos || np > end {
                    None
                } else {
                    spec_content_list_end(d, np, end)
                },
            }
        } else if kind == 0x0D || kind == 0x0E {
            if end - pos < 4 {
                None
            } else {
                spec_content_list_end(d, pos + 4, end)
            }
        } else if kind == 0x08 {
            if end - pos < 3 {
                None
            } else {
                spec_content_list_end(d, pos + 3, end)
            }
        } else if kind == 0x09 {
            if end - pos < 5 {
                None
            } else {
                let name_offset = le32_at(d, pos + 1);
                if name_chars_at(d, name_offset as int) is Some {
                    let np = spec_skip_inline_name(d, pos + 5, name_offset);
                    if np <= pos || np > end {
                        None
                    } else {
                        spec_content_list_end(d, np, end)
                    }
                } else {
                    None
                }
            }
        } else if kind == 0x0F {
            if end - pos < 4 {
                None
            } else {
                spec_content_list_end(d, pos + 4, end)
            }
        } else if kind == 0x0A {
            match spec_pi_end(d, pos + 1, end) {
                None => None,
                Some(np) => if np <= pos || np > end {
                    None
                } else {
                    spec_content_list_end(d, np, end)
                },
            }
        } else {
            None
        }
    }
}

/// Whether the template definition at `offset` parses: its header lies
/// inside the chunk and its token stream is accepted.
pub open spec fn spec_template_parses(d: Seq<u8>, offset: int) -> bool {
    &&& 0 <= offset < d.len()
    &&& d.len() - offset >= 24
    &&& d.len() - offset - 24 >= le32_at(d, offset + 20) as int
    &&& spec_content_list_end(d, offset + 24, offset + 24 + le32_at(d, offset + 20) as int)
        is Some
}

/// Skips an inline name entry when the name offset points at the cursor.
/// Returns the position after the entry (header, units, terminator).
fn skip_inline_name(d: &[u8], pos: usize, name_offset: u32) -> (r: usize)
    requires
        pos <= d@.len(),
    ensures
        pos <= r <= d@.len(),
        r == spec_skip_inline_name(d@, pos as int, name_offset),
{
    if name_offset as u64 == pos as u64 && d.len() - pos >= 8 {
        let nlen = read_u16(d, pos + 6).unwrap();
        let skip: u64 = 8 + 2 * (nlen as u64) + 2;
        if skip <= (d.len() - pos) as u64 {
            pos + skip as usize
        } else {
            d.len()
        }
    } else {
        pos
    }
}

/// Reads one inline value token body (after the 0x05/0x45 token byte):
/// a type byte, then the type-determined payload.  It succeeds exactly
/// where the spec-level token walk accepts, landing where it says.
fn parse_value_token(d: &[u8], pos: usize, end: usize) -> (r: Result<
    (BinXmlValue, usize),
    Error,
>)
    requires
        pos <= end <= d@.len(),
    ensures
        r matches Ok((v, np)) ==> pos < np <= end,
        (r is Ok) == (spec_value_token_end(d@, pos as int, end as int) is Some),
        r matches Ok((v, np)) ==> Some(np as int) == spec_value_token_end(
            d@,
            pos as int,
            end as int,
        ),
{
    proof {
        reveal(spec_value_token_end);
    }
    if pos >= end {
        return Err(Error::FailedToRead { offset: pos as u64, t: String::from_str("value type") });
    }
    let vtype = d[pos];
    let vp = pos + 1;
    match vtype {
        0x00 => Ok((BinXmlValue::NullType, vp)),
        0x01 => {
            // UTF-16 string, led by its length in code units.
            if end - vp < 2 {
                return Err(Error::FailedToRead {
                    offset: vp as u64,
                    t: String::from_str("string length"),
                });
            }
            let n = read_u16(d, vp).unwrap() as usize;
            if end - vp - 2 < 2 * n {
                return Err(Error::FailedToRead {
                    offset: vp as u64,
                    t: String::from_str("string data"),
                });
            }
            let units = read_u16_units(d, vp + 2, n).unwrap();
            proof {
                assert(units@ =~= units_at(d@, vp + 2, n as nat));
            }
            match utf16_to_string(&units) {
                Some(s) => Ok((BinXmlValue::StringType(s), vp + 2 + 2 * n)),
                None => Err(Error::FailedToDecodeUTF16String { offset: vp as u64 }),
            }
        },
        0x03 => {
            if end - vp < 1 {
                return Err(Error::FailedToRead { offset: vp as u64, t: String::from_str("i8") });
            }
            Ok((BinXmlValue::Int8Type(d[vp] as i8), vp + 1))
        },
        0x04 => {
            if end - vp < 1 {
                return Err(Error::FailedToRead { offset: vp as u64, t: String::from_str("u8") });
            }
            Ok((BinXmlValue::UInt8Type(d[vp]), vp + 1))
        },
        0x05 => {
            if end - vp < 2 {
                return Err(Error::FailedToRead { offset: vp as u64, t: String::from_str("i16") });
            }
            Ok((BinXmlValue::Int16Type(read_u16(d, vp).unwrap() as i16), vp + 2))
        },
        0x06 => {
            if end - vp < 2 {
                return Err(Error::FailedToRead { offset: vp as u64, t: String::from_str("u16") });
            }
            Ok((BinXmlValue::UInt16Type(read_u16(d, vp).unwrap()), vp + 2))
        },
        0x07 => {
            if end - vp < 4 {
                return Err(Error::FailedToRead { offset: vp as u64, t: String::from_str("i32") });
            }
            Ok((BinXmlValue::Int32Type(read_u32(d, vp).unwrap() as i32), vp + 4))
        },
        0x08 => {
            if end - vp < 4 {
                return Err(Error::FailedToRead { offset: vp as u64, t: String::from_str("u32") });
            }
            Ok((BinXmlValue::UInt32Type(read_u32(d, vp).unwrap()), vp + 4))
        },
        0x09 => {
            if end - vp < 8 {
                return Err(Error::FailedToRead { offset: vp as u64, t: String::from_str("i64") });
            }
            Ok((BinXmlValue::Int64Type(read_u64(d, vp).unwrap() as i64), vp + 8))
        },
        0x0a => {
            if end - vp < 8 {
                return Err(Error::FailedToRead { offset: vp as u64, t: String::from_str("u64") });
            }
            Ok((BinXmlValue::UInt64Type(read_u64(d, vp).unwrap()), vp + 8))
        },
        0x0b => {
            if end - vp < 4 {
                return Err(Error::FailedToRead { offset: vp as u64, t: String::from_str("f32") });
            }
            Ok((BinXmlValue::Real32Type(read_u32(d, vp).unwrap()), vp + 4))
        },
        0x0c => {
            if end - vp < 8 {
                return Err(Error::FailedToRead { offset: vp as u64, t: String::from_str("f64") });
            }
            Ok((BinXmlValue::Real64Type(read_u64(d, vp).unwrap()), vp + 8))
        },
        0x0d => {
            if end - vp < 4 {
                return Err(Error::FailedToRead { offset: vp as u64, t: String::from_str("bool") });
            }
            Ok((BinXmlValue::BoolType(read_u32(d, vp).unwrap()), vp + 4))
        },
        0x0f => {
            if end - vp < 16 {
                return Err(Error::FailedToReadGUID { offset: vp as u64 });
            }
            let g = Guid::from_bytes(d, vp).unwrap();
            Ok((BinXmlValue::GuidType(g), vp + 16))
        },
        0x11 => {
            if end - vp < 8 {
                return Err(Error::FailedToRead {
                    offset: vp as u64,
                    t: String::from_str("filetime"),
                });
            }
            Ok((
                BinXmlValue::FileTimeType(Timestamp::from_ticks(read_u64(d, vp).unwrap())),
                vp + 8,
            ))
        },
        0x14 => {
            if end - vp < 4 {
                return Err(Error::FailedToRead { offset: vp as u64, t: String::from_str("hex32") });
            }
            Ok((BinXmlValue::HexInt32Type(read_u32(d, vp).unwrap()), vp + 4))
        },
        0x15 => {
            if end - vp < 8 {
                return Err(Error::FailedToRead { offset: vp as u64, t: String::from_str("hex64") });
            }
            Ok((BinXmlValue::HexInt64Type(read_u64(d, vp).unwrap()), vp + 8))
        },
        _ => Err(Error::InvalidValueVariant { value: vtype, offset: pos as u64 }),
    }
}

/// Parses one element after its token byte.  `has_attrs` is the 0x40 flag
/// of the token.  Substitution placeholders are kept as placeholders.
#[verifier::loop_isolation(false)]
/// Parses the attribute tokens of an element, one per step until the
/// more-attributes flag clears.  It succeeds exactly where the
/// spec-level walk accepts, landing where it says.
#[verifier::rlimit(100)]
#[verifier::spinoff_prover]
#[verifier::loop_isolation(false)]
fn parse_attr_list(d: &[u8], pos: usize, end: usize, nc: &mut NameCache) -> (r: Result<
    (Vec<TplAttribute>, usize),
    Error,
>)
    requires
        pos <= end <= d@.len(),
        old(nc).wf(d@),
    ensures
        final(nc).wf(d@),
        r matches Ok((a, np)) ==> pos < np <= end,
        (r is Ok) == (spec_attrs_end(d@, pos as int, end as int) is Some),
        r matches Ok((a, np)) ==> Some(np as int) == spec_attrs_end(d@, pos as int, end as int),
{
    proof {
        reveal(spec_attrs_end);
    }
    let mut attributes: Vec<TplAttribute> = Vec::new();
    let mut p = pos;
    let mut more = true;
    while more
        invariant
            pos <= p <= end,
            nc.wf(d@),
            spec_attrs_end(d@, pos as int, end as int) == (if more {
                spec_attrs_end(d@, p as int, end as int)
            } else {
                Some(p as int)
            }),
            !more ==> pos < p,
        decreases end - p,
    {
        let ghost p_entry = p as int;
        if p >= end {
            proof {
                assert(spec_attrs_end(d@, p_entry, end as int) is None);
            }
            return Err(Error::FailedToRead { offset: p as u64, t: String::from_str("attribute") });
        }
        let tok = d[p];
        if tok & 0x0F != 0x06 {
            proof {
                assert(spec_attrs_end(d@, p_entry, end as int) is None);
            }
            return Err(Error::InvalidToken { value: tok, offset: p as u64 });
        }
        more = tok & 0x40 != 0;
        if end - p < 5 {
            proof {
                assert(spec_attrs_end(d@, p_entry, end as int) is None);
            }
            return Err(Error::FailedToRead {
                offset: p as u64,
                t: String::from_str("attribute name"),
            });
        }
        let a_name_offset = read_u32(d, p + 1).unwrap();
        let a_name = match nc.get_name(d, a_name_offset) {
            Ok(s) => s,
            Err(e) => {
                proof {
                    assert(spec_attrs_end(d@, p_entry, end as int) is None);
                }
                return Err(e);
            },
        };
        let p2 = skip_inline_name(d, p + 5, a_name_offset);
        if p2 >= end {
            proof {
                assert(spec_attrs_end(d@, p_entry, end as int) is None);
            }
            return Err(Error::FailedToRead {
                offset: p2 as u64,
                t: String::from_str("attribute value"),
            });
        }
        let vtok = d[p2];
        let kind = vtok & 0x0F;
        if kind == 0x05 {
            let (v, np) = match parse_value_token(d, p2 + 1, end) {
                Ok(x) => x,
                Err(e) => {
                    proof {
                        assert(spec_attrs_end(d@, p_entry, end as int) is None);
                    }
                    return Err(e);
                },
            };
            attributes.push(TplAttribute { name: a_name, value: TplValue::Literal(v) });
            proof {
                assert(spec_attrs_end(d@, p_entry, end as int) == (if more {
                    spec_attrs_end(d@, np as int, end as int)
                } else {
                    Some(np as int)
                }));
            }
            p = np;
        } else if kind == 0x0D || kind == 0x0E {
            if end - p2 < 4 {
                proof {
                    assert(spec_attrs_end(d@, p_entry, end as int) is None);
                }
                return Err(Error::FailedToRead {
                    offset: p2 as u64,
                    t: String::from_str("substitution"),
                });
            }
            let index = read_u16(d, p2 + 1).unwrap();
            attributes.push(TplAttribute {
                name: a_name,
                value: TplValue::Sub { index, optional: kind == 0x0E },
            });
            proof {
                assert(spec_attrs_end(d@, p_entry, end as int) == (if more {
                    spec_attrs_end(d@, p2 + 4, end as int)
                } else {
                    Some(p2 + 4)
                }));
            }
            p = p2 + 4;
        } else {
            proof {
                assert(spec_attrs_end(d@, p_entry, end as int) is None);
            }
            return Err(Error::InvalidToken { value: vtok, offset: p2 as u64 });
        }
    }
    Ok((attributes, p))
}

/// Parses one element after its token byte.  `has_attrs` is the 0x40
/// flag of the token.  It succeeds exactly where the spec-level element
/// walk accepts, landing where it says.
#[verifier::rlimit(100)]
#[verifier::spinoff_prover]
#[verifier::loop_isolation(false)]
fn parse_element(
    d: &[u8],
    pos: usize,
    end: usize,
    nc: &mut NameCache,
    depth: u32,
    has_attrs: bool,
) -> (r: Result<(TplNode, usize), Error>)
    requires
        pos <= end <= d@.len(),
        old(nc).wf(d@),
    ensures
        final(nc).wf(d@),
        r matches Ok((n, np)) ==> pos < np <= end,
        (r is Ok) == (spec_element_end(d@, pos as int, end as int, has_attrs) is Some),
        r matches Ok((n, np)) ==> Some(np as int) == spec_element_end(
            d@,
            pos as int,
            end as int,
            has_attrs,
        ),
    decreases depth, end - pos, 1int,
{
    let ghost se = spec_element_end(d@, pos as int, end as int, has_attrs);
    // dependency id (u16), data size (u32), name offset (u32)
    if end - pos < 10 {
        proof {
            assert(se is None) by {
                reveal(spec_element_end);
            };
        }
        return Err(Error::FailedToRead {
            offset: pos as u64,
            t: String::from_str("element header"),
        });
    }
    let name_offset = read_u32(d, pos + 6).unwrap();
    let name = match nc.get_name(d, name_offset) {
        Ok(s) => s,
        Err(e) => {
            proof {
                assert(se is None) by {
                reveal(spec_element_end);
            };
            }
            return Err(e);
        },
    };
    let mut p = skip_inline_name(d, pos + 10, name_offset);
    if p > end {
        proof {
            assert(se is None) by {
                reveal(spec_element_end);
            };
        }
        return Err(Error::FailedToRead { offset: pos as u64, t: String::from_str("element") });
    }
    let mut attributes: Vec<TplAttribute> = Vec::new();
    if has_attrs {
        // attribute list byte length (u32), then attribute tokens
        if end - p < 4 {
            proof {
                assert(se is None) by {
                reveal(spec_element_end);
            };
            }
            return Err(Error::FailedToRead {
                offset: p as u64,
                t: String::from_str("attribute list"),
            });
        }
        let (attrs, np) = match parse_attr_list(d, p + 4, end, nc) {
            Ok(x) => x,
            Err(e) => {
                proof {
                    assert(se is None) by {
                reveal(spec_element_end);
            };
                }
                return Err(e);
            },
        };
        attributes = attrs;
        p = np;
    }
    // CloseStartElement or CloseEmptyElement
    if p >= end {
        proof {
            assert(se is None) by {
                reveal(spec_element_end);
            };
        }
        return Err(Error::FailedToRead { offset: p as u64, t: String::from_str("element close") });
    }
    let tok = d[p];
    if tok == 0x03 {
        proof {
            assert(se == Some(p + 1)) by {
                reveal(spec_element_end);
            };
        }
        return Ok((TplNode { name, attributes, content: Vec::new() }, p + 1));
    }
    if tok != 0x02 {
        proof {
            assert(se is None) by {
                reveal(spec_element_end);
            };
        }
        return Err(Error::InvalidToken { value: tok, offset: p as u64 });
    }
    let (content, np) = match parse_content_list(d, p + 1, end, nc, depth) {
        Ok(x) => x,
        Err(e) => {
            proof {
                assert(se is None) by {
                reveal(spec_element_end);
            };
            }
            return Err(e);
        },
    };
    proof {
        assert(se == Some(np as int)) by {
            reveal(spec_element_end);
        };
    }
    Ok((TplNode { name, attributes, content }, np))
}

/// Parses a processing instruction: a PITarget token body (name offset),
/// which must be followed by a PIData token (0x0B) carrying the text.
/// It succeeds exactly where the spec-level walk accepts.
fn parse_pi(d: &[u8], pos: usize, end: usize, nc: &mut NameCache) -> (r: Result<
    (BinXmlPI, usize),
    Error,
>)
    requires
        pos <= end <= d@.len(),
        old(nc).wf(d@),
    ensures
        final(nc).wf(d@),
        r matches Ok((pi, np)) ==> pos < np <= end,
        (r is Ok) == (spec_pi_end(d@, pos as int, end as int) is Some),
        r matches Ok((pi, np)) ==> Some(np as int) == spec_pi_end(d@, pos as int, end as int),
{
    proof {
        reveal(spec_pi_end);
    }
    if end - pos < 4 {
        return Err(Error::FailedToRead {
            offset: pos as u64,
            t: String::from_str("processing instruction target"),
        });
    }
    let name_offset = read_u32(d, pos).unwrap();
    let name = match nc.get_name(d, name_offset) {
        Ok(s) => s,
        Err(e) => {
            return Err(e);
        },
    };
    let p = skip_inline_name(d, pos + 4, name_offset);
    if p >= end {
        return Err(Error::FailedToRead {
            offset: p as u64,
            t: String::from_str("processing instruction data"),
        });
    }
    let tok = d[p];
    if tok & 0x0F != 0x0B {
        return Err(Error::InvalidToken { value: tok, offset: p as u64 });
    }
    if end - p < 3 {
        return Err(Error::FailedToRead {
            offset: p as u64,
            t: String::from_str("processing instruction data"),
        });
    }
    let n = read_u16(d, p + 1).unwrap() as usize;
    if (end - p - 3) / 2 < n {
        return Err(Error::FailedToRead {
            offset: p as u64,
            t: String::from_str("processing instruction data"),
        });
    }
    let units = read_u16_units(d, p + 3, n).unwrap();
    proof {
        assert(units@ =~= units_at(d@, p + 3, n as nat));
    }
    let data = match utf16_to_string(&units) {
        Some(s) => s,
        None => {
            return Err(Error::FailedToDecodeUTF16String { offset: p as u64 });
        },
    };
    Ok((BinXmlPI { name, data }, p + 3 + 2 * n))
}

/// Parses content tokens up to and including the matching `CloseElement`
/// (0x04) or end-of-stream (0x00) token.
#[verifier::loop_isolation(false)]
#[verifier::rlimit(100)]
#[verifier::spinoff_prover]
#[verifier::loop_isolation(false)]
fn parse_content_list(d: &[u8], pos: usize, end: usize, nc: &mut NameCache, depth: u32) -> (r:
    Result<(Vec<TplContent>, usize), Error>)
    requires
        pos <= end <= d@.len(),
        old(nc).wf(d@),
    ensures
        final(nc).wf(d@),
        r matches Ok((c, np)) ==> pos < np <= end,
        (r is Ok) == (spec_content_list_end(d@, pos as int, end as int) is Some),
        r matches Ok((c, np)) ==> Some(np as int) == spec_content_list_end(
            d@,
            pos as int,
            end as int,
        ),
    decreases depth, end - pos, 2int,
{
    let mut out: Vec<TplContent> = Vec::new();
    let mut p = pos;
    loop
        invariant
            pos <= p <= end,
            end <= d@.len(),
            nc.wf(d@),
            spec_content_list_end(d@, pos as int, end as int) == spec_content_list_end(
                d@,
                p as int,
                end as int,
            ),
        decreases end - p,
    {
        let ghost p_entry = p as int;
        if p >= end {
            proof {
                assert(spec_content_list_end(d@, p_entry, end as int) is None) by {
                    reveal(spec_content_list_end);
                };
            }
            return Err(Error::FailedToRead { offset: p as u64, t: String::from_str("token") });
        }
        let tok = d[p];
        let kind = tok & 0x0F;
        if tok == 0x00 || tok == 0x04 {
            proof {
                assert(spec_content_list_end(d@, p_entry, end as int) == Some(p + 1)) by {
                    reveal(spec_content_list_end);
                };
            }
            return Ok((out, p + 1));
        }
        if kind == 0x01 {
            let (node, np) = match parse_element(d, p + 1, end, nc, depth, tok & 0x40 != 0) {
                Ok(x) => x,
                Err(e) => {
                    proof {
                        assert(spec_content_list_end(d@, p_entry, end as int) is None) by {
                            reveal(spec_content_list_end);
                        };
                    }
                    return Err(e);
                },
            };
            out.push(TplContent::Element(node));
            proof {
                assert(spec_content_list_end(d@, p_entry, end as int) == spec_content_list_end(
                    d@,
                    np as int,
                    end as int,
                )) by {
                    reveal(spec_content_list_end);
                };
            }
            p = np;
        } else if kind == 0x05 {
            let (v, np) = match parse_value_token(d, p + 1, end) {
                Ok(x) => x,
                Err(e) => {
                    proof {
                        assert(spec_content_list_end(d@, p_entry, end as int) is None) by {
                            reveal(spec_content_list_end);
                        };
                    }
                    return Err(e);
                },
            };
            out.push(TplContent::Value(v));
            proof {
                assert(spec_content_list_end(d@, p_entry, end as int) == spec_content_list_end(
                    d@,
                    np as int,
                    end as int,
                )) by {
                    reveal(spec_content_list_end);
                };
            }
            p = np;
        } else if kind == 0x0D || kind == 0x0E {
            if end - p < 4 {
                proof {
                    assert(spec_content_list_end(d@, p_entry, end as int) is None) by {
                        reveal(spec_content_list_end);
                    };
                }
                return Err(Error::FailedToRead {
                    offset: p as u64,
                    t: String::from_str("substitution"),
                });
            }
            let index = read_u16(d, p + 1).unwrap();
            out.push(TplContent::Sub { index, optional: kind == 0x0E });
            proof {
                assert(spec_content_list_end(d@, p_entry, end as int) == spec_content_list_end(
                    d@,
                    p_entry + 4,
                    end as int,
                )) by {
                    reveal(spec_content_list_end);
                };
            }
            p = p + 4;
        } else if kind == 0x08 {
            // character reference: one u16 code point
            if end - p < 3 {
                proof {
                    assert(spec_content_list_end(d@, p_entry, end as int) is None) by {
                        reveal(spec_content_list_end);
                    };
                }
                return Err(Error::FailedToRead {
                    offset: p as u64,
                    t: String::from_str("character reference"),
                });
            }
            out.push(TplContent::CharRef(read_u16(d, p + 1).unwrap() as u32));
            proof {
                assert(spec_content_list_end(d@, p_entry, end as int) == spec_content_list_end(
                    d@,
                    p_entry + 3,
                    end as int,
                )) by {
                    reveal(spec_content_list_end);
                };
            }
            p = p + 3;
        } else if kind == 0x09 {
            // entity reference: a name offset
            if end - p < 5 {
                proof {
                    assert(spec_content_list_end(d@, p_entry, end as int) is None) by {
                        reveal(spec_content_list_end);
                    };
                }
                return Err(Error::FailedToRead {
                    offset: p as u64,
                    t: String::from_str("entity reference"),
                });
            }
            let name_offset = read_u32(d, p + 1).unwrap();
            let name = match nc.get_name(d, name_offset) {
                Ok(s) => s,
                Err(e) => {
                    proof {
                        assert(spec_content_list_end(d@, p_entry, end as int) is None) by {
                            reveal(spec_content_list_end);
                        };
                    }
                    return Err(e);
                },
            };
            let np = skip_inline_name(d, p + 5, name_offset);
            if np <= p || np > end {
                proof {
                    assert(spec_content_list_end(d@, p_entry, end as int) is None) by {
                        reveal(spec_content_list_end);
                    };
                }
                return Err(Error::FailedToRead {
                    offset: p as u64,
                    t: String::from_str("entity reference"),
                });
            }
            out.push(TplContent::EntityRef(name));
            proof {
                assert(spec_content_list_end(d@, p_entry, end as int) == spec_content_list_end(
                    d@,
                    np as int,
                    end as int,
                )) by {
                    reveal(spec_content_list_end);
                };
            }
            p = np;
        } else if kind == 0x0F {
            // a fragment header inside the stream: major, minor, flags
            if end - p < 4 {
                proof {
                    assert(spec_content_list_end(d@, p_entry, end as int) is None) by {
                        reveal(spec_content_list_end);
                    };
                }
                return Err(Error::FailedToRead {
                    offset: p as u64,
                    t: String::from_str("fragment header"),
                });
            }
            proof {
                assert(spec_content_list_end(d@, p_entry, end as int) == spec_content_list_end(
                    d@,
                    p_entry + 4,
                    end as int,
                )) by {
                    reveal(spec_content_list_end);
                };
            }
            p = p + 4;
        } else if kind == 0x07 {
            proof {
                assert(spec_content_list_end(d@, p_entry, end as int) is None) by {
                    reveal(spec_content_list_end);
                };
            }
            return Err(Error::UnimplementedToken {
                name: String::from_str("CDATA"),
                offset: p as u64,
            });
        } else if kind == 0x0A {
            let (pi, np) = match parse_pi(d, p + 1, end, nc) {
                Ok(x) => x,
                Err(e) => {
                    proof {
                        assert(spec_content_list_end(d@, p_entry, end as int) is None) by {
                            reveal(spec_content_list_end);
                        };
                    }
                    return Err(e);
                },
            };
            out.push(TplContent::PI(pi));
            proof {
                assert(spec_content_list_end(d@, p_entry, end as int) == spec_content_list_end(
                    d@,
                    np as int,
                    end as int,
                )) by {
                    reveal(spec_content_list_end);
                };
            }
            p = np;
        } else if kind == 0x0C {
            proof {
                assert(spec_content_list_end(d@, p_entry, end as int) is None) by {
                    reveal(spec_content_list_end);
                };
            }
            return Err(Error::UnimplementedToken {
                name: String::from_str("nested template instance"),
                offset: p as u64,
            });
        } else {
            proof {
                assert(spec_content_list_end(d@, p_entry, end as int) is None) by {
                    reveal(spec_content_list_end);
                };
            }
            return Err(Error::InvalidToken { value: tok, offset: p as u64 });
        }
    }
}

/// Parses a template definition at `offset`: next-template offset, GUID,
/// data size, then the tokenised tree.  The definition ends at
/// `offset + 24 + data_size`.  Given any nesting budget it succeeds
/// exactly where the spec-level walk accepts the definition, and what it
/// returns carries the GUID and size the bytes there hold.
pub fn read_template_definition(d: &[u8], offset: usize, nc: &mut NameCache, depth: u32) -> (r:
    Result<(TemplateDefinition, usize), Error>)
    requires
        old(nc).wf(d@),
    ensures
        final(nc).wf(d@),
        r matches Ok((t, np)) ==> offset < np <= d@.len(),
        depth == 0 ==> r is Err,
        depth > 0 ==> ((r is Ok) == spec_template_parses(d@, offset as int)),
        r matches Ok((t, np)) ==> guid_matches(t.guid, d@, offset + 4) && guid_wf(t.guid)
            && t.data_size == le32_at(d@, offset + 20) && np == offset + 24 + t.data_size,
    decreases depth, 0int, 3int,
{
    let len = d.len();
    if offset >= len || len - offset < 24 {
        return Err(Error::FailedToRead {
            offset: offset as u64,
            t: String::from_str("template header"),
        });
    }
    let guid = Guid::from_bytes(d, offset + 4).unwrap();
    let data_size = read_u32(d, offset + 20).unwrap();
    let room: usize = len - offset - 24;
    if (room as u64) < (data_size as u64) {
        return Err(Error::FailedToRead {
            offset: offset as u64,
            t: String::from_str("template data"),
        });
    }
    let body_end = offset + 24 + data_size as usize;
    if depth == 0 {
        return Err(Error::FailedToCreateRecordModel {
            message: String::from_str("template nesting too deep"),
        });
    }
    let (content, _np) = match parse_content_list(d, offset + 24, body_end, nc, depth - 1) {
        Ok(x) => x,
        Err(e) => {
            return Err(e);
        },
    };
    Ok((TemplateDefinition { guid, data_size, content }, body_end))
}

/// Deep copy of a value; derived `Clone` cannot cross this enum's own
/// recursion, so the copy is spelled out.
#[verifier::loop_isolation(false)]
pub fn copy_value(v: &BinXmlValue) -> (r: BinXmlValue)
    decreases *v,
{
    match v {
        BinXmlValue::NullType => BinXmlValue::NullType,
        BinXmlValue::StringType(s) => BinXmlValue::StringType(s.clone()),
        BinXmlValue::AnsiStringType(s) => BinXmlValue::AnsiStringType(s.clone()),
        BinXmlValue::Int8Type(n) => BinXmlValue::Int8Type(*n),
        BinXmlValue::UInt8Type(n) => BinXmlValue::UInt8Type(*n),
        BinXmlValue::Int16Type(n) => BinXmlValue::Int16Type(*n),
        BinXmlValue::UInt16Type(n) => BinXmlValue::UInt16Type(*n),
        BinXmlValue::Int32Type(n) => BinXmlValue::Int32Type(*n),
        BinXmlValue::UInt32Type(n) => BinXmlValue::UInt32Type(*n),
        BinXmlValue::Int64Type(n) => BinXmlValue::Int64Type(*n),
        BinXmlValue::UInt64Type(n) => BinXmlValue::UInt64Type(*n),
        BinXmlValue::Real32Type(n) => BinXmlValue::Real32Type(*n),
        BinXmlValue::Real64Type(n) => BinXmlValue::Real64Type(*n),
        BinXmlValue::BoolType(n) => BinXmlValue::BoolType(*n),
        BinXmlValue::BinaryType(b) => BinXmlValue::BinaryType(b.clone()),
        BinXmlValue::GuidType(g) => BinXmlValue::GuidType(g.clone()),
        BinXmlValue::SizeTType(n) => BinXmlValue::SizeTType(*n),
        BinXmlValue::FileTimeType(t) => BinXmlValue::FileTimeType(*t),
        BinXmlValue::SysTimeType(t) => BinXmlValue::SysTimeType(*t),
        BinXmlValue::SidType(sid) => BinXmlValue::SidType(sid.clone()),
        BinXmlValue::HexInt32Type(n) => BinXmlValue::HexInt32Type(*n),
        BinXmlValue::HexInt64Type(n) => BinXmlValue::HexInt64Type(*n),
        BinXmlValue::EvtHandle => BinXmlValue::EvtHandle,
        BinXmlValue::BinXmlType(c) => BinXmlValue::BinXmlType(copy_content_list(c)),
        BinXmlValue::EvtXmlType => BinXmlValue::EvtXmlType,
        BinXmlValue::StringArrayType(ss) => BinXmlValue::StringArrayType(ss.clone()),
        BinXmlValue::ArrayType(vs) => {
            let mut out: Vec<BinXmlValue> = Vec::new();
            let mut i: usize = 0;
            while i < vs.len()
                invariant
                    i <= vs@.len(),
                decreases vs@.len() - i,
            {
                proof {
                    assert(decreases_to!(*v => vs@[i as int]));
                }
                out.push(copy_value(&vs[i]));
                i = i + 1;
            }
            BinXmlValue::ArrayType(out)
        },
    }
}

#[verifier::loop_isolation(false)]
pub fn copy_content_list(c: &Vec<XmlContent>) -> (r: Vec<XmlContent>)
    decreases c@,
{
    let mut out: Vec<XmlContent> = Vec::new();
    let mut i: usize = 0;
    while i < c.len()
        invariant
            i <= c@.len(),
        decreases c@.len() - i,
    {
        out.push(copy_content(&c[i]));
        i = i + 1;
    }
    out
}

pub fn copy_content(c: &XmlContent) -> (r: XmlContent)
    decreases *c,
{
    match c {
        XmlContent::Element(n) => XmlContent::Element(copy_node(n)),
        XmlContent::Value(v) => XmlContent::Value(copy_value(v)),
        XmlContent::CharRef(x) => XmlContent::CharRef(*x),
        XmlContent::EntityRef(s) => XmlContent::EntityRef(s.clone()),
        XmlContent::PI(pi) => XmlContent::PI(pi.clone()),
    }
}

pub fn copy_node(n: &XmlNode) -> (r: XmlNode)
    decreases *n,
{
    XmlNode {
        name: n.name.clone(),
        attributes: n.attributes.clone(),
        content: copy_content_list(&n.content),
    }
}

/// Resolves one substitution index against the array, as a reference.
fn lookup_sub<'a>(values: &'a Vec<BinXmlValue>, index: u16) -> (r: Result<&'a BinXmlValue, Error>)
    ensures
        r is Ok <==> (index as int) < values@.len(),
        r matches Ok(v) ==> *v == values@[index as int],
{
    if (index as usize) < values.len() {
        Ok(&values[index as usize])
    } else {
        Err(Error::FailedToCreateRecordModel {
            message: String::from_str("substitution index out of range"),
        })
    }
}

/// Expands template content against a substitution array.  An optional
/// substitution holding `Null` suppresses its attribute entirely; a `Null`
/// in content position contributes nothing; a binxml-typed value splices
/// its already-parsed fragment.
#[verifier::loop_isolation(false)]
pub fn substitute_list(content: &Vec<TplContent>, values: &Vec<BinXmlValue>) -> (r: Result<
    Vec<XmlContent>,
    Error,
>)
    decreases content@,
{
    let mut out: Vec<XmlContent> = Vec::new();
    let mut i: usize = 0;
    while i < content.len()
        invariant
            i <= content@.len(),
        decreases content@.len() - i,
    {
        match &content[i] {
            TplContent::Element(node) => {
                let n = match substitute_node(node, values) {
                    Ok(n) => n,
                    Err(e) => {
                        return Err(e);
                    },
                };
                out.push(XmlContent::Element(n));
            },
            TplContent::Value(v) => {
                out.push(XmlContent::Value(copy_value(v)));
            },
            TplContent::Sub { index, optional: _ } => {
                let v = match lookup_sub(values, *index) {
                    Ok(v) => v,
                    Err(e) => {
                        return Err(e);
                    },
                };
                match v {
                    BinXmlValue::NullType => {},
                    BinXmlValue::BinXmlType(c) => {
                        // splice the nested fragment in place
                        let mut copied = copy_content_list(c);
                        while copied.len() > 0
                            decreases copied@.len(),
                        {
                            out.push(copied.remove(0));
                        }
                    },
                    other => {
                        out.push(XmlContent::Value(copy_value(other)));
                    },
                }
            },
            TplContent::CharRef(x) => {
                out.push(XmlContent::CharRef(*x));
            },
            TplContent::EntityRef(s) => {
                out.push(XmlContent::EntityRef(s.clone()));
            },
            TplContent::PI(pi) => {
                out.push(XmlContent::PI(pi.clone()));
            },
        }
        i = i + 1;
    }
    Ok(out)
}


/// The (name, text) pair one template attribute resolves to: the outer
/// `None` is a failure, the inner `None` a suppressed attribute.  An
/// optional substitution holding `Null` resolves to the inner `None`:
/// neither the attribute nor its name survives into the output.
pub open spec fn spec_subst_attr(a: TplAttribute, values: Seq<BinXmlValue>) -> Option<
    Option<(Seq<char>, Seq<char>)>,
> {
    match a.value {
        TplValue::Literal(v) => if value_renderable(v) {
            Some(Some((a.name@, value_text(v))))
        } else {
            None
        },
        TplValue::Sub { index, optional } => if index >= values.len() {
            None
        } else if values[index as int] matches BinXmlValue::NullType && optional {
            Some(None)
        } else if value_renderable(values[index as int]) {
            Some(Some((a.name@, value_text(values[index as int]))))
        } else {
            None
        },
    }
}

/// The resolved attribute list of a template element: failures stop it,
/// suppressed attributes vanish from it.
pub open spec fn spec_subst_attrs(attrs: Seq<TplAttribute>, values: Seq<BinXmlValue>) -> Option<
    Seq<(Seq<char>, Seq<char>)>,
>
    decreases attrs.len(),
{
    if attrs.len() == 0 {
        Some(Seq::empty())
    } else {
        match spec_subst_attr(attrs[0], values) {
            None => None,
            Some(head) => match spec_subst_attrs(attrs.drop_first(), values) {
                None => None,
                Some(rest) => Some(
                    match head {
                        Some(p) => seq![p] + rest,
                        None => rest,
                    },
                ),
            },
        }
    }
}

/// Expands one template element.  The attribute list resolves exactly as
/// `spec_subst_attrs` says: placeholders become rendered text, and an
/// optional substitution that is `Null` drops its attribute entirely.
#[verifier::loop_isolation(false)]
pub fn substitute_node(node: &TplNode, values: &Vec<BinXmlValue>) -> (r: Result<XmlNode, Error>)
    ensures
        r matches Ok(n) ==> n.name@ == node.name@ && Some(
            crate::xml_output::attrs_view(n.attributes@),
        ) == spec_subst_attrs(node.attributes@, values@),
    decreases *node,
{
    let mut attributes: Vec<XmlAttribute> = Vec::new();
    let mut i: usize = 0;
    let n_attrs = node.attributes.len();
    proof {
        assert(node.attributes@.skip(0) =~= node.attributes@);
        let whole = spec_subst_attrs(node.attributes@, values@);
        if whole is Some {
            assert(crate::xml_output::attrs_view(attributes@) + whole->0 =~= whole->0);
        }
    }
    while i < n_attrs
        invariant
            i <= n_attrs,
            n_attrs == node.attributes@.len(),
            spec_subst_attrs(node.attributes@, values@) == (
            match spec_subst_attrs(node.attributes@.skip(i as int), values@) {
                Some(rest) => Some(crate::xml_output::attrs_view(attributes@) + rest),
                None => None::<Seq<(Seq<char>, Seq<char>)>>,
            }),
        decreases n_attrs - i,
    {
        let ghost pre = attributes@;
        let ghost tail = node.attributes@.skip(i as int);
        proof {
            assert(tail[0] == node.attributes@[i as int]);
            assert(tail.drop_first() =~= node.attributes@.skip(i + 1));
        }
        let a = &node.attributes[i];
        match &a.value {
            TplValue::Literal(v) => {
                let text = match v.as_string() {
                    Ok(t) => t,
                    Err(e) => {
                        return Err(e);
                    },
                };
                attributes.push(XmlAttribute { name: a.name.clone(), value: text });
            },
            TplValue::Sub { index, optional } => {
                let v = match lookup_sub(values, *index) {
                    Ok(v) => v,
                    Err(e) => {
                        return Err(e);
                    },
                };
                let null = v.is_null();
                if !(null && *optional) {
                    let text = match v.as_string() {
                        Ok(t) => t,
                        Err(e) => {
                            return Err(e);
                        },
                    };
                    attributes.push(XmlAttribute { name: a.name.clone(), value: text });
                }
            },
        }
        proof {
            let head = spec_subst_attr(tail[0], values@);
            let rest_opt = spec_subst_attrs(node.attributes@.skip(i + 1), values@);
            if head is Some && rest_opt is Some {
                let rest = rest_opt->0;
                if head->0 is Some {
                    assert(attributes@ =~= pre.push(attributes@.last()));
                    assert(crate::xml_output::attrs_view(attributes@)
                        =~= crate::xml_output::attrs_view(pre).push(head->0->0));
                    assert(crate::xml_output::attrs_view(pre) + (seq![head->0->0] + rest)
                        =~= crate::xml_output::attrs_view(attributes@) + rest);
                } else {
                    assert(attributes@ == pre);
                }
            }
        }
        i = i + 1;
    }
    proof {
        assert(node.attributes@.skip(n_attrs as int) =~= Seq::<TplAttribute>::empty());
        assert(crate::xml_output::attrs_view(attributes@) + Seq::<(Seq<char>, Seq<char>)>::empty()
            =~= crate::xml_output::attrs_view(attributes@));
    }
    let content = match substitute_list(&node.content, values) {
        Ok(c) => c,
        Err(e) => {
            return Err(e);
        },
    };
    Ok(XmlNode { name: node.name.clone(), attributes, content })
}

/// Decodes one substitution value from its descriptor (`vtype`, `size`).
/// A binxml-typed value is parsed into its expanded fragment right here.
#[verifier::loop_isolation(false)]
pub fn decode_sub_value(
    d: &[u8],
    vpos: usize,
    size: usize,
    vtype: u8,
    nc: &mut NameCache,
    tc: &mut TemplateCache,
    depth: u32,
) -> (r: Result<BinXmlValue, Error>)
    requires
        vpos + size <= d@.len(),
        old(nc).wf(d@),
    ensures
        final(nc).wf(d@),
        forall|k: u32| old(tc).contains(k) ==> final(tc).contains(k),
        vtype == 0x00 ==> (r matches Ok(v) && v matches BinXmlValue::NullType),
        vtype == 0x07 && size >= 4 ==> (r matches Ok(v) && v matches BinXmlValue::Int32Type(n)
            && n == le32_at(d@, vpos as int) as i32),
        vtype == 0x08 && size >= 4 ==> (r matches Ok(v) && v matches BinXmlValue::UInt32Type(n)
            && n == le32_at(d@, vpos as int)),
        vtype == 0x0a && size >= 8 ==> (r matches Ok(v) && v matches BinXmlValue::UInt64Type(n)
            && n == le64_at(d@, vpos as int)),
        vtype == 0x0d && size >= 4 ==> (r matches Ok(v) && v matches BinXmlValue::BoolType(n)
            && n == le32_at(d@, vpos as int)),
        vtype == 0x11 && size >= 8 ==> (r matches Ok(v) && v matches BinXmlValue::FileTimeType(t)
            && t.ticks == le64_at(d@, vpos as int)),
        vtype == 0x14 && size >= 4 ==> (r matches Ok(v) && v matches BinXmlValue::HexInt32Type(n)
            && n == le32_at(d@, vpos as int)),
        vtype == 0x15 && size >= 8 ==> (r matches Ok(v) && v matches BinXmlValue::HexInt64Type(n)
            && n == le64_at(d@, vpos as int)),
        vtype == 0x01 ==> (r is Ok) == (utf16_decode(units_at(d@, vpos as int, (size / 2) as nat))
            is Some),
        vtype == 0x01 ==> (r matches Ok(v) ==> v matches BinXmlValue::StringType(s) && Some(s@)
            == utf16_decode(units_at(d@, vpos as int, (size / 2) as nat))),
        vtype == 0x02 ==> (r matches Ok(v) && v matches BinXmlValue::AnsiStringType(s) && s@
            == crate::ansi::cp1252_decode(d@.subrange(vpos as int, vpos + size))),
        vtype == 0x0e ==> (r matches Ok(v) && v matches BinXmlValue::BinaryType(b) && b@
            == d@.subrange(vpos as int, vpos + size)),
        vtype == 0x0f && size >= 16 ==> (r matches Ok(v) && v matches BinXmlValue::GuidType(g)
            && guid_matches(g, d@, vpos as int) && guid_wf(g)),
        vtype == 0x0f && size < 16 ==> r is Err,
        vtype == 0x13 ==> (r is Ok) == (8 + 4 * (d@[vpos + 1] as int) <= size),
        vtype == 0x13 ==> (r matches Ok(v) ==> v matches BinXmlValue::SidType(s) && sid_matches(
            s,
            d@,
            vpos as int,
        )),
    decreases depth, size, 6int,
{
    let _dlen = d.len();
    let e = vpos + size;
    match vtype {
        0x00 => Ok(BinXmlValue::NullType),
        0x01 => {
            let n = size / 2;
            let units = read_u16_units(d, vpos, n).unwrap();
            proof {
                assert(units@ =~= units_at(d@, vpos as int, (size / 2) as nat));
            }
            match utf16_to_string(&units) {
                Some(s) => Ok(BinXmlValue::StringType(s)),
                None => Err(Error::FailedToDecodeUTF16String { offset: vpos as u64 }),
            }
        },
        0x02 => {
            let bytes = read_bytes(d, vpos, size).unwrap();
            Ok(BinXmlValue::AnsiStringType(crate::ansi::cp1252_to_string(bytes.as_slice())))
        },
        0x03 => {
            if size < 1 {
                return Err(Error::FailedToRead { offset: vpos as u64, t: String::from_str("i8") });
            }
            Ok(BinXmlValue::Int8Type(d[vpos] as i8))
        },
        0x04 => {
            if size < 1 {
                return Err(Error::FailedToRead { offset: vpos as u64, t: String::from_str("u8") });
            }
            Ok(BinXmlValue::UInt8Type(d[vpos]))
        },
        0x05 => {
            if size < 2 {
                return Err(Error::FailedToRead { offset: vpos as u64, t: String::from_str("i16") });
            }
            Ok(BinXmlValue::Int16Type(read_u16(d, vpos).unwrap() as i16))
        },
        0x06 => {
            if size < 2 {
                return Err(Error::FailedToRead { offset: vpos as u64, t: String::from_str("u16") });
            }
            Ok(BinXmlValue::UInt16Type(read_u16(d, vpos).unwrap()))
        },
        0x07 => {
            if size < 4 {
                return Err(Error::FailedToRead { offset: vpos as u64, t: String::from_str("i32") });
            }
            Ok(BinXmlValue::Int32Type(read_u32(d, vpos).unwrap() as i32))
        },
        0x08 => {
            if size < 4 {
                return Err(Error::FailedToRead { offset: vpos as u64, t: String::from_str("u32") });
            }
            Ok(BinXmlValue::UInt32Type(read_u32(d, vpos).unwrap()))
        },
        0x09 => {
            if size < 8 {
                return Err(Error::FailedToRead { offset: vpos as u64, t: String::from_str("i64") });
            }
            Ok(BinXmlValue::Int64Type(read_u64(d, vpos).unwrap() as i64))
        },
        0x0a => {
            if size < 8 {
                return Err(Error::FailedToRead { offset: vpos as u64, t: String::from_str("u64") });
            }
            Ok(BinXmlValue::UInt64Type(read_u64(d, vpos).unwrap()))
        },
        0x0b => {
            if size < 4 {
                return Err(Error::FailedToRead { offset: vpos as u64, t: String::from_str("f32") });
            }
            Ok(BinXmlValue::Real32Type(read_u32(d, vpos).unwrap()))
        },
        0x0c => {
            if size < 8 {
                return Err(Error::FailedToRead { offset: vpos as u64, t: String::from_str("f64") });
            }
            Ok(BinXmlValue::Real64Type(read_u64(d, vpos).unwrap()))
        },
        0x0d => {
            if size < 4 {
                return Err(Error::FailedToRead { offset: vpos as u64, t: String::from_str("bool") });
            }
            Ok(BinXmlValue::BoolType(read_u32(d, vpos).unwrap()))
        },
        0x0e => {
            let bytes = read_bytes(d, vpos, size).unwrap();
            Ok(BinXmlValue::BinaryType(bytes))
        },
        0x0f => {
            if size < 16 {
                return Err(Error::FailedToReadGUID { offset: vpos as u64 });
            }
            Ok(BinXmlValue::GuidType(Guid::from_bytes(d, vpos).unwrap()))
        },
        0x10 => {
            if size >= 8 {
                Ok(BinXmlValue::SizeTType(read_u64(d, vpos).unwrap()))
            } else if size >= 4 {
                Ok(BinXmlValue::SizeTType(read_u32(d, vpos).unwrap() as u64))
            } else {
                Err(Error::FailedToRead { offset: vpos as u64, t: String::from_str("size_t") })
            }
        },
        0x11 => {
            if size < 8 {
                return Err(Error::FailedToRead {
                    offset: vpos as u64,
                    t: String::from_str("filetime"),
                });
            }
            Ok(BinXmlValue::FileTimeType(Timestamp::from_ticks(read_u64(d, vpos).unwrap())))
        },
        0x12 => {
            if size < 16 {
                return Err(Error::FailedToRead {
                    offset: vpos as u64,
                    t: String::from_str("systime"),
                });
            }
            Ok(BinXmlValue::SysTimeType(read_systime(d, vpos)))
        },
        0x13 => {
            match Sid::from_bytes(d, vpos) {
                Some((sid, np)) => {
                    if np <= e {
                        Ok(BinXmlValue::SidType(sid))
                    } else {
                        Err(Error::FailedToReadNTSID { offset: vpos as u64 })
                    }
                },
                None => Err(Error::FailedToReadNTSID { offset: vpos as u64 }),
            }
        },
        0x14 => {
            if size < 4 {
                return Err(Error::FailedToRead { offset: vpos as u64, t: String::from_str("hex32") });
            }
            Ok(BinXmlValue::HexInt32Type(read_u32(d, vpos).unwrap()))
        },
        0x15 => {
            if size < 8 {
                return Err(Error::FailedToRead { offset: vpos as u64, t: String::from_str("hex64") });
            }
            Ok(BinXmlValue::HexInt64Type(read_u64(d, vpos).unwrap()))
        },
        0x20 => Ok(BinXmlValue::EvtHandle),
        0x21 => {
            if depth == 0 {
                return Err(Error::FailedToCreateRecordModel {
                    message: String::from_str("binxml nesting too deep"),
                });
            }
            let (content, _np) = match parse_record_fragment(d, vpos, e, nc, tc, depth - 1) {
                Ok(x) => x,
                Err(err) => {
                    return Err(err);
                },
            };
            Ok(BinXmlValue::BinXmlType(content))
        },
        0x23 => Err(Error::Unimplemented { name: String::from_str("EvtXml value") }),
        0x81 => {
            let n = size / 2;
            let units = read_u16_units(d, vpos, n).unwrap();
            let mut out: Vec<String> = Vec::new();
            let mut cur: Vec<u16> = Vec::new();
            let mut i: usize = 0;
            while i < units.len()
                invariant
                    i <= units@.len(),
                decreases units@.len() - i,
            {
                let u = units[i];
                if u == 0 {
                    match utf16_to_string(&cur) {
                        Some(s) => out.push(s),
                        None => {
                            return Err(Error::FailedToDecodeUTF16String { offset: vpos as u64 });
                        },
                    }
                    cur = Vec::new();
                } else {
                    cur.push(u);
                }
                i = i + 1;
            }
            if cur.len() > 0 {
                match utf16_to_string(&cur) {
                    Some(s) => out.push(s),
                    None => {
                        return Err(Error::FailedToDecodeUTF16String { offset: vpos as u64 });
                    },
                }
            }
            Ok(BinXmlValue::StringArrayType(out))
        },
        _ => {
            if vtype & 0x80 != 0 {
                decode_scalar_array(d, vpos, size, vtype & 0x7F)
            } else {
                Err(Error::InvalidValueVariant { value: vtype, offset: vpos as u64 })
            }
        },
    }
}

/// Reads a SYSTEMTIME's eight fields.
fn read_systime(d: &[u8], pos: usize) -> (r: SysTime)
    requires
        pos + 16 <= d@.len(),
{
    let _dlen = d.len();
    SysTime {
        year: read_u16(d, pos).unwrap(),
        month: read_u16(d, pos + 2).unwrap(),
        day_of_week: read_u16(d, pos + 4).unwrap(),
        day: read_u16(d, pos + 6).unwrap(),
        hour: read_u16(d, pos + 8).unwrap(),
        minute: read_u16(d, pos + 10).unwrap(),
        second: read_u16(d, pos + 12).unwrap(),
        milliseconds: read_u16(d, pos + 14).unwrap(),
    }
}

/// Decodes an array of fixed-width scalars: the slice is walked for the
/// declared size, one element per width.
#[verifier::loop_isolation(false)]
fn decode_scalar_array(d: &[u8], vpos: usize, size: usize, base: u8) -> (r: Result<
    BinXmlValue,
    Error,
>)
    requires
        vpos + size <= d@.len(),
{
    let _dlen = d.len();
    let width: usize = match base {
        0x03 => 1,
        0x04 => 1,
        0x05 => 2,
        0x06 => 2,
        0x07 => 4,
        0x08 => 4,
        0x09 => 8,
        0x0a => 8,
        0x0b => 4,
        0x0c => 8,
        0x0d => 4,
        0x0f => 16,
        0x11 => 8,
        0x12 => 16,
        0x14 => 4,
        0x15 => 8,
        _ => {
            return Err(Error::InvalidValueVariant { value: base, offset: vpos as u64 });
        },
    };
    let n = size / width;
    let mut out: Vec<BinXmlValue> = Vec::new();
    let mut i: usize = 0;
    while i < n
        invariant
            width >= 1,
            n == size as int / width as int,
            vpos + size <= d@.len(),
            i <= n,
            i * width <= size,
        decreases n - i,
    {
        proof {
            assert(width * n <= size) by (nonlinear_arith)
                requires
                    n == size as int / width as int,
                    width >= 1,
                    size >= 0,
            ;
            assert(width * i + width <= width * n) by (nonlinear_arith)
                requires
                    i < n,
                    width >= 1,
            ;
            assert(i * width == width * i) by (nonlinear_arith);
            assert((i + 1) * width == i * width + width) by (nonlinear_arith);
        }
        let p = vpos + i * width;
        let v = match base {
            0x03 => BinXmlValue::Int8Type(d[p] as i8),
            0x04 => BinXmlValue::UInt8Type(d[p]),
            0x05 => BinXmlValue::Int16Type(read_u16(d, p).unwrap() as i16),
            0x06 => BinXmlValue::UInt16Type(read_u16(d, p).unwrap()),
            0x07 => BinXmlValue::Int32Type(read_u32(d, p).unwrap() as i32),
            0x08 => BinXmlValue::UInt32Type(read_u32(d, p).unwrap()),
            0x09 => BinXmlValue::Int64Type(read_u64(d, p).unwrap() as i64),
            0x0a => BinXmlValue::UInt64Type(read_u64(d, p).unwrap()),
            0x0b => BinXmlValue::Real32Type(read_u32(d, p).unwrap()),
            0x0c => BinXmlValue::Real64Type(read_u64(d, p).unwrap()),
            0x0d => BinXmlValue::BoolType(read_u32(d, p).unwrap()),
            0x0f => BinXmlValue::GuidType(Guid::from_bytes(d, p).unwrap()),
            0x11 => BinXmlValue::FileTimeType(Timestamp::from_ticks(read_u64(d, p).unwrap())),
            0x12 => BinXmlValue::SysTimeType(read_systime(d, p)),
            0x14 => BinXmlValue::HexInt32Type(read_u32(d, p).unwrap()),
            _ => BinXmlValue::HexInt64Type(read_u64(d, p).unwrap()),
        };
        out.push(v);
        i = i + 1;
    }
    Ok(BinXmlValue::ArrayType(out))
}

/// Parses a template instance after its 0x0C token byte: reserved byte,
/// template id, definition offset, the inline definition when the offset
/// points right here, then the substitution array; the definition is
/// resolved through the per-chunk cache and expanded.
#[verifier::loop_isolation(false)]
pub fn parse_template_instance(
    d: &[u8],
    pos: usize,
    end: usize,
    nc: &mut NameCache,
    tc: &mut TemplateCache,
    depth: u32,
) -> (r: Result<(Vec<XmlContent>, usize), Error>)
    requires
        pos <= end <= d@.len(),
        old(nc).wf(d@),
    ensures
        final(nc).wf(d@),
        forall|k: u32| old(tc).contains(k) ==> final(tc).contains(k),
        r matches Ok((c, np)) ==> pos < np <= end,
    decreases depth, end - pos, 4int,
{
    if depth == 0 {
        return Err(Error::FailedToCreateRecordModel {
            message: String::from_str("template nesting too deep"),
        });
    }
    if end - pos < 9 {
        return Err(Error::FailedToRead {
            offset: pos as u64,
            t: String::from_str("template instance header"),
        });
    }
    let def_offset = read_u32(d, pos + 5).unwrap();
    let mut p = pos + 9;
    if def_offset as u64 == p as u64 {
        // the definition lies inline; parse (or reuse) and step over it
        match tc.ensure_template(d, def_offset, nc, depth - 1) {
            Ok(()) => {},
            Err(e) => {
                return Err(e);
            },
        }
        // step over: header (24) plus its announced data size
        if end - p < 24 {
            return Err(Error::FailedToRead {
                offset: p as u64,
                t: String::from_str("inline template"),
            });
        }
        let data_size = read_u32(d, p + 20).unwrap();
        if (data_size as u64) > (end - p - 24) as u64 {
            return Err(Error::FailedToRead {
                offset: p as u64,
                t: String::from_str("inline template"),
            });
        }
        p = p + 24 + data_size as usize;
    } else {
        match tc.ensure_template(d, def_offset, nc, depth - 1) {
            Ok(()) => {},
            Err(e) => {
                return Err(e);
            },
        }
    }
    // substitution array: count, descriptors, then the values
    if end - p < 4 {
        return Err(Error::FailedToRead {
            offset: p as u64,
            t: String::from_str("substitution count"),
        });
    }
    let count = read_u32(d, p).unwrap() as usize;
    p = p + 4;
    if count > (end - p) / 4 {
        return Err(Error::FailedToRead {
            offset: p as u64,
            t: String::from_str("substitution descriptors"),
        });
    }
    let mut sizes: Vec<u16> = Vec::new();
    let mut types: Vec<u8> = Vec::new();
    let mut i: usize = 0;
    while i < count
        invariant
            p + 4 * count <= end,
            end <= d@.len(),
            i <= count,
            sizes@.len() == i,
            types@.len() == i,
        decreases count - i,
    {
        sizes.push(read_u16(d, p + 4 * i).unwrap());
        types.push(read_u8(d, p + 4 * i + 2).unwrap());
        i = i + 1;
    }
    p = p + 4 * count;
    let mut values: Vec<BinXmlValue> = Vec::new();
    let mut i: usize = 0;
    while i < count
        invariant
            old(nc).wf(d@) ==> nc.wf(d@),
            nc.wf(d@),
            pos < p <= end,
            end <= d@.len(),
            i <= count,
            sizes@.len() == count,
            types@.len() == count,
            forall|k: u32| old(tc).contains(k) ==> tc.contains(k),
        decreases count - i,
    {
        let size = sizes[i] as usize;
        if size > end - p {
            return Err(Error::FailedToRead {
                offset: p as u64,
                t: String::from_str("substitution value"),
            });
        }
        let v = match decode_sub_value(d, p, size, types[i], nc, tc, depth - 1) {
            Ok(v) => v,
            Err(e) => {
                return Err(e);
            },
        };
        values.push(v);
        p = p + size;
        i = i + 1;
    }
    // resolve the definition and expand it
    let def = match tc.get_template(def_offset) {
        Some(t) => t,
        None => {
            return Err(Error::FailedToCreateRecordModel {
                message: String::from_str("template missing from cache"),
            });
        },
    };
    let content = match substitute_list(&def.content, &values) {
        Ok(c) => c,
        Err(e) => {
            return Err(e);
        },
    };
    Ok((content, p))
}

/// Parses one record's binxml payload: fragment headers, template
/// instances and elements in sequence, with zero padding tolerated.
#[verifier::loop_isolation(false)]
pub fn parse_record_fragment(
    d: &[u8],
    pos: usize,
    end: usize,
    nc: &mut NameCache,
    tc: &mut TemplateCache,
    depth: u32,
) -> (r: Result<(Vec<XmlContent>, usize), Error>)
    requires
        pos <= end <= d@.len(),
        old(nc).wf(d@),
    ensures
        final(nc).wf(d@),
        forall|k: u32| old(tc).contains(k) ==> final(tc).contains(k),
        r matches Ok((c, np)) ==> pos <= np <= end,
    decreases depth, end - pos, 5int,
{
    let mut out: Vec<XmlContent> = Vec::new();
    let mut p = pos;
    loop
        invariant
            old(nc).wf(d@) ==> nc.wf(d@),
            nc.wf(d@),
            pos <= p <= end,
            end <= d@.len(),
            forall|k: u32| old(tc).contains(k) ==> tc.contains(k),
        decreases end - p,
    {
        if p >= end {
            return Ok((out, p));
        }
        let tok = d[p];
        let kind = tok & 0x0F;
        if tok == 0x00 {
            // end of stream, or zero padding up to the record boundary
            p = p + 1;
        } else if kind == 0x0F {
            if end - p < 4 {
                return Err(Error::FailedToRead {
                    offset: p as u64,
                    t: String::from_str("fragment header"),
                });
            }
            p = p + 4;
        } else if kind == 0x0C {
            let (content, np) = match parse_template_instance(d, p + 1, end, nc, tc, depth) {
                Ok(x) => x,
                Err(e) => {
                    return Err(e);
                },
            };
            let mut content = content;
            while content.len() > 0
                decreases content@.len(),
            {
                out.push(content.remove(0));
            }
            p = np;
        } else if kind == 0x01 {
            let (node, np) = match parse_element(d, p + 1, end, nc, depth, tok & 0x40 != 0) {
                Ok(x) => x,
                Err(e) => {
                    return Err(e);
                },
            };
            let empty: Vec<BinXmlValue> = Vec::new();
            let n = match substitute_node(&node, &empty) {
                Ok(n) => n,
                Err(e) => {
                    return Err(e);
                },
            };
            out.push(XmlContent::Element(n));
            p = np;
        } else if kind == 0x05 {
            let (v, np) = match parse_value_token(d, p + 1, end) {
                Ok(x) => x,
                Err(e) => {
                    return Err(e);
                },
            };
            out.push(XmlContent::Value(v));
            p = np;
        } else if kind == 0x0A {
            let (pi, np) = match parse_pi(d, p + 1, end, nc) {
                Ok(x) => x,
                Err(e) => {
                    return Err(e);
                },
            };
            out.push(XmlContent::PI(pi));
            p = np;
        } else {
            return Err(Error::InvalidToken { value: tok, offset: p as u64 });
        }
    }
}

} // verus!
