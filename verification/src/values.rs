use vstd::prelude::*;
use vstd::string::*;
use crate::err::Error;
use crate::guid::{Guid, guid_wf, guid_string};
use crate::sid::{Sid, sid_string};
use crate::time::{Timestamp, filetime_string, filetime_to_string};
use crate::text::{
    dec_str, dec_str_signed, hex_str, hex_bytes_upper, dec_u64, dec_i64, hex_u64,
    hex_upper_of_bytes, push_char, digit_to_char,
};
use crate::model::XmlContent;

verus! {

/// A SYSTEMTIME: eight 16-bit fields.
#[derive(Debug, Clone, Copy, PartialEq, Eq, Structural)]
pub struct SysTime {
    pub year: u16,
    pub month: u16,
    pub day_of_week: u16,
    pub day: u16,
    pub hour: u16,
    pub minute: u16,
    pub second: u16,
    pub milliseconds: u16,
}

/// A typed binxml value.  Real values keep their raw bits: verified code
/// holds no floating point, so their text form is unmodelled and a
/// record that must render one (or a handle, or a nested array) surfaces
/// an `Unimplemented` record error where an unverified reader would have
/// printed the number.
#[derive(Debug)]
pub enum BinXmlValue {
    NullType,
    StringType(String),
    AnsiStringType(String),
    Int8Type(i8),
    UInt8Type(u8),
    Int16Type(i16),
    UInt16Type(u16),
    Int32Type(i32),
    UInt32Type(u32),
    Int64Type(i64),
    UInt64Type(u64),
    Real32Type(u32),
    Real64Type(u64),
    BoolType(u32),
    BinaryType(Vec<u8>),
    GuidType(Guid),
    SizeTType(u64),
    FileTimeType(Timestamp),
    SysTimeType(SysTime),
    SidType(Sid),
    HexInt32Type(u32),
    HexInt64Type(u64),
    EvtHandle,
    BinXmlType(Vec<XmlContent>),
    EvtXmlType,
    StringArrayType(Vec<String>),
    ArrayType(Vec<BinXmlValue>),
}

/// The `YYYY-MM-DDThh:mm:ss.mmmZ` rendering of a SYSTEMTIME.
pub open spec fn systime_string(t: SysTime) -> Seq<char> {
    dec_pad(t.year as nat, 4) + seq!['-'] + dec_pad(t.month as nat, 2) + seq!['-'] + dec_pad(
        t.day as nat,
        2,
    ) + seq!['T'] + dec_pad(t.hour as nat, 2) + seq![':'] + dec_pad(t.minute as nat, 2)
        + seq![':'] + dec_pad(t.second as nat, 2) + seq!['.'] + dec_pad(t.milliseconds as nat, 3)
        + seq!['Z']
}

/// Whether a non-array value has a text form this library states exactly.
pub open spec fn scalar_renderable(v: BinXmlValue) -> bool {
    match v {
        BinXmlValue::NullType => true,
        BinXmlValue::StringType(_) => true,
        BinXmlValue::AnsiStringType(_) => true,
        BinXmlValue::Int8Type(_) => true,
        BinXmlValue::UInt8Type(_) => true,
        BinXmlValue::Int16Type(_) => true,
        BinXmlValue::UInt16Type(_) => true,
        BinXmlValue::Int32Type(_) => true,
        BinXmlValue::UInt32Type(_) => true,
        BinXmlValue::Int64Type(_) => true,
        BinXmlValue::UInt64Type(_) => true,
        BinXmlValue::BoolType(_) => true,
        BinXmlValue::BinaryType(_) => true,
        BinXmlValue::GuidType(g) => guid_wf(g),
        BinXmlValue::SizeTType(_) => true,
        BinXmlValue::FileTimeType(_) => true,
        BinXmlValue::SysTimeType(_) => true,
        BinXmlValue::SidType(_) => true,
        BinXmlValue::HexInt32Type(_) => true,
        BinXmlValue::HexInt64Type(_) => true,
        _ => false,
    }
}

/// The exact text of a renderable non-array value.
pub open spec fn scalar_string(v: BinXmlValue) -> Seq<char> {
    match v {
        BinXmlValue::NullType => Seq::empty(),
        BinXmlValue::StringType(s) => s@,
        BinXmlValue::AnsiStringType(s) => s@,
        BinXmlValue::Int8Type(n) => dec_str_signed(n as int),
        BinXmlValue::UInt8Type(n) => dec_str(n as nat),
        BinXmlValue::Int16Type(n) => dec_str_signed(n as int),
        BinXmlValue::UInt16Type(n) => dec_str(n as nat),
        BinXmlValue::Int32Type(n) => dec_str_signed(n as int),
        BinXmlValue::UInt32Type(n) => dec_str(n as nat),
        BinXmlValue::Int64Type(n) => dec_str_signed(n as int),
        BinXmlValue::UInt64Type(n) => dec_str(n as nat),
        BinXmlValue::BoolType(b) => if b == 0 {
            "false"@
        } else {
            "true"@
        },
        BinXmlValue::BinaryType(b) => hex_bytes_upper(b@),
        BinXmlValue::GuidType(g) => guid_string(g),
        BinXmlValue::SizeTType(n) => dec_str(n as nat),
        BinXmlValue::FileTimeType(t) => filetime_string(t.ticks),
        BinXmlValue::SysTimeType(t) => systime_string(t),
        BinXmlValue::SidType(s) => sid_string(s),
        BinXmlValue::HexInt32Type(n) => "0x"@ + hex_str(n as nat),
        BinXmlValue::HexInt64Type(n) => "0x"@ + hex_str(n as nat),
        _ => Seq::empty(),
    }
}

/// Elements of a string array joined with commas.
pub open spec fn string_array_str(ss: Seq<String>) -> Seq<char>
    decreases ss.len(),
{
    if ss.len() == 0 {
        Seq::empty()
    } else if ss.len() == 1 {
        ss[0]@
    } else {
        ss[0]@ + seq![','] + string_array_str(ss.drop_first())
    }
}

/// Renderable scalars joined with commas.
pub open spec fn value_array_str(vs: Seq<BinXmlValue>) -> Seq<char>
    decreases vs.len(),
{
    if vs.len() == 0 {
        Seq::empty()
    } else if vs.len() == 1 {
        scalar_string(vs[0])
    } else {
        scalar_string(vs[0]) + seq![','] + value_array_str(vs.drop_first())
    }
}

/// Renders one non-array value.
fn scalar_to_string(v: &BinXmlValue) -> (r: Result<String, Error>)
    ensures
        (r is Ok) == scalar_renderable(*v),
        r matches Ok(s) ==> s@ == scalar_string(*v),
{
    match v {
        BinXmlValue::NullType => Ok(String::new()),
        BinXmlValue::StringType(s) => Ok(s.clone()),
        BinXmlValue::AnsiStringType(s) => Ok(s.clone()),
        BinXmlValue::Int8Type(n) => Ok(dec_i64(*n as i64)),
        BinXmlValue::UInt8Type(n) => Ok(dec_u64(*n as u64)),
        BinXmlValue::Int16Type(n) => Ok(dec_i64(*n as i64)),
        BinXmlValue::UInt16Type(n) => Ok(dec_u64(*n as u64)),
        BinXmlValue::Int32Type(n) => Ok(dec_i64(*n as i64)),
        BinXmlValue::UInt32Type(n) => Ok(dec_u64(*n as u64)),
        BinXmlValue::Int64Type(n) => Ok(dec_i64(*n)),
        BinXmlValue::UInt64Type(n) => Ok(dec_u64(*n)),
        BinXmlValue::BoolType(b) => if *b == 0 {
            Ok(String::from_str("false"))
        } else {
            Ok(String::from_str("true"))
        },
        BinXmlValue::BinaryType(b) => Ok(hex_upper_of_bytes(b.as_slice())),
        BinXmlValue::GuidType(g) => if g.data4.len() == 8 {
            Ok(g.to_display_string())
        } else {
            Err(Error::FailedToReadGUID { offset: 0 })
        },
        BinXmlValue::SizeTType(n) => Ok(dec_u64(*n)),
        BinXmlValue::FileTimeType(t) => Ok(filetime_to_string(t.ticks)),
        BinXmlValue::SysTimeType(t) => Ok(systime_to_string(t)),
        BinXmlValue::SidType(s) => Ok(s.to_display_string()),
        BinXmlValue::HexInt32Type(n) => {
            let h = hex_u64(*n as u64);
            Ok(String::from_str("0x").concat(h.as_str()))
        },
        BinXmlValue::HexInt64Type(n) => {
            let h = hex_u64(*n);
            Ok(String::from_str("0x").concat(h.as_str()))
        },
        BinXmlValue::Real32Type(_) => Err(Error::Unimplemented {
            name: String::from_str("Real32 rendering"),
        }),
        BinXmlValue::Real64Type(_) => Err(Error::Unimplemented {
            name: String::from_str("Real64 rendering"),
        }),
        BinXmlValue::EvtHandle => Err(Error::Unimplemented {
            name: String::from_str("EvtHandle rendering"),
        }),
        BinXmlValue::BinXmlType(_) => Err(Error::Unimplemented {
            name: String::from_str("BinXml rendering"),
        }),
        BinXmlValue::EvtXmlType => Err(Error::Unimplemented {
            name: String::from_str("EvtXml rendering"),
        }),
        BinXmlValue::StringArrayType(_) => Err(Error::Unimplemented {
            name: String::from_str("nested array"),
        }),
        BinXmlValue::ArrayType(_) => Err(Error::Unimplemented {
            name: String::from_str("nested array"),
        }),
    }
}

/// Renders a SYSTEMTIME in a fixed layout.
fn systime_to_string(t: &SysTime) -> (r: String)
    ensures
        r@ == systime_string(*t),
{
    let mut s = String::new();
    push_dec_pad(&mut s, t.year as u64, 4);
    push_char(&mut s, '-');
    push_dec_pad(&mut s, t.month as u64, 2);
    push_char(&mut s, '-');
    push_dec_pad(&mut s, t.day as u64, 2);
    push_char(&mut s, 'T');
    push_dec_pad(&mut s, t.hour as u64, 2);
    push_char(&mut s, ':');
    push_dec_pad(&mut s, t.minute as u64, 2);
    push_char(&mut s, ':');
    push_dec_pad(&mut s, t.second as u64, 2);
    push_char(&mut s, '.');
    push_dec_pad(&mut s, t.milliseconds as u64, 3);
    push_char(&mut s, 'Z');
    proof {
        assert(s@ =~= systime_string(*t));
    }
    s
}

/// Zero-padded decimal digits of `v`, `w` wide, most significant first.
pub open spec fn dec_pad(n: nat, w: nat) -> Seq<char>
    decreases w,
{
    if w == 0 {
        Seq::empty()
    } else {
        dec_pad(n / 10, (w - 1) as nat).push(crate::text::digit_char(n % 10))
    }
}

pub fn push_dec_pad(s: &mut String, v: u64, w: usize)
    ensures
        final(s)@ == old(s)@ + dec_pad(v as nat, w as nat),
    decreases w,
{
    if w == 0 {
        proof {
            assert(old(s)@ + dec_pad(v as nat, 0) =~= old(s)@);
        }
    } else {
        push_dec_pad(s, v / 10, w - 1);
        push_char(s, digit_to_char((v % 10) as u8));
        proof {
            assert((old(s)@ + dec_pad((v / 10) as nat, (w - 1) as nat)).push(
                crate::text::digit_char((v % 10) as nat),
            ) =~= old(s)@ + dec_pad(v as nat, w as nat));
        }
    }
}

/// Whether the value has a text form this library states exactly.
pub open spec fn value_renderable(v: BinXmlValue) -> bool {
    match v {
        BinXmlValue::StringArrayType(_) => true,
        BinXmlValue::ArrayType(vs) => forall|j: int|
            0 <= j < vs@.len() ==> scalar_renderable(#[trigger] vs@[j]),
        _ => scalar_renderable(v),
    }
}

/// The exact text of a renderable value.
pub open spec fn value_text(v: BinXmlValue) -> Seq<char> {
    match v {
        BinXmlValue::StringArrayType(ss) => string_array_str(ss@),
        BinXmlValue::ArrayType(vs) => value_array_str(vs@),
        _ => scalar_string(v),
    }
}

impl BinXmlValue {
    /// Whether this value is `Null` (a `Null` substitution suppresses its
    /// attribute when the substitution is optional).
    pub fn is_null(&self) -> (r: bool)
        ensures
            r == (self matches BinXmlValue::NullType),
    {
        match self {
            BinXmlValue::NullType => true,
            _ => false,
        }
    }

    /// Renders the value as text.  Real values, handles and nested binxml
    /// have no text form here and report `Unimplemented`.
    #[verifier::loop_isolation(false)]
    pub fn as_string(&self) -> (r: Result<String, Error>)
        ensures
            (r is Ok) == value_renderable(*self),
            r matches Ok(s) ==> s@ == value_text(*self),
    {
        match self {
            BinXmlValue::StringArrayType(ss) => {
                let mut out = String::new();
                let mut i: usize = 0;
                let n = ss.len();
                proof {
                    assert(ss@.skip(0) =~= ss@);
                    assert(out@ + string_array_str(ss@) =~= string_array_str(ss@));
                }
                while i < n
                    invariant
                        i <= n,
                        n == ss@.len(),
                        string_array_str(ss@) == out@ + string_array_str(ss@.skip(i as int)),
                    decreases n - i,
                {
                    let ghost pre = out@;
                    let ghost tail = ss@.skip(i as int);
                    out = out.concat(ss[i].as_str());
                    if i + 1 < n {
                        push_char(&mut out, ',');
                    }
                    proof {
                        assert(tail[0] == ss@[i as int]);
                        assert(tail.drop_first() =~= ss@.skip(i + 1));
                        if i + 1 < n {
                            assert(string_array_str(tail) == tail[0]@ + (seq![',']
                                + string_array_str(ss@.skip(i + 1))));
                            assert(pre + string_array_str(tail) =~= out@ + string_array_str(
                                ss@.skip(i + 1),
                            ));
                        } else {
                            assert(string_array_str(tail) == tail[0]@);
                            assert(ss@.skip(i + 1) =~= Seq::<String>::empty());
                            assert(pre + string_array_str(tail) =~= out@ + string_array_str(
                                ss@.skip(i + 1),
                            ));
                        }
                    }
                    i = i + 1;
                }
                proof {
                    assert(ss@.skip(n as int) =~= Seq::<String>::empty());
                    assert(out@ + Seq::<char>::empty() =~= out@);
                }
                Ok(out)
            },
            BinXmlValue::ArrayType(vs) => {
                let mut out = String::new();
                let mut i: usize = 0;
                let n = vs.len();
                proof {
                    assert(vs@.skip(0) =~= vs@);
                    assert(out@ + value_array_str(vs@) =~= value_array_str(vs@));
                }
                while i < n
                    invariant
                        i <= n,
                        n == vs@.len(),
                        forall|k: int| 0 <= k < i ==> scalar_renderable(#[trigger] vs@[k]),
                        (forall|j: int| 0 <= j < n ==> scalar_renderable(vs@[j]))
                            ==> value_array_str(vs@) == out@ + value_array_str(
                            vs@.skip(i as int),
                        ),
                    decreases n - i,
                {
                    let ghost pre = out@;
                    let ghost tail = vs@.skip(i as int);
                    let piece = match scalar_to_string(&vs[i]) {
                        Ok(p) => p,
                        Err(e) => {
                            return Err(e);
                        },
                    };
                    out = out.concat(piece.as_str());
                    if i + 1 < n {
                        push_char(&mut out, ',');
                    }
                    proof {
                        assert(tail[0] == vs@[i as int]);
                        assert(tail.drop_first() =~= vs@.skip(i + 1));
                        if scalar_renderable(vs@[i as int]) {
                            if i + 1 < n {
                                assert(value_array_str(tail) == scalar_string(tail[0]) + (seq![
                                    ',',
                                ] + value_array_str(vs@.skip(i + 1))));
                                assert(pre + value_array_str(tail) =~= out@ + value_array_str(
                                    vs@.skip(i + 1),
                                ));
                            } else {
                                assert(value_array_str(tail) == scalar_string(tail[0]));
                                assert(vs@.skip(i + 1) =~= Seq::<BinXmlValue>::empty());
                                assert(pre + value_array_str(tail) =~= out@ + value_array_str(
                                    vs@.skip(i + 1),
                                ));
                            }
                        }
                    }
                    i = i + 1;
                }
                proof {
                    assert(vs@.skip(n as int) =~= Seq::<BinXmlValue>::empty());
                    assert(out@ + Seq::<char>::empty() =~= out@);
                }
                Ok(out)
            },
            _ => scalar_to_string(self),
        }
    }
}

} // verus!
