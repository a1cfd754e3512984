//! The property-stream deserializer: turns one export's decrypted byte
//! buffer into a typed object graph of named, tagged properties, validating
//! that every tagged value consumes exactly its declared size, and ending at
//! a terminal sentinel name. On failure it carries the field path from the
//! offending field outward.
use vstd::prelude::*;
use crate::archive::le32;
use crate::errors::ParserError;

verus! {

broadcast use vstd::std_specs::vec::group_vec_axioms;

// ===== wire tags =====

/// Tag of a 32-bit integer property.
pub const TAG_INT: u8 = 1;

/// Tag of a 32-bit float property, carried as raw bits.
pub const TAG_FLOAT: u8 = 2;

/// Tag of a boolean property.
pub const TAG_BOOL: u8 = 3;

/// Tag of a length-prefixed string property.
pub const TAG_STR: u8 = 4;

/// Tag of a raw byte-array property.
pub const TAG_BYTES: u8 = 5;

/// Tag of a nested struct property.
pub const TAG_STRUCT: u8 = 6;

/// Tag of a typed array property.
pub const TAG_ARRAY: u8 = 7;

/// Tag of an object-reference property.
pub const TAG_OBJREF: u8 = 8;

// ===== the object graph =====

/// One polymorphic property value. A float is carried as its raw 32-bit
/// pattern so that the graph stays exact; rendering is the caller's business.
#[derive(Debug)]
pub enum PropertyValue {
    Int(u32),
    Float(u32),
    Bool(bool),
    Str(Vec<u8>),
    Bytes(Vec<u8>),
    Struct(Vec<Property>),
    Array(Vec<PropertyValue>),
    ObjectRef(u32),
}

/// One named property with its declared on-wire payload size.
#[derive(Debug)]
pub struct Property {
    pub name: Vec<u8>,
    pub declared_size: u32,
    pub value: PropertyValue,
}

/// Spec-level mirror of a property value.
pub enum ValueModel {
    Int(u32),
    Float(u32),
    Bool(bool),
    Str(Seq<u8>),
    Bytes(Seq<u8>),
    Struct(Seq<PropModel>),
    Array(Seq<ValueModel>),
    ObjectRef(u32),
}

/// Spec-level mirror of a named property.
pub struct PropModel {
    pub name: Seq<u8>,
    pub size: u32,
    pub value: ValueModel,
}

/// Mathematical view of a property value.
pub open spec fn value_view(v: PropertyValue) -> ValueModel
    decreases v,
{
    match v {
        PropertyValue::Int(x) => ValueModel::Int(x),
        PropertyValue::Float(x) => ValueModel::Float(x),
        PropertyValue::Bool(x) => ValueModel::Bool(x),
        PropertyValue::Str(s) => ValueModel::Str(s@),
        PropertyValue::Bytes(s) => ValueModel::Bytes(s@),
        PropertyValue::Struct(ps) => ValueModel::Struct(props_view(ps@)),
        PropertyValue::Array(vs) => ValueModel::Array(values_view(vs@)),
        PropertyValue::ObjectRef(x) => ValueModel::ObjectRef(x),
    }
}

/// Mathematical view of a named property.
pub open spec fn prop_view(p: Property) -> PropModel
    decreases p,
{
    PropModel { name: p.name@, size: p.declared_size, value: value_view(p.value) }
}

/// Mathematical view of a property list.
pub open spec fn props_view(ps: Seq<Property>) -> Seq<PropModel>
    decreases ps,
{
    if ps.len() == 0 {
        Seq::empty()
    } else {
        seq![prop_view(ps[0])] + props_view(ps.subrange(1, ps.len() as int))
    }
}

/// Mathematical view of a value list.
pub open spec fn values_view(vs: Seq<PropertyValue>) -> Seq<ValueModel>
    decreases vs,
{
    if vs.len() == 0 {
        Seq::empty()
    } else {
        seq![value_view(vs[0])] + values_view(vs.subrange(1, vs.len() as int))
    }
}

// ===== the specification parser =====

/// The terminal sentinel name ending a property list.
pub open spec fn sentinel_name() -> Seq<u8> {
    seq![78u8, 111u8, 110u8, 101u8]
}

/// A length-prefixed string at p: Some((bytes, end)) or None past the buffer.
pub open spec fn sp_str(b: Seq<u8>, p: int) -> Option<(Seq<u8>, int)> {
    if p < 0 || p + 4 > b.len() {
        None
    } else {
        let n = le32(b, p) as int;
        if p + 4 + n > b.len() {
            None
        } else {
            Some((b.subrange(p + 4, p + 4 + n), p + 4 + n))
        }
    }
}

/// One tagged payload of declared size at p.
pub open spec fn sp_value(b: Seq<u8>, p: int, tag: u8, size: u32) -> Option<ValueModel>
    decreases b.len() - p, 1int,
{
    if p < 0 || p + size > b.len() {
        None
    } else if tag == TAG_INT {
        if size == 4 {
            Some(ValueModel::Int(le32(b, p)))
        } else {
            None
        }
    } else if tag == TAG_FLOAT {
        if size == 4 {
            Some(ValueModel::Float(le32(b, p)))
        } else {
            None
        }
    } else if tag == TAG_BOOL {
        if size == 1 {
            Some(ValueModel::Bool(b[p] != 0))
        } else {
            None
        }
    } else if tag == TAG_STR {
        match sp_str(b, p) {
            Option::Some(sp) => {
                if sp.1 - p == size {
                    Some(ValueModel::Str(sp.0))
                } else {
                    None
                }
            },
            Option::None => None,
        }
    } else if tag == TAG_BYTES {
        Some(ValueModel::Bytes(b.subrange(p, p + size)))
    } else if tag == TAG_STRUCT {
        match sp_props(b, p) {
            Option::Some(pr) => {
                if pr.1 - p == size {
                    Some(ValueModel::Struct(pr.0))
                } else {
                    None
                }
            },
            Option::None => None,
        }
    } else if tag == TAG_ARRAY {
        if p + 5 > b.len() || size < 5 {
            None
        } else {
            let etag = b[p];
            let cnt = le32(b, p + 1) as int;
            match sp_elems(b, p + 5, etag, cnt) {
                Option::Some(el) => {
                    if el.1 - p == size {
                        Some(ValueModel::Array(el.0))
                    } else {
                        None
                    }
                },
                Option::None => None,
            }
        }
    } else if tag == TAG_OBJREF {
        if size == 4 {
            Some(ValueModel::ObjectRef(le32(b, p)))
        } else {
            None
        }
    } else {
        None
    }
}

/// cnt array elements from p, each a size-prefixed payload of the element tag.
pub open spec fn sp_elems(b: Seq<u8>, p: int, etag: u8, cnt: int) -> Option<(Seq<ValueModel>, int)>
    decreases b.len() - p, 2int, cnt,
{
    if cnt <= 0 {
        Some((Seq::empty(), p))
    } else if p < 0 || p + 4 > b.len() {
        None
    } else {
        let esz = le32(b, p);
        if p + 4 + esz > b.len() {
            None
        } else {
            match sp_value(b, p + 4, etag, esz) {
                Option::Some(v) => {
                    match sp_elems(b, p + 4 + esz, etag, cnt - 1) {
                        Option::Some(rest) => Some((seq![v] + rest.0, rest.1)),
                        Option::None => None,
                    }
                },
                Option::None => None,
            }
        }
    }
}

/// A property list from p up to and including its sentinel: Some((props,
/// end)) where end is just past the sentinel.
pub open spec fn sp_props(b: Seq<u8>, p: int) -> Option<(Seq<PropModel>, int)>
    decreases b.len() - p, 0int,
{
    match sp_str(b, p) {
        Option::None => None,
        Option::Some(nm) => {
            if nm.0 == sentinel_name() {
                Some((Seq::empty(), nm.1))
            } else if nm.1 + 5 > b.len() {
                None
            } else {
                let tag = b[nm.1];
                let size = le32(b, nm.1 + 1);
                if nm.1 + 5 + size > b.len() {
                    None
                } else {
                    match sp_value(b, nm.1 + 5, tag, size) {
                        Option::None => None,
                        Option::Some(v) => {
                            match sp_props(b, nm.1 + 5 + size) {
                                Option::None => None,
                                Option::Some(rest) => Some(
                                    (
                                        seq![PropModel { name: nm.0, size: size, value: v }]
                                            + rest.0,
                                        rest.1,
                                    ),
                                ),
                            }
                        },
                    }
                }
            }
        },
    }
}


// ===== the byte-accounting law =====

/// On-wire byte count of a property list without its sentinel: for each
/// property the name length field, the name, the tag, the size field and the
/// declared payload size.
pub open spec fn props_wire_len(ps: Seq<PropModel>) -> int
    decreases ps.len(),
{
    if ps.len() == 0 {
        0
    } else {
        9 + ps[0].name.len() + ps[0].size + props_wire_len(ps.subrange(1, ps.len() as int))
    }
}

/// Law: a parsed property list accounts for every byte between its start and
/// its end: the sum of the parsed properties' name, tag, size-field and
/// declared payload bytes, plus the 8-byte terminal sentinel.
pub proof fn lemma_stream_accounting(b: Seq<u8>, p: int)
    requires
        sp_props(b, p) is Some,
    ensures
        sp_props(b, p)->Some_0.1 - p == props_wire_len(sp_props(b, p)->Some_0.0) + 8,
    decreases b.len() - p,
{
    reveal_with_fuel(props_wire_len, 2);
    let nm = sp_str(b, p)->Some_0;
    if nm.0 == sentinel_name() {
        assert(sentinel_name().len() == 4);
        assert(nm.0.len() == 4);
        assert(nm.1 - p == 8);
    } else {
        let size = le32(b, nm.1 + 1);
        lemma_stream_accounting(b, nm.1 + 5 + size);
        let rest = sp_props(b, nm.1 + 5 + size)->Some_0;
        let m = PropModel { name: nm.0, size: size, value: sp_value(b, nm.1 + 5, b[nm.1], size)->Some_0 };
        let ps = seq![m] + rest.0;
        assert(ps.subrange(1, ps.len() as int) =~= rest.0);
        assert(ps[0] == m);
        assert(props_wire_len(ps) == 9 + m.name.len() + m.size + props_wire_len(rest.0));
        assert(nm.1 == p + 4 + nm.0.len());
    }
}

// ===== the executable parser =====

/// Copies a byte range out of the buffer.
fn copy_range(b: &[u8], from: usize, to: usize) -> (v: Vec<u8>)
    requires
        from <= to <= b@.len(),
    ensures
        v@ == b@.subrange(from as int, to as int),
{
    let mut v: Vec<u8> = Vec::new();
    let mut k: usize = from;
    while k < to
        invariant
            from <= k <= to <= b@.len(),
            v@.len() == k - from,
            forall|t: int| 0 <= t < k - from ==> v@[t] == b@[from + t],
        decreases to - k,
    {
        v.push(b[k]);
        k = k + 1;
    }
    proof {
        assert(v@ =~= b@.subrange(from as int, to as int));
    }
    v
}

/// A property-stream failure with an empty path.
fn perr() -> (r: ParserError)
    ensures
        r is Property && r->path@.len() == 0,
{
    ParserError::Property { path: Vec::new() }
}

/// Reads a length-prefixed string.
fn parse_str(b: &[u8], p: usize) -> (r: Result<(Vec<u8>, usize), ParserError>)
    ensures
        r is Ok ==> sp_str(b@, p as int) == Some((r->Ok_0.0@, r->Ok_0.1 as int))
            && r->Ok_0.1 <= b@.len() && p <= r->Ok_0.1,
        r is Err <==> sp_str(b@, p as int) is None,
        r is Err ==> r->Err_0 is Property && r->Err_0->path@.len() == 0,
{
    if p > b.len() || b.len() - p < 4 {
        return Err(perr());
    }
    let n = crate::archive::read_le32(b, p) as usize;
    if b.len() - (p + 4) < n {
        return Err(perr());
    }
    let v = copy_range(b, p + 4, p + 4 + n);
    Ok((v, p + 4 + n))
}

/// Reads one tagged payload of declared size; the value must account for
/// exactly that many bytes.
#[verifier::rlimit(100)]
fn parse_value(b: &[u8], p: usize, tag: u8, size: u32) -> (r: Result<PropertyValue, ParserError>)
    ensures
        r is Ok ==> sp_value(b@, p as int, tag, size) == Some(value_view(r->Ok_0)),
        r is Err <==> sp_value(b@, p as int, tag, size) is None,
        r is Err ==> r->Err_0 is Property,
    decreases b@.len() - p, 1int,
{
    if p > b.len() || ((b.len() - p) as u64) < (size as u64) {
        return Err(perr());
    }
    if tag == TAG_INT {
        if size != 4 {
            return Err(perr());
        }
        Ok(PropertyValue::Int(crate::archive::read_le32(b, p)))
    } else if tag == TAG_FLOAT {
        if size != 4 {
            return Err(perr());
        }
        Ok(PropertyValue::Float(crate::archive::read_le32(b, p)))
    } else if tag == TAG_BOOL {
        if size != 1 {
            return Err(perr());
        }
        Ok(PropertyValue::Bool(b[p] != 0))
    } else if tag == TAG_STR {
        let sv = match parse_str(b, p) {
            Ok(s) => s,
            Err(e) => {
                return Err(e);
            },
        };
        if sv.1 - p != size as usize {
            return Err(perr());
        }
        Ok(PropertyValue::Str(sv.0))
    } else if tag == TAG_BYTES {
        Ok(PropertyValue::Bytes(copy_range(b, p, p + size as usize)))
    } else if tag == TAG_STRUCT {
        let pr = match parse_props(b, p) {
            Ok(x) => x,
            Err(e) => {
                return Err(e);
            },
        };
        if pr.1 - p != size as usize {
            return Err(perr());
        }
        Ok(PropertyValue::Struct(pr.0))
    } else if tag == TAG_ARRAY {
        if b.len() - p < 5 || size < 5 {
            return Err(perr());
        }
        let etag = b[p];
        let cnt = crate::archive::read_le32(b, p + 1);
        let el = match parse_elems(b, p + 5, etag, cnt) {
            Ok(x) => x,
            Err(e) => {
                return Err(e);
            },
        };
        if el.1 - p != size as usize {
            return Err(perr());
        }
        Ok(PropertyValue::Array(el.0))
    } else if tag == TAG_OBJREF {
        if size != 4 {
            return Err(perr());
        }
        Ok(PropertyValue::ObjectRef(crate::archive::read_le32(b, p)))
    } else {
        Err(perr())
    }
}

/// Reads cnt array elements, each a size-prefixed payload of the element tag.
#[verifier::rlimit(100)]
fn parse_elems(b: &[u8], p: usize, etag: u8, cnt: u32) -> (r: Result<
    (Vec<PropertyValue>, usize),
    ParserError,
>)
    requires
        p <= b@.len(),
    ensures
        r is Ok ==> sp_elems(b@, p as int, etag, cnt as int) == Some(
            (values_view(r->Ok_0.0@), r->Ok_0.1 as int),
        ) && r->Ok_0.1 <= b@.len() && p <= r->Ok_0.1,
        r is Err <==> sp_elems(b@, p as int, etag, cnt as int) is None,
        r is Err ==> r->Err_0 is Property,
    decreases b@.len() - p, 2int, cnt,
{
    if cnt == 0 {
        proof {
            assert(values_view(Seq::<PropertyValue>::empty()) =~= Seq::<ValueModel>::empty());
        }
        return Ok((Vec::new(), p));
    }
    if p > b.len() || b.len() - p < 4 {
        return Err(perr());
    }
    let esz = crate::archive::read_le32(b, p);
    if ((b.len() - (p + 4)) as u64) < (esz as u64) {
        return Err(perr());
    }
    let v = match parse_value(b, p + 4, etag, esz) {
        Ok(x) => x,
        Err(e) => {
            return Err(e);
        },
    };
    let rest = match parse_elems(b, p + 4 + esz as usize, etag, cnt - 1) {
        Ok(x) => x,
        Err(e) => {
            return Err(e);
        },
    };
    let mut out = rest.0;
    out.insert(0, v);
    proof {
        assert(out@.subrange(1, out@.len() as int) =~= rest.0@);
        assert(out@[0] == v);
        assert(values_view(out@) =~= seq![value_view(v)] + values_view(rest.0@));
    }
    Ok((out, rest.1))
}

/// Reads a property list up to and including its sentinel. On failure the
/// error path names, most specific first, the properties whose nested values
/// were being read.
#[verifier::rlimit(100)]
fn parse_props(b: &[u8], p: usize) -> (r: Result<(Vec<Property>, usize), ParserError>)
    ensures
        r is Ok ==> sp_props(b@, p as int) == Some((props_view(r->Ok_0.0@), r->Ok_0.1 as int))
            && r->Ok_0.1 <= b@.len() && p <= r->Ok_0.1,
        r is Err <==> sp_props(b@, p as int) is None,
        r is Err ==> r->Err_0 is Property,
    decreases b@.len() - p, 0int,
{
    let nm = match parse_str(b, p) {
        Ok(x) => x,
        Err(e) => {
            return Err(e);
        },
    };
    let is_sentinel = nm.0.len() == 4 && *nm.0.get(0).unwrap() == 78 && *nm.0.get(1).unwrap()
        == 111 && *nm.0.get(2).unwrap() == 110 && *nm.0.get(3).unwrap() == 101;
    if is_sentinel {
        proof {
            assert(nm.0@ =~= sentinel_name());
            assert(props_view(Seq::<Property>::empty()) =~= Seq::<PropModel>::empty());
        }
        return Ok((Vec::new(), nm.1));
    }
    proof {
        if nm.0@ == sentinel_name() {
            assert(nm.0@[0] == 78 && nm.0@[1] == 111 && nm.0@[2] == 110 && nm.0@[3] == 101);
            assert(false);
        }
    }
    if b.len() - nm.1 < 5 {
        return Err(perr());
    }
    let tag = b[nm.1];
    let size = crate::archive::read_le32(b, nm.1 + 1);
    if ((b.len() - (nm.1 + 5)) as u64) < (size as u64) {
        return Err(perr());
    }
    let v = match parse_value(b, nm.1 + 5, tag, size) {
        Ok(x) => x,
        Err(e) => {
            let mut path = e.get_properties();
            path.push(nm.0);
            return Err(ParserError::Property { path });
        },
    };
    let rest = match parse_props(b, nm.1 + 5 + size as usize) {
        Ok(x) => x,
        Err(e) => {
            return Err(e);
        },
    };
    let prop = Property { name: nm.0, declared_size: size, value: v };
    let ghost pm = prop_view(prop);
    let mut out = rest.0;
    out.insert(0, prop);
    proof {
        assert(out@.subrange(1, out@.len() as int) =~= rest.0@);
        assert(props_view(out@) =~= seq![pm] + props_view(rest.0@));
    }
    Ok((out, rest.1))
}


// ===== the package root =====

/// One mip level of a texture: its dimensions and compressed bytes.
#[derive(Debug)]
pub struct Mip {
    pub width: u32,
    pub height: u32,
    pub data: Vec<u8>,
}

impl Mip {
    /// Width in pixels.
    pub fn get_width(&self) -> (r: u32)
        ensures
            r == self.width,
    {
        self.width
    }

    /// Height in pixels.
    pub fn get_height(&self) -> (r: u32)
        ensures
            r == self.height,
    {
        self.height
    }

    /// The compressed pixel bytes.
    pub fn get_bytes(&self) -> (r: &Vec<u8>)
        ensures
            r == &self.data,
    {
        &self.data
    }
}

/// A texture export: its pixel format name and finest mip level.
#[derive(Debug)]
pub struct Texture2D {
    pub pixel_format: Vec<u8>,
    pub mip: Mip,
}

impl Texture2D {
    /// The pixel format name.
    pub fn get_pixel_format(&self) -> (r: &Vec<u8>)
        ensures
            r == &self.pixel_format,
    {
        &self.pixel_format
    }

    /// The finest mip level.
    pub fn get_texture(&self) -> (r: &Mip)
        ensures
            r == &self.mip,
    {
        &self.mip
    }
}

/// The typed export of a package, dispatched by kind.
#[derive(Debug)]
pub enum Export {
    Generic,
    Texture(Texture2D),
}

impl Export {
    /// The capability query for the texture kind: a typed view when the
    /// export is a texture, a kind-mismatch condition otherwise.
    pub fn as_texture(&self) -> (r: Result<&Texture2D, ParserError>)
        ensures
            r is Ok <==> self is Texture,
            r is Ok ==> r->Ok_0 == &self->Texture_0,
            r is Err ==> r->Err_0 is TypeMismatch,
    {
        match self {
            Export::Texture(t) => Ok(t),
            _ => Err(ParserError::TypeMismatch),
        }
    }
}

/// Spec-level mirror of an export.
pub enum ExportModel {
    Generic,
    Texture { pixel_format: Seq<u8>, width: u32, height: u32, data: Seq<u8> },
}

/// Spec-level mirror of a package.
pub struct PackageModel {
    pub export_type: Seq<u8>,
    pub flags: u32,
    pub serialized_size: u32,
    pub props: Seq<PropModel>,
    pub export: ExportModel,
}

/// The deserialized root: its export type name, flags, the declared
/// serialized size of its property stream, the top-level properties in
/// encounter order, and the typed export.
#[derive(Debug)]
pub struct Package {
    pub export_type: Vec<u8>,
    pub flags: u32,
    pub serialized_size: u32,
    pub properties: Vec<Property>,
    pub export: Export,
}

/// Mathematical view of an export.
pub open spec fn export_view(e: Export) -> ExportModel {
    match e {
        Export::Generic => ExportModel::Generic,
        Export::Texture(t) => ExportModel::Texture {
            pixel_format: t.pixel_format@,
            width: t.mip.width,
            height: t.mip.height,
            data: t.mip.data@,
        },
    }
}

/// Mathematical view of a package.
pub open spec fn package_view(p: Package) -> PackageModel {
    PackageModel {
        export_type: p.export_type@,
        flags: p.flags,
        serialized_size: p.serialized_size,
        props: props_view(p.properties@),
        export: export_view(p.export),
    }
}

/// The export type name that dispatches to the texture kind.
pub open spec fn texture_type_name() -> Seq<u8> {
    seq![84u8, 101u8, 120u8, 116u8, 117u8, 114u8, 101u8, 50u8, 68u8]
}

/// The package header: export type name, flags, declared serialized size,
/// and the position after the header.
pub open spec fn sp_header(b: Seq<u8>) -> Option<(Seq<u8>, u32, u32, int)> {
    match sp_str(b, 0) {
        Option::None => None,
        Option::Some(nm) => {
            if nm.1 + 8 > b.len() {
                None
            } else {
                Some((nm.0, le32(b, nm.1), le32(b, nm.1 + 4), nm.1 + 8))
            }
        },
    }
}

/// The export tail after the property stream: a texture export carries its
/// pixel format, dimensions and mip bytes and must end the buffer; a generic
/// export ends the buffer at once.
pub open spec fn sp_tail(b: Seq<u8>, p: int, tname: Seq<u8>) -> Option<ExportModel> {
    if tname == texture_type_name() {
        match sp_str(b, p) {
            Option::None => None,
            Option::Some(pf) => {
                if pf.1 + 8 > b.len() {
                    None
                } else {
                    match sp_str(b, pf.1 + 8) {
                        Option::None => None,
                        Option::Some(d) => {
                            if d.1 == b.len() {
                                Some(
                                    ExportModel::Texture {
                                        pixel_format: pf.0,
                                        width: le32(b, pf.1),
                                        height: le32(b, pf.1 + 4),
                                        data: d.0,
                                    },
                                )
                            } else {
                                None
                            }
                        },
                    }
                }
            },
        }
    } else {
        if p == b.len() {
            Some(ExportModel::Generic)
        } else {
            None
        }
    }
}

/// The whole package: header, property stream validated against the declared
/// serialized size, and the export tail.
pub open spec fn sp_package(b: Seq<u8>) -> Option<PackageModel> {
    match sp_header(b) {
        Option::None => None,
        Option::Some(h) => {
            match sp_props(b, h.3) {
                Option::None => None,
                Option::Some(pr) => {
                    if pr.1 - h.3 != h.2 {
                        None
                    } else {
                        match sp_tail(b, pr.1, h.0) {
                            Option::None => None,
                            Option::Some(e) => Some(
                                PackageModel {
                                    export_type: h.0,
                                    flags: h.1,
                                    serialized_size: h.2,
                                    props: pr.0,
                                    export: e,
                                },
                            ),
                        }
                    }
                },
            }
        },
    }
}

/// The inputs on which deserialization fails with a property-stream error
/// rather than a structural one: the header reads, the stream does not.
pub open spec fn property_failure(b: Seq<u8>) -> bool {
    sp_header(b) is Some && sp_props(b, sp_header(b)->Some_0.3) is None
}

/// Checks a type name for the texture kind.
fn is_texture_name(n: &Vec<u8>) -> (r: bool)
    ensures
        r <==> n@ == texture_type_name(),
{
    let ok = n.len() == 9 && *n.get(0).unwrap() == 84 && *n.get(1).unwrap() == 101 && *n.get(
        2,
    ).unwrap() == 120 && *n.get(3).unwrap() == 116 && *n.get(4).unwrap() == 117 && *n.get(
        5,
    ).unwrap() == 114 && *n.get(6).unwrap() == 101 && *n.get(7).unwrap() == 50 && *n.get(
        8,
    ).unwrap() == 68;
    proof {
        if ok {
            assert(n@ =~= texture_type_name());
        } else {
            if n@ == texture_type_name() {
                assert(n@[0] == 84 && n@[1] == 101 && n@[2] == 120 && n@[3] == 116 && n@[4] == 117
                    && n@[5] == 114 && n@[6] == 101 && n@[7] == 50 && n@[8] == 68);
                assert(false);
            }
        }
    }
    ok
}

impl Package {
    /// Deserializes one export's decrypted bytes into a package: header,
    /// tagged property stream up to its sentinel, post-hoc validation of the
    /// declared serialized size, and the typed export tail. A failure inside
    /// the property stream carries the field path; every other failure is
    /// structural.
    #[verifier::rlimit(100)]
    pub fn new(data: &[u8]) -> (r: Result<Package, ParserError>)
        ensures
            r is Ok <==> sp_package(data@) is Some,
            r is Ok ==> Some(package_view(r->Ok_0)) == sp_package(data@),
            r is Err ==> (r->Err_0 is Property <==> property_failure(data@)),
            r is Err ==> (r->Err_0 is Format <==> !property_failure(data@)),
    {
        let nm = match parse_str(data, 0) {
            Ok(x) => x,
            Err(_) => {
                return Err(ParserError::Format);
            },
        };
        if data.len() - nm.1 < 8 {
            return Err(ParserError::Format);
        }
        let flags = crate::archive::read_le32(data, nm.1);
        let ssize = crate::archive::read_le32(data, nm.1 + 4);
        let hend = nm.1 + 8;
        let pr = match parse_props(data, hend) {
            Ok(x) => x,
            Err(e) => {
                return Err(e);
            },
        };
        if pr.1 - hend != ssize as usize {
            return Err(ParserError::Format);
        }
        let export: Export;
        if is_texture_name(&nm.0) {
            let pf = match parse_str(data, pr.1) {
                Ok(x) => x,
                Err(_) => {
                    return Err(ParserError::Format);
                },
            };
            if data.len() - pf.1 < 8 {
                return Err(ParserError::Format);
            }
            let width = crate::archive::read_le32(data, pf.1);
            let height = crate::archive::read_le32(data, pf.1 + 4);
            let d = match parse_str(data, pf.1 + 8) {
                Ok(x) => x,
                Err(_) => {
                    return Err(ParserError::Format);
                },
            };
            if d.1 != data.len() {
                return Err(ParserError::Format);
            }
            export = Export::Texture(
                Texture2D { pixel_format: pf.0, mip: Mip { width, height, data: d.0 } },
            );
        } else {
            if pr.1 != data.len() {
                return Err(ParserError::Format);
            }
            export = Export::Generic;
        }
        let pkg = Package {
            export_type: nm.0,
            flags,
            serialized_size: ssize,
            properties: pr.0,
            export,
        };
        Ok(pkg)
    }

    /// The package's typed export.
    pub fn get_export(&self) -> (r: &Export)
        ensures
            r == &self.export,
    {
        &self.export
    }
}

} // verus!
