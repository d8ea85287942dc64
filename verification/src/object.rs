//! The PDF object graph: a typed model of the objects the assembler builds.
//!
//! Objects live in an append-only arena ([`Document`]); an object is
//! identified by the 1-based integer id assigned when it is added and is
//! referenced by [`PdfObject::Reference`]. Dictionary keys and name values
//! are drawn from closed enumerations, since the assembler only ever emits a
//! fixed vocabulary; the writer maps them to the literal PDF names.

use vstd::prelude::*;

verus! {

/// The PDF name values the assembler emits.
#[derive(Clone, Copy, Debug, PartialEq, Eq, Structural)]
pub enum PdfName {
    XObject,
    Image,
    DeviceGray,
    DeviceRGB,
    DeviceCMYK,
    DCTDecode,
    FlateDecode,
    ICCBased,
    Indexed,
    Page,
    Pages,
    Catalog,
}

/// The dictionary keys the assembler emits. `ImageResource` is the name
/// under which each page's single image XObject is registered ("Im0");
/// `IccComponents` is the "N" entry of an ICC profile stream.
#[derive(Clone, Copy, Debug, PartialEq, Eq, Structural)]
pub enum PdfKey {
    Type,
    Subtype,
    Width,
    Height,
    ColorSpace,
    BitsPerComponent,
    Filter,
    Length,
    Decode,
    DecodeParms,
    SMask,
    Predictor,
    Colors,
    Columns,
    Kids,
    Count,
    Parent,
    MediaBox,
    Contents,
    Resources,
    XObject,
    ImageResource,
    Pages,
    Root,
    Info,
    Producer,
    CreationDate,
    Title,
    Author,
    IccComponents,
}

/// One operation of a page content stream.
#[derive(Clone, Copy, Debug, PartialEq, Eq, Structural)]
pub enum ContentOp {
    /// `q`: save the graphics state.
    SaveState,
    /// `cm` with the matrix `[w 0 0 h x y]`, in units of 1/400 point:
    /// places the unit image square at the given size and offset.
    Transform { w: u64, h: u64, x: u64, y: u64 },
    /// `Do` on the page's image resource.
    PaintImage,
    /// `Q`: restore the graphics state.
    RestoreState,
}

/// A PDF object.
pub enum PdfObject {
    Null,
    Integer(i64),
    /// A real number in units of 1/400 point: denotes `value / 400` points.
    Fixed(i64),
    Name(PdfName),
    LiteralString(Vec<u8>),
    HexString(Vec<u8>),
    Array(Vec<PdfObject>),
    Dict(Dict),
    /// A stream: its dictionary and its (already encoded) data bytes.
    Stream(Dict, Vec<u8>),
    /// A page content stream, kept as operations for the writer to encode.
    Content(Vec<ContentOp>),
    /// An indirect reference to the object with the given id.
    Reference(u32),
}

/// A dictionary: an ordered list of key-value pairs; a later entry for the
/// same key overrides an earlier one.
pub struct Dict {
    pub entries: Vec<(PdfKey, PdfObject)>,
}

/// The value the last entry with the given key holds, if any.
pub open spec fn spec_dict_get(entries: Seq<(PdfKey, PdfObject)>, key: PdfKey) -> Option<
    PdfObject,
>
    decreases entries.len(),
{
    if entries.len() == 0 {
        None
    } else if entries.last().0 == key {
        Some(entries.last().1)
    } else {
        spec_dict_get(entries.drop_last(), key)
    }
}

impl Dict {
    pub open spec fn spec_get(&self, key: PdfKey) -> Option<PdfObject> {
        spec_dict_get(self.entries@, key)
    }

    pub fn new() -> (d: Dict)
        ensures
            d.entries@.len() == 0,
    {
        Dict { entries: Vec::new() }
    }

    /// Appends an entry, overriding any earlier entry for the same key.
    pub fn set(&mut self, key: PdfKey, value: PdfObject)
        ensures
            final(self).entries@ == old(self).entries@.push((key, value)),
            final(self).spec_get(key) == Some(value),
            forall|k: PdfKey|
                k != key ==> #[trigger] final(self).spec_get(k) == old(self).spec_get(k),
    {
        let ghost prev = self.entries@;
        self.entries.push((key, value));
        proof {
            assert(self.entries@.last() == (key, value));
            assert(self.entries@.drop_last() =~= prev);
        }
    }

    pub fn get(&self, key: PdfKey) -> (r: Option<&PdfObject>)
        ensures
            match r {
                Some(o) => self.spec_get(key) == Some(*o),
                None => self.spec_get(key) is None,
            },
    {
        let mut i: usize = self.entries.len();
        proof {
            assert(self.entries@.take(i as int) =~= self.entries@);
        }
        while i > 0
            invariant
                i <= self.entries@.len(),
                spec_dict_get(self.entries@, key) == spec_dict_get(
                    self.entries@.take(i as int),
                    key,
                ),
            decreases i,
        {
            let pair = &self.entries[i - 1];
            proof {
                assert(self.entries@.take(i as int).last() == self.entries@[i - 1]);
                assert(self.entries@.take(i as int).drop_last() =~= self.entries@.take(
                    i as int - 1,
                ));
            }
            if pair.0 == key {
                return Some(&pair.1);
            }
            i = i - 1;
        }
        None
    }
}

/// The append-only object arena together with the trailer dictionary.
/// The object with id `i` (1-based) is `objects[i - 1]`.
pub struct Document {
    pub objects: Vec<PdfObject>,
    pub trailer: Dict,
}

impl Document {
    /// The object a 1-based id refers to.
    pub open spec fn spec_object(&self, id: int) -> PdfObject {
        self.objects@[id - 1]
    }

    pub fn new() -> (d: Document)
        ensures
            d.objects@.len() == 0,
            d.trailer.entries@.len() == 0,
    {
        Document { objects: Vec::new(), trailer: Dict::new() }
    }

    /// Adds an object and returns its freshly assigned id. Ids are assigned
    /// consecutively from 1 and never reused.
    pub fn add_object(&mut self, obj: PdfObject) -> (id: u32)
        requires
            old(self).objects@.len() < 0xFFFF_FFFF,
        ensures
            final(self).objects@ == old(self).objects@.push(obj),
            id == old(self).objects@.len() + 1,
            final(self).trailer == old(self).trailer,
    {
        self.objects.push(obj);
        self.objects.len() as u32
    }

    /// Reserves an id whose object will be set later; the slot holds `Null`
    /// until then.
    pub fn reserve_id(&mut self) -> (id: u32)
        requires
            old(self).objects@.len() < 0xFFFF_FFFF,
        ensures
            final(self).objects@ == old(self).objects@.push(PdfObject::Null),
            id == old(self).objects@.len() + 1,
            final(self).trailer == old(self).trailer,
    {
        self.add_object(PdfObject::Null)
    }

    /// Fills a reserved slot.
    pub fn set_object(&mut self, id: u32, obj: PdfObject)
        requires
            1 <= id <= old(self).objects@.len(),
        ensures
            final(self).objects@ == old(self).objects@.update(id - 1, obj),
            final(self).trailer == old(self).trailer,
    {
        let i: usize = (id - 1) as usize;
        self.objects.set(i, obj);
    }

    pub fn num_objects(&self) -> (n: usize)
        ensures
            n == self.objects@.len(),
    {
        self.objects.len()
    }

    pub fn get_object(&self, id: u32) -> (r: Option<&PdfObject>)
        ensures
            match r {
                Some(o) => 1 <= id <= self.objects@.len() && *o == self.spec_object(id as int),
                None => id < 1 || id > self.objects@.len(),
            },
    {
        if id >= 1 && (id as usize) <= self.objects.len() {
            Some(&self.objects[(id - 1) as usize])
        } else {
            None
        }
    }
}

} // verus!
