//! Package records, and their decoding from what the native backend hands out.

use crate::ident::{lemma_parts_without, splits_into};
use crate::text::{
    decode_text, decoded_text, lemma_text_bytes_no_zero, lemma_text_bytes_terminated, raw_view,
    text_bytes,
};
use vstd::prelude::*;
use vstd::std_specs::cmp::PartialEqSpec;
use vstd::utf8::{decode_utf8, valid_utf8};

verus! {

/// The place of the name among the parts of a split identifier.
pub const PART_NAME: usize = 0;

/// The place of the version among the parts of a split identifier.
pub const PART_VERSION: usize = 1;

/// The place of the architecture among the parts of a split identifier.
pub const PART_ARCH: usize = 2;

/// The place of the origin tag among the parts of a split identifier.
pub const PART_DATA: usize = 3;

/// The number of parts of a split identifier.
pub const PART_COUNT: usize = 4;

/// One package as the backend knows it.
#[derive(Debug)]
pub struct Package {
    id: String,
    name: String,
    summary: String,
    version: String,
    data: String,
    arch: String,
}

/// What a `Package` holds, as mathematical text.
pub struct PackageView {
    pub id: Seq<char>,
    pub name: Seq<char>,
    pub version: Seq<char>,
    pub summary: Seq<char>,
    pub arch: Seq<char>,
    pub data: Seq<char>,
}

impl View for Package {
    type V = PackageView;

    closed spec fn view(&self) -> PackageView {
        PackageView {
            id: self.id@,
            name: self.name@,
            version: self.version@,
            summary: self.summary@,
            arch: self.arch@,
            data: self.data@,
        }
    }
}

/// A package record as read from the native side: each text is a native
/// buffer, or `None` for a null pointer. `parts` is what the backend's
/// identifier splitter returned for the identifier, in its order; it is
/// empty where the splitter returned nothing.
#[derive(Debug)]
pub struct RawPackage {
    pub id: Option<Vec<u8>>,
    pub summary: Option<Vec<u8>>,
    pub parts: Vec<Option<Vec<u8>>>,
}

/// What a `RawPackage` holds.
pub struct RawPackageView {
    pub id: Option<Seq<u8>>,
    pub summary: Option<Seq<u8>>,
    pub parts: Seq<Option<Seq<u8>>>,
}

impl View for RawPackage {
    type V = RawPackageView;

    open spec fn view(&self) -> RawPackageView {
        RawPackageView {
            id: raw_view(self.id),
            summary: raw_view(self.summary),
            parts: Seq::new(self.parts@.len(), |i: int| raw_view(self.parts@[i])),
        }
    }
}

/// The text of part `i` of a split identifier. Where the splitter did not
/// return exactly four parts, every part is empty.
pub open spec fn decoded_part(parts: Seq<Option<Seq<u8>>>, i: int) -> Seq<char> {
    if parts.len() == PART_COUNT && 0 <= i < parts.len() {
        decoded_text(parts[i])
    } else {
        Seq::empty()
    }
}

/// The package that a native record decodes to.
pub open spec fn decoded_package(raw: RawPackageView) -> PackageView {
    PackageView {
        id: decoded_text(raw.id),
        name: decoded_part(raw.parts, PART_NAME as int),
        version: decoded_part(raw.parts, PART_VERSION as int),
        summary: decoded_text(raw.summary),
        arch: decoded_part(raw.parts, PART_ARCH as int),
        data: decoded_part(raw.parts, PART_DATA as int),
    }
}

/// The native buffers that carry the given parts: each part with a
/// terminator behind it.
pub open spec fn native_parts(parts: Seq<Seq<u8>>) -> Seq<Option<Seq<u8>>> {
    Seq::new(parts.len(), |i: int| Some(parts[i].push(0u8)))
}

/// The packages that a sequence of native records decodes to, in its order.
pub open spec fn decoded_packages(raws: Seq<RawPackage>) -> Seq<PackageView> {
    Seq::new(raws.len(), |i: int| decoded_package(raws[i]@))
}

/// The views of a sequence of packages.
pub open spec fn package_views(pkgs: Seq<Package>) -> Seq<PackageView> {
    Seq::new(pkgs.len(), |i: int| pkgs[i]@)
}

/// Decodes part `i` of a split identifier.
fn decode_part(parts: &Vec<Option<Vec<u8>>>, i: usize) -> (r: String)
    ensures
        r@ == decoded_part(Seq::new(parts@.len(), |k: int| raw_view(parts@[k])), i as int),
{
    if parts.len() == PART_COUNT && i < parts.len() {
        decode_text(&parts[i])
    } else {
        String::new()
    }
}

impl Package {
    /// A package made of the given texts, each kept as it is.
    pub fn new(
        id: String,
        name: String,
        version: String,
        summary: String,
        arch: String,
        data: String,
    ) -> (r: Self)
        ensures
            r@ == (PackageView {
                id: id@,
                name: name@,
                version: version@,
                summary: summary@,
                arch: arch@,
                data: data@,
            }),
    {
        Package { id, name, summary, version, data, arch }
    }

    /// Decodes a native record. Decoding never fails: a null or ill-formed
    /// buffer becomes an empty field.
    pub fn from_raw(raw: &RawPackage) -> (r: Self)
        ensures
            r@ == decoded_package(raw@),
    {
        let id = decode_text(&raw.id);
        let summary = decode_text(&raw.summary);
        let name = decode_part(&raw.parts, PART_NAME);
        let version = decode_part(&raw.parts, PART_VERSION);
        let data = decode_part(&raw.parts, PART_DATA);
        let arch = decode_part(&raw.parts, PART_ARCH);
        Self::new(id, name, version, summary, arch, data)
    }

    /// The backend's identifier of the package.
    pub fn id(&self) -> (r: &str)
        ensures
            r@ == self@.id,
    {
        self.id.as_str()
    }

    /// The package's name.
    pub fn name(&self) -> (r: &str)
        ensures
            r@ == self@.name,
    {
        self.name.as_str()
    }

    /// The human-readable description.
    pub fn summary(&self) -> (r: &str)
        ensures
            r@ == self@.summary,
    {
        self.summary.as_str()
    }

    /// The package's version.
    pub fn version(&self) -> (r: &str)
        ensures
            r@ == self@.version,
    {
        self.version.as_str()
    }

    /// The origin or repository tag.
    pub fn data(&self) -> (r: &str)
        ensures
            r@ == self@.data,
    {
        self.data.as_str()
    }

    /// The architecture that the package is built for.
    pub fn arch(&self) -> (r: &str)
        ensures
            r@ == self@.arch,
    {
        self.arch.as_str()
    }
}

impl Clone for Package {
    fn clone(&self) -> (r: Self)
        ensures
            r@ == self@,
    {
        Package {
            id: self.id.clone(),
            name: self.name.clone(),
            summary: self.summary.clone(),
            version: self.version.clone(),
            data: self.data.clone(),
            arch: self.arch.clone(),
        }
    }
}

impl PartialEq for Package {
    fn eq(&self, other: &Self) -> (r: bool) {
        self.id == other.id && self.name == other.name && self.summary == other.summary
            && self.version == other.version && self.data == other.data && self.arch
            == other.arch
    }
}

impl Eq for Package {

}

impl vstd::std_specs::cmp::PartialEqSpecImpl for Package {
    open spec fn obeys_eq_spec() -> bool {
        true
    }

    open spec fn eq_spec(&self, other: &Self) -> bool {
        self@ == other@
    }
}

/// Two packages are equal exactly when their six fields are equal, each to
/// the one of the same name.
pub proof fn lemma_eq_fields(a: Package, b: Package)
    ensures
        a.eq_spec(&b) <==> {
            &&& a@.id == b@.id
            &&& a@.name == b@.name
            &&& a@.version == b@.version
            &&& a@.arch == b@.arch
            &&& a@.data == b@.data
            &&& a@.summary == b@.summary
        },
{
}

/// A record whose parts are those of its identifier decodes to a package
/// with exactly these parts, each in its field: the first is the name, then
/// come the version, the architecture and the origin tag.
pub proof fn lemma_decoded_parts(raw: RawPackageView, parts: Seq<Seq<u8>>)
    requires
        raw.id is Some,
        splits_into(text_bytes(raw.id->Some_0), parts),
        forall|i: int| 0 <= i < 4 ==> valid_utf8(#[trigger] parts[i]),
        raw.parts == native_parts(parts),
    ensures
        decoded_package(raw).name == decode_utf8(parts[0]),
        decoded_package(raw).version == decode_utf8(parts[1]),
        decoded_package(raw).arch == decode_utf8(parts[2]),
        decoded_package(raw).data == decode_utf8(parts[3]),
{
    lemma_text_bytes_no_zero(raw.id->Some_0);
    lemma_parts_without(text_bytes(raw.id->Some_0), parts, 0u8);
    assert forall|i: int| 0 <= i < 4 implies text_bytes(#[trigger] parts[i].push(0u8))
        == parts[i] by {
        lemma_text_bytes_terminated(parts[i]);
    }
    assert(raw.parts[0] == Some(parts[0].push(0u8)));
    assert(raw.parts[1] == Some(parts[1].push(0u8)));
    assert(raw.parts[2] == Some(parts[2].push(0u8)));
    assert(raw.parts[3] == Some(parts[3].push(0u8)));
}

/// Decodes an array of native records, one package for each, in order.
pub fn decode_array(raws: &Vec<RawPackage>) -> (r: Vec<Package>)
    ensures
        r@.len() == raws@.len(),
        package_views(r@) == decoded_packages(raws@),
{
    let mut out: Vec<Package> = Vec::new();
    let mut i: usize = 0;
    while i < raws.len()
        invariant
            i <= raws.len(),
            out@.len() == i,
            forall|k: int| 0 <= k < i ==> (#[trigger] out@[k])@ == decoded_package(raws@[k]@),
        decreases raws.len() - i,
    {
        out.push(Package::from_raw(&raws[i]));
        i += 1;
    }
    assert(package_views(out@) =~= decoded_packages(raws@));
    out
}

} // verus!
