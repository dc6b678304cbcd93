//! The object-file queries that the offset table is computed from.
//!
//! `object` parses the payload image; each query below hands its answer
//! back as plain values.
use vstd::prelude::*;

use object::{Object, ObjectSection, ObjectSymbol};

verus! {

/// The parsed object file that `object` builds from a byte image.
#[verifier::external_body]
pub struct ParsedObject<'a> {
    file: object::File<'a, &'a [u8]>,
}

#[verifier::external_type_specification]
#[verifier::external_body]
pub struct ExObjectError(object::Error);

/// A symbol of an object file, as plain values.
pub struct SymbolRecord {
    /// The symbol's name, or the text of the error `object` raised reading it.
    pub name: Result<String, String>,
    /// The symbol is for executable code.
    pub is_text: bool,
    pub size: u64,
    pub address: u64,
    /// The index of the section that defines the symbol, if any.
    pub section_index: Option<usize>,
}

/// The mathematical content of a `SymbolRecord`.
pub struct SymbolInfo {
    pub name: Result<Seq<char>, Seq<char>>,
    pub is_text: bool,
    pub size: u64,
    pub address: u64,
    pub section_index: Option<usize>,
}

impl View for SymbolRecord {
    type V = SymbolInfo;

    open spec fn view(&self) -> SymbolInfo {
        SymbolInfo {
            name: match self.name {
                Ok(n) => Ok(n@),
                Err(e) => Err(e@),
            },
            is_text: self.is_text,
            size: self.size,
            address: self.address,
            section_index: self.section_index,
        }
    }
}

/// What reading `size` bytes at `address` of a section gives.
pub enum SectionRange {
    /// `object` fails: the section index is not valid for the file, or the
    /// section's data cannot be read.
    Unreadable,
    /// The section does not hold the range.
    Absent,
    /// The bytes of the range.
    Bytes(Seq<u8>),
}

/// `object` accepts `data` as an object file.
pub uninterp spec fn object_parses(data: Seq<u8>) -> bool;

/// The symbols that `object` lists for the object file `data`, in its order.
pub uninterp spec fn object_symbols(data: Seq<u8>) -> Seq<SymbolInfo>;

/// The first of `syms` whose name is `name`.
pub open spec fn first_named(syms: Seq<SymbolInfo>, name: Seq<char>) -> Option<SymbolInfo>
    decreases syms.len(),
{
    if syms.len() == 0 {
        None
    } else if syms[0].name == Ok::<Seq<char>, Seq<char>>(name) {
        Some(syms[0])
    } else {
        first_named(syms.drop_first(), name)
    }
}

/// The symbol that `object` finds under `name` in the object file `data`:
/// the first listed symbol of that name.
pub open spec fn object_symbol_by_name(data: Seq<u8>, name: Seq<char>) -> Option<SymbolInfo> {
    first_named(object_symbols(data), name)
}

/// The index of the section that `object` finds under `name` in `data`.
pub uninterp spec fn object_section_by_name(data: Seq<u8>, name: Seq<char>) -> Option<usize>;

/// What `object` reads for `size` bytes at `address` in section `index` of `data`.
pub uninterp spec fn object_section_range(data: Seq<u8>, index: usize, address: u64, size: u64) -> SectionRange;

/// An object file together with the bytes it was parsed from.
pub struct ObjectFile<'a> {
    data: &'a [u8],
    parsed: ParsedObject<'a>,
}

impl<'a> View for ObjectFile<'a> {
    type V = Seq<u8>;

    closed spec fn view(&self) -> Seq<u8> {
        self.data@
    }
}

/// Trusted: `object::File::parse`. It is taken to succeed exactly when
/// `object_parses` holds of the bytes, a function of the bytes alone.
#[verifier::external_body]
fn parse_object<'a>(data: &'a [u8]) -> (res: Result<ParsedObject<'a>, object::Error>)
    ensures
        res is Ok <==> object_parses(data@),
{
    object::File::parse(data).map(|file| ParsedObject { file })
}

/// Trusted: `Display` of `object::Error`; nothing is claimed of the text.
#[verifier::external_body]
pub(crate) fn object_error_text(e: &object::Error) -> String {
    e.to_string()
}

/// Trusted: `Object::symbols`, each symbol converted to plain values by its
/// own getters (`name`, `kind`, `size`, `address`, `section().index()`).
/// The list is taken to be `object_symbols` of the file's bytes.
#[verifier::external_body]
pub(crate) fn list_symbols(file: &ObjectFile) -> (res: Vec<SymbolRecord>)
    ensures
        res@.map_values(|s: SymbolRecord| s@) == object_symbols(file@),
{
    file.parsed.file.symbols().map(|s| SymbolRecord {
        name: s.name().map(|n| n.to_string()).map_err(|e| e.to_string()),
        is_text: s.kind() == object::SymbolKind::Text,
        size: s.size(),
        address: s.address(),
        section_index: s.section().index().map(|i| i.0),
    }).collect()
}

/// Trusted: `Object::symbol_by_name`, converted as in `list_symbols`. Its
/// source searches the symbol list for the first symbol whose name bytes
/// are the name's, which is `object_symbol_by_name`.
#[verifier::external_body]
pub(crate) fn find_symbol(file: &ObjectFile, name: &str) -> (res: Option<SymbolRecord>)
    ensures
        res matches Some(s) ==> object_symbol_by_name(file@, name@) == Some(s@),
        res is None ==> object_symbol_by_name(file@, name@) is None,
{
    file.parsed.file.symbol_by_name(name).map(|s| SymbolRecord {
        name: s.name().map(|n| n.to_string()).map_err(|e| e.to_string()),
        is_text: s.kind() == object::SymbolKind::Text,
        size: s.size(),
        address: s.address(),
        section_index: s.section().index().map(|i| i.0),
    })
}

/// Trusted: `Object::section_by_name` followed by `ObjectSection::index`.
/// The answer is taken to be `object_section_by_name` of the bytes and name.
#[verifier::external_body]
pub(crate) fn find_section(file: &ObjectFile, name: &str) -> (res: Option<usize>)
    ensures
        res == object_section_by_name(file@, name@),
{
    file.parsed.file.section_by_name(name).map(|s| s.index().0)
}

/// Trusted: `Object::section_by_index` followed by `ObjectSection::data_range`.
/// The answer is taken to be `object_section_range` of the bytes and the
/// arguments; the source returns exactly `size` bytes when it returns any.
#[verifier::external_body]
pub(crate) fn read_section_range<'a>(file: &ObjectFile<'a>, index: usize, address: u64, size: u64)
    -> (res: Result<Option<&'a [u8]>, object::Error>)
    ensures
        res is Err <==> object_section_range(file@, index, address, size) is Unreadable,
        res matches Ok(None) <==> object_section_range(file@, index, address, size) is Absent,
        res matches Ok(Some(d)) ==> object_section_range(file@, index, address, size) == SectionRange::Bytes(d@),
        res matches Ok(Some(d)) ==> d@.len() == size,
{
    let section = file.parsed.file.section_by_index(object::SectionIndex(index))?;
    section.data_range(address, size)
}

impl<'a> ObjectFile<'a> {
    /// Parses `data` as an object file.
    pub fn parse(data: &'a [u8]) -> (res: Result<ObjectFile<'a>, object::Error>)
        ensures
            res is Ok <==> object_parses(data@),
            res matches Ok(f) ==> f@ == data@,
    {
        match parse_object(data) {
            Ok(parsed) => Ok(ObjectFile { data, parsed }),
            Err(e) => Err(e),
        }
    }
}

} // verus!
