//! Locating the post-commit instruction of every commit action.
//!
//! Each commit action in the payload ends with a call to the end handler.
//! The bytes that precede the `0xABCDEFFF` marker in
//! `rseq_end_handler_call_marker` are the magic that opens that call; the
//! post-commit offset of a commit action is the single position of that
//! magic inside the action's code.
use vstd::prelude::*;

use crate::elf::{
    find_symbol, object_error_text, object_section_by_name, object_section_range,
    object_symbol_by_name, object_symbols, read_section_range, ObjectFile, SectionRange,
    SymbolInfo, SymbolRecord, find_section, list_symbols,
};
use crate::magic::{
    find_magic_offset_exactly_once, magic_error_text, occurs_at, occurs_only_at, occurs_somewhere,
    occurs_twice, MAGIC_FOUND_MULTIPLE, MAGIC_NOT_FOUND,
};

verus! {

/// The symbol whose code holds the end-of-section magic.
pub const POST_COMMIT_OFFSET_MARKER_SYMBOL_NAME: &'static str = "rseq_end_handler_call_marker";

/// The value that ends the end-of-section magic in the marker symbol.
pub const POST_COMMIT_OFFSET_MARKER_ENDS_WITH: u32 = 0xABCDEFFFu32;

/// The section that holds the commit actions.
pub const RSEQ_COMMIT_SECTION_NAME: &'static str = ".text.rseq_commit";

/// The start of the error text of a lookup of a symbol.
pub const SYMBOL_OPEN: &'static str = "Symbol '";

/// The end of the error text of a lookup of a symbol that the file does not have.
pub const SYMBOL_NOT_FOUND_CLOSE: &'static str = "' not found";

/// The end of the error text of a lookup of a symbol that no section defines.
pub const SYMBOL_NO_SECTION_CLOSE: &'static str = "' has no associated section";

/// The start of the error text of a symbol whose bytes the file does not hold.
pub const DATA_OPEN: &'static str = "Data for symbol '";

/// The end of the error text of a symbol whose bytes the file does not hold.
pub const DATA_ABSENT_CLOSE: &'static str = "' is not present in the file";

/// The start of the error text of a lookup of a section.
pub const SECTION_OPEN: &'static str = "Section '";

/// The end of the error text of a lookup of a section that the file does not have.
pub const SECTION_NOT_FOUND_CLOSE: &'static str = "' not found";

/// Why a lookup in the object file failed.
pub enum LookupFailure {
    SymbolNotFound(Seq<char>),
    NoSection(Seq<char>),
    /// `object` could not read the section of a symbol.
    Unreadable,
    DataAbsent(Seq<char>),
    /// `object` could not read a symbol's name; the text of its error.
    BadName(Seq<char>),
    MagicNotFound,
    MagicMultiple,
    SectionNotFound(Seq<char>),
}

/// The error text that reports `f`; for an error of `object` the text is
/// `object`'s own, of which nothing is claimed.
pub open spec fn failure_text(f: LookupFailure) -> Option<Seq<char>> {
    match f {
        LookupFailure::SymbolNotFound(n) => Some(SYMBOL_OPEN@ + n + SYMBOL_NOT_FOUND_CLOSE@),
        LookupFailure::NoSection(n) => Some(SYMBOL_OPEN@ + n + SYMBOL_NO_SECTION_CLOSE@),
        LookupFailure::Unreadable => None,
        LookupFailure::DataAbsent(n) => Some(DATA_OPEN@ + n + DATA_ABSENT_CLOSE@),
        LookupFailure::BadName(t) => Some(t),
        LookupFailure::MagicNotFound => Some(MAGIC_NOT_FOUND@),
        LookupFailure::MagicMultiple => Some(MAGIC_FOUND_MULTIPLE@),
        LookupFailure::SectionNotFound(n) => Some(SECTION_OPEN@ + n + SECTION_NOT_FOUND_CLOSE@),
    }
}

/// `e` is the error that reports `f`.
pub open spec fn error_is(e: String, f: LookupFailure) -> bool {
    match failure_text(f) {
        Some(t) => e@ == t,
        None => true,
    }
}

/// The code bytes of the symbol `name` of the object file `data`.
pub open spec fn symbol_bytes(data: Seq<u8>, name: Seq<char>) -> Result<Seq<u8>, LookupFailure> {
    match object_symbol_by_name(data, name) {
        None => Err(LookupFailure::SymbolNotFound(name)),
        Some(sym) => match sym.section_index {
            None => Err(LookupFailure::NoSection(name)),
            Some(index) => match object_section_range(data, index, sym.address, sym.size) {
                SectionRange::Unreadable => Err(LookupFailure::Unreadable),
                SectionRange::Absent => Err(LookupFailure::DataAbsent(name)),
                SectionRange::Bytes(b) => Ok(b),
            },
        },
    }
}

/// The single position of `magic` in `data`.
pub open spec fn magic_position(data: Seq<u8>, magic: Seq<u8>) -> Result<int, LookupFailure> {
    if !occurs_somewhere(data, magic) {
        Err(LookupFailure::MagicNotFound)
    } else if occurs_twice(data, magic) {
        Err(LookupFailure::MagicMultiple)
    } else {
        Ok(choose|i: int| occurs_at(data, magic, i))
    }
}

/// The post-commit offset that the symbol `sym` contributes, if any.
pub open spec fn symbol_offset(data: Seq<u8>, sym: SymbolInfo, magic: Seq<u8>) -> Result<Option<(Seq<char>, int)>, LookupFailure> {
    if !sym.is_text || sym.size == 0 {
        Ok(None)
    } else {
        match sym.name {
            Err(t) => Err(LookupFailure::BadName(t)),
            Ok(n) => match symbol_bytes(data, n) {
                Err(f) => Err(f),
                Ok(b) => match magic_position(b, magic) {
                    Err(f) => Err(f),
                    Ok(i) => Ok(Some((n, i))),
                },
            },
        }
    }
}

/// The offset of `sym` is looked for: it is code with bytes, its name reads
/// and its bytes are found, so the next step searches them for the magic.
pub open spec fn search_reached(data: Seq<u8>, sym: SymbolInfo) -> bool {
    match sym.name {
        Ok(n) => sym.is_text && sym.size != 0 && symbol_bytes(data, n) is Ok,
        Err(t) => false,
    }
}

/// The offsets of the symbols `syms` that lie in section `index`, in order;
/// the first failure stops the scan.
pub open spec fn symbol_offsets(data: Seq<u8>, index: usize, syms: Seq<SymbolInfo>, magic: Seq<u8>) -> Result<Seq<(Seq<char>, int)>, LookupFailure>
    decreases syms.len(),
{
    if syms.len() == 0 {
        Ok(Seq::empty())
    } else {
        match symbol_offsets(data, index, syms.drop_last(), magic) {
            Err(f) => Err(f),
            Ok(acc) => if syms.last().section_index != Some(index) {
                Ok(acc)
            } else {
                match symbol_offset(data, syms.last(), magic) {
                    Err(f) => Err(f),
                    Ok(None) => Ok(acc),
                    Ok(Some(p)) => Ok(acc.push(p)),
                }
            },
        }
    }
}

/// The scan of `syms` for section `index` gets to a search before it fails
/// or ends. A search for an empty magic cannot be made, so this is what an
/// empty magic rules out.
pub open spec fn scan_reaches_search(data: Seq<u8>, index: usize, syms: Seq<SymbolInfo>) -> bool
    decreases syms.len(),
{
    if syms.len() == 0 {
        false
    } else {
        scan_reaches_search(data, index, syms.drop_last())
            || (symbol_offsets(data, index, syms.drop_last(), Seq::empty()) is Ok
                && syms.last().section_index == Some(index)
                && search_reached(data, syms.last()))
    }
}

/// The mathematical content of a list of (name, offset) pairs.
pub open spec fn pairs_view(v: Seq<(String, usize)>) -> Seq<(Seq<char>, int)> {
    v.map_values(|p: (String, usize)| (p.0@, p.1 as int))
}

/// `v` is the list `expect` describes, or the error it describes.
pub open spec fn offsets_result_is(res: Result<Vec<(String, usize)>, String>, expect: Result<Seq<(Seq<char>, int)>, LookupFailure>) -> bool {
    match expect {
        Ok(s) => res matches Ok(v) && pairs_view(v@) == s,
        Err(f) => res matches Err(e) && error_is(e, f),
    }
}

/// The little-endian bytes of `x`.
pub open spec fn u32_le_bytes(x: u32) -> Seq<u8> {
    seq![(x % 256) as u8, ((x / 256) % 256) as u8, ((x / 65536) % 256) as u8, ((x / 16777216) % 256) as u8]
}

/// The big-endian bytes of `x`.
pub open spec fn u32_be_bytes(x: u32) -> Seq<u8> {
    seq![((x / 16777216) % 256) as u8, ((x / 65536) % 256) as u8, ((x / 256) % 256) as u8, (x % 256) as u8]
}

/// Trusted: `u32::to_ne_bytes`. Its documentation gives the bytes in the
/// machine's own order, so the result is one of the two orders; which one
/// depends on the machine and is not claimed.
#[verifier::external_body]
fn u32_to_ne_bytes(x: u32) -> (res: [u8; 4])
    ensures
        res@ == u32_le_bytes(x) || res@ == u32_be_bytes(x),
{
    x.to_ne_bytes()
}

/// The text `open`, then `name`, then `close`.
fn quoted_message(open: &str, name: &str, close: &str) -> (res: String)
    ensures
        res@ == open@ + name@ + close@,
{
    let mut text = String::new();
    text.append(open);
    text.append(name);
    text.append(close);
    assert(text@ =~= open@ + name@ + close@);
    text
}

/// Looks up the code bytes of the symbol `symbol_name`: exactly the
/// symbol's `size` bytes at its address in its section.
pub fn get_symbol_bytes<'a>(file: &ObjectFile<'a>, symbol_name: &str) -> (res: Result<&'a [u8], String>)
    ensures
        match symbol_bytes(file@, symbol_name@) {
            Ok(b) => res matches Ok(d) && d@ == b,
            Err(f) => res matches Err(e) && error_is(e, f),
        },
        res matches Ok(d) ==> (object_symbol_by_name(file@, symbol_name@) matches Some(sym) && d@.len() == sym.size),
{
    let symbol = match find_symbol(file, symbol_name) {
        Some(s) => s,
        None => {
            return Err(quoted_message(SYMBOL_OPEN, symbol_name, SYMBOL_NOT_FOUND_CLOSE));
        },
    };
    let section_index = match symbol.section_index {
        Some(i) => i,
        None => {
            return Err(quoted_message(SYMBOL_OPEN, symbol_name, SYMBOL_NO_SECTION_CLOSE));
        },
    };
    match read_section_range(file, section_index, symbol.address, symbol.size) {
        Err(e) => Err(object_error_text(&e)),
        Ok(None) => Err(quoted_message(DATA_OPEN, symbol_name, DATA_ABSENT_CLOSE)),
        Ok(Some(d)) => Ok(d),
    }
}

/// What the search for `magic` in `data` reports, as `magic_position` says.
proof fn lemma_search_result(data: Seq<u8>, magic: Seq<u8>, res: Result<usize, String>)
    requires
        res matches Ok(i) ==> occurs_only_at(data, magic, i as int),
        res is Err <==> (!occurs_somewhere(data, magic) || occurs_twice(data, magic)),
        res matches Err(e) ==> e@ == magic_error_text(data, magic),
    ensures
        match magic_position(data, magic) {
            Ok(i) => res matches Ok(j) && j == i,
            Err(f) => res matches Err(e) && error_is(e, f),
        },
{
    if let Ok(i) = res {
        assert(occurs_at(data, magic, i as int));
        let c = choose|k: int| occurs_at(data, magic, k);
        assert(occurs_at(data, magic, c));
    }
}

/// The bytes of `sym_data` that precede the single occurrence of `magic`.
pub fn marker_prefix(sym_data: &[u8], magic: &[u8]) -> (res: Result<Vec<u8>, String>)
    requires
        magic@.len() > 0,
    ensures
        match magic_position(sym_data@, magic@) {
            Ok(i) => res matches Ok(v) && v@ == sym_data@.take(i),
            Err(f) => res matches Err(e) && error_is(e, f),
        },
{
    let found = find_magic_offset_exactly_once(sym_data, magic);
    proof { lemma_search_result(sym_data@, magic@, found); }
    match found {
        Ok(pos) => {
            let mut res: Vec<u8> = Vec::new();
            let mut i: usize = 0;
            while i < pos
                invariant
                    pos + magic@.len() <= sym_data@.len(),
                    i <= pos,
                    res@ == sym_data@.take(i as int),
                decreases pos - i,
            {
                res.push(sym_data[i]);
                i = i + 1;
                assert(res@ =~= sym_data@.take(i as int));
            }
            Ok(res)
        },
        Err(e) => Err(e),
    }
}

/// `res` is what `marker_prefix` gives for the marker bytes `b` and `magic`.
pub open spec fn marker_result_is(res: Result<Vec<u8>, String>, b: Seq<u8>, magic: Seq<u8>) -> bool {
    match magic_position(b, magic) {
        Ok(i) => res matches Ok(v) && v@ == b.take(i),
        Err(f) => res matches Err(e) && error_is(e, f),
    }
}

/// The end-of-section magic: the bytes of the marker symbol that precede
/// `POST_COMMIT_OFFSET_MARKER_ENDS_WITH` in the machine's byte order.
pub fn get_post_commit_offset_marker_value(obj_file: &ObjectFile) -> (res: Result<Vec<u8>, String>)
    ensures
        match symbol_bytes(obj_file@, POST_COMMIT_OFFSET_MARKER_SYMBOL_NAME@) {
            Err(f) => res matches Err(e) && error_is(e, f),
            Ok(b) => marker_result_is(res, b, u32_le_bytes(POST_COMMIT_OFFSET_MARKER_ENDS_WITH))
                || marker_result_is(res, b, u32_be_bytes(POST_COMMIT_OFFSET_MARKER_ENDS_WITH)),
        },
{
    let sym_data = match get_symbol_bytes(obj_file, POST_COMMIT_OFFSET_MARKER_SYMBOL_NAME) {
        Ok(d) => d,
        Err(e) => {
            return Err(e);
        },
    };
    let magic_bytes = u32_to_ne_bytes(POST_COMMIT_OFFSET_MARKER_ENDS_WITH);
    let magic: &[u8] = magic_bytes.as_slice();
    marker_prefix(sym_data, magic)
}

/// The post-commit offset of one symbol: `None` for a symbol that is not
/// code or has no bytes; otherwise its name and the single position of
/// `magic` in the code of the symbol found under that name.
pub fn process_symbol(file: &ObjectFile, symbol: &SymbolRecord, magic: &[u8]) -> (res: Result<Option<(String, usize)>, String>)
    requires
        magic@.len() > 0 || !search_reached(file@, symbol@),
    ensures
        match symbol_offset(file@, symbol@, magic@) {
            Ok(None) => res matches Ok(None),
            Ok(Some(p)) => res matches Ok(Some(q)) && q.0@ == p.0 && q.1 == p.1,
            Err(f) => res matches Err(e) && error_is(e, f),
        },
{
    if !symbol.is_text || symbol.size == 0 {
        return Ok(None);
    }
    let name: &str = match &symbol.name {
        Ok(n) => n.as_str(),
        Err(t) => {
            return Err(t.clone());
        },
    };
    let symbol_data = match get_symbol_bytes(file, name) {
        Ok(d) => d,
        Err(e) => {
            return Err(e);
        },
    };
    let found = find_magic_offset_exactly_once(symbol_data, magic);
    proof { lemma_search_result(symbol_data@, magic@, found); }
    match found {
        Ok(offset) => Ok(Some((name.to_owned(), offset))),
        Err(e) => Err(e),
    }
}

/// The scan makes no search for an empty magic, or the magic is not empty.
pub open spec fn magic_searchable(data: Seq<u8>, section_name: Seq<char>, magic: Seq<u8>) -> bool {
    magic.len() > 0 || match object_section_by_name(data, section_name) {
        None => true,
        Some(index) => !scan_reaches_search(data, index, object_symbols(data)),
    }
}

/// The post-commit offsets of the code symbols in section `section_name`,
/// in the order the file lists them.
pub fn get_symbol_offsets(file: &ObjectFile, section_name: &str, magic: &[u8]) -> (res: Result<Vec<(String, usize)>, String>)
    requires
        magic_searchable(file@, section_name@, magic@),
    ensures
        match object_section_by_name(file@, section_name@) {
            None => res matches Err(e) && error_is(e, LookupFailure::SectionNotFound(section_name@)),
            Some(index) => offsets_result_is(res, symbol_offsets(file@, index, object_symbols(file@), magic@)),
        },
{
    let section_index = match find_section(file, section_name) {
        Some(i) => i,
        None => {
            return Err(quoted_message(SECTION_OPEN, section_name, SECTION_NOT_FOUND_CLOSE));
        },
    };
    let symbols = list_symbols(file);
    let ghost syms = object_symbols(file@);
    let mut results: Vec<(String, usize)> = Vec::new();
    let mut i: usize = 0;
    assert(syms.take(0) =~= Seq::<SymbolInfo>::empty());
    assert(pairs_view(results@) =~= Seq::<(Seq<char>, int)>::empty());
    proof {
        if magic@.len() == 0 {
            assert(magic@ =~= Seq::<u8>::empty());
        }
    }
    while i < symbols.len()
        invariant
            magic@.len() > 0 || (magic@ == Seq::<u8>::empty() && !scan_reaches_search(file@, section_index, syms)),
            symbols@.map_values(|s: SymbolRecord| s@) == syms,
            syms == object_symbols(file@),
            object_section_by_name(file@, section_name@) == Some(section_index),
            i <= symbols@.len(),
            symbol_offsets(file@, section_index, syms.take(i as int), magic@) == Ok::<Seq<(Seq<char>, int)>, LookupFailure>(pairs_view(results@)),
        decreases symbols@.len() - i,
    {
        let symbol = &symbols[i];
        assert(syms.take(i + 1).drop_last() =~= syms.take(i as int));
        assert(syms.take(i + 1).last() == symbol@);
        if symbol.section_index == Some(section_index) {
            proof {
                if magic@.len() == 0 {
                    lemma_reach_prefix(file@, section_index, syms, i as int + 1);
                }
            }
            match process_symbol(file, symbol, magic) {
                Ok(Some(p)) => {
                    let ghost before = results@;
                    results.push(p);
                    assert(pairs_view(results@) =~= pairs_view(before).push((p.0@, p.1 as int)));
                },
                Ok(None) => {},
                Err(e) => {
                    proof {
                        let f = choose|f: LookupFailure| symbol_offset(file@, symbol@, magic@) == Err::<Option<(Seq<char>, int)>, LookupFailure>(f);
                        assert(symbol_offset(file@, symbol@, magic@) == Err::<Option<(Seq<char>, int)>, LookupFailure>(f));
                        assert(symbol_offsets(file@, section_index, syms.take(i + 1), magic@)
                            == Err::<Seq<(Seq<char>, int)>, LookupFailure>(f));
                        lemma_offsets_error_sticks(file@, section_index, syms, magic@, i as int + 1);
                        assert(error_is(e, f));
                        assert(symbol_offsets(file@, section_index, syms, magic@) == Err::<Seq<(Seq<char>, int)>, LookupFailure>(f));
                    }
                    return Err(e);
                },
            }
        }
        i = i + 1;
    }
    assert(syms.take(symbols@.len() as int) =~= syms);
    Ok(results)
}

/// Once the scan of a prefix of the symbols fails, the scan of every longer
/// prefix fails the same way.
proof fn lemma_offsets_error_sticks(data: Seq<u8>, index: usize, syms: Seq<SymbolInfo>, magic: Seq<u8>, k: int)
    requires
        0 <= k <= syms.len(),
        symbol_offsets(data, index, syms.take(k), magic) is Err,
    ensures
        symbol_offsets(data, index, syms, magic) == symbol_offsets(data, index, syms.take(k), magic),
    decreases syms.len() - k,
{
    if k < syms.len() {
        assert(syms.take(k + 1).drop_last() =~= syms.take(k));
        lemma_offsets_error_sticks(data, index, syms, magic, k + 1);
    } else {
        assert(syms.take(k) =~= syms);
    }
}

/// A scan whose prefix gets to a search gets to it as a whole.
proof fn lemma_reach_prefix(data: Seq<u8>, index: usize, syms: Seq<SymbolInfo>, k: int)
    requires
        0 <= k <= syms.len(),
    ensures
        scan_reaches_search(data, index, syms.take(k)) ==> scan_reaches_search(data, index, syms),
    decreases syms.len() - k,
{
    if k < syms.len() {
        assert(syms.take(k + 1).drop_last() =~= syms.take(k));
        lemma_reach_prefix(data, index, syms, k + 1);
    } else {
        assert(syms.take(k) =~= syms);
    }
}

/// A scan whose prefix fails before getting to a search never gets to one.
proof fn lemma_failed_scan_reaches_nothing(data: Seq<u8>, index: usize, syms: Seq<SymbolInfo>, k: int)
    requires
        0 <= k <= syms.len(),
        !scan_reaches_search(data, index, syms.take(k)),
        symbol_offsets(data, index, syms.take(k), Seq::empty()) is Err,
    ensures
        !scan_reaches_search(data, index, syms),
    decreases syms.len() - k,
{
    if k < syms.len() {
        assert(syms.take(k + 1).drop_last() =~= syms.take(k));
        lemma_failed_scan_reaches_nothing(data, index, syms, k + 1);
    } else {
        assert(syms.take(k) =~= syms);
    }
}

/// Whether the scan of the symbols for section `section_index` gets to a
/// search before it fails or ends: what an empty magic cannot take.
pub fn empty_magic_scan_searches(file: &ObjectFile, section_index: usize) -> (res: bool)
    ensures
        res == scan_reaches_search(file@, section_index, object_symbols(file@)),
{
    let symbols = list_symbols(file);
    let ghost syms = object_symbols(file@);
    let ghost empty = Seq::<u8>::empty();
    let mut i: usize = 0;
    assert(syms.take(0) =~= Seq::<SymbolInfo>::empty());
    while i < symbols.len()
        invariant
            symbols@.map_values(|s: SymbolRecord| s@) == syms,
            syms == object_symbols(file@),
            empty == Seq::<u8>::empty(),
            i <= symbols@.len(),
            !scan_reaches_search(file@, section_index, syms.take(i as int)),
            symbol_offsets(file@, section_index, syms.take(i as int), empty) is Ok,
        decreases symbols@.len() - i,
    {
        let symbol = &symbols[i];
        assert(syms.take(i + 1).drop_last() =~= syms.take(i as int));
        assert(syms.take(i + 1).last() == symbol@);
        if symbol.section_index == Some(section_index) && symbol.is_text && symbol.size != 0 {
            let name: &str = match &symbol.name {
                Ok(n) => n.as_str(),
                Err(t) => {
                    proof { lemma_failed_scan_reaches_nothing(file@, section_index, syms, i as int + 1); }
                    return false;
                },
            };
            match get_symbol_bytes(file, name) {
                Ok(d) => {
                    proof { lemma_reach_prefix(file@, section_index, syms, i as int + 1); }
                    return true;
                },
                Err(e) => {
                    proof { lemma_failed_scan_reaches_nothing(file@, section_index, syms, i as int + 1); }
                    return false;
                },
            }
        }
        i = i + 1;
    }
    assert(syms.take(symbols@.len() as int) =~= syms);
    false
}

/// The commit section exists and its scan gets to a search, which an empty
/// magic cannot take.
pub open spec fn commit_scan_searches(data: Seq<u8>) -> bool {
    match object_section_by_name(data, RSEQ_COMMIT_SECTION_NAME@) {
        None => false,
        Some(index) => scan_reaches_search(data, index, object_symbols(data)),
    }
}

/// `res` is what the offset computation gives for the object file `data`
/// whose marker symbol holds the bytes `b`, when the marker value is laid
/// out as `order`.
pub open spec fn offsets_outcome_is(res: Option<Result<Vec<(String, usize)>, String>>, data: Seq<u8>, b: Seq<u8>, order: Seq<u8>) -> bool {
    match magic_position(b, order) {
        Err(f) => res matches Some(Err(e)) && error_is(e, f),
        Ok(i) => if i == 0 && commit_scan_searches(data) {
            res is None
        } else {
            res matches Some(r) && match object_section_by_name(data, RSEQ_COMMIT_SECTION_NAME@) {
                None => r matches Err(e) && error_is(e, LookupFailure::SectionNotFound(RSEQ_COMMIT_SECTION_NAME@)),
                Some(index) => offsets_result_is(r, symbol_offsets(data, index, object_symbols(data), b.take(i))),
            }
        },
    }
}

/// The post-commit offsets of the commit actions of the object file: the
/// marker magic is read first, then every code symbol of the commit section
/// is searched for it. `None` when the magic is empty and the scan gets to
/// a search, which cannot be made for an empty magic.
pub fn post_commit_offsets(obj_file: &ObjectFile) -> (res: Option<Result<Vec<(String, usize)>, String>>)
    ensures
        match symbol_bytes(obj_file@, POST_COMMIT_OFFSET_MARKER_SYMBOL_NAME@) {
            Err(f) => res matches Some(Err(e)) && error_is(e, f),
            Ok(b) => offsets_outcome_is(res, obj_file@, b, u32_le_bytes(POST_COMMIT_OFFSET_MARKER_ENDS_WITH))
                || offsets_outcome_is(res, obj_file@, b, u32_be_bytes(POST_COMMIT_OFFSET_MARKER_ENDS_WITH)),
        },
{
    let magic = match get_post_commit_offset_marker_value(obj_file) {
        Ok(m) => m,
        Err(e) => {
            return Some(Err(e));
        },
    };
    if magic.len() == 0 {
        if let Some(index) = find_section(obj_file, RSEQ_COMMIT_SECTION_NAME) {
            if empty_magic_scan_searches(obj_file, index) {
                return None;
            }
        }
    }
    Some(get_symbol_offsets(obj_file, RSEQ_COMMIT_SECTION_NAME, magic.as_slice()))
}

} // verus!
