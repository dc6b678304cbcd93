use object::write::{Object as WriteObject, Symbol, SymbolSection};
use object::{Architecture, BinaryFormat, Endianness, SectionKind, SymbolFlags, SymbolKind, SymbolScope};

use rseq_main::elf::ObjectFile;
use rseq_main::post_commit::{
    get_post_commit_offset_marker_value, get_symbol_bytes, get_symbol_offsets, post_commit_offsets,
    RSEQ_COMMIT_SECTION_NAME,
};

/// The code of the end-handler call marker: `jmp 91f; .long 0xDEADC0DE;
/// 91: .long 0xABCDEFFF; call rseq_end_handler`.
const MARKER_CODE: [u8; 15] = [
    0xeb, 0x04, 0xde, 0xc0, 0xad, 0xde, 0xff, 0xef, 0xcd, 0xab, 0xe8, 0, 0, 0, 0,
];
/// What a commit action ends with before its call to the end handler.
const END_MAGIC: [u8; 6] = [0xeb, 0x04, 0xde, 0xc0, 0xad, 0xde];

fn add_fn(obj: &mut WriteObject, section: object::write::SectionId, name: &str, code: &[u8]) {
    let offset = obj.append_section_data(section, code, 1);
    obj.add_symbol(Symbol {
        name: name.as_bytes().to_vec(),
        value: offset,
        size: code.len() as u64,
        kind: SymbolKind::Text,
        scope: SymbolScope::Dynamic,
        weak: false,
        section: SymbolSection::Section(section),
        flags: SymbolFlags::None,
    });
}

fn commit_code(prefix_len: usize) -> Vec<u8> {
    let mut code = vec![0x48u8; prefix_len];
    code.extend_from_slice(&END_MAGIC);
    code.extend_from_slice(&[0xe8, 0, 0, 0, 0, 0xc3]);
    code
}

/// A little-endian x86-64 object with the marker in `.text` and the given
/// commit actions in the commit section.
fn payload(commits: &[(&str, Vec<u8>)], with_marker: bool) -> Vec<u8> {
    payload_with_marker(commits, if with_marker { Some(&MARKER_CODE[..]) } else { None })
}

/// As `payload`, with the given marker code.
fn payload_with_marker(commits: &[(&str, Vec<u8>)], marker: Option<&[u8]>) -> Vec<u8> {
    let mut obj = WriteObject::new(BinaryFormat::Elf, Architecture::X86_64, Endianness::Little);
    let text = obj.add_section(Vec::new(), b".text".to_vec(), SectionKind::Text);
    if let Some(code) = marker {
        add_fn(&mut obj, text, "rseq_end_handler_call_marker", code);
    }
    add_fn(&mut obj, text, "rseq_cs_func", &[0x90, 0x90, 0xc3]);
    if !commits.is_empty() {
        let commit = obj.add_section(Vec::new(), RSEQ_COMMIT_SECTION_NAME.as_bytes().to_vec(), SectionKind::Text);
        for (name, code) in commits {
            add_fn(&mut obj, commit, name, code);
        }
    }
    obj.write().unwrap()
}

#[test]
fn symbol_bytes_are_the_symbols_code() {
    let image = payload(&[("commit_action", commit_code(3))], true);
    let file = ObjectFile::parse(&image).ok().unwrap();
    assert_eq!(get_symbol_bytes(&file, "rseq_cs_func").ok(), Some(&[0x90u8, 0x90, 0xc3][..]));
    assert_eq!(get_symbol_bytes(&file, "commit_action").ok(), Some(&commit_code(3)[..]));
    assert_eq!(get_symbol_bytes(&file, "missing").err(), Some("Symbol 'missing' not found".to_string()));
}

#[test]
fn marker_value_is_the_code_before_the_marker() {
    let image = payload(&[], true);
    let file = ObjectFile::parse(&image).ok().unwrap();
    assert_eq!(get_post_commit_offset_marker_value(&file).ok(), Some(END_MAGIC.to_vec()));
}

#[test]
fn offsets_of_the_commit_actions() {
    let image = payload(&[("commit_action", commit_code(3)), ("commit_action2", commit_code(10))], true);
    let file = ObjectFile::parse(&image).ok().unwrap();
    let offsets = post_commit_offsets(&file).unwrap().ok().unwrap();
    assert_eq!(offsets, vec![("commit_action".to_string(), 3usize), ("commit_action2".to_string(), 10usize)]);
}

#[test]
fn a_commit_action_without_the_end_call_fails() {
    let image = payload(&[("commit_action", vec![0x90, 0xc3])], true);
    let file = ObjectFile::parse(&image).ok().unwrap();
    assert!(matches!(post_commit_offsets(&file), Some(Err(ref e)) if e == "didn't find magic in symbol"));
}

#[test]
fn a_payload_without_commit_section_fails() {
    let image = payload(&[], true);
    let file = ObjectFile::parse(&image).ok().unwrap();
    assert_eq!(
        post_commit_offsets(&file),
        Some(Err("Section '.text.rseq_commit' not found".to_string()))
    );
    assert_eq!(
        get_symbol_offsets(&file, ".text.rseq_commit", &END_MAGIC),
        Err("Section '.text.rseq_commit' not found".to_string())
    );
}

#[test]
fn a_payload_without_marker_fails() {
    let image = payload(&[("commit_action", commit_code(3))], false);
    let file = ObjectFile::parse(&image).ok().unwrap();
    assert_eq!(
        post_commit_offsets(&file),
        Some(Err("Symbol 'rseq_end_handler_call_marker' not found".to_string()))
    );
}

/// A marker whose code starts with the marker value: the magic before it is empty.
const EMPTY_PREFIX_MARKER: [u8; 9] = [0xff, 0xef, 0xcd, 0xab, 0xe8, 0, 0, 0, 0];

#[test]
fn symbol_bytes_have_the_symbols_size() {
    let image = payload(&[("commit_action", commit_code(7))], true);
    let file = ObjectFile::parse(&image).ok().unwrap();
    assert_eq!(get_symbol_bytes(&file, "commit_action").ok().unwrap().len(), commit_code(7).len());
    assert_eq!(get_symbol_bytes(&file, "rseq_end_handler_call_marker").ok().unwrap().len(), MARKER_CODE.len());
}

#[test]
fn an_empty_magic_still_reports_a_missing_section() {
    let image = payload_with_marker(&[], Some(&EMPTY_PREFIX_MARKER[..]));
    let file = ObjectFile::parse(&image).ok().unwrap();
    assert_eq!(get_post_commit_offset_marker_value(&file).ok(), Some(Vec::new()));
    assert_eq!(
        post_commit_offsets(&file),
        Some(Err("Section '.text.rseq_commit' not found".to_string()))
    );
}

#[test]
fn an_empty_magic_with_no_code_to_search_gives_an_empty_table() {
    let image = payload_with_marker(&[("empty_action", Vec::new())], Some(&EMPTY_PREFIX_MARKER[..]));
    let file = ObjectFile::parse(&image).ok().unwrap();
    assert_eq!(post_commit_offsets(&file), Some(Ok(Vec::new())));
    assert_eq!(get_symbol_offsets(&file, RSEQ_COMMIT_SECTION_NAME, &[]), Ok(Vec::new()));
}

#[test]
fn an_empty_magic_cannot_be_searched_for() {
    let image = payload_with_marker(&[("commit_action", commit_code(3))], Some(&EMPTY_PREFIX_MARKER[..]));
    let file = ObjectFile::parse(&image).ok().unwrap();
    assert_eq!(post_commit_offsets(&file), None);
}

#[test]
fn bytes_that_are_no_object_file_are_refused() {
    assert!(ObjectFile::parse(&[1, 2, 3]).is_err());
}
