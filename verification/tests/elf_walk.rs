use compiledfiles::dispatch::{parse_routed, try_parse_object, Route};
use compiledfiles::dwarf_files::{open_object, parse_elf_file};
use compiledfiles::{parse, FileCheckSum, FileInfo, ParseError};

fn put_str(v: &mut Vec<u8>, s: &str) {
    v.extend_from_slice(s.as_bytes());
    v.push(0);
}

fn put_u16(v: &mut Vec<u8>, x: u16) {
    v.extend_from_slice(&x.to_le_bytes());
}

fn put_u32(v: &mut Vec<u8>, x: u32) {
    v.extend_from_slice(&x.to_le_bytes());
}

fn put_u64(v: &mut Vec<u8>, x: u64) {
    v.extend_from_slice(&x.to_le_bytes());
}

fn with_length(body: Vec<u8>) -> Vec<u8> {
    let mut v = Vec::new();
    put_u32(&mut v, body.len() as u32);
    v.extend_from_slice(&body);
    v
}

// One abbreviation: a compile unit without children, with a name, a
// compilation directory (both inline strings) and a statement list.
fn abbreviations() -> Vec<u8> {
    vec![1, 0x11, 0, 0x03, 0x08, 0x1b, 0x08, 0x10, 0x17, 0, 0, 0]
}

fn unit_entry(name: &str, comp_dir: &str, stmt_list: u32) -> Vec<u8> {
    let mut v = vec![1u8];
    put_str(&mut v, name);
    put_str(&mut v, comp_dir);
    put_u32(&mut v, stmt_list);
    v
}

fn unit_v5(name: &str, comp_dir: &str, stmt_list: u32) -> Vec<u8> {
    let mut body = Vec::new();
    put_u16(&mut body, 5);
    body.push(1);
    body.push(8);
    put_u32(&mut body, 0);
    body.extend_from_slice(&unit_entry(name, comp_dir, stmt_list));
    with_length(body)
}

fn unit_v4(name: &str, comp_dir: &str, stmt_list: u32) -> Vec<u8> {
    let mut body = Vec::new();
    put_u16(&mut body, 4);
    put_u32(&mut body, 0);
    body.push(8);
    body.extend_from_slice(&unit_entry(name, comp_dir, stmt_list));
    with_length(body)
}

fn line_settings() -> Vec<u8> {
    vec![1, 1, 1, 0xfb, 14, 13, 0, 1, 1, 1, 1, 0, 0, 0, 1, 0, 0, 1]
}

fn md5_a() -> [u8; 16] {
    [0x10, 0x11, 0x12, 0x13, 0x14, 0x15, 0x16, 0x17, 0x18, 0x19, 0x1a, 0x1b, 0x1c, 0x1d, 0x1e, 0x1f]
}

fn md5_b() -> [u8; 16] {
    [0xb0; 16]
}

// A version 5 line program header: directories "/work" and "src"; files
// "hello.c" in the first, "util.c" in the second, and "<built-in>"; each
// file with an MD5 digest and neither timestamp nor size.
fn line_v5() -> Vec<u8> {
    let mut rest = line_settings();
    rest.extend_from_slice(&[1, 1, 0x08]);
    rest.push(2);
    put_str(&mut rest, "/work");
    put_str(&mut rest, "src");
    rest.extend_from_slice(&[3, 1, 0x08, 2, 0x0f, 5, 0x1e]);
    rest.push(3);
    put_str(&mut rest, "hello.c");
    rest.push(0);
    rest.extend_from_slice(&md5_a());
    put_str(&mut rest, "util.c");
    rest.push(1);
    rest.extend_from_slice(&md5_b());
    put_str(&mut rest, "<built-in>");
    rest.push(0);
    rest.extend_from_slice(&[0u8; 16]);
    let mut body = Vec::new();
    put_u16(&mut body, 5);
    body.push(8);
    body.push(0);
    put_u32(&mut body, rest.len() as u32);
    body.extend_from_slice(&rest);
    with_length(body)
}

// A version 4 line program header: include directory "inc"; files "b.c"
// (compilation directory, timestamp 0, size 0), "c.c" (in "inc", timestamp
// 1234, size 77), "b.c" once more, and "<built-in>".
fn line_v4() -> Vec<u8> {
    let mut rest = line_settings();
    put_str(&mut rest, "inc");
    rest.push(0);
    put_str(&mut rest, "b.c");
    rest.extend_from_slice(&[0, 0, 0]);
    put_str(&mut rest, "c.c");
    rest.extend_from_slice(&[1, 0xd2, 0x09, 77]);
    put_str(&mut rest, "b.c");
    rest.extend_from_slice(&[0, 0, 0]);
    put_str(&mut rest, "<built-in>");
    rest.extend_from_slice(&[0, 0, 0]);
    rest.push(0);
    let mut body = Vec::new();
    put_u16(&mut body, 4);
    put_u32(&mut body, rest.len() as u32);
    body.extend_from_slice(&rest);
    with_length(body)
}

fn section_header(v: &mut Vec<u8>, name: u32, kind: u32, offset: u64, size: u64) {
    put_u32(v, name);
    put_u32(v, kind);
    put_u64(v, 0);
    put_u64(v, 0);
    put_u64(v, offset);
    put_u64(v, size);
    put_u32(v, 0);
    put_u32(v, 0);
    put_u64(v, 1);
    put_u64(v, 0);
}

// A 64-bit little-endian ELF executable that holds the given sections and
// their name table, and nothing else.
fn elf_with(sections: &[(&str, Vec<u8>)]) -> Vec<u8> {
    let mut names = vec![0u8];
    let mut name_at = Vec::new();
    for (name, _) in sections {
        name_at.push(names.len() as u32);
        put_str(&mut names, name);
    }
    let names_name = names.len() as u32;
    put_str(&mut names, ".shstrtab");

    let mut data = Vec::new();
    let mut placed = Vec::new();
    for (_, bytes) in sections {
        placed.push((64 + data.len() as u64, bytes.len() as u64));
        data.extend_from_slice(bytes);
    }
    let names_offset = 64 + data.len() as u64;
    data.extend_from_slice(&names);
    while data.len() % 8 != 0 {
        data.push(0);
    }
    let table_offset = 64 + data.len() as u64;

    let mut v = vec![0x7f, b'E', b'L', b'F', 2, 1, 1, 0, 0, 0, 0, 0, 0, 0, 0, 0];
    put_u16(&mut v, 2);
    put_u16(&mut v, 62);
    put_u32(&mut v, 1);
    put_u64(&mut v, 0);
    put_u64(&mut v, 0);
    put_u64(&mut v, table_offset);
    put_u32(&mut v, 0);
    put_u16(&mut v, 64);
    put_u16(&mut v, 56);
    put_u16(&mut v, 0);
    put_u16(&mut v, 64);
    put_u16(&mut v, sections.len() as u16 + 2);
    put_u16(&mut v, sections.len() as u16 + 1);
    assert_eq!(v.len(), 64);
    v.extend_from_slice(&data);
    section_header(&mut v, 0, 0, 0, 0);
    for i in 0..sections.len() {
        section_header(&mut v, name_at[i], 1, placed[i].0, placed[i].1);
    }
    section_header(&mut v, names_name, 3, names_offset, names.len() as u64);
    v
}

fn two_unit_elf() -> Vec<u8> {
    let first_lines = line_v5();
    let second_at = first_lines.len() as u32;
    let mut lines = first_lines;
    lines.extend_from_slice(&line_v4());
    let mut info = unit_v5("hello.c", "/work", 0);
    info.extend_from_slice(&unit_v4("b.c", "/w2", second_at));
    elf_with(&[(".debug_abbrev", abbreviations()), (".debug_info", info), (".debug_line", lines)])
}

fn one_file_elf() -> Vec<u8> {
    let mut rest = line_settings();
    rest.extend_from_slice(&[1, 1, 0x08]);
    rest.push(1);
    put_str(&mut rest, "/home/user/project");
    rest.extend_from_slice(&[3, 1, 0x08, 2, 0x0f, 5, 0x1e]);
    rest.push(2);
    put_str(&mut rest, "hello.c");
    rest.push(0);
    rest.extend_from_slice(&md5_a());
    put_str(&mut rest, "hello.c");
    rest.push(0);
    rest.extend_from_slice(&md5_a());
    let mut body = Vec::new();
    put_u16(&mut body, 5);
    body.push(8);
    body.push(0);
    put_u32(&mut body, rest.len() as u32);
    body.extend_from_slice(&rest);
    elf_with(&[
        (".debug_abbrev", abbreviations()),
        (".debug_info", unit_v5("hello.c", "/home/user/project", 0)),
        (".debug_line", with_length(body)),
    ])
}

#[test]
fn elf_with_one_source_file_gives_one_record() {
    let files = parse(&one_file_elf()).unwrap();
    assert_eq!(
        files,
        vec![FileInfo {
            path: b"/home/user/project/hello.c".to_vec(),
            size: None,
            timestamp: None,
            checksum: Some(FileCheckSum::Md5(md5_a())),
        }]
    );
    assert!(files.iter().any(|f| f.path == b"/home/user/project/hello.c".to_vec()));
}

#[test]
fn elf_with_two_units_lists_all_files_sorted() {
    let files = parse(&two_unit_elf()).unwrap();
    assert_eq!(
        files,
        vec![
            FileInfo { path: b"/w2/b.c".to_vec(), size: None, timestamp: None, checksum: None },
            FileInfo {
                path: b"/w2/inc/c.c".to_vec(),
                size: Some(77),
                timestamp: Some(1234),
                checksum: None,
            },
            FileInfo {
                path: b"/work/hello.c".to_vec(),
                size: None,
                timestamp: None,
                checksum: Some(FileCheckSum::Md5(md5_a())),
            },
            FileInfo {
                path: b"/work/src/util.c".to_vec(),
                size: None,
                timestamp: None,
                checksum: Some(FileCheckSum::Md5(md5_b())),
            },
        ]
    );
}

#[test]
fn elf_results_are_sorted_and_free_of_duplicates() {
    let files = parse(&two_unit_elf()).unwrap();
    for w in files.windows(2) {
        assert!(w[0].path <= w[1].path);
    }
    for i in 0..files.len() {
        for j in (i + 1)..files.len() {
            assert_ne!(files[i], files[j]);
        }
    }
    for f in &files {
        assert_ne!(f.timestamp, Some(0));
        assert_ne!(f.size, Some(0));
        assert!(!f.path.ends_with(b"<built-in>"));
    }
}

#[test]
fn elf_decoded_twice_gives_the_same_list() {
    let bytes = two_unit_elf();
    assert_eq!(parse(&bytes).unwrap(), parse(&bytes).unwrap());
}

#[test]
fn elf_with_empty_debug_info_has_no_files() {
    let bytes = elf_with(&[(".debug_info", Vec::new())]);
    assert_eq!(parse(&bytes).unwrap(), Vec::<FileInfo>::new());
}

#[test]
fn elf_with_broken_debug_info_fails_in_the_decoder() {
    let bytes = elf_with(&[(".debug_info", vec![0xff, 0xff, 0xff, 0x0f, 5, 0])]);
    assert!(matches!(parse(&bytes), Err(compiledfiles::ParseError::Dwarf { .. })));
}

#[test]
fn routed_parsing_follows_the_route() {
    let bytes = two_unit_elf();
    let file = open_object(&bytes).unwrap();
    assert_eq!(parse_routed(&file, true, Route::Dwarf).unwrap().len(), 4);
    assert!(matches!(
        parse_routed(&file, true, Route::MissingDebugSymbols),
        Err(ParseError::MissingDebugSymbols)
    ));
    assert!(matches!(
        parse_routed(&file, true, Route::UnrecognizedFileFormat),
        Err(ParseError::UnrecognizedFileFormat)
    ));
}

#[test]
fn object_with_debug_info_is_read_as_dwarf() {
    let bytes = two_unit_elf();
    let file = open_object(&bytes).unwrap();
    assert_eq!(try_parse_object(&file).unwrap().unwrap(), parse(&bytes).unwrap());
    assert_eq!(parse_elf_file(&file, true).unwrap(), parse(&bytes).unwrap());
}

#[test]
fn bytes_that_are_no_object_file_do_not_open() {
    assert!(matches!(open_object(b"no object file"), Err(ParseError::Object { .. })));
}

#[test]
fn wrong_byte_order_does_not_give_the_files() {
    let bytes = two_unit_elf();
    let file = open_object(&bytes).unwrap();
    let swapped = parse_elf_file(&file, false);
    assert!(swapped.is_err() || swapped.unwrap() != parse(&bytes).unwrap());
}

// One unit whose only file entry names the directory at place 9 of a table
// of one directory.
fn bad_directory_elf() -> Vec<u8> {
    let mut rest = line_settings();
    rest.extend_from_slice(&[1, 1, 0x08]);
    rest.push(1);
    put_str(&mut rest, "/home/user/project");
    rest.extend_from_slice(&[3, 1, 0x08, 2, 0x0f, 5, 0x1e]);
    rest.push(1);
    put_str(&mut rest, "hello.c");
    rest.push(9);
    rest.extend_from_slice(&md5_a());
    let mut body = Vec::new();
    put_u16(&mut body, 5);
    body.push(8);
    body.push(0);
    put_u32(&mut body, rest.len() as u32);
    body.extend_from_slice(&rest);
    elf_with(&[
        (".debug_abbrev", abbreviations()),
        (".debug_info", unit_v5("hello.c", "/home/user/project", 0)),
        (".debug_line", with_length(body)),
    ])
}

#[test]
fn entry_without_a_directory_fails_in_the_decoder() {
    assert!(matches!(parse(&bad_directory_elf()), Err(ParseError::Dwarf { .. })));
}
