use compiledfiles::pdb_files::{
    line_sizes_fit, module_sizes, name_map_in_block, parse_pdb, ModuleSizes,
};
use compiledfiles::{parse, FileCheckSum, FileInfo, ParseError};

const PAGE: usize = 4096;

fn put_u16(v: &mut Vec<u8>, x: u16) {
    v.extend_from_slice(&x.to_le_bytes());
}

fn put_u32(v: &mut Vec<u8>, x: u32) {
    v.extend_from_slice(&x.to_le_bytes());
}

fn put_str(v: &mut Vec<u8>, s: &str) {
    v.extend_from_slice(s.as_bytes());
    v.push(0);
}

fn pad_to_four(v: &mut Vec<u8>) {
    while v.len() % 4 != 0 {
        v.push(0);
    }
}

// The information stream: version, signature, age, identifier, and the map
// of named streams, which holds "/names" alone.
fn info_stream(names_stream: u32) -> Vec<u8> {
    let mut v = Vec::new();
    put_u32(&mut v, 20000404);
    put_u32(&mut v, 0);
    put_u32(&mut v, 1);
    v.extend_from_slice(&[0u8; 16]);
    put_u32(&mut v, 7);
    put_str(&mut v, "/names");
    put_u32(&mut v, 1);
    put_u32(&mut v, 1);
    put_u32(&mut v, 1);
    put_u32(&mut v, 1);
    put_u32(&mut v, 0);
    put_u32(&mut v, 0);
    put_u32(&mut v, names_stream);
    v
}

fn module_entry(v: &mut Vec<u8>, stream: u16, lines_size: u32, name: &str) {
    put_u32(v, 0);
    v.extend_from_slice(&[0u8; 28]);
    put_u16(v, 0);
    put_u16(v, stream);
    put_u32(v, 4);
    put_u32(v, 0);
    put_u32(v, lines_size);
    put_u16(v, 0);
    put_u16(v, 0);
    put_u32(v, 0);
    put_u32(v, 0);
    put_u32(v, 0);
    put_str(v, name);
    put_str(v, name);
    pad_to_four(v);
}

// The debug information stream: its header and the list of modules.
fn debug_stream(modules: &[u8]) -> Vec<u8> {
    let mut v = Vec::new();
    put_u32(&mut v, 0xffff_ffff);
    put_u32(&mut v, 19990903);
    put_u32(&mut v, 1);
    put_u16(&mut v, 0xffff);
    put_u16(&mut v, 0);
    put_u16(&mut v, 0xffff);
    put_u16(&mut v, 0);
    put_u16(&mut v, 0xffff);
    put_u16(&mut v, 0);
    put_u32(&mut v, modules.len() as u32);
    for _ in 0..7 {
        put_u32(&mut v, 0);
    }
    put_u16(&mut v, 0);
    put_u16(&mut v, 0x8664);
    put_u32(&mut v, 0);
    assert_eq!(v.len(), 64);
    v.extend_from_slice(modules);
    v
}

fn checksum_entry(v: &mut Vec<u8>, name: u32, kind: u8, digest: &[u8]) {
    put_u32(v, name);
    v.push(digest.len() as u8);
    v.push(kind);
    v.extend_from_slice(digest);
    pad_to_four(v);
}

// The line information of a module: one subsection, the file checksums.
fn line_info(entries: &[u8]) -> Vec<u8> {
    let mut v = Vec::new();
    put_u32(&mut v, 0xf4);
    put_u32(&mut v, entries.len() as u32);
    v.extend_from_slice(entries);
    v
}

fn module_stream(lines: &[u8]) -> Vec<u8> {
    let mut v = Vec::new();
    put_u32(&mut v, 4);
    v.extend_from_slice(lines);
    v
}

fn names_stream(names: &[u8]) -> Vec<u8> {
    let mut v = Vec::new();
    put_u32(&mut v, 0xeffe_effe);
    put_u32(&mut v, 1);
    put_u32(&mut v, names.len() as u32);
    v.extend_from_slice(names);
    // An empty table for looking names up by their hash, which is not read.
    v.extend_from_slice(&[0u8; 16]);
    v
}

// A container of pages of 4096 bytes. Each stream that is present takes one
// page; the directory stands in page 4 and the streams follow it.
fn container(streams: &[Option<Vec<u8>>]) -> Vec<u8> {
    let mut directory = Vec::new();
    put_u32(&mut directory, streams.len() as u32);
    for s in streams {
        match s {
            Some(bytes) => put_u32(&mut directory, bytes.len() as u32),
            None => put_u32(&mut directory, 0),
        }
    }
    let mut next_page = 5u32;
    let mut pages: Vec<Vec<u8>> = Vec::new();
    for s in streams {
        if let Some(bytes) = s {
            assert!(bytes.len() <= PAGE && !bytes.is_empty());
            put_u32(&mut directory, next_page);
            next_page += 1;
            pages.push(bytes.clone());
        }
    }

    let mut header = b"Microsoft C/C++ MSF 7.00\r\n\x1aDS\0\0\0".to_vec();
    put_u32(&mut header, PAGE as u32);
    put_u32(&mut header, 1);
    put_u32(&mut header, next_page);
    put_u32(&mut header, directory.len() as u32);
    put_u32(&mut header, 0);
    put_u32(&mut header, 3);

    let mut list = Vec::new();
    put_u32(&mut list, 4);

    let mut file = Vec::new();
    let mut all = vec![header, Vec::new(), Vec::new(), list, directory];
    all.extend(pages);
    for mut page in all {
        page.resize(PAGE, 0);
        file.extend_from_slice(&page);
    }
    file
}

fn md5() -> [u8; 16] {
    [0, 1, 2, 3, 4, 5, 6, 7, 8, 9, 10, 11, 12, 13, 14, 15]
}

fn two_module_pdb() -> Vec<u8> {
    let mut names = vec![0u8];
    let hello = names.len() as u32;
    put_str(&mut names, "c:\\src\\hello.c");
    let util = names.len() as u32;
    put_str(&mut names, "c:\\src\\util.h");
    let b = names.len() as u32;
    put_str(&mut names, "c:\\src\\b.c");
    let a = names.len() as u32;
    put_str(&mut names, "c:\\src\\a.c");

    let mut first = Vec::new();
    checksum_entry(&mut first, hello, 1, &md5());
    checksum_entry(&mut first, util, 0, &[]);
    let first = line_info(&first);

    let mut second = Vec::new();
    checksum_entry(&mut second, hello, 1, &md5());
    checksum_entry(&mut second, b, 3, &[0x32u8; 32]);
    checksum_entry(&mut second, a, 2, &[0x20u8; 20]);
    let second = line_info(&second);

    let mut modules = Vec::new();
    module_entry(&mut modules, 4, first.len() as u32, "hello.obj");
    module_entry(&mut modules, 0xffff, 0, "import.lib");
    module_entry(&mut modules, 5, second.len() as u32, "other.obj");

    container(&[
        None,
        Some(info_stream(6)),
        None,
        Some(debug_stream(&modules)),
        Some(module_stream(&first)),
        Some(module_stream(&second)),
        Some(names_stream(&names)),
    ])
}

#[test]
fn pdb_lists_the_files_of_all_modules() {
    let files = parse(&two_module_pdb()).unwrap();
    assert_eq!(
        files,
        vec![
            FileInfo {
                path: b"c:\\src\\a.c".to_vec(),
                size: None,
                timestamp: None,
                checksum: Some(FileCheckSum::Sha1([0x20u8; 20])),
            },
            FileInfo {
                path: b"c:\\src\\b.c".to_vec(),
                size: None,
                timestamp: None,
                checksum: Some(FileCheckSum::Sha256([0x32u8; 32])),
            },
            FileInfo {
                path: b"c:\\src\\hello.c".to_vec(),
                size: None,
                timestamp: None,
                checksum: Some(FileCheckSum::Md5(md5())),
            },
            FileInfo {
                path: b"c:\\src\\util.h".to_vec(),
                size: None,
                timestamp: None,
                checksum: None,
            },
        ]
    );
}

#[test]
fn pdb_file_of_two_modules_is_listed_once() {
    let files = parse(&two_module_pdb()).unwrap();
    let hello: Vec<&FileInfo> =
        files.iter().filter(|f| f.path == b"c:\\src\\hello.c".to_vec()).collect();
    assert_eq!(hello.len(), 1);
    assert_eq!(hello[0].size, None);
    assert_eq!(hello[0].timestamp, None);
}

#[test]
fn pdb_decoded_twice_gives_the_same_list() {
    let bytes = two_module_pdb();
    assert_eq!(parse(&bytes).unwrap(), parse(&bytes).unwrap());
}

#[test]
fn pdb_without_string_table_fails_in_the_pdb_reader() {
    let mut modules = Vec::new();
    module_entry(&mut modules, 0xffff, 0, "import.lib");
    let mut info = Vec::new();
    put_u32(&mut info, 20000404);
    put_u32(&mut info, 0);
    put_u32(&mut info, 1);
    info.extend_from_slice(&[0u8; 16]);
    for _ in 0..6 {
        put_u32(&mut info, 0);
    }
    let bytes = container(&[None, Some(info), None, Some(debug_stream(&modules))]);
    assert!(matches!(parse(&bytes), Err(ParseError::Pdb { .. })));
}

#[test]
fn pdb_with_an_unknown_file_name_fails_in_the_pdb_reader() {
    let mut entries = Vec::new();
    checksum_entry(&mut entries, 500, 0, &[]);
    let lines = line_info(&entries);
    let mut modules = Vec::new();
    module_entry(&mut modules, 4, lines.len() as u32, "hello.obj");
    let bytes = container(&[
        None,
        Some(info_stream(5)),
        None,
        Some(debug_stream(&modules)),
        Some(module_stream(&lines)),
        Some(names_stream(&[0u8, b'a', 0])),
    ]);
    assert!(matches!(parse(&bytes), Err(ParseError::Pdb { .. })));
}

#[test]
fn opened_pdb_is_walked() {
    let bytes = two_module_pdb();
    let opened = pdb::PDB::open(std::io::Cursor::new(&bytes[..])).unwrap();
    assert_eq!(parse_pdb(opened).unwrap(), parse(&bytes).unwrap());
}

fn one_module_pdb(declared_lines: u32, kind: u8, digest: &[u8]) -> Vec<u8> {
    let mut names = vec![0u8];
    let hello = names.len() as u32;
    put_str(&mut names, "c:\\src\\hello.c");
    let mut entries = Vec::new();
    checksum_entry(&mut entries, hello, kind, digest);
    let lines = line_info(&entries);
    let declared = if declared_lines == 0 { lines.len() as u32 } else { declared_lines };
    let mut modules = Vec::new();
    module_entry(&mut modules, 4, declared, "hello.obj");
    container(&[
        None,
        Some(info_stream(5)),
        None,
        Some(debug_stream(&modules)),
        Some(module_stream(&lines)),
        Some(names_stream(&names)),
    ])
}

#[test]
fn pdb_with_one_module_is_read() {
    let files = parse(&one_module_pdb(0, 1, &md5())).unwrap();
    assert_eq!(files.len(), 1);
    assert_eq!(files[0].path, b"c:\\src\\hello.c".to_vec());
    assert_eq!(files[0].checksum, Some(FileCheckSum::Md5(md5())));
}

#[test]
fn pdb_module_that_declares_more_than_its_stream_holds_fails() {
    assert!(matches!(parse(&one_module_pdb(5000, 1, &md5())), Err(ParseError::Pdb { .. })));
}

#[test]
fn pdb_digest_of_another_width_fails() {
    assert!(matches!(parse(&one_module_pdb(0, 1, &[7u8; 15])), Err(ParseError::Pdb { .. })));
    assert!(matches!(parse(&one_module_pdb(0, 2, &[7u8; 16])), Err(ParseError::Pdb { .. })));
}

#[test]
fn module_sizes_are_read_from_the_records() {
    let mut modules = Vec::new();
    module_entry(&mut modules, 4, 56, "hello.obj");
    module_entry(&mut modules, 0xffff, 0, "import.lib");
    module_entry(&mut modules, 5, 300, "a.obj");
    let stream = debug_stream(&modules);
    assert_eq!(
        module_sizes(&stream, 0),
        Some(ModuleSizes { stream: 4, symbols_size: 4, lines_size: 0, c13_lines_size: 56 })
    );
    assert_eq!(
        module_sizes(&stream, 1),
        Some(ModuleSizes { stream: 0xffff, symbols_size: 4, lines_size: 0, c13_lines_size: 0 })
    );
    assert_eq!(
        module_sizes(&stream, 2),
        Some(ModuleSizes { stream: 5, symbols_size: 4, lines_size: 0, c13_lines_size: 300 })
    );
    assert_eq!(module_sizes(&stream, 3), None);
    assert_eq!(module_sizes(&stream[..40], 0), None);
}

#[test]
fn line_information_must_lie_within_the_stream() {
    let sizes = ModuleSizes { stream: 4, symbols_size: 4, lines_size: 0, c13_lines_size: 56 };
    assert!(line_sizes_fit(&sizes, 60));
    assert!(!line_sizes_fit(&sizes, 59));
    let old = ModuleSizes { stream: 4, symbols_size: 4, lines_size: 8, c13_lines_size: 5000 };
    assert!(line_sizes_fit(&old, 0));
}

// An information stream whose block of names is empty and whose map holds
// one entry, which gives the place `offset` for its name.
fn info_with_name_at(offset: u32) -> Vec<u8> {
    let mut v = Vec::new();
    put_u32(&mut v, 20000404);
    put_u32(&mut v, 0);
    put_u32(&mut v, 1);
    v.extend_from_slice(&[0u8; 16]);
    put_u32(&mut v, 0);
    put_u32(&mut v, 1);
    put_u32(&mut v, 1);
    put_u32(&mut v, 0);
    put_u32(&mut v, 0);
    put_u32(&mut v, offset);
    put_u32(&mut v, 5);
    v
}

#[test]
fn name_map_must_point_into_the_block_of_names() {
    assert!(name_map_in_block(&info_stream(6)));
    assert!(name_map_in_block(&info_with_name_at(0)));
    assert!(!name_map_in_block(&info_with_name_at(1)));
    assert!(!name_map_in_block(&info_with_name_at(4000)));
    assert!(name_map_in_block(&[]));
    assert!(name_map_in_block(&info_with_name_at(1)[..40]));
    let mut cut = info_with_name_at(1);
    cut.truncate(cut.len() - 1);
    assert!(name_map_in_block(&cut));
}

#[test]
fn pdb_whose_name_map_points_beyond_the_names_fails() {
    let mut modules = Vec::new();
    module_entry(&mut modules, 0xffff, 0, "import.lib");
    let bytes = container(&[
        None,
        Some(info_with_name_at(1)),
        None,
        Some(debug_stream(&modules)),
        Some(module_stream(&[])),
        Some(names_stream(&[0u8])),
    ]);
    assert!(matches!(parse(&bytes), Err(ParseError::Pdb { .. })));
}
