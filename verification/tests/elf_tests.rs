use minikernel::elf::{
    locate_in_tables, locate_task, symbol_address, task_address, LocateError, SymbolEntry,
};

fn put16(v: &mut Vec<u8>, x: u16) {
    v.extend_from_slice(&x.to_le_bytes());
}

fn put32(v: &mut Vec<u8>, x: u32) {
    v.extend_from_slice(&x.to_le_bytes());
}

/// A little 32-bit ARM executable: one loadable segment at 0x0800_0000 that
/// starts at file offset 0, and two symbols, `other` at 0x0800_0000 and
/// `flash_blue` at 0x0800_0040.
fn tiny_elf() -> Vec<u8> {
    let mut v = Vec::new();
    // ELF header
    v.extend_from_slice(&[0x7f, b'E', b'L', b'F', 1, 1, 1, 0, 0, 0, 0, 0, 0, 0, 0, 0]);
    put16(&mut v, 2); // executable
    put16(&mut v, 40); // ARM
    put32(&mut v, 1);
    put32(&mut v, 0x0800_0041); // entry
    put32(&mut v, 52); // program headers
    put32(&mut v, 180); // section headers
    put32(&mut v, 0x0500_0200);
    put16(&mut v, 52);
    put16(&mut v, 32);
    put16(&mut v, 1);
    put16(&mut v, 40);
    put16(&mut v, 4);
    put16(&mut v, 3);
    assert_eq!(v.len(), 52);
    // program header: PT_LOAD
    for x in [1u32, 0, 0x0800_0000, 0x0800_0000, 340, 340, 5, 4] {
        put32(&mut v, x);
    }
    assert_eq!(v.len(), 84);
    // symbol table: null, flash_blue, other
    for _ in 0..16 {
        v.push(0);
    }
    put32(&mut v, 1);
    put32(&mut v, 0x0800_0040);
    put32(&mut v, 4);
    v.push(0x12);
    v.push(0);
    put16(&mut v, 0xfff1);
    put32(&mut v, 12);
    put32(&mut v, 0x0800_0000);
    put32(&mut v, 4);
    v.push(0x12);
    v.push(0);
    put16(&mut v, 0xfff1);
    assert_eq!(v.len(), 132);
    v.extend_from_slice(b"\0flash_blue\0other\0");
    assert_eq!(v.len(), 150);
    v.extend_from_slice(b"\0.symtab\0.strtab\0.shstrtab\0");
    assert_eq!(v.len(), 177);
    v.extend_from_slice(&[0, 0, 0]);
    // section headers
    for _ in 0..40 {
        v.push(0);
    }
    for x in [1u32, 2, 0, 0, 84, 48, 2, 1, 4, 16] {
        put32(&mut v, x);
    }
    for x in [9u32, 3, 0, 0, 132, 18, 0, 0, 1, 0] {
        put32(&mut v, x);
    }
    for x in [17u32, 3, 0, 0, 150, 27, 0, 0, 1, 0] {
        put32(&mut v, x);
    }
    assert_eq!(v.len(), 340);
    v
}

#[test]
fn finds_task_entry_in_object_file() {
    let bin = tiny_elf();
    assert_eq!(locate_task(&bin, b"flash_blue", 0x2000_0000), Ok(0x2000_0040));
    assert_eq!(locate_task(&bin, b"other", 0x2000_0000), Ok(0x2000_0000));
}

#[test]
fn unknown_name_gives_address_zero() {
    let bin = tiny_elf();
    assert_eq!(locate_task(&bin, b"flash_green", 0x2000_0000), Ok(0));
}

#[test]
fn entry_beyond_32_bits_is_refused() {
    let bin = tiny_elf();
    assert_eq!(locate_task(&bin, b"flash_blue", 0xFFFF_FFF0), Err(LocateError::AddressOverflow));
}

#[test]
fn garbage_is_not_an_object() {
    let bytes = vec![1u8, 2, 3, 4, 5, 6, 7, 8];
    assert_eq!(locate_task(&bytes, b"flash_blue", 0), Err(LocateError::NotAnObject));
}

#[test]
fn first_symbol_of_that_name_counts() {
    let symbols = vec![
        SymbolEntry { name: None, address: 5 },
        SymbolEntry { name: Some(b"task".to_vec()), address: 0x1_0000_0010 },
        SymbolEntry { name: Some(b"task".to_vec()), address: 0x20 },
    ];
    assert_eq!(symbol_address(&symbols, b"task"), 0x10);
    assert_eq!(symbol_address(&symbols, b"tas"), 0);
}

#[test]
fn first_segment_at_or_below_symbol_counts() {
    let segments = vec![(0x9000u64, 0x100u64, 0x10u64), (0x1000, 0x200, 0x10), (0x0, 0x300, 0x10)];
    assert_eq!(task_address(&segments, 0x1010, 0x4000), Some(0x200 + 0x4000 + 0x10));
    assert_eq!(task_address(&segments, 0x0500, 0x4000), Some(0x300 + 0x4000 + 0x500));
    assert_eq!(task_address(&segments[..1].to_vec(), 0x0500, 0x4000), Some(0));
    assert_eq!(task_address(&segments, 0x1010, 0xFFFF_FE00), None);
    let symbols = vec![SymbolEntry { name: Some(b"t".to_vec()), address: 0x1010 }];
    assert_eq!(locate_in_tables(&symbols, &segments, b"t", 0), Ok(0x210));
}
