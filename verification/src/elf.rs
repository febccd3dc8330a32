//! Finding the entry of a task that was built as a separate program and
//! linked into the kernel image as raw bytes: the task's entry symbol is
//! looked up in the object file's symbol table, and its address is moved
//! from the segment it falls in to where that segment's bytes lie in memory.
use vstd::prelude::*;
use object::{Object, ObjectSegment, ObjectSymbol};

verus! {

/// Bytes stored with (at least) the alignment of `Align`: the empty array
/// takes no room but gives the whole value that alignment. Task programs
/// embedded in the kernel image are held this way, so that their object
/// files can be read in place.
pub struct AlignedAs<Align, Bytes: ?Sized> {
    pub _align: [Align; 0],
    pub bytes: Bytes,
}

/// A symbol of an object file: the bytes of its name (`None` where the name
/// could not be read) and its address.
pub struct SymbolEntry {
    pub name: Option<Vec<u8>>,
    pub address: u64,
}

/// A symbol as a plain value.
pub open spec fn symbol_view(e: SymbolEntry) -> (Option<Seq<u8>>, u64) {
    (
        match e.name {
            Some(n) => Some(n@),
            None => None,
        },
        e.address,
    )
}

/// A list of symbols as plain values.
pub open spec fn symbols_view(v: Seq<SymbolEntry>) -> Seq<(Option<Seq<u8>>, u64)> {
    v.map_values(|e: SymbolEntry| symbol_view(e))
}

/// What the `object` crate reads from the bytes of an object file as its
/// symbol table (`File::parse`, then `Object::symbols`), each symbol by the
/// bytes of its name and its address; `None` where the bytes do not parse.
pub uninterp spec fn elf_symbols(data: Seq<u8>) -> Option<Seq<(Option<Seq<u8>>, u64)>>;

/// What the `object` crate reads from the bytes of an object file as its
/// loadable segments (`File::parse`, then `Object::segments`), each by its
/// address and its file range (offset, size); `None` where the bytes do not
/// parse.
pub uninterp spec fn elf_segments(data: Seq<u8>) -> Option<Seq<(u64, u64, u64)>>;

/// Parses `data` with `object::File::parse` and lists `Object::symbols` of
/// the file, each by `ObjectSymbol::name_bytes` (`None` where that returns an
/// error) and `ObjectSymbol::address`. The contract only ties the result to
/// the name `elf_symbols` of the bytes: what the parser makes of the bytes is
/// not stated.
#[verifier::external_body]
fn read_symbols(data: &[u8]) -> (symbols: Option<Vec<SymbolEntry>>)
    ensures
        match symbols {
            Some(v) => elf_symbols(data@) == Some(symbols_view(v@)),
            None => elf_symbols(data@) is None,
        },
{
    let file = object::File::parse(data).ok()?;
    let symbols = file.symbols().map(
        |s| SymbolEntry { name: s.name_bytes().ok().map(|b| b.to_vec()), address: s.address() },
    );
    Some(symbols.collect())
}

/// Parses `data` with `object::File::parse` and lists `Object::segments` of
/// the file, each by `ObjectSegment::address` and the two halves of
/// `ObjectSegment::file_range`. The contract only ties the result to the name
/// `elf_segments` of the bytes: what the parser makes of the bytes is not
/// stated.
#[verifier::external_body]
fn read_segments(data: &[u8]) -> (segments: Option<Vec<(u64, u64, u64)>>)
    ensures
        match segments {
            Some(v) => elf_segments(data@) == Some(v@),
            None => elf_segments(data@) is None,
        },
{
    let file = object::File::parse(data).ok()?;
    let segments = file.segments().map(
        |s| (s.address(), s.file_range().0, s.file_range().1),
    );
    Some(segments.collect())
}

/// Whether a symbol carries exactly the name `name`.
pub open spec fn names_symbol(entry: (Option<Seq<u8>>, u64), name: Seq<u8>) -> bool {
    entry.0 == Some(name)
}

/// `i` is the first position in `symbols` of a symbol named `name`.
pub open spec fn first_named(symbols: Seq<(Option<Seq<u8>>, u64)>, name: Seq<u8>, i: int) -> bool {
    &&& 0 <= i < symbols.len()
    &&& names_symbol(symbols[i], name)
    &&& forall|j: int| 0 <= j < i ==> !names_symbol(#[trigger] symbols[j], name)
}

/// The address of the first symbol named `name`, cut to 32 bits; 0 where no
/// symbol has that name.
pub open spec fn symbol_address_spec(symbols: Seq<(Option<Seq<u8>>, u64)>, name: Seq<u8>) -> u32 {
    if exists|i: int| first_named(symbols, name, i) {
        symbols[choose|i: int| first_named(symbols, name, i)].1 as u32
    } else {
        0
    }
}

/// `i` is the first segment whose address, cut to 32 bits, is at most `sym_addr`.
pub open spec fn first_below(segments: Seq<(u64, u64, u64)>, sym_addr: u32, i: int) -> bool {
    &&& 0 <= i < segments.len()
    &&& sym_addr >= segments[i].0 as u32
    &&& forall|j: int| 0 <= j < i ==> sym_addr < (#[trigger] segments[j]).0 as u32
}

/// Where the task's entry lies in memory, as an integer: the file offset of
/// the first segment at or below the symbol (cut to 32 bits), plus the
/// address where the object file's bytes lie, plus the symbol's distance
/// from that segment's start; 0 where no segment qualifies.
pub open spec fn task_address_spec(segments: Seq<(u64, u64, u64)>, sym_addr: u32, offset: u32) -> int {
    if exists|i: int| first_below(segments, sym_addr, i) {
        let i = choose|i: int| first_below(segments, sym_addr, i);
        (segments[i].1 as u32) + offset + (sym_addr - (segments[i].0 as u32))
    } else {
        0
    }
}

/// The symbol address comes from a symbol whose name is exactly `name`:
/// where the symbol at `i` has the name `name`, byte for byte, and none
/// before it does, the result is that symbol's address cut to 32 bits; where
/// no symbol has exactly that name, the result is 0; and a non-zero result
/// is the address of some symbol with exactly that name.
pub proof fn lemma_symbol_address_exact(symbols: Seq<(Option<Seq<u8>>, u64)>, name: Seq<u8>, i: int)
    ensures
        (0 <= i < symbols.len() && symbols[i].0 == Some(name) && forall|j: int|
            0 <= j < i ==> (#[trigger] symbols[j]).0 != Some(name)) ==> symbol_address_spec(
            symbols,
            name,
        ) == symbols[i].1 as u32,
        (forall|j: int| 0 <= j < symbols.len() ==> (#[trigger] symbols[j]).0 != Some(name))
            ==> symbol_address_spec(symbols, name) == 0,
        symbol_address_spec(symbols, name) != 0 ==> exists|j: int|
            0 <= j < symbols.len() && (#[trigger] symbols[j]).0 == Some(name)
                && symbol_address_spec(symbols, name) == symbols[j].1 as u32,
{
    if 0 <= i < symbols.len() && symbols[i].0 == Some(name) && forall|j: int|
        0 <= j < i ==> (#[trigger] symbols[j]).0 != Some(name) {
        assert(first_named(symbols, name, i));
        let k = choose|k: int| first_named(symbols, name, k);
        assert(k == i) by {
            if k < i {
                assert(symbols[k].0 != Some(name));
            } else if k > i {
                assert(!names_symbol(symbols[i], name));
            }
        }
    }
    if exists|k: int| first_named(symbols, name, k) {
        let k = choose|k: int| first_named(symbols, name, k);
        assert(symbols[k].0 == Some(name));
    }
}

/// Why a task's entry could not be found.
#[derive(PartialEq, Eq, Structural, Debug, Clone, Copy)]
pub enum LocateError {
    /// The bytes are not an object file that the `object` crate reads.
    NotAnObject,
    /// The entry's address does not fit 32 bits.
    AddressOverflow,
}

/// Whether two byte strings are equal.
fn same_bytes(a: &Vec<u8>, b: &[u8]) -> (same: bool)
    ensures
        same == (a@ == b@),
{
    if a.len() != b.len() {
        return false;
    }
    let mut i: usize = 0;
    while i < a.len()
        invariant
            a.len() == b.len(),
            i <= a.len(),
            forall|j: int| 0 <= j < i ==> a@[j] == b@[j],
        decreases a.len() - i,
    {
        if a[i] != b[i] {
            return false;
        }
        i += 1;
    }
    assert(a@ =~= b@);
    true
}

/// The address of the first symbol named `name`, cut to 32 bits, or 0.
pub fn symbol_address(symbols: &Vec<SymbolEntry>, name: &[u8]) -> (sym_addr: u32)
    ensures
        sym_addr == symbol_address_spec(symbols_view(symbols@), name@),
{
    let ghost view = symbols_view(symbols@);
    let mut sym_addr: u32 = 0;
    let mut i: usize = 0;
    while i < symbols.len()
        invariant
            i <= symbols.len(),
            view == symbols_view(symbols@),
            view.len() == symbols.len(),
            sym_addr == 0,
            forall|j: int| 0 <= j < i ==> !names_symbol(#[trigger] view[j], name@),
        decreases symbols.len() - i,
    {
        let found = match &symbols[i].name {
            Some(n) => same_bytes(n, name),
            None => false,
        };
        assert(view[i as int] == symbol_view(symbols@[i as int]));
        if found {
            assert(first_named(view, name@, i as int));
            let sym_addr = symbols[i].address as u32;
            proof {
                let k = choose|k: int| first_named(view, name@, k);
                assert(k == i as int) by {
                    if k < i {
                        assert(!names_symbol(view[k], name@));
                    } else if k > i {
                        assert(!names_symbol(view[i as int], name@));
                    }
                }
            }
            return sym_addr;
        }
        i += 1;
    }
    assert forall|k: int| !first_named(view, name@, k) by {
        if 0 <= k < view.len() {
            assert(!names_symbol(view[k], name@));
        }
    }
    sym_addr
}

/// Where the task's entry lies in memory (see `task_address_spec`), or
/// `None` where that does not fit 32 bits.
pub fn task_address(segments: &Vec<(u64, u64, u64)>, sym_addr: u32, offset: u32) -> (task_addr: Option<u32>)
    ensures
        match task_addr {
            Some(a) => a == task_address_spec(segments@, sym_addr, offset),
            None => task_address_spec(segments@, sym_addr, offset) > u32::MAX,
        },
{
    let mut i: usize = 0;
    while i < segments.len()
        invariant
            i <= segments.len(),
            forall|j: int| 0 <= j < i ==> sym_addr < (#[trigger] segments@[j]).0 as u32,
        decreases segments.len() - i,
    {
        let seg_addr: u32 = segments[i].0 as u32;
        if sym_addr >= seg_addr {
            assert(first_below(segments@, sym_addr, i as int));
            proof {
                let k = choose|k: int| first_below(segments@, sym_addr, k);
                assert(k == i as int) by {
                    if k < i {
                        assert(sym_addr < segments@[k].0 as u32);
                    } else if k > i {
                        assert(sym_addr < segments@[i as int].0 as u32);
                    }
                }
            }
            let mut task_addr: u32 = segments[i].1 as u32;
            if task_addr > u32::MAX - offset {
                return None;
            }
            task_addr += offset;
            if task_addr > u32::MAX - (sym_addr - seg_addr) {
                return None;
            }
            task_addr += sym_addr - seg_addr;
            return Some(task_addr);
        }
        i += 1;
    }
    assert forall|k: int| !first_below(segments@, sym_addr, k) by {
        if 0 <= k < segments@.len() {
            assert(sym_addr < segments@[k].0 as u32);
        }
    }
    Some(0)
}

/// Finds a task's entry from the object file's tables: the first symbol
/// named `name`, then the first segment at or below it.
pub fn locate_in_tables(
    symbols: &Vec<SymbolEntry>,
    segments: &Vec<(u64, u64, u64)>,
    name: &[u8],
    offset: u32,
) -> (entry: Result<u32, LocateError>)
    ensures
        ({
            let addr = task_address_spec(
                segments@,
                symbol_address_spec(symbols_view(symbols@), name@),
                offset,
            );
            &&& addr <= u32::MAX ==> entry == Ok::<u32, LocateError>(addr as u32)
            &&& addr > u32::MAX ==> entry == Err::<u32, LocateError>(LocateError::AddressOverflow)
        }),
{
    let sym_addr = symbol_address(symbols, name);
    match task_address(segments, sym_addr, offset) {
        Some(a) => Ok(a),
        None => Err(LocateError::AddressOverflow),
    }
}

/// Finds the entry of the task named `name` in the object file `task_bin`,
/// whose bytes lie in memory from address `offset` on.
pub fn locate_task(task_bin: &[u8], name: &[u8], offset: u32) -> (entry: Result<u32, LocateError>)
    ensures
        elf_symbols(task_bin@) is None ==> entry == Err::<u32, LocateError>(LocateError::NotAnObject),
        elf_segments(task_bin@) is None ==> entry == Err::<u32, LocateError>(LocateError::NotAnObject),
        elf_symbols(task_bin@) matches Some(symbols) ==> (elf_segments(task_bin@) matches Some(
            segments,
        ) ==> {
            let addr = task_address_spec(segments, symbol_address_spec(symbols, name@), offset);
            &&& addr <= u32::MAX ==> entry == Ok::<u32, LocateError>(addr as u32)
            &&& addr > u32::MAX ==> entry == Err::<u32, LocateError>(LocateError::AddressOverflow)
        }),
{
    let symbols = match read_symbols(task_bin) {
        Some(s) => s,
        None => return Err(LocateError::NotAnObject),
    };
    let segments = match read_segments(task_bin) {
        Some(s) => s,
        None => return Err(LocateError::NotAnObject),
    };
    locate_in_tables(&symbols, &segments, name, offset)
}

} // verus!
