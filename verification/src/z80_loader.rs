//! Decoder for Z80-style snapshots.
//!
//! A file starts with a 30-byte header. A program counter of zero in it says
//! that an extended header follows and that memory comes as a sequence of
//! tagged blocks; otherwise the rest of the file is one image of the 48 KiB
//! of memory.

use crate::bytes::{make_word, word};
use crate::error::Error;
use crate::pages::{zero_pages, zeros, PageMap};
use crate::rle::{decompress_z80_block, overlay, rle_expand};
use crate::snapshot::{
    after_push, build_snapshot, canonical_snapshot, has_required_pages, pages_sized, sna_header,
    snapshot_size, Machine, Registers, HEADER_SIZE, PAGE_SIZE, SNA_48K_SIZE,
};
use vstd::prelude::*;
use vstd::slice::{slice_subrange, slice_to_vec};

verus! {

/// Bytes in the base header.
pub const BASE_HEADER_SIZE: usize = 30;

/// Bytes in the memory image of a file without extended header.
pub const FLAT_MEMORY_SIZE: usize = 49152;

/// The block length that marks an uncompressed block of one page.
pub const RAW_BLOCK: u16 = 0xFFFF;

/// Whether the base header announces an extended header: its program counter
/// is zero.
pub open spec fn has_extension(data: Seq<u8>) -> bool {
    data[6] == 0 && data[7] == 0
}

/// The length field of the extended header.
pub open spec fn extension_len(data: Seq<u8>) -> u16 {
    word(data[30], data[31])
}

/// The number of bytes that follow the length field before memory starts.
///
/// The program counter is always read, so a length below two still takes
/// two bytes, and the bytes the length announces are skipped after them.
pub open spec fn extension_span(len: u16) -> int {
    if len >= 2 {
        len as int
    } else {
        2 + len
    }
}

/// Where the memory blocks start.
pub open spec fn body_start(data: Seq<u8>) -> int {
    if has_extension(data) {
        32 + extension_span(extension_len(data))
    } else {
        BASE_HEADER_SIZE as int
    }
}

/// Whether the file holds its whole header.
pub open spec fn header_complete(data: Seq<u8>) -> bool {
    &&& data.len() >= BASE_HEADER_SIZE
    &&& has_extension(data) ==> data.len() >= 32 && data.len() >= body_start(data)
}

/// The hardware mode byte; zero where the header has none.
pub open spec fn hardware_mode(data: Seq<u8>) -> u8 {
    if has_extension(data) && extension_len(data) >= 3 {
        data[34]
    } else {
        0
    }
}

/// The machine that a hardware mode stands for.
pub open spec fn machine_of_mode(mode: u8) -> Machine {
    if 3 <= mode <= 13 {
        Machine::Sinclair128K
    } else {
        Machine::Sinclair48K
    }
}

/// The machine the file is a snapshot of.
pub open spec fn z80_machine(data: Seq<u8>) -> Machine {
    machine_of_mode(hardware_mode(data))
}

/// Whether the memory image of a file without extended header is compressed.
pub open spec fn flat_compressed(data: Seq<u8>) -> bool {
    data[12] / 32 % 2 == 1
}

/// The registers that the header holds.
pub open spec fn z80_registers(data: Seq<u8>) -> Registers {
    Registers {
        i: data[10],
        hl_alt: word(data[19], data[20]),
        de_alt: word(data[17], data[18]),
        bc_alt: word(data[15], data[16]),
        af_alt: word(data[22], data[21]),
        hl: word(data[4], data[5]),
        de: word(data[13], data[14]),
        bc: word(data[2], data[3]),
        iy: word(data[23], data[24]),
        ix: word(data[25], data[26]),
        interrupt: (2 + data[28] / 4 % 2) as u8,
        r: (data[11] % 128 + 128 * (data[12] % 2)) as u8,
        af: word(data[1], data[0]),
        sp: word(data[8], data[9]),
        im: data[29] % 4,
        border: data[12] / 2 % 8,
        pc: if has_extension(data) {
            word(data[32], data[33])
        } else {
            word(data[6], data[7])
        },
        paging: if has_extension(data) && extension_len(data) >= 4 {
            data[35]
        } else {
            0
        },
    }
}

/// The page that a block with identifier `id` fills on `machine`, if any.
pub open spec fn page_of_block(machine: Machine, id: u8) -> Option<u8> {
    match machine {
        Machine::Sinclair48K => if id == 8 {
            Some(5u8)
        } else if id == 4 {
            Some(2u8)
        } else if id == 5 {
            Some(0u8)
        } else {
            None
        },
        Machine::Sinclair128K => if 3 <= id <= 10 {
            Some((id - 3) as u8)
        } else {
            None
        },
    }
}

/// The 48 KiB of memory that a file without extended header holds: the rest
/// of the file, expanded if the header says so, over zeros.
pub open spec fn flat_memory(data: Seq<u8>) -> Seq<u8> {
    let rest = data.skip(BASE_HEADER_SIZE as int);
    overlay(
        if flat_compressed(data) {
            rle_expand(rest)
        } else {
            rest
        },
        zeros(FLAT_MEMORY_SIZE as nat),
    )
}

/// The pages of a file without extended header: its memory in thirds, as
/// pages 5, 2 and 0.
pub open spec fn flat_pages(data: Seq<u8>) -> Map<u8, Seq<u8>> {
    let memory = flat_memory(data);
    zero_pages().insert(5, memory.subrange(0, 16384)).insert(
        2,
        memory.subrange(16384, 32768),
    ).insert(0, memory.subrange(32768, 49152))
}

/// The number of data bytes in a block whose length field is `len`.
pub open spec fn block_data_len(len: u16) -> int {
    if len == RAW_BLOCK {
        PAGE_SIZE as int
    } else {
        len as int
    }
}

/// The pages after the blocks from `pos` on were read into `pages`.
///
/// A block is three header bytes (length, then page identifier) and its
/// data. Reading ends at the end of the file, or silently at a block whose
/// data the file does not hold in full. A block header cut short is an
/// error: `None`.
pub open spec fn read_blocks(
    data: Seq<u8>,
    pos: int,
    machine: Machine,
    pages: Map<u8, Seq<u8>>,
) -> Option<Map<u8, Seq<u8>>>
    decreases data.len() - pos,
{
    if pos < 0 || pos >= data.len() {
        Some(pages)
    } else if pos + 3 > data.len() {
        None
    } else {
        let len = word(data[pos], data[pos + 1]);
        let end = pos + 3 + block_data_len(len);
        if end > data.len() {
            Some(pages)
        } else {
            let chunk = data.subrange(pos + 3, end);
            let next = match page_of_block(machine, data[pos + 2]) {
                None => pages,
                Some(page) => pages.insert(
                    page,
                    if len == RAW_BLOCK {
                        chunk
                    } else {
                        overlay(rle_expand(chunk), pages[page])
                    },
                ),
            };
            read_blocks(data, end, machine, next)
        }
    }
}

/// The pages that the file holds, or `None` where a block header is cut
/// short.
pub open spec fn z80_pages(data: Seq<u8>) -> Option<Map<u8, Seq<u8>>> {
    if has_extension(data) {
        read_blocks(data, body_start(data), z80_machine(data), zero_pages())
    } else {
        Some(flat_pages(data))
    }
}

/// What converting the file `data` gives.
pub open spec fn z80_to_sna(data: Seq<u8>) -> Result<(Seq<u8>, Machine), Error> {
    if !header_complete(data) {
        Err(Error::MalformedInput)
    } else {
        match z80_pages(data) {
            None => Err(Error::MalformedInput),
            Some(pages) => match canonical_snapshot(z80_machine(data), z80_registers(data), pages) {
                Ok(bytes) => Ok((bytes, z80_machine(data))),
                Err(e) => Err(e),
            },
        }
    }
}

/// The outcome of a conversion, with the bytes as a sequence.
pub open spec fn converted(r: Result<(Vec<u8>, Machine), Error>) -> Result<
    (Seq<u8>, Machine),
    Error,
> {
    match r {
        Ok((bytes, machine)) => Ok((bytes@, machine)),
        Err(e) => Err(e),
    }
}

/// The machine that a hardware mode stands for.
pub fn machine_for_mode(mode: u8) -> (machine: Machine)
    ensures
        machine == machine_of_mode(mode),
{
    if 3 <= mode && mode <= 13 {
        Machine::Sinclair128K
    } else {
        Machine::Sinclair48K
    }
}

/// The page that a block with identifier `id` fills on `machine`, if any.
pub fn page_for_block(machine: Machine, id: u8) -> (page: Option<u8>)
    ensures
        page == page_of_block(machine, id),
        page matches Some(p) ==> p < 8,
{
    match machine {
        Machine::Sinclair48K => if id == 8 {
            Some(5)
        } else if id == 4 {
            Some(2)
        } else if id == 5 {
            Some(0)
        } else {
            None
        },
        Machine::Sinclair128K => if 3 <= id && id <= 10 {
            Some(id - 3)
        } else {
            None
        },
    }
}

/// What the header of a file says, once it is known to be complete.
struct Header {
    registers: Registers,
    machine: Machine,
    extended: bool,
    body: usize,
}

/// Reads the base header and, where there is one, the extended header.
fn read_header(data: &[u8]) -> (r: Option<Header>)
    ensures
        r is Some == header_complete(data@),
        r matches Some(h) ==> {
            &&& h.registers == z80_registers(data@)
            &&& h.machine == z80_machine(data@)
            &&& h.extended == has_extension(data@)
            &&& h.body == body_start(data@)
            &&& h.body <= data@.len()
        },
{
    if data.len() < BASE_HEADER_SIZE {
        return None;
    }
    let extended = data[6] == 0 && data[7] == 0;
    let mut pc = make_word(data[6], data[7]);
    let mut mode: u8 = 0;
    let mut paging: u8 = 0;
    let mut body: usize = BASE_HEADER_SIZE;
    if extended {
        if data.len() < 32 {
            return None;
        }
        let len = make_word(data[30], data[31]);
        let span: usize = if len >= 2 {
            len as usize
        } else {
            2 + len as usize
        };
        if data.len() - 32 < span {
            return None;
        }
        body = 32 + span;
        pc = make_word(data[32], data[33]);
        if len >= 3 {
            mode = data[34];
        }
        if len >= 4 {
            paging = data[35];
        }
    }
    let registers = Registers {
        i: data[10],
        hl_alt: make_word(data[19], data[20]),
        de_alt: make_word(data[17], data[18]),
        bc_alt: make_word(data[15], data[16]),
        af_alt: make_word(data[22], data[21]),
        hl: make_word(data[4], data[5]),
        de: make_word(data[13], data[14]),
        bc: make_word(data[2], data[3]),
        iy: make_word(data[23], data[24]),
        ix: make_word(data[25], data[26]),
        interrupt: 2 + data[28] / 4 % 2,
        r: data[11] % 128 + 128 * (data[12] % 2),
        af: make_word(data[1], data[0]),
        sp: make_word(data[8], data[9]),
        im: data[29] % 4,
        border: data[12] / 2 % 8,
        pc,
        paging,
    };
    Some(Header { registers, machine: machine_for_mode(mode), extended, body })
}

/// Copies `bytes` into a vector of its own.
fn copy_of(bytes: &[u8]) -> (v: Vec<u8>)
    ensures
        v@ == bytes@,
{
    slice_to_vec(bytes)
}

/// Reads the one memory image of a file without extended header.
fn load_flat(data: &[u8]) -> (pages: PageMap)
    requires
        data@.len() >= BASE_HEADER_SIZE,
    ensures
        pages.wf(),
        pages@ == flat_pages(data@),
{
    let rest = slice_subrange(data, BASE_HEADER_SIZE, data.len());
    assert(rest@ == data@.skip(BASE_HEADER_SIZE as int));
    let mut memory = vec![0u8; FLAT_MEMORY_SIZE];
    assert(memory@ =~= zeros(FLAT_MEMORY_SIZE as nat));
    if data[12] / 32 % 2 == 1 {
        decompress_z80_block(rest, memory.as_mut_slice());
    } else {
        let mut k: usize = 0;
        while k < rest.len() && k < FLAT_MEMORY_SIZE
            invariant
                k <= rest.len(),
                k <= FLAT_MEMORY_SIZE,
                memory.len() == FLAT_MEMORY_SIZE,
                forall|n: int| 0 <= n < k ==> memory@[n] == rest@[n],
                forall|n: int| k <= n < FLAT_MEMORY_SIZE ==> memory@[n] == 0u8,
            decreases rest.len() - k,
        {
            memory[k] = rest[k];
            k += 1;
        }
        assert(memory@ =~= overlay(rest@, zeros(FLAT_MEMORY_SIZE as nat)));
    }
    assert(memory@ == flat_memory(data@));
    let mut pages = PageMap::zeroed();
    pages.insert(5, copy_of(slice_subrange(memory.as_slice(), 0, 16384)));
    pages.insert(2, copy_of(slice_subrange(memory.as_slice(), 16384, 32768)));
    pages.insert(0, copy_of(slice_subrange(memory.as_slice(), 32768, 49152)));
    pages
}

/// Reads the memory blocks from `start` on.
fn load_blocks(data: &[u8], start: usize, machine: Machine) -> (r: Option<PageMap>)
    requires
        start <= data@.len(),
    ensures
        r is Some == read_blocks(data@, start as int, machine, zero_pages()) is Some,
        r matches Some(pages) ==> pages.wf() && Some(pages@) == read_blocks(
            data@,
            start as int,
            machine,
            zero_pages(),
        ),
{
    let ghost goal = read_blocks(data@, start as int, machine, zero_pages());
    let mut pages = PageMap::zeroed();
    let mut pos: usize = start;
    while pos < data.len()
        invariant
            pos <= data.len(),
            pages.wf(),
            forall|p: u8| p < 8 ==> pages@.dom().contains(p),
            goal == read_blocks(data@, start as int, machine, zero_pages()),
            read_blocks(data@, pos as int, machine, pages@) == goal,
        decreases data.len() - pos,
    {
        if data.len() - pos < 3 {
            return None;
        }
        let len = make_word(data[pos], data[pos + 1]);
        let id = data[pos + 2];
        let size: usize = if len == RAW_BLOCK {
            PAGE_SIZE
        } else {
            len as usize
        };
        if data.len() - pos - 3 < size {
            return Some(pages);
        }
        let end: usize = pos + 3 + size;
        let chunk = slice_subrange(data, pos + 3, end);
        match page_for_block(machine, id) {
            None => {},
            Some(page) => {
                if len == RAW_BLOCK {
                    pages.insert(page, copy_of(chunk));
                } else {
                    let mut content = match pages.get(page) {
                        Some(held) => copy_of(held.as_slice()),
                        None => Vec::new(),
                    };
                    decompress_z80_block(chunk, content.as_mut_slice());
                    pages.insert(page, content);
                }
            },
        }
        pos = end;
    }
    Some(pages)
}

/// Converts a Z80-style snapshot into the canonical snapshot of its machine.
///
/// Fails with [`Error::MalformedInput`] exactly when the file is shorter
/// than its header says, or when a block header is cut short by the end of
/// the file. A snapshot of the 48 KiB machine is always 49179 bytes long and
/// starts with the register header, which holds the stack pointer after the
/// program counter was pushed.
pub fn convert_z80_to_sna(z80_data: &[u8]) -> (r: Result<(Vec<u8>, Machine), Error>)
    ensures
        converted(r) == z80_to_sna(z80_data@),
        r is Ok == (header_complete(z80_data@) && z80_pages(z80_data@) is Some),
        r matches Err(e) ==> e == Error::MalformedInput,
        r matches Ok((bytes, machine)) ==> {
            &&& machine == z80_machine(z80_data@)
            &&& bytes.len() == snapshot_size(machine, z80_registers(z80_data@).paging)
            &&& machine == Machine::Sinclair48K ==> bytes@.subrange(0, HEADER_SIZE as int)
                == sna_header(after_push(z80_registers(z80_data@)))
        },
{
    let header = match read_header(z80_data) {
        Some(h) => h,
        None => { return Err(Error::MalformedInput); },
    };
    let pages = if header.extended {
        match load_blocks(z80_data, header.body, header.machine) {
            Some(p) => p,
            None => { return Err(Error::MalformedInput); },
        }
    } else {
        load_flat(z80_data)
    };
    proof {
        pages.lemma_sized();
        lemma_pages_complete(z80_data@);
        crate::snapshot::lemma_snapshot_layout(header.machine, header.registers, pages@);
    }
    match build_snapshot(header.machine, &header.registers, &pages) {
        Ok(bytes) => Ok((bytes, header.machine)),
        Err(e) => Err(e),
    }
}

/// Reading blocks into pages 0 to 7 leaves pages 0 to 7.
proof fn lemma_blocks_keep_pages(data: Seq<u8>, pos: int, machine: Machine, pages: Map<u8, Seq<u8>>)
    requires
        forall|p: u8| p < 8 ==> pages.dom().contains(p),
    ensures
        read_blocks(data, pos, machine, pages) matches Some(after) ==> forall|p: u8|
            p < 8 ==> after.dom().contains(p),
    decreases data.len() - pos,
{
    if pos < 0 || pos >= data.len() {
    } else if pos + 3 > data.len() {
    } else {
        let len = word(data[pos], data[pos + 1]);
        let end = pos + 3 + block_data_len(len);
        if end > data.len() {
        } else {
            let chunk = data.subrange(pos + 3, end);
            let next = match page_of_block(machine, data[pos + 2]) {
                None => pages,
                Some(page) => pages.insert(
                    page,
                    if len == RAW_BLOCK {
                        chunk
                    } else {
                        overlay(rle_expand(chunk), pages[page])
                    },
                ),
            };
            lemma_blocks_keep_pages(data, end, machine, next);
        }
    }
}

/// Whatever pages a file holds, they include every page of either machine.
pub proof fn lemma_pages_complete(data: Seq<u8>)
    ensures
        z80_pages(data) matches Some(pages) ==> has_required_pages(z80_machine(data), pages),
{
    if has_extension(data) {
        lemma_blocks_keep_pages(data, body_start(data), z80_machine(data), zero_pages());
    }
}

/// Reading blocks into full pages leaves full pages.
proof fn lemma_blocks_keep_size(data: Seq<u8>, pos: int, machine: Machine, pages: Map<u8, Seq<u8>>)
    requires
        pages_sized(pages),
        forall|p: u8| p < 8 ==> pages.dom().contains(p),
    ensures
        read_blocks(data, pos, machine, pages) matches Some(after) ==> pages_sized(after),
    decreases data.len() - pos,
{
    if pos < 0 || pos >= data.len() {
    } else if pos + 3 > data.len() {
    } else {
        let len = word(data[pos], data[pos + 1]);
        let end = pos + 3 + block_data_len(len);
        if end > data.len() {
        } else {
            let chunk = data.subrange(pos + 3, end);
            let next = match page_of_block(machine, data[pos + 2]) {
                None => pages,
                Some(page) => pages.insert(
                    page,
                    if len == RAW_BLOCK {
                        chunk
                    } else {
                        overlay(rle_expand(chunk), pages[page])
                    },
                ),
            };
            assert(pages_sized(next)) by {
                assert forall|p: u8| next.dom().contains(p) implies (#[trigger] next[p]).len()
                    == PAGE_SIZE by {
                    if pages.dom().contains(p) {
                        assert(pages[p].len() == PAGE_SIZE);
                    }
                }
            }
            lemma_blocks_keep_size(data, end, machine, next);
        }
    }
}

/// Every file that converts gives a snapshot of the size of its machine. For
/// the 48 KiB machine that is 49179 bytes, and the first 27 of them are the
/// register header, which holds the stack pointer after the program counter
/// was pushed.
pub proof fn lemma_z80_snapshot_layout(data: Seq<u8>)
    ensures
        z80_to_sna(data) matches Ok((bytes, machine)) ==> {
            &&& machine == z80_machine(data)
            &&& bytes.len() == snapshot_size(machine, z80_registers(data).paging)
            &&& machine == Machine::Sinclair48K ==> bytes.len() == SNA_48K_SIZE && bytes.subrange(
                0,
                HEADER_SIZE as int,
            ) == sna_header(after_push(z80_registers(data)))
        },
{
    if header_complete(data) && z80_pages(data) is Some {
        let pages = z80_pages(data)->0;
        lemma_pages_complete(data);
        assert(pages_sized(zero_pages()));
        if has_extension(data) {
            lemma_blocks_keep_size(data, body_start(data), z80_machine(data), zero_pages());
        } else {
            assert(pages_sized(pages));
        }
        crate::snapshot::lemma_snapshot_layout(z80_machine(data), z80_registers(data), pages);
    }
}

} // verus!
