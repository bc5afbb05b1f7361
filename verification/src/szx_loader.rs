//! Decoder for SZX-style snapshots.
//!
//! A file is an eight-byte header and a stream of chunks. Each chunk has a
//! four-byte tag, a 32-bit little-endian length and that many bytes of data.
//! Three tags matter here: the registers, a memory page, and the border
//! colour with the paging byte. Every other chunk is passed over.

use crate::bytes::{le_u16, le_u32, make_word, read_le_u16, read_le_u32, word};
use crate::codec::{decompress_data, zlib_inflated};
use crate::error::Error;
use crate::pages::{stored, PageMap};
use crate::rle::overlay;
use crate::snapshot::{
    after_push, build_snapshot, canonical_snapshot, sna_header, snapshot_size, Machine, Registers,
    HEADER_SIZE,
};
use crate::z80_loader::converted;
use vstd::prelude::*;
use vstd::slice::{slice_subrange, slice_to_vec};

verus! {

/// Bytes in the file header.
pub const FILE_HEADER_SIZE: usize = 8;

/// Bytes in a chunk header.
pub const CHUNK_HEADER_SIZE: usize = 8;

/// Bytes kept of a register chunk.
pub const REGISTER_AREA: usize = 37;

/// Whether the four bytes of `data` at `pos` are `a`, `b`, `c`, `d`.
pub open spec fn tag_at(data: Seq<u8>, pos: int, a: u8, b: u8, c: u8, d: u8) -> bool {
    data[pos] == a && data[pos + 1] == b && data[pos + 2] == c && data[pos + 3] == d
}

/// Whether the file starts with the signature `ZXST`.
pub open spec fn has_signature(data: Seq<u8>) -> bool {
    data.len() >= 4 && tag_at(data, 0, 0x5A, 0x58, 0x53, 0x54)
}

/// Whether the chunk at `pos` holds registers: tag `Z80R`.
pub open spec fn is_register_chunk(data: Seq<u8>, pos: int) -> bool {
    tag_at(data, pos, 0x5A, 0x38, 0x30, 0x52)
}

/// Whether the chunk at `pos` holds a memory page: tag `RAMP`.
pub open spec fn is_page_chunk(data: Seq<u8>, pos: int) -> bool {
    tag_at(data, pos, 0x52, 0x41, 0x4D, 0x50)
}

/// Whether the chunk at `pos` holds border and paging: tag `SPCR`.
pub open spec fn is_border_chunk(data: Seq<u8>, pos: int) -> bool {
    tag_at(data, pos, 0x53, 0x50, 0x43, 0x52)
}

/// The machine that a machine identifier stands for, if it is supported.
pub open spec fn machine_of_id(id: u8) -> Option<Machine> {
    if id == 1 || id == 2 {
        Some(Machine::Sinclair48K)
    } else if 3 <= id <= 6 {
        Some(Machine::Sinclair128K)
    } else {
        None
    }
}

/// What the chunks read so far have said.
pub struct Scan {
    /// The register area, [`REGISTER_AREA`] bytes.
    pub area: Seq<u8>,
    pub border: u8,
    pub paging: u8,
    pub pages: Map<u8, Seq<u8>>,
}

/// The state before any chunk: a register area of zeros, no page.
pub open spec fn initial_scan() -> Scan {
    Scan {
        area: crate::pages::zeros(REGISTER_AREA as nat),
        border: 0,
        paging: 0,
        pages: Map::empty(),
    }
}

/// The number of bytes a register chunk of length `size` contributes.
pub open spec fn kept_registers(size: u32) -> int {
    if size < REGISTER_AREA {
        size as int
    } else {
        REGISTER_AREA as int
    }
}

/// The content of a page chunk whose data, `size` bytes, starts at `body`:
/// the bytes after the flags word and the page number, decoded as a zlib
/// stream where bit 0 of the flags is set. `None` where they do not decode.
pub open spec fn page_content(data: Seq<u8>, body: int, size: u32) -> Option<Seq<u8>> {
    let payload = data.subrange(body + 3, body + size);
    if le_u16(data.subrange(body, body + 2)) % 2 == 1 {
        zlib_inflated(payload)
    } else {
        Some(payload)
    }
}

/// The state after the chunk at `pos`, whose data starts at `body` and is
/// `size` bytes long.
///
/// A register chunk overwrites the start of the register area. A page chunk
/// offers its content as the page it names; the content is taken only if it
/// is a full page. A border chunk sets border and paging byte. A chunk whose
/// fields the file does not hold in full is malformed, as is a page chunk or
/// a border chunk too short for its own fields.
pub open spec fn after_chunk(data: Seq<u8>, pos: int, body: int, size: u32, st: Scan) -> Result<
    Scan,
    Error,
> {
    if is_register_chunk(data, pos) {
        let n = kept_registers(size);
        if body + n > data.len() {
            Err(Error::MalformedInput)
        } else {
            Ok(Scan { area: overlay(data.subrange(body, body + n), st.area), ..st })
        }
    } else if is_page_chunk(data, pos) {
        if size < 3 || body + size > data.len() {
            Err(Error::MalformedInput)
        } else {
            match page_content(data, body, size) {
                None => Err(Error::DecompressionFailure),
                Some(content) => Ok(
                    Scan { pages: stored(st.pages, data[body + 2], content), ..st },
                ),
            }
        }
    } else if is_border_chunk(data, pos) {
        if size < 2 || body + 2 > data.len() {
            Err(Error::MalformedInput)
        } else {
            Ok(Scan { border: data[body], paging: data[body + 1], ..st })
        }
    } else {
        Ok(st)
    }
}

/// The state after the chunks from `pos` on.
///
/// Reading ends where fewer than four bytes are left for a tag, or after a
/// chunk whose length reaches beyond the file. A tag without its length
/// field is an error.
pub open spec fn scan_chunks(data: Seq<u8>, pos: int, st: Scan) -> Result<Scan, Error>
    decreases data.len() - pos,
{
    if pos < 0 || pos + 4 > data.len() {
        Ok(st)
    } else if pos + 8 > data.len() {
        Err(Error::MalformedInput)
    } else {
        let size = le_u32(data.subrange(pos + 4, pos + 8));
        match after_chunk(data, pos, pos + 8, size, st) {
            Err(e) => Err(e),
            Ok(next) => if pos + 8 + size > data.len() {
                Ok(next)
            } else {
                scan_chunks(data, pos + 8 + size, next)
            },
        }
    }
}

/// The registers that a scan has found.
pub open spec fn szx_registers(st: Scan) -> Registers {
    let a = st.area;
    Registers {
        i: a[0x18],
        hl_alt: word(a[0x0E], a[0x0F]),
        de_alt: word(a[0x0C], a[0x0D]),
        bc_alt: word(a[0x0A], a[0x0B]),
        af_alt: word(a[0x08], a[0x09]),
        hl: word(a[0x06], a[0x07]),
        de: word(a[0x04], a[0x05]),
        bc: word(a[0x02], a[0x03]),
        iy: word(a[0x12], a[0x13]),
        ix: word(a[0x10], a[0x11]),
        interrupt: if a[0x1B] != 0 {
            6
        } else {
            2
        },
        r: a[0x19],
        af: word(a[0x00], a[0x01]),
        sp: word(a[0x14], a[0x15]),
        im: a[0x1C],
        border: st.border % 8,
        pc: word(a[0x16], a[0x17]),
        paging: st.paging,
    }
}

/// Whether the file header is whole, signed, and names a supported machine.
pub open spec fn header_accepted(data: Seq<u8>) -> bool {
    data.len() >= FILE_HEADER_SIZE && has_signature(data) && machine_of_id(data[6]) is Some
}

/// What converting the file `data` gives.
pub open spec fn szx_to_sna(data: Seq<u8>) -> Result<(Seq<u8>, Machine), Error> {
    if !header_accepted(data) {
        Err(Error::MalformedInput)
    } else {
        let machine = machine_of_id(data[6])->0;
        match scan_chunks(data, FILE_HEADER_SIZE as int, initial_scan()) {
            Err(e) => Err(e),
            Ok(st) => match canonical_snapshot(machine, szx_registers(st), st.pages) {
                Ok(bytes) => Ok((bytes, machine)),
                Err(e) => Err(e),
            },
        }
    }
}

/// The machine that a machine identifier stands for, if it is supported.
pub fn machine_for_id(id: u8) -> (machine: Option<Machine>)
    ensures
        machine == machine_of_id(id),
{
    if id == 1 || id == 2 {
        Some(Machine::Sinclair48K)
    } else if 3 <= id && id <= 6 {
        Some(Machine::Sinclair128K)
    } else {
        None
    }
}

/// Whether the four bytes of `data` at `pos` are `a`, `b`, `c`, `d`.
fn tag_is(data: &[u8], pos: usize, a: u8, b: u8, c: u8, d: u8) -> (r: bool)
    requires
        pos + 4 <= data.len(),
    ensures
        r == tag_at(data@, pos as int, a, b, c, d),
{
    data[pos] == a && data[pos + 1] == b && data[pos + 2] == c && data[pos + 3] == d
}

/// The chunks read so far, as the decoder holds them.
struct Found {
    area: Vec<u8>,
    border: u8,
    paging: u8,
    pages: PageMap,
}

impl Found {
    /// The invariant: a register area of full length, a well-formed map.
    spec fn wf(&self) -> bool {
        self.area.len() == REGISTER_AREA && self.pages.wf()
    }

    /// What was found, as plain values.
    spec fn scan(&self) -> Scan {
        Scan {
            area: self.area@,
            border: self.border,
            paging: self.paging,
            pages: self.pages@,
        }
    }
}

/// The registers that the chunks have given.
fn read_registers(found: &Found) -> (regs: Registers)
    requires
        found.wf(),
    ensures
        regs == szx_registers(found.scan()),
{
    let a = &found.area;
    Registers {
        i: a[0x18],
        hl_alt: make_word(a[0x0E], a[0x0F]),
        de_alt: make_word(a[0x0C], a[0x0D]),
        bc_alt: make_word(a[0x0A], a[0x0B]),
        af_alt: make_word(a[0x08], a[0x09]),
        hl: make_word(a[0x06], a[0x07]),
        de: make_word(a[0x04], a[0x05]),
        bc: make_word(a[0x02], a[0x03]),
        iy: make_word(a[0x12], a[0x13]),
        ix: make_word(a[0x10], a[0x11]),
        interrupt: if a[0x1B] != 0 {
            6
        } else {
            2
        },
        r: a[0x19],
        af: make_word(a[0x00], a[0x01]),
        sp: make_word(a[0x14], a[0x15]),
        im: a[0x1C],
        border: found.border % 8,
        pc: make_word(a[0x16], a[0x17]),
        paging: found.paging,
    }
}

/// Applies the chunk at `pos` to `found`.
fn apply_chunk(data: &[u8], pos: usize, size: u32, found: &mut Found) -> (r: Result<(), Error>)
    requires
        pos + 8 <= data.len(),
        old(found).wf(),
    ensures
        final(found).wf(),
        match r {
            Ok(_) => after_chunk(data@, pos as int, pos + 8, size, old(found).scan()) == Ok::<
                Scan,
                Error,
            >(final(found).scan()),
            Err(e) => after_chunk(data@, pos as int, pos + 8, size, old(found).scan()) == Err::<
                Scan,
                Error,
            >(e),
        },
{
    let body: usize = pos + 8;
    let left: usize = data.len() - body;
    if tag_is(data, pos, 0x5A, 0x38, 0x30, 0x52) {
        let n: usize = if size < REGISTER_AREA as u32 {
            size as usize
        } else {
            REGISTER_AREA
        };
        if left < n {
            return Err(Error::MalformedInput);
        }
        let ghost source = data@.subrange(body as int, body + n);
        let mut k: usize = 0;
        while k < n
            invariant
                k <= n,
                n <= REGISTER_AREA,
                body + n <= data.len(),
                found.area.len() == REGISTER_AREA,
                old(found).area.len() == REGISTER_AREA,
                found.pages == old(found).pages,
                found.border == old(found).border,
                found.paging == old(found).paging,
                forall|j: int| 0 <= j < k ==> found.area@[j] == data@[body + j],
                forall|j: int| k <= j < REGISTER_AREA ==> found.area@[j] == old(found).area@[j],
            decreases n - k,
        {
            found.area[k] = data[body + k];
            k += 1;
        }
        assert(found.area@ =~= overlay(source, old(found).area@));
        Ok(())
    } else if tag_is(data, pos, 0x52, 0x41, 0x4D, 0x50) {
        if size < 3 || left < size as usize {
            return Err(Error::MalformedInput);
        }
        let flags = read_le_u16(slice_subrange(data, body, body + 2));
        let page = data[body + 2];
        let payload = slice_subrange(data, body + 3, body + size as usize);
        let content = if flags % 2 == 1 {
            match decompress_data(payload) {
                Ok(bytes) => bytes,
                Err(_) => {
                    return Err(Error::DecompressionFailure);
                },
            }
        } else {
            slice_to_vec(payload)
        };
        found.pages.store(page, content);
        Ok(())
    } else if tag_is(data, pos, 0x53, 0x50, 0x43, 0x52) {
        if size < 2 || left < 2 {
            return Err(Error::MalformedInput);
        }
        found.border = data[body];
        found.paging = data[body + 1];
        Ok(())
    } else {
        Ok(())
    }
}

/// Reads the chunks that follow the file header.
fn scan(data: &[u8]) -> (r: Result<Found, Error>)
    requires
        data@.len() >= FILE_HEADER_SIZE,
    ensures
        match r {
            Ok(found) => found.wf() && scan_chunks(
                data@,
                FILE_HEADER_SIZE as int,
                initial_scan(),
            ) == Ok::<Scan, Error>(found.scan()),
            Err(e) => scan_chunks(data@, FILE_HEADER_SIZE as int, initial_scan()) == Err::<
                Scan,
                Error,
            >(e),
        },
{
    let ghost goal = scan_chunks(data@, FILE_HEADER_SIZE as int, initial_scan());
    let area = vec![0u8; REGISTER_AREA];
    assert(area@ =~= crate::pages::zeros(REGISTER_AREA as nat));
    let mut found = Found { area, border: 0, paging: 0, pages: PageMap::new() };
    let mut pos: usize = FILE_HEADER_SIZE;
    while data.len() - pos >= 4
        invariant
            pos <= data.len(),
            found.wf(),
            goal == scan_chunks(data@, FILE_HEADER_SIZE as int, initial_scan()),
            scan_chunks(data@, pos as int, found.scan()) == goal,
        decreases data.len() - pos,
    {
        if data.len() - pos < 8 {
            return Err(Error::MalformedInput);
        }
        let size = read_le_u32(slice_subrange(data, pos + 4, pos + 8));
        match apply_chunk(data, pos, size, &mut found) {
            Ok(_) => {},
            Err(e) => {
                return Err(e);
            },
        }
        if data.len() - pos - 8 < size as usize {
            return Ok(found);
        }
        pos = pos + 8 + size as usize;
    }
    Ok(found)
}

/// Converts an SZX-style snapshot into the canonical snapshot of its machine.
///
/// Fails with [`Error::MalformedInput`] on a file without the signature, with
/// a machine identifier outside 1 to 6, or with a chunk cut short; with
/// [`Error::DecompressionFailure`] on a compressed page that does not decode;
/// with [`Error::MissingRequiredPage`] when no full page was found for a page
/// the machine needs. A snapshot of the 48 KiB machine is always 49179 bytes
/// long and starts with the register header, which holds the stack pointer
/// after the program counter was pushed.
pub fn convert_szx_to_sna(szx_data: &[u8]) -> (r: Result<(Vec<u8>, Machine), Error>)
    ensures
        converted(r) == szx_to_sna(szx_data@),
        !header_accepted(szx_data@) ==> r == Err::<(Vec<u8>, Machine), Error>(
            Error::MalformedInput,
        ),
        r matches Ok((bytes, machine)) ==> {
            let st = scan_chunks(szx_data@, FILE_HEADER_SIZE as int, initial_scan())->Ok_0;
            &&& Some(machine) == machine_of_id(szx_data@[6])
            &&& bytes.len() == snapshot_size(machine, st.paging)
            &&& machine == Machine::Sinclair48K ==> bytes@.subrange(0, HEADER_SIZE as int)
                == sna_header(after_push(szx_registers(st)))
        },
{
    if szx_data.len() < FILE_HEADER_SIZE || !tag_is(szx_data, 0, 0x5A, 0x58, 0x53, 0x54) {
        return Err(Error::MalformedInput);
    }
    let machine = match machine_for_id(szx_data[6]) {
        Some(m) => m,
        None => {
            return Err(Error::MalformedInput);
        },
    };
    let found = match scan(szx_data) {
        Ok(f) => f,
        Err(e) => {
            return Err(e);
        },
    };
    let regs = read_registers(&found);
    match build_snapshot(machine, &regs, &found.pages) {
        Ok(bytes) => {
            proof {
                found.pages.lemma_sized();
                crate::snapshot::lemma_snapshot_layout(machine, regs, found.pages@);
            }
            Ok((bytes, machine))
        },
        Err(e) => Err(e),
    }
}

/// Reading chunks into full pages leaves full pages.
proof fn lemma_chunks_keep_size(data: Seq<u8>, pos: int, st: Scan)
    requires
        crate::snapshot::pages_sized(st.pages),
    ensures
        scan_chunks(data, pos, st) matches Ok(after) ==> crate::snapshot::pages_sized(after.pages),
    decreases data.len() - pos,
{
    if pos < 0 || pos + 4 > data.len() {
    } else if pos + 8 > data.len() {
    } else {
        let size = le_u32(data.subrange(pos + 4, pos + 8));
        match after_chunk(data, pos, pos + 8, size, st) {
            Err(_) => {},
            Ok(next) => {
                assert(crate::snapshot::pages_sized(next.pages)) by {
                    assert forall|p: u8| next.pages.dom().contains(p) implies (
                    #[trigger] next.pages[p]).len() == crate::snapshot::PAGE_SIZE by {
                        if st.pages.dom().contains(p) {
                            assert(st.pages[p].len() == crate::snapshot::PAGE_SIZE);
                        }
                    }
                }
                if pos + 8 + size > data.len() {
                } else {
                    lemma_chunks_keep_size(data, pos + 8 + size, next);
                }
            },
        }
    }
}

/// Every file that converts gives a snapshot of the size of its machine. For
/// the 48 KiB machine that is 49179 bytes, and the first 27 of them are the
/// register header, which holds the stack pointer after the program counter
/// was pushed.
pub proof fn lemma_szx_snapshot_layout(data: Seq<u8>)
    ensures
        szx_to_sna(data) matches Ok((bytes, machine)) ==> {
            let st = scan_chunks(data, FILE_HEADER_SIZE as int, initial_scan())->Ok_0;
            &&& Some(machine) == machine_of_id(data[6])
            &&& bytes.len() == snapshot_size(machine, st.paging)
            &&& machine == Machine::Sinclair48K ==> bytes.len() == crate::snapshot::SNA_48K_SIZE
                && bytes.subrange(0, HEADER_SIZE as int) == sna_header(after_push(szx_registers(st)))
        },
{
    if szx_to_sna(data) is Ok {
        let machine = machine_of_id(data[6])->0;
        let st = scan_chunks(data, FILE_HEADER_SIZE as int, initial_scan())->Ok_0;
        lemma_chunks_keep_size(data, FILE_HEADER_SIZE as int, initial_scan());
        crate::snapshot::lemma_snapshot_layout(machine, szx_registers(st), st.pages);
    }
}

} // verus!
