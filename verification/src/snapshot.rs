//! The canonical snapshot: one register header followed by memory pages.
//!
//! Both decoders end here. They hand over the registers, the border colour
//! and the memory pages they found, and this module lays them out for the
//! machine in question.

use crate::bytes::{hi_byte, high, lo_byte, low};
use crate::error::Error;
use crate::pages::PageMap;
use vstd::prelude::*;

verus! {

/// Bytes in one memory page.
pub const PAGE_SIZE: usize = 16384;

/// Bytes in the register header.
pub const HEADER_SIZE: usize = 27;

/// Bytes in a canonical snapshot of the 48 KiB machine.
pub const SNA_48K_SIZE: usize = 49179;

/// Bytes in a canonical snapshot of the 128 KiB machine whose page at the
/// top of the address space is neither 5 nor 2.
pub const SNA_128K_SIZE: usize = 131103;

/// Bytes in a canonical snapshot of the 128 KiB machine whose page at the
/// top of the address space is 5 or 2: that page is then written twice.
pub const SNA_128K_LONG_SIZE: usize = 147487;

/// The two machines a snapshot can be for.
#[derive(Clone, Copy, Debug, PartialEq, Eq, Structural)]
pub enum Machine {
    /// 48 KiB of memory in three fixed pages.
    Sinclair48K,
    /// 128 KiB of memory in eight pages, one of them switched in at a time.
    Sinclair128K,
}

/// What a snapshot records besides memory.
#[derive(Clone, Copy, Debug, PartialEq, Eq, Structural)]
pub struct Registers {
    pub i: u8,
    pub hl_alt: u16,
    pub de_alt: u16,
    pub bc_alt: u16,
    pub af_alt: u16,
    pub hl: u16,
    pub de: u16,
    pub bc: u16,
    pub iy: u16,
    pub ix: u16,
    /// The interrupt-enable byte as the canonical header stores it.
    pub interrupt: u8,
    pub r: u8,
    pub af: u16,
    pub sp: u16,
    /// Interrupt mode.
    pub im: u8,
    /// Border colour.
    pub border: u8,
    /// Program counter. The header has no field for it.
    pub pc: u16,
    /// Last value written to the paging port of the 128 KiB machine.
    pub paging: u8,
}

/// The 27 header bytes of `regs`, in file order.
pub open spec fn sna_header(regs: Registers) -> Seq<u8> {
    seq![
        regs.i,
        lo_byte(regs.hl_alt),
        hi_byte(regs.hl_alt),
        lo_byte(regs.de_alt),
        hi_byte(regs.de_alt),
        lo_byte(regs.bc_alt),
        hi_byte(regs.bc_alt),
        lo_byte(regs.af_alt),
        hi_byte(regs.af_alt),
        lo_byte(regs.hl),
        hi_byte(regs.hl),
        lo_byte(regs.de),
        hi_byte(regs.de),
        lo_byte(regs.bc),
        hi_byte(regs.bc),
        lo_byte(regs.iy),
        hi_byte(regs.iy),
        lo_byte(regs.ix),
        hi_byte(regs.ix),
        regs.interrupt,
        regs.r,
        lo_byte(regs.af),
        hi_byte(regs.af),
        lo_byte(regs.sp),
        hi_byte(regs.sp),
        regs.im,
        regs.border,
    ]
}

/// The stack pointer after two bytes were pushed, wrapping at zero.
pub open spec fn pushed_sp(sp: u16) -> u16 {
    if sp >= 2 {
        (sp - 2) as u16
    } else {
        (sp + 65534) as u16
    }
}

/// The registers as the header of the 48 KiB machine shows them: with the
/// stack pointer after the program counter was pushed.
pub open spec fn after_push(regs: Registers) -> Registers {
    Registers { sp: pushed_sp(regs.sp), ..regs }
}

/// `ram`, which starts at address 16384, with `pc` stored at address `top`.
///
/// Nothing is stored where `top` lies below the memory or where the two
/// bytes would not both lie inside it.
pub open spec fn store_pc(ram: Seq<u8>, top: u16, pc: u16) -> Seq<u8> {
    if top >= 16384 && top - 16384 + 1 < ram.len() {
        ram.update(top - 16384, lo_byte(pc)).update(top - 16384 + 1, hi_byte(pc))
    } else {
        ram
    }
}

/// The page that the paging byte switches in at the top of the address space.
pub open spec fn active_page(paging: u8) -> u8 {
    paging % 8
}

/// Whether `pages` holds every page that a snapshot of `machine` is made of.
pub open spec fn has_required_pages(machine: Machine, pages: Map<u8, Seq<u8>>) -> bool {
    match machine {
        Machine::Sinclair48K => pages.dom().contains(5) && pages.dom().contains(2)
            && pages.dom().contains(0),
        Machine::Sinclair128K => forall|p: u8| p < 8 ==> pages.dom().contains(p),
    }
}

/// Whether every page in `pages` has the size of a page.
pub open spec fn pages_sized(pages: Map<u8, Seq<u8>>) -> bool {
    forall|p: u8| pages.dom().contains(p) ==> (#[trigger] pages[p]).len() == PAGE_SIZE
}

/// The canonical snapshot of the 48 KiB machine.
///
/// The header has no room for the program counter, so it goes on the stack
/// of the machine: the header holds the stack pointer after the push, and
/// the memory image holds the pushed address.
pub open spec fn sna_48k(regs: Registers, pages: Map<u8, Seq<u8>>) -> Seq<u8> {
    sna_header(after_push(regs)) + store_pc(
        pages[5] + pages[2] + pages[0],
        pushed_sp(regs.sp),
        regs.pc,
    )
}

/// Page `p`, or nothing where `p` is the page already written as `active`.
pub open spec fn page_unless_active(pages: Map<u8, Seq<u8>>, p: u8, active: u8) -> Seq<u8> {
    if p == active {
        Seq::empty()
    } else {
        pages[p]
    }
}

/// The four bytes between the first three pages and the rest.
pub open spec fn sna_extension(regs: Registers) -> Seq<u8> {
    seq![lo_byte(regs.pc), hi_byte(regs.pc), regs.paging, 0u8]
}

/// The canonical snapshot of the 128 KiB machine.
pub open spec fn sna_128k(regs: Registers, pages: Map<u8, Seq<u8>>) -> Seq<u8> {
    let active = active_page(regs.paging);
    sna_header(regs) + pages[5] + pages[2] + pages[active] + sna_extension(regs)
        + page_unless_active(pages, 0, active) + page_unless_active(pages, 1, active)
        + page_unless_active(pages, 3, active) + page_unless_active(pages, 4, active)
        + page_unless_active(pages, 6, active) + page_unless_active(pages, 7, active)
}

/// The canonical snapshot of `machine`, or the error where a page is missing.
pub open spec fn canonical_snapshot(
    machine: Machine,
    regs: Registers,
    pages: Map<u8, Seq<u8>>,
) -> Result<Seq<u8>, Error> {
    if !has_required_pages(machine, pages) {
        Err(Error::MissingRequiredPage)
    } else {
        match machine {
            Machine::Sinclair48K => Ok(sna_48k(regs, pages)),
            Machine::Sinclair128K => Ok(sna_128k(regs, pages)),
        }
    }
}

/// The number of bytes in a canonical snapshot of `machine` with that
/// paging byte.
pub open spec fn snapshot_size(machine: Machine, paging: u8) -> int {
    match machine {
        Machine::Sinclair48K => SNA_48K_SIZE as int,
        Machine::Sinclair128K => if active_page(paging) == 5 || active_page(paging) == 2 {
            SNA_128K_LONG_SIZE as int
        } else {
            SNA_128K_SIZE as int
        },
    }
}

/// A canonical snapshot has the size of its machine, and starts with the
/// register header; on the 48 KiB machine the header holds the stack pointer
/// after the program counter was pushed.
pub proof fn lemma_snapshot_layout(machine: Machine, regs: Registers, pages: Map<u8, Seq<u8>>)
    requires
        pages_sized(pages),
        has_required_pages(machine, pages),
    ensures
        canonical_snapshot(machine, regs, pages) is Ok,
        canonical_snapshot(machine, regs, pages)->Ok_0.len() == snapshot_size(machine, regs.paging),
        machine == Machine::Sinclair48K ==> canonical_snapshot(machine, regs, pages)->Ok_0.subrange(
            0,
            HEADER_SIZE as int,
        ) == sna_header(after_push(regs)),
        machine == Machine::Sinclair128K ==> canonical_snapshot(
            machine,
            regs,
            pages,
        )->Ok_0.subrange(0, HEADER_SIZE as int) == sna_header(regs),
{
    let s = canonical_snapshot(machine, regs, pages)->Ok_0;
    match machine {
        Machine::Sinclair48K => {
            assert(pages[5].len() == PAGE_SIZE);
            assert(pages[2].len() == PAGE_SIZE);
            assert(pages[0].len() == PAGE_SIZE);
            assert(s.subrange(0, HEADER_SIZE as int) =~= sna_header(after_push(regs)));
        },
        Machine::Sinclair128K => {
            let active = active_page(regs.paging);
            assert(pages[0].len() == PAGE_SIZE);
            assert(pages[1].len() == PAGE_SIZE);
            assert(pages[2].len() == PAGE_SIZE);
            assert(pages[3].len() == PAGE_SIZE);
            assert(pages[4].len() == PAGE_SIZE);
            assert(pages[5].len() == PAGE_SIZE);
            assert(pages[6].len() == PAGE_SIZE);
            assert(pages[7].len() == PAGE_SIZE);
            assert(pages[active].len() == PAGE_SIZE);
            assert(s.subrange(0, HEADER_SIZE as int) =~= sna_header(regs));
        },
    }
}

/// The outcome of building bytes, with the bytes as a sequence.
pub open spec fn bytes_of(r: Result<Vec<u8>, Error>) -> Result<Seq<u8>, Error> {
    match r {
        Ok(v) => Ok(v@),
        Err(e) => Err(e),
    }
}

/// Appends the register header.
fn push_header(out: &mut Vec<u8>, regs: &Registers)
    ensures
        final(out)@ == old(out)@ + sna_header(*regs),
{
    out.push(regs.i);
    out.push(low(regs.hl_alt));
    out.push(high(regs.hl_alt));
    out.push(low(regs.de_alt));
    out.push(high(regs.de_alt));
    out.push(low(regs.bc_alt));
    out.push(high(regs.bc_alt));
    out.push(low(regs.af_alt));
    out.push(high(regs.af_alt));
    out.push(low(regs.hl));
    out.push(high(regs.hl));
    out.push(low(regs.de));
    out.push(high(regs.de));
    out.push(low(regs.bc));
    out.push(high(regs.bc));
    out.push(low(regs.iy));
    out.push(high(regs.iy));
    out.push(low(regs.ix));
    out.push(high(regs.ix));
    out.push(regs.interrupt);
    out.push(regs.r);
    out.push(low(regs.af));
    out.push(high(regs.af));
    out.push(low(regs.sp));
    out.push(high(regs.sp));
    out.push(regs.im);
    out.push(regs.border);
    assert(out@ =~= old(out)@ + sna_header(*regs));
}

/// Appends `bytes`.
fn append(out: &mut Vec<u8>, bytes: &Vec<u8>)
    ensures
        final(out)@ == old(out)@ + bytes@,
{
    out.extend_from_slice(bytes.as_slice());
    assert(out@ =~= old(out)@ + bytes@);
}

/// Appends page `page` unless it is the page already written as `active`.
fn append_unless_active(out: &mut Vec<u8>, pages: &PageMap, page: u8, active: u8)
    requires
        pages.wf(),
        pages@.dom().contains(page),
    ensures
        final(out)@ == old(out)@ + page_unless_active(pages@, page, active),
{
    if page != active {
        match pages.get(page) {
            Some(bytes) => append(out, bytes),
            None => {},
        }
    }
    assert(out@ =~= old(out)@ + page_unless_active(pages@, page, active));
}

/// The stack pointer after two bytes were pushed, wrapping at zero.
pub fn push_two(sp: u16) -> (top: u16)
    ensures
        top == pushed_sp(sp),
{
    if sp >= 2 {
        sp - 2
    } else {
        sp + 65534
    }
}

/// Lays out the snapshot of the 48 KiB machine.
fn build_48k(regs: &Registers, pages: &PageMap) -> (out: Vec<u8>)
    requires
        pages.wf(),
        has_required_pages(Machine::Sinclair48K, pages@),
    ensures
        out@ == sna_48k(*regs, pages@),
        out.len() == SNA_48K_SIZE,
{
    let top = push_two(regs.sp);
    let shown = Registers { sp: top, ..*regs };
    let mut out: Vec<u8> = Vec::new();
    push_header(&mut out, &shown);
    match (pages.get(5), pages.get(2), pages.get(0)) {
        (Some(page5), Some(page2), Some(page0)) => {
            append(&mut out, page5);
            append(&mut out, page2);
            append(&mut out, page0);
        },
        _ => {},
    }
    let ghost ram = pages@[5] + pages@[2] + pages@[0];
    assert(out@ =~= sna_header(shown) + ram);
    if top >= 16384 {
        let at: usize = (top - 16384) as usize;
        if at + 1 < 3 * PAGE_SIZE {
            out[HEADER_SIZE + at] = low(regs.pc);
            out[HEADER_SIZE + at + 1] = high(regs.pc);
        }
    }
    assert(out@ =~= sna_header(shown) + store_pc(ram, top, regs.pc));
    out
}

/// Lays out the snapshot of the 128 KiB machine.
fn build_128k(regs: &Registers, pages: &PageMap) -> (out: Vec<u8>)
    requires
        pages.wf(),
        has_required_pages(Machine::Sinclair128K, pages@),
    ensures
        out@ == sna_128k(*regs, pages@),
        out.len() == snapshot_size(Machine::Sinclair128K, regs.paging),
{
    let active: u8 = regs.paging % 8;
    let mut out: Vec<u8> = Vec::new();
    push_header(&mut out, regs);
    match (pages.get(5), pages.get(2), pages.get(active)) {
        (Some(page5), Some(page2), Some(top)) => {
            append(&mut out, page5);
            append(&mut out, page2);
            append(&mut out, top);
        },
        _ => {},
    }
    out.push(low(regs.pc));
    out.push(high(regs.pc));
    out.push(regs.paging);
    out.push(0);
    assert(out@ =~= sna_header(*regs) + pages@[5] + pages@[2] + pages@[active] + sna_extension(
        *regs,
    ));
    append_unless_active(&mut out, pages, 0, active);
    append_unless_active(&mut out, pages, 1, active);
    append_unless_active(&mut out, pages, 3, active);
    append_unless_active(&mut out, pages, 4, active);
    append_unless_active(&mut out, pages, 6, active);
    append_unless_active(&mut out, pages, 7, active);
    proof {
        pages.lemma_sized();
        lemma_snapshot_layout(Machine::Sinclair128K, *regs, pages@);
    }
    out
}

/// Whether `pages` holds every page that a snapshot of `machine` is made of.
pub fn check_required_pages(machine: Machine, pages: &PageMap) -> (ok: bool)
    requires
        pages.wf(),
    ensures
        ok == has_required_pages(machine, pages@),
{
    match machine {
        Machine::Sinclair48K => pages.contains(5) && pages.contains(2) && pages.contains(0),
        Machine::Sinclair128K => {
            let mut p: u8 = 0;
            while p < 8
                invariant
                    p <= 8,
                    pages.wf(),
                    machine == Machine::Sinclair128K,
                    forall|q: u8| q < p ==> pages@.dom().contains(q),
                decreases 8 - p,
            {
                if !pages.contains(p) {
                    return false;
                }
                p += 1;
            }
            true
        },
    }
}

/// Lays out the canonical snapshot of `machine` from registers and pages.
///
/// Fails with [`Error::MissingRequiredPage`] exactly when `pages` lacks a
/// page that the machine's snapshot is made of: 5, 2 or 0 on the 48 KiB
/// machine, any of 0 to 7 on the 128 KiB machine.
pub fn build_snapshot(machine: Machine, regs: &Registers, pages: &PageMap) -> (r: Result<
    Vec<u8>,
    Error,
>)
    requires
        pages.wf(),
    ensures
        bytes_of(r) == canonical_snapshot(machine, *regs, pages@),
        r is Ok == has_required_pages(machine, pages@),
        r matches Ok(v) ==> v.len() == snapshot_size(machine, regs.paging),
{
    if !check_required_pages(machine, pages) {
        return Err(Error::MissingRequiredPage);
    }
    match machine {
        Machine::Sinclair48K => Ok(build_48k(regs, pages)),
        Machine::Sinclair128K => Ok(build_128k(regs, pages)),
    }
}

} // verus!
