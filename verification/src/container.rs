//! The bundle: a runnable image, compressed resource blocks, a trailer.
//!
//! A bundle is the runnable image as it was, then the compressed snapshot,
//! then up to three optional compressed blocks (display filter, patch list,
//! configuration), then a trailer of twenty bytes that gives the size of each
//! block. Where a block starts is not stored: it follows from the sizes,
//! counted back from the trailer.

use crate::bytes::{le_u32, le_u32_at, lemma_le_u32_roundtrip, u32_le_bytes, u32_to_le};
use crate::codec::{compress_data, compressed, decompress_data, zlib_inflated};
use crate::snapshot::bytes_of;
use crate::error::Error;
use vstd::prelude::*;
use vstd::slice::slice_subrange;
use vstd::utf8::{decode_utf8, valid_utf8};

verus! {

/// Bytes in the trailer.
pub const FOOTER_SIZE: usize = 20;

/// The four bytes `ZXND` that open a trailer.
pub open spec fn magic() -> Seq<u8> {
    seq![0x5Au8, 0x58u8, 0x4Eu8, 0x44u8]
}

/// The trailer of a bundle.
#[derive(Clone, Copy, Debug)]
pub struct Footer {
    pub magic: [u8; 4],
    pub snapshot_size: u32,
    pub shader_size: u32,
    pub pokes_size: u32,
    pub config_size: u32,
}

/// The twenty bytes of a trailer: the magic, then the four sizes in
/// little-endian order.
pub open spec fn footer_bytes(f: Footer) -> Seq<u8> {
    f.magic@ + u32_le_bytes(f.snapshot_size) + u32_le_bytes(f.shader_size) + u32_le_bytes(
        f.pokes_size,
    ) + u32_le_bytes(f.config_size)
}

/// The sizes that the last twenty bytes of `image` give, if they open with
/// the magic. An image shorter than a trailer, or one that ends otherwise,
/// has no trailer.
#[verifier::opaque]
pub open spec fn trailer(image: Seq<u8>) -> Option<(u32, u32, u32, u32)> {
    let at = image.len() - FOOTER_SIZE;
    if at >= 0 && image.subrange(at, at + 4) == magic() {
        Some(
            (
                le_u32(image.subrange(at + 4, at + 8)),
                le_u32(image.subrange(at + 8, at + 12)),
                le_u32(image.subrange(at + 12, at + 16)),
                le_u32(image.subrange(at + 16, at + 20)),
            ),
        )
    } else {
        None
    }
}

impl Footer {
    /// Whether the trailer opens with the magic.
    pub open spec fn is_valid(self) -> bool {
        self.magic@ == magic()
    }

    /// The four sizes, in file order.
    pub open spec fn sizes(self) -> (u32, u32, u32, u32) {
        (self.snapshot_size, self.shader_size, self.pokes_size, self.config_size)
    }

    /// A trailer for blocks of these sizes.
    pub fn new(snapshot_size: u32, shader_size: u32, pokes_size: u32, config_size: u32) -> (f:
        Footer)
        ensures
            f.is_valid(),
            f.sizes() == (snapshot_size, shader_size, pokes_size, config_size),
    {
        let f = Footer {
            magic: [0x5A, 0x58, 0x4E, 0x44],
            snapshot_size,
            shader_size,
            pokes_size,
            config_size,
        };
        assert(f.magic@ =~= magic());
        f
    }

    /// The twenty bytes that go at the end of a bundle.
    pub fn as_bytes(&self) -> (out: Vec<u8>)
        ensures
            out@ == footer_bytes(*self),
            out.len() == FOOTER_SIZE,
    {
        reveal(trailer_bytes);
        let mut out: Vec<u8> = Vec::new();
        out.push(self.magic[0]);
        out.push(self.magic[1]);
        out.push(self.magic[2]);
        out.push(self.magic[3]);
        assert(out@ =~= self.magic@);
        push_u32(&mut out, self.snapshot_size);
        push_u32(&mut out, self.shader_size);
        push_u32(&mut out, self.pokes_size);
        push_u32(&mut out, self.config_size);
        out
    }

    /// Reads the trailer at the end of `image`, if there is one.
    pub fn read(image: &[u8]) -> (r: Option<Footer>)
        ensures
            r is Some == trailer(image@) is Some,
            r is Some ==> image@.len() >= FOOTER_SIZE,
            r matches Some(f) ==> f.is_valid() && Some(f.sizes()) == trailer(image@),
    {
        reveal(trailer);
        if image.len() < FOOTER_SIZE {
            return None;
        }
        let at: usize = image.len() - FOOTER_SIZE;
        let found = image[at] == 0x5A && image[at + 1] == 0x58 && image[at + 2] == 0x4E && image[at
            + 3] == 0x44;
        proof {
            let head = image@.subrange(at as int, at + 4);
            assert(head[0] == image@[at as int]);
            assert(head[1] == image@[at + 1]);
            assert(head[2] == image@[at + 2]);
            assert(head[3] == image@[at + 3]);
            if found {
                assert(head =~= magic());
            }
        }
        if !found {
            return None;
        }
        let snapshot_size = le_u32_at(image, at + 4);
        let shader_size = le_u32_at(image, at + 8);
        let pokes_size = le_u32_at(image, at + 12);
        let config_size = le_u32_at(image, at + 16);
        Some(Footer::new(snapshot_size, shader_size, pokes_size, config_size))
    }
}

/// Appends `v` in little-endian order.
fn push_u32(out: &mut Vec<u8>, v: u32)
    ensures
        final(out)@ == old(out)@ + u32_le_bytes(v),
{
    let b = u32_to_le(v);
    out.push(b[0]);
    out.push(b[1]);
    out.push(b[2]);
    out.push(b[3]);
    assert(out@ =~= old(out)@ + u32_le_bytes(v));
}

/// The twenty bytes of a valid trailer with these sizes.
#[verifier::opaque]
pub open spec fn trailer_bytes(sizes: (u32, u32, u32, u32)) -> Seq<u8> {
    magic() + u32_le_bytes(sizes.0) + u32_le_bytes(sizes.1) + u32_le_bytes(sizes.2)
        + u32_le_bytes(sizes.3)
}

/// Whether a block is short enough for its size to fit the trailer's field.
pub open spec fn fits_size_field(block: Seq<u8>) -> bool {
    block.len() <= u32::MAX
}

/// Whether every block is short enough for the trailer.
pub open spec fn blocks_fit_trailer(
    snapshot: Seq<u8>,
    shader: Seq<u8>,
    pokes: Seq<u8>,
    config: Seq<u8>,
) -> bool {
    fits_size_field(snapshot) && fits_size_field(shader) && fits_size_field(pokes)
        && fits_size_field(config)
}

/// The bundle made of a runnable image and four compressed blocks that fit
/// the trailer, an absent block being empty.
pub open spec fn assembled(
    runner: Seq<u8>,
    snapshot: Seq<u8>,
    shader: Seq<u8>,
    pokes: Seq<u8>,
    config: Seq<u8>,
) -> Seq<u8> {
    runner + snapshot + shader + pokes + config + trailer_bytes(
        (snapshot.len() as u32, shader.len() as u32, pokes.len() as u32, config.len() as u32),
    )
}

/// What [`assemble`] returns: the bundle, or the error where a block is too
/// long for its size field.
pub open spec fn assembly(
    runner: Seq<u8>,
    snapshot: Seq<u8>,
    shader: Seq<u8>,
    pokes: Seq<u8>,
    config: Seq<u8>,
) -> Result<Seq<u8>, Error> {
    if blocks_fit_trailer(snapshot, shader, pokes, config) {
        Ok(assembled(runner, snapshot, shader, pokes, config))
    } else {
        Err(Error::BlockTooLarge)
    }
}

/// The block that an optional resource becomes: nothing where the resource
/// is empty, its compressed stream otherwise. A stream without bytes for a
/// resource that has some is a failure: an empty block stands for an absent
/// resource.
pub open spec fn optional_block(resource: Seq<u8>) -> Result<Seq<u8>, Error> {
    if resource.len() == 0 {
        Ok(Seq::empty())
    } else {
        match compressed(resource) {
            Ok(stream) => if stream.len() == 0 {
                Err(Error::CompressionFailure)
            } else {
                Ok(stream)
            },
            Err(e) => Err(e),
        }
    }
}

/// The size field for a block of `len` bytes, or the error where the length
/// does not fit 32 bits.
pub fn block_size(len: usize) -> (r: Result<u32, Error>)
    ensures
        match r {
            Ok(size) => size == len,
            Err(e) => e == Error::BlockTooLarge && len > u32::MAX,
        },
{
    if len as u64 > u32::MAX as u64 {
        Err(Error::BlockTooLarge)
    } else {
        Ok(len as u32)
    }
}

/// Appends `bytes`.
fn append_slice(out: &mut Vec<u8>, bytes: &[u8])
    ensures
        final(out)@ == old(out)@ + bytes@,
{
    out.extend_from_slice(bytes);
    assert(out@ =~= old(out)@ + bytes@);
}

/// Puts a bundle together from a runnable image and blocks that are
/// compressed already. An empty block stands for an absent resource.
///
/// Fails with [`Error::BlockTooLarge`] exactly when a block is longer than
/// a 32-bit size field can say.
pub fn assemble(runner: &[u8], snapshot: &[u8], shader: &[u8], pokes: &[u8], config: &[u8]) -> (r:
    Result<Vec<u8>, Error>)
    ensures
        bytes_of(r) == assembly(runner@, snapshot@, shader@, pokes@, config@),
{
    let snapshot_size = match block_size(snapshot.len()) {
        Ok(size) => size,
        Err(e) => {
            return Err(e);
        },
    };
    let shader_size = match block_size(shader.len()) {
        Ok(size) => size,
        Err(e) => {
            return Err(e);
        },
    };
    let pokes_size = match block_size(pokes.len()) {
        Ok(size) => size,
        Err(e) => {
            return Err(e);
        },
    };
    let config_size = match block_size(config.len()) {
        Ok(size) => size,
        Err(e) => {
            return Err(e);
        },
    };
    let footer = Footer::new(snapshot_size, shader_size, pokes_size, config_size);
    let mut out: Vec<u8> = Vec::new();
    append_slice(&mut out, runner);
    append_slice(&mut out, snapshot);
    append_slice(&mut out, shader);
    append_slice(&mut out, pokes);
    append_slice(&mut out, config);
    let tail = footer.as_bytes();
    assert(tail@ == trailer_bytes(footer.sizes())) by {
        reveal(trailer_bytes);
    }
    append_slice(&mut out, tail.as_slice());
    Ok(out)
}

/// Compresses an optional resource into its block.
fn compress_optional(resource: &[u8]) -> (r: Result<Vec<u8>, Error>)
    ensures
        bytes_of(r) == optional_block(resource@),
        r matches Ok(v) ==> optional_bytes(v@) == optional_resource(resource@),
{
    if resource.len() == 0 {
        Ok(Vec::new())
    } else {
        match compress_data(resource) {
            Ok(block) => if block.len() == 0 {
                Err(Error::CompressionFailure)
            } else {
                Ok(block)
            },
            Err(e) => Err(e),
        }
    }
}

/// Where the blocks of a bundle of `len` bytes start, counted back from the
/// trailer: configuration innermost, then patch list, filter and snapshot.
pub open spec fn footer_start(len: int) -> int {
    len - FOOTER_SIZE
}

/// Where the configuration block starts.
pub open spec fn config_start(len: int, sizes: (u32, u32, u32, u32)) -> int {
    footer_start(len) - sizes.3
}

/// Where the patch-list block starts.
pub open spec fn pokes_start(len: int, sizes: (u32, u32, u32, u32)) -> int {
    config_start(len, sizes) - sizes.2
}

/// Where the filter block starts.
pub open spec fn shader_start(len: int, sizes: (u32, u32, u32, u32)) -> int {
    pokes_start(len, sizes) - sizes.1
}

/// Where the snapshot block starts.
pub open spec fn snapshot_start(len: int, sizes: (u32, u32, u32, u32)) -> int {
    shader_start(len, sizes) - sizes.0
}

/// Whether a file of `len` bytes has room for the trailer and its blocks.
pub open spec fn blocks_fit(len: int, sizes: (u32, u32, u32, u32)) -> bool {
    snapshot_start(len, sizes) >= 0
}

/// Where each block of a bundle starts. A block ends where the next starts,
/// the last one where the trailer starts.
#[derive(Clone, Copy, Debug)]
pub struct Layout {
    pub snapshot_start: usize,
    pub shader_start: usize,
    pub pokes_start: usize,
    pub config_start: usize,
    pub footer_start: usize,
}

impl Layout {
    /// Whether this is the layout of a file of `len` bytes whose trailer
    /// gives `sizes`.
    pub open spec fn matches_sizes(self, len: int, sizes: (u32, u32, u32, u32)) -> bool {
        &&& self.snapshot_start == snapshot_start(len, sizes)
        &&& self.shader_start == shader_start(len, sizes)
        &&& self.pokes_start == pokes_start(len, sizes)
        &&& self.config_start == config_start(len, sizes)
        &&& self.footer_start == footer_start(len)
    }
}

/// Finds the blocks of a bundle.
///
/// An image without trailer has no blocks: `Ok(None)`. A trailer whose sizes
/// add up to more than the file holds before it is malformed.
pub fn locate(image: &[u8]) -> (r: Result<Option<Layout>, Error>)
    ensures
        match r {
            Ok(None) => trailer(image@) is None,
            Ok(Some(layout)) => trailer(image@) matches Some(sizes) && blocks_fit(
                image@.len() as int,
                sizes,
            ) && layout.matches_sizes(image@.len() as int, sizes),
            Err(e) => e == Error::MalformedInput && (trailer(image@) matches Some(sizes)
                && !blocks_fit(image@.len() as int, sizes)),
        },
{
    let footer = match Footer::read(image) {
        Some(f) => f,
        None => {
            return Ok(None);
        },
    };
    let room: u64 = (image.len() - FOOTER_SIZE) as u64;
    let wanted: u64 = footer.config_size as u64 + footer.pokes_size as u64
        + footer.shader_size as u64 + footer.snapshot_size as u64;
    if wanted > room {
        return Err(Error::MalformedInput);
    }
    let footer_start: usize = image.len() - FOOTER_SIZE;
    let config_start: usize = footer_start - footer.config_size as usize;
    let pokes_start: usize = config_start - footer.pokes_size as usize;
    let shader_start: usize = pokes_start - footer.shader_size as usize;
    let snapshot_start: usize = shader_start - footer.snapshot_size as usize;
    Ok(Some(Layout { snapshot_start, shader_start, pokes_start, config_start, footer_start }))
}

/// What an optional block holds: nothing where the block is empty or does
/// not decode.
pub open spec fn optional_bytes(block: Seq<u8>) -> Option<Seq<u8>> {
    if block.len() == 0 {
        None
    } else {
        zlib_inflated(block)
    }
}

/// The text in `decoded`: nothing where there are no bytes or where they are
/// not UTF-8.
pub open spec fn text_in(decoded: Option<Seq<u8>>) -> Option<Seq<char>> {
    match decoded {
        Some(bytes) => if valid_utf8(bytes) {
            Some(decode_utf8(bytes))
        } else {
            None
        },
        None => None,
    }
}

/// What a bundle holds, as plain values.
pub struct Contents {
    pub snapshot: Seq<u8>,
    pub shader: Option<Seq<char>>,
    pub pokes: Option<Seq<char>>,
    pub config: Option<Seq<u8>>,
}

/// What an image without trailer holds: an empty snapshot and nothing else.
pub open spec fn no_contents() -> Contents {
    Contents { snapshot: Seq::empty(), shader: None, pokes: None, config: None }
}

/// What extracting from `image` gives.
///
/// An image without trailer holds nothing, which is no error. With a
/// trailer, the sizes must fit the file and the snapshot block must decode.
/// An optional block that is empty, that does not decode, or, for the two
/// texts, that is not UTF-8, is absent.
pub open spec fn extracted(image: Seq<u8>) -> Result<Contents, Error> {
    let len = image.len() as int;
    match trailer(image) {
        None => Ok(no_contents()),
        Some(sizes) => if !blocks_fit(len, sizes) {
            Err(Error::MalformedInput)
        } else {
            match zlib_inflated(
                image.subrange(snapshot_start(len, sizes), shader_start(len, sizes)),
            ) {
                None => Err(Error::DecompressionFailure),
                Some(snapshot) => Ok(
                    Contents {
                        snapshot,
                        shader: text_in(
                            optional_bytes(
                                image.subrange(shader_start(len, sizes), pokes_start(len, sizes)),
                            ),
                        ),
                        pokes: text_in(
                            optional_bytes(
                                image.subrange(pokes_start(len, sizes), config_start(len, sizes)),
                            ),
                        ),
                        config: optional_bytes(
                            image.subrange(config_start(len, sizes), footer_start(len)),
                        ),
                    },
                ),
            }
        },
    }
}

/// The resources found in a bundle.
pub struct Resources {
    /// The snapshot, decompressed; empty where the image is no bundle.
    pub snapshot: Vec<u8>,
    /// The display filter's source.
    pub shader: Option<String>,
    /// The patch list.
    pub pokes: Option<String>,
    /// The configuration, as the text that was bundled.
    pub config: Option<Vec<u8>>,
}

/// The bytes in `v`, if any.
pub open spec fn bytes_in(v: Option<Vec<u8>>) -> Option<Seq<u8>> {
    match v {
        Some(bytes) => Some(bytes@),
        None => None,
    }
}

/// The characters in `s`, if any.
pub open spec fn chars_in(s: Option<String>) -> Option<Seq<char>> {
    match s {
        Some(text) => Some(text@),
        None => None,
    }
}

impl Resources {
    /// The resources as plain values.
    pub open spec fn contents(self) -> Contents {
        Contents {
            snapshot: self.snapshot@,
            shader: chars_in(self.shader),
            pokes: chars_in(self.pokes),
            config: bytes_in(self.config),
        }
    }
}

/// `String::from_utf8`: the string whose UTF-8 encoding `bytes` is, or
/// nothing where `bytes` is not valid UTF-8.
#[verifier::external_body]
fn utf8_text(bytes: Vec<u8>) -> (r: Option<String>)
    ensures
        r is Some == valid_utf8(bytes@),
        r matches Some(s) ==> s@ == decode_utf8(bytes@),
{
    String::from_utf8(bytes).ok()
}

/// Decodes an optional block.
pub fn read_optional(block: &[u8]) -> (r: Option<Vec<u8>>)
    ensures
        bytes_in(r) == optional_bytes(block@),
{
    if block.len() == 0 {
        None
    } else {
        match decompress_data(block) {
            Ok(bytes) => Some(bytes),
            Err(_) => None,
        }
    }
}

/// Turns decoded bytes into text, where there are bytes and they are UTF-8.
pub fn read_text(decoded: Option<Vec<u8>>) -> (r: Option<String>)
    ensures
        chars_in(r) == text_in(bytes_in(decoded)),
{
    match decoded {
        Some(bytes) => utf8_text(bytes),
        None => None,
    }
}

/// Extracts the resources that `image` carries.
///
/// An image that does not end in a trailer carries none, and that is no
/// error. Otherwise this fails with [`Error::MalformedInput`] when the sizes
/// in the trailer do not fit the file, and with
/// [`Error::DecompressionFailure`] when the snapshot block does not decode.
pub fn extract(image: &[u8]) -> (r: Result<Resources, Error>)
    ensures
        match r {
            Ok(found) => extracted(image@) == Ok::<Contents, Error>(found.contents()),
            Err(e) => extracted(image@) == Err::<Contents, Error>(e),
        },
        trailer(image@) is None ==> r is Ok && r->Ok_0.contents() == no_contents(),
{
    let layout = match locate(image) {
        Ok(Some(layout)) => layout,
        Ok(None) => {
            let found = Resources { snapshot: Vec::new(), shader: None, pokes: None, config: None };
            assert(found.contents().snapshot =~= Seq::<u8>::empty());
            return Ok(found);
        },
        Err(e) => {
            return Err(e);
        },
    };
    let snapshot = match decompress_data(
        slice_subrange(image, layout.snapshot_start, layout.shader_start),
    ) {
        Ok(bytes) => bytes,
        Err(e) => {
            return Err(e);
        },
    };
    let shader = read_text(
        read_optional(slice_subrange(image, layout.shader_start, layout.pokes_start)),
    );
    let pokes = read_text(
        read_optional(slice_subrange(image, layout.pokes_start, layout.config_start)),
    );
    let config = read_optional(slice_subrange(image, layout.config_start, layout.footer_start));
    Ok(Resources { snapshot, shader, pokes, config })
}

/// What a bundle made of these blocks holds.
pub open spec fn contents_of_blocks(
    snapshot: Seq<u8>,
    shader: Seq<u8>,
    pokes: Seq<u8>,
    config: Seq<u8>,
) -> Result<Contents, Error> {
    match zlib_inflated(snapshot) {
        None => Err(Error::DecompressionFailure),
        Some(bytes) => Ok(
            Contents {
                snapshot: bytes,
                shader: text_in(optional_bytes(shader)),
                pokes: text_in(optional_bytes(pokes)),
                config: optional_bytes(config),
            },
        ),
    }
}

/// The trailer's own bytes read back as the sizes they were written from.
proof fn lemma_trailer_bytes(sizes: (u32, u32, u32, u32))
    ensures
        trailer_bytes(sizes).len() == FOOTER_SIZE,
        trailer_bytes(sizes).subrange(0, 4) == magic(),
        le_u32(trailer_bytes(sizes).subrange(4, 8)) == sizes.0,
        le_u32(trailer_bytes(sizes).subrange(8, 12)) == sizes.1,
        le_u32(trailer_bytes(sizes).subrange(12, 16)) == sizes.2,
        le_u32(trailer_bytes(sizes).subrange(16, 20)) == sizes.3,
{
    reveal(trailer_bytes);
    let t = trailer_bytes(sizes);
    let none = Seq::<u8>::empty();
    lemma_le_u32_roundtrip(sizes.0, none);
    lemma_le_u32_roundtrip(sizes.1, none);
    lemma_le_u32_roundtrip(sizes.2, none);
    lemma_le_u32_roundtrip(sizes.3, none);
    assert(t.subrange(0, 4) =~= magic());
    assert(t.subrange(4, 8) =~= u32_le_bytes(sizes.0) + none);
    assert(t.subrange(8, 12) =~= u32_le_bytes(sizes.1) + none);
    assert(t.subrange(12, 16) =~= u32_le_bytes(sizes.2) + none);
    assert(t.subrange(16, 20) =~= u32_le_bytes(sizes.3) + none);
}

/// Whatever stands in front of a trailer, the trailer is found, with the
/// sizes it was written from.
pub proof fn lemma_trailer_found(front: Seq<u8>, sizes: (u32, u32, u32, u32))
    ensures
        trailer(front + trailer_bytes(sizes)) == Some(sizes),
        (front + trailer_bytes(sizes)).len() == front.len() + FOOTER_SIZE,
{
    reveal(trailer);
    let t = trailer_bytes(sizes);
    let image = front + t;
    lemma_trailer_bytes(sizes);
    let at = image.len() - FOOTER_SIZE;
    assert(at == front.len());
    assert(image.subrange(at, at + 4) =~= t.subrange(0, 4));
    assert(image.subrange(at + 4, at + 8) =~= t.subrange(4, 8));
    assert(image.subrange(at + 8, at + 12) =~= t.subrange(8, 12));
    assert(image.subrange(at + 12, at + 16) =~= t.subrange(12, 16));
    assert(image.subrange(at + 16, at + 20) =~= t.subrange(16, 20));
}

/// Five parts in a row are found again at the places their lengths give.
proof fn lemma_parts(a: Seq<u8>, b: Seq<u8>, c: Seq<u8>, d: Seq<u8>, e: Seq<u8>, t: Seq<u8>)
    ensures
        ({
            let all = a + b + c + d + e + t;
            let end_a = a.len() as int;
            let end_b = end_a + b.len();
            let end_c = end_b + c.len();
            let end_d = end_c + d.len();
            let end_e = end_d + e.len();
            &&& all.len() == end_e + t.len()
            &&& all.subrange(end_a, end_b) == b
            &&& all.subrange(end_b, end_c) == c
            &&& all.subrange(end_c, end_d) == d
            &&& all.subrange(end_d, end_e) == e
        }),
{
    let all = a + b + c + d + e + t;
    let end_a = a.len() as int;
    let end_b = end_a + b.len();
    let end_c = end_b + c.len();
    let end_d = end_c + d.len();
    let end_e = end_d + e.len();
    assert(all.subrange(end_a, end_b) =~= b);
    assert(all.subrange(end_b, end_c) =~= c);
    assert(all.subrange(end_c, end_d) =~= d);
    assert(all.subrange(end_d, end_e) =~= e);
}

/// A bundle ends in the trailer that gives the sizes of its blocks, and the
/// sizes lead back to the blocks: the snapshot block starts where the
/// runnable image ends, and each block is found as it was put in.
pub proof fn lemma_assembled_layout(
    runner: Seq<u8>,
    snapshot: Seq<u8>,
    shader: Seq<u8>,
    pokes: Seq<u8>,
    config: Seq<u8>,
)
    requires
        fits_size_field(snapshot),
        fits_size_field(shader),
        fits_size_field(pokes),
        fits_size_field(config),
    ensures
        ({
            let image = assembled(runner, snapshot, shader, pokes, config);
            let len = image.len() as int;
            let sizes = (
                snapshot.len() as u32,
                shader.len() as u32,
                pokes.len() as u32,
                config.len() as u32,
            );
            &&& trailer(image) == Some(sizes)
            &&& blocks_fit(len, sizes)
            &&& snapshot_start(len, sizes) == runner.len()
            &&& image.subrange(snapshot_start(len, sizes), shader_start(len, sizes)) == snapshot
            &&& image.subrange(shader_start(len, sizes), pokes_start(len, sizes)) == shader
            &&& image.subrange(pokes_start(len, sizes), config_start(len, sizes)) == pokes
            &&& image.subrange(config_start(len, sizes), footer_start(len)) == config
        }),
{
    let sizes = (
        snapshot.len() as u32,
        shader.len() as u32,
        pokes.len() as u32,
        config.len() as u32,
    );
    let image = assembled(runner, snapshot, shader, pokes, config);
    let len = image.len() as int;
    let front = runner + snapshot + shader + pokes + config;
    let t = trailer_bytes(sizes);
    assert(image == front + t);
    assert(trailer(image) == Some(sizes) && len == front.len() + FOOTER_SIZE) by {
        lemma_trailer_found(front, sizes);
    }
    assert(front.len() == runner.len() + snapshot.len() + shader.len() + pokes.len()
        + config.len());
    let runner_end = runner.len() as int;
    let snapshot_end = runner_end + snapshot.len();
    let shader_end = snapshot_end + shader.len();
    let pokes_end = shader_end + pokes.len();
    let config_end = pokes_end + config.len();
    assert(snapshot_start(len, sizes) == runner_end && shader_start(len, sizes) == snapshot_end && pokes_start(
        len,
        sizes,
    ) == shader_end && config_start(len, sizes) == pokes_end && footer_start(len) == config_end);
    assert(image.subrange(runner_end, snapshot_end) == snapshot && image.subrange(snapshot_end, shader_end) == shader
        && image.subrange(shader_end, pokes_end) == pokes && image.subrange(pokes_end, config_end) == config) by {
        lemma_parts(runner, snapshot, shader, pokes, config, t);
    }
}

/// Extracting from a bundle gives what its blocks decode to, whatever the
/// runnable image in front of them is.
pub proof fn lemma_extract_assembled(
    runner: Seq<u8>,
    snapshot: Seq<u8>,
    shader: Seq<u8>,
    pokes: Seq<u8>,
    config: Seq<u8>,
)
    requires
        fits_size_field(snapshot),
        fits_size_field(shader),
        fits_size_field(pokes),
        fits_size_field(config),
    ensures
        extracted(assembled(runner, snapshot, shader, pokes, config)) == contents_of_blocks(
            snapshot,
            shader,
            pokes,
            config,
        ),
{
    lemma_assembled_layout(runner, snapshot, shader, pokes, config);
}

/// What a bundle of these resources holds: the snapshot as it is, and each
/// companion that is not empty, the two texts as far as they are UTF-8.
pub open spec fn bundled_contents(
    snapshot: Seq<u8>,
    shader: Seq<u8>,
    pokes: Seq<u8>,
    config: Seq<u8>,
) -> Contents {
    Contents {
        snapshot,
        shader: text_in(optional_resource(shader)),
        pokes: text_in(optional_resource(pokes)),
        config: optional_resource(config),
    }
}

/// What comes back of an optional resource that went into a bundle.
pub open spec fn optional_resource(resource: Seq<u8>) -> Option<Seq<u8>> {
    if resource.len() == 0 {
        None
    } else {
        Some(resource)
    }
}

/// What [`bundle`] returns: the blocks of the resources assembled behind the
/// runnable image, or the first failure on the way: of the snapshot, the
/// display filter, the patch list, the configuration, then of the assembly.
pub open spec fn bundled(
    runner: Seq<u8>,
    snapshot: Seq<u8>,
    shader: Seq<u8>,
    pokes: Seq<u8>,
    config: Seq<u8>,
) -> Result<Seq<u8>, Error> {
    match (
        compressed(snapshot),
        optional_block(shader),
        optional_block(pokes),
        optional_block(config),
    ) {
        (Ok(zs), Ok(zh), Ok(zp), Ok(zc)) => assembly(runner, zs, zh, zp, zc),
        (Err(e), _, _, _) => Err(e),
        (_, Err(e), _, _) => Err(e),
        (_, _, Err(e), _) => Err(e),
        (_, _, _, Err(e)) => Err(e),
    }
}

/// Bundles a snapshot and its optional companions behind a runnable image.
///
/// Each resource is compressed on its own, and each stream is decoded again
/// to make sure of it; an empty companion is absent and takes no block. The
/// blocks follow the runnable image in the order snapshot, display filter,
/// patch list, configuration, and the trailer closes the file.
///
/// Fails with [`Error::CompressionFailure`] exactly when a resource does not
/// compress into a stream that decodes to it again, and with
/// [`Error::BlockTooLarge`] exactly when all do and a stream is too long for
/// its size field. Extracting from a bundle that comes back gives the
/// snapshot back byte for byte, and each companion that was there.
pub fn bundle(runner: &[u8], snapshot: &[u8], shader: &[u8], pokes: &[u8], config: &[u8]) -> (r:
    Result<Vec<u8>, Error>)
    ensures
        bytes_of(r) == bundled(runner@, snapshot@, shader@, pokes@, config@),
        r matches Ok(out) ==> extracted(out@) == Ok::<Contents, Error>(
            bundled_contents(snapshot@, shader@, pokes@, config@),
        ),
{
    let snapshot_block = match compress_data(snapshot) {
        Ok(block) => block,
        Err(e) => {
            return Err(e);
        },
    };
    let shader_block = match compress_optional(shader) {
        Ok(block) => block,
        Err(e) => {
            return Err(e);
        },
    };
    let pokes_block = match compress_optional(pokes) {
        Ok(block) => block,
        Err(e) => {
            return Err(e);
        },
    };
    let config_block = match compress_optional(config) {
        Ok(block) => block,
        Err(e) => {
            return Err(e);
        },
    };
    let r = assemble(
        runner,
        snapshot_block.as_slice(),
        shader_block.as_slice(),
        pokes_block.as_slice(),
        config_block.as_slice(),
    );
    proof {
        if r is Ok {
            lemma_extract_assembled(
                runner@,
                snapshot_block@,
                shader_block@,
                pokes_block@,
                config_block@,
            );
            assert(contents_of_blocks(snapshot_block@, shader_block@, pokes_block@, config_block@)
                == Ok::<Contents, Error>(bundled_contents(snapshot@, shader@, pokes@, config@)));
        }
    }
    r
}

/// The snapshot block of a bundle is found where the sizes in the trailer
/// say, and it decodes to the snapshot that was compressed into it, whatever
/// the runnable image in front of it is and whichever other blocks follow.
pub proof fn lemma_snapshot_comes_back(
    runner: Seq<u8>,
    snapshot: Seq<u8>,
    shader_block: Seq<u8>,
    pokes_block: Seq<u8>,
    config_block: Seq<u8>,
)
    requires
        compressed(snapshot) is Ok,
        blocks_fit_trailer(compressed(snapshot)->Ok_0, shader_block, pokes_block, config_block),
    ensures
        ({
            let block = compressed(snapshot)->Ok_0;
            let image = assembled(runner, block, shader_block, pokes_block, config_block);
            let len = image.len() as int;
            &&& trailer(image) is Some
            &&& image.subrange(
                snapshot_start(len, trailer(image)->0),
                shader_start(len, trailer(image)->0),
            ) == block
            &&& crate::codec::decompressed(zlib_inflated(block)) == Ok::<Seq<u8>, Error>(snapshot)
            &&& extracted(image) is Ok
            &&& extracted(image)->Ok_0.snapshot == snapshot
        }),
{
    let block = compressed(snapshot)->Ok_0;
    lemma_assembled_layout(runner, block, shader_block, pokes_block, config_block);
}

/// An image that is shorter than a trailer, or whose last twenty bytes do
/// not open with the magic, holds no resources, and that is no error.
pub proof fn lemma_no_magic_no_resources(image: Seq<u8>)
    requires
        image.len() < FOOTER_SIZE || image.subrange(
            image.len() - FOOTER_SIZE,
            image.len() - FOOTER_SIZE + 4,
        ) != magic(),
    ensures
        trailer(image) is None,
        extracted(image) == Ok::<Contents, Error>(no_contents()),
{
    reveal(trailer);
}

} // verus!
