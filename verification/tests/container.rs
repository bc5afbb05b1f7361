use flate2::read::ZlibDecoder;
use std::io::Read;
use zexe::codec::{compress_data, decompress_data, same_bytes};
use zexe::container::{
    assemble, block_size, bundle, extract, locate, read_optional, read_text, Footer, FOOTER_SIZE,
};
use zexe::error::Error;

fn unzlib(data: &[u8]) -> Vec<u8> {
    let mut out = Vec::new();
    ZlibDecoder::new(data).read_to_end(&mut out).unwrap();
    out
}

#[test]
fn footer_is_twenty_bytes_little_endian() {
    let f = Footer::new(0x01020304, 5, 0x0A0B, 0xFFFFFFFF);
    assert_eq!(&f.magic, b"ZXND");
    assert_eq!(
        f.as_bytes(),
        vec![
            b'Z', b'X', b'N', b'D', 0x04, 0x03, 0x02, 0x01, 5, 0, 0, 0, 0x0B, 0x0A, 0, 0, 0xFF,
            0xFF, 0xFF, 0xFF
        ]
    );
    assert_eq!(FOOTER_SIZE, 20);
}

#[test]
fn footer_is_read_from_the_end() {
    let mut image = vec![9u8; 100];
    image.extend_from_slice(&Footer::new(1_000_000, 2, 3, 0x80000001).as_bytes());
    let f = Footer::read(&image).unwrap();
    assert_eq!(f.snapshot_size, 1_000_000);
    assert_eq!(f.shader_size, 2);
    assert_eq!(f.pokes_size, 3);
    assert_eq!(f.config_size, 0x80000001);
    assert_eq!(&f.magic, b"ZXND");
}

#[test]
fn no_footer_without_the_magic() {
    assert!(Footer::read(&[]).is_none());
    assert!(Footer::read(&[0u8; 19]).is_none());
    assert!(Footer::read(&[0u8; 20]).is_none());
    let mut image = Footer::new(1, 2, 3, 4).as_bytes();
    assert!(Footer::read(&image).is_some());
    assert!(Footer::read(&image[1..]).is_none());
    image[3] = b'X';
    assert!(Footer::read(&image).is_none());
}

#[test]
fn compressed_data_is_a_zlib_stream() {
    let data = b"hello hello hello hello".to_vec();
    let z = compress_data(&data).unwrap();
    assert_ne!(z, data);
    assert_eq!(unzlib(&z), data);
    assert_eq!(decompress_data(&z), Ok(data));
}

#[test]
fn corrupt_stream_does_not_decompress() {
    assert_eq!(decompress_data(&[]), Err(Error::DecompressionFailure));
    assert_eq!(decompress_data(&[1, 2, 3, 4]), Err(Error::DecompressionFailure));
    let z = compress_data(&[7u8; 1000]).unwrap();
    assert_eq!(decompress_data(&z[..z.len() - 3]), Err(Error::DecompressionFailure));
}

#[test]
fn bundle_layout() {
    let runner = vec![0xAAu8; 50];
    let snapshot = vec![1u8, 2, 3, 4, 5];
    let out = bundle(&runner, &snapshot, b"shader", b"", b"{}").unwrap();
    let zs = compress_data(&snapshot).unwrap();
    let zh = compress_data(b"shader").unwrap();
    let zc = compress_data(b"{}").unwrap();
    let mut expected = runner.clone();
    expected.extend_from_slice(&zs);
    expected.extend_from_slice(&zh);
    expected.extend_from_slice(&zc);
    expected.extend_from_slice(b"ZXND");
    expected.extend_from_slice(&(zs.len() as u32).to_le_bytes());
    expected.extend_from_slice(&(zh.len() as u32).to_le_bytes());
    expected.extend_from_slice(&0u32.to_le_bytes());
    expected.extend_from_slice(&(zc.len() as u32).to_le_bytes());
    assert_eq!(out, expected);
}

#[test]
fn assemble_puts_blocks_in_order() {
    let out = assemble(&[1, 2], &[3], &[4, 5], &[], &[6, 7, 8]).unwrap();
    assert_eq!(
        out,
        vec![
            1, 2, 3, 4, 5, 6, 7, 8, b'Z', b'X', b'N', b'D', 1, 0, 0, 0, 2, 0, 0, 0, 0, 0, 0, 0, 3,
            0, 0, 0
        ]
    );
}

#[test]
fn bundle_then_extract_gives_the_snapshot_back() {
    let runner: Vec<u8> = (0..5000u32).map(|k| (k * 7) as u8).collect();
    let snapshot: Vec<u8> = (0..49179u32).map(|k| (k % 251) as u8).collect();
    let out = bundle(&runner, &snapshot, b"", b"", b"").unwrap();
    let found = extract(&out).unwrap();
    assert_eq!(found.snapshot, snapshot);
    assert!(found.shader.is_none());
    assert!(found.pokes.is_none());
    assert!(found.config.is_none());
}

#[test]
fn bundle_then_extract_gives_every_resource_back() {
    let out = bundle(
        b"runner",
        &[9u8; 300],
        "void main() {}".as_bytes(),
        "M 0 32768 201 62\n".as_bytes(),
        "{\"volume\": 50}".as_bytes(),
    )
    .unwrap();
    let found = extract(&out).unwrap();
    assert_eq!(found.snapshot, vec![9u8; 300]);
    assert_eq!(found.shader.as_deref(), Some("void main() {}"));
    assert_eq!(found.pokes.as_deref(), Some("M 0 32768 201 62\n"));
    assert_eq!(found.config, Some(b"{\"volume\": 50}".to_vec()));
}

#[test]
fn one_byte_snapshot_round_trips() {
    let out = bundle(&[], &[0x42], b"", b"", b"").unwrap();
    assert_eq!(extract(&out).unwrap().snapshot, vec![0x42]);
}

#[test]
fn image_without_trailer_holds_nothing() {
    for image in [vec![], vec![1u8; 10], vec![0u8; 20], vec![0x5A; 4096]] {
        let found = extract(&image).unwrap();
        assert!(found.snapshot.is_empty());
        assert!(found.shader.is_none());
        assert!(found.pokes.is_none());
        assert!(found.config.is_none());
        assert_eq!(locate(&image).unwrap().map(|l| l.footer_start), None);
    }
    let mut image = bundle(b"runner", &[1, 2, 3], b"", b"", b"").unwrap();
    let at = image.len() - 20;
    image[at] = b'Y';
    let found = extract(&image).unwrap();
    assert!(found.snapshot.is_empty());
}

#[test]
fn blocks_are_located_from_the_end() {
    let out = assemble(&[0u8; 10], &[1u8; 7], &[2u8; 5], &[3u8; 3], &[4u8; 2]).unwrap();
    let layout = locate(&out).unwrap().unwrap();
    assert_eq!(layout.snapshot_start, 10);
    assert_eq!(layout.shader_start, 17);
    assert_eq!(layout.pokes_start, 22);
    assert_eq!(layout.config_start, 25);
    assert_eq!(layout.footer_start, 27);
    assert_eq!(out.len(), 47);
}

#[test]
fn sizes_beyond_the_file_are_malformed() {
    let mut image = vec![0u8; 10];
    image.extend_from_slice(&Footer::new(5, 3, 2, 1).as_bytes());
    assert!(matches!(locate(&image), Err(Error::MalformedInput)));
    assert!(matches!(extract(&image), Err(Error::MalformedInput)));
    let mut image = vec![0u8; 11];
    image.extend_from_slice(&Footer::new(5, 3, 2, 1).as_bytes());
    assert!(locate(&image).unwrap().is_some());
    let image = Footer::new(0xFFFFFFFF, 0xFFFFFFFF, 0xFFFFFFFF, 0xFFFFFFFF).as_bytes();
    assert!(matches!(extract(&image), Err(Error::MalformedInput)));
}

#[test]
fn corrupt_snapshot_block_fails_the_extraction() {
    let out = assemble(b"runner", &[1, 2, 3, 4, 5, 6], &[], &[], &[]).unwrap();
    assert!(matches!(extract(&out), Err(Error::DecompressionFailure)));
    let out = assemble(b"runner", &[], &[], &[], &[]).unwrap();
    assert!(matches!(extract(&out), Err(Error::DecompressionFailure)));
}

#[test]
fn corrupt_optional_blocks_are_absent() {
    let zs = compress_data(&[5u8; 10]).unwrap();
    let zp = compress_data(b"M 0 1 2 3").unwrap();
    let out = assemble(b"runner", &zs, &[1, 2, 3], &zp, &[9, 9, 9, 9]).unwrap();
    let found = extract(&out).unwrap();
    assert_eq!(found.snapshot, vec![5u8; 10]);
    assert!(found.shader.is_none());
    assert_eq!(found.pokes.as_deref(), Some("M 0 1 2 3"));
    assert!(found.config.is_none());
}

#[test]
fn text_that_is_not_utf8_is_absent() {
    let zs = compress_data(&[5u8; 10]).unwrap();
    let bad = compress_data(&[0x66, 0xFF, 0xFE]).unwrap();
    let out = assemble(b"runner", &zs, &bad, &bad, &bad).unwrap();
    let found = extract(&out).unwrap();
    assert!(found.shader.is_none());
    assert!(found.pokes.is_none());
    assert_eq!(found.config, Some(vec![0x66, 0xFF, 0xFE]));
}

#[test]
fn optional_block_and_text() {
    assert_eq!(read_optional(&[]), None);
    assert_eq!(read_optional(&[1, 2, 3]), None);
    let z = compress_data("grüße".as_bytes()).unwrap();
    assert_eq!(read_optional(&z), Some("grüße".as_bytes().to_vec()));
    assert_eq!(read_text(read_optional(&z)).as_deref(), Some("grüße"));
    assert_eq!(read_text(None), None);
    assert_eq!(read_text(Some(vec![0xC3])), None);
    assert_eq!(read_text(Some(vec![])).as_deref(), Some(""));
}

#[test]
fn errors_in_words() {
    assert_eq!(Error::MalformedInput.message(), "input does not follow its format");
    assert_eq!(Error::MissingRequiredPage.message(), "a required memory page is missing");
    assert_eq!(Error::DecompressionFailure.message(), "compressed data does not decode");
    assert_eq!(Error::CompressionFailure.message(), "data could not be compressed");
    assert_eq!(Error::BlockTooLarge.message(), "a compressed block is too large for the trailer");
}

#[test]
fn what_was_compressed_comes_back() {
    for len in [1usize, 2, 100, 49179, 200000] {
        let data: Vec<u8> = (0..len).map(|k| (k * k % 253) as u8).collect();
        let z = compress_data(&data).unwrap();
        assert_eq!(decompress_data(&z), Ok(data));
    }
    let z = compress_data(&[]).unwrap();
    assert!(!z.is_empty());
    assert_eq!(decompress_data(&z), Ok(vec![]));
}

#[test]
fn snapshot_block_of_a_bundle_decodes_to_the_snapshot() {
    let snapshot: Vec<u8> = (0..5000u32).map(|k| (k % 17) as u8).collect();
    let cs = compress_data(&snapshot).unwrap();
    let zs = compress_data(b"filter").unwrap();
    let zc = compress_data(b"{}").unwrap();
    for (base, shader, pokes, config) in [
        (vec![], vec![], vec![], vec![]),
        (vec![0x5A; 33], zs.clone(), vec![], zc.clone()),
        (b"ZXND".repeat(9), vec![], zs.clone(), vec![]),
    ] {
        let image = assemble(&base, &cs, &shader, &pokes, &config).unwrap();
        let start = image.len() - 20 - config.len() - pokes.len() - shader.len() - cs.len();
        assert_eq!(start, base.len());
        assert_eq!(decompress_data(&image[start..start + cs.len()]), Ok(snapshot.clone()));
        let layout = locate(&image).unwrap().unwrap();
        assert_eq!(layout.snapshot_start, start);
        assert_eq!(layout.shader_start, start + cs.len());
        assert_eq!(extract(&image).unwrap().snapshot, snapshot);
    }
}

#[test]
fn block_of_four_gibibytes_does_not_fit_the_trailer() {
    assert_eq!(block_size(0), Ok(0));
    assert_eq!(block_size(0xFFFF_FFFF), Ok(0xFFFF_FFFF));
    let too_long = (0xFFFF_FFFFu64 + 1) as usize;
    if too_long != 0 {
        assert_eq!(block_size(too_long), Err(Error::BlockTooLarge));
        assert_eq!(block_size(usize::MAX), Err(Error::BlockTooLarge));
    }
}

#[test]
fn byte_strings_are_compared() {
    assert!(same_bytes(&[], &[]));
    assert!(same_bytes(&[1, 2, 3], &[1, 2, 3]));
    assert!(!same_bytes(&[1, 2, 3], &[1, 2]));
    assert!(!same_bytes(&[1, 2, 3], &[1, 2, 4]));
    assert!(!same_bytes(&[0, 2, 3], &[1, 2, 3]));
}
