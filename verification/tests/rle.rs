use zexe::rle::decompress_z80_block;

#[test]
fn run_expands_into_buffer() {
    let mut out = [0u8; 5];
    decompress_z80_block(&[0xED, 0xED, 0x05, 0x41], &mut out);
    assert_eq!(out, [0x41, 0x41, 0x41, 0x41, 0x41]);
}

#[test]
fn plain_bytes_are_copied() {
    let mut out = [0u8; 3];
    decompress_z80_block(&[0x01, 0x02, 0x03], &mut out);
    assert_eq!(out, [0x01, 0x02, 0x03]);
}

#[test]
fn truncated_marker_is_copied() {
    let mut out = [9u8; 4];
    decompress_z80_block(&[0xED, 0xED, 0x05], &mut out);
    assert_eq!(out, [0xED, 0xED, 0x05, 9]);
}

#[test]
fn run_is_cut_at_capacity() {
    let mut out = [0u8; 3];
    decompress_z80_block(&[0x07, 0xED, 0xED, 0x0A, 0x55, 0x08], &mut out);
    assert_eq!(out, [0x07, 0x55, 0x55]);
}

#[test]
fn empty_run_writes_nothing() {
    let mut out = [1u8; 3];
    decompress_z80_block(&[0xED, 0xED, 0x00, 0x41, 0x02], &mut out);
    assert_eq!(out, [0x02, 1, 1]);
}
