use zexe::error::Error;
use zexe::snapshot::Machine;
use zexe::z80_loader::{convert_z80_to_sna, machine_for_mode, page_for_block};

fn base_header(pc: u16, byte12: u8) -> Vec<u8> {
    vec![
        0x11, 0x22, // A F
        0x33, 0x44, // C B
        0x55, 0x66, // L H
        (pc & 0xFF) as u8, (pc >> 8) as u8,
        0x00, 0xFF, // SP
        0x3F, 0x81, // I R
        byte12,
        0x01, 0x02, // E D
        0x03, 0x04, // C' B'
        0x05, 0x06, // E' D'
        0x07, 0x08, // L' H'
        0x09, 0x0A, // A' F'
        0x34, 0x12, // IY
        0x78, 0x56, // IX
        0x01, 0x04, // IFF1 IFF2
        0x02, // interrupt mode in bits 0 and 1
    ]
}

fn extended_header(len: u16, pc: u16, mode: u8, paging: u8) -> Vec<u8> {
    let mut h = base_header(0, 0x05);
    h.push((len & 0xFF) as u8);
    h.push((len >> 8) as u8);
    let mut ext = vec![(pc & 0xFF) as u8, (pc >> 8) as u8, mode, paging];
    ext.resize(len as usize, 0xEE);
    h.extend_from_slice(&ext);
    h
}

fn raw_block(id: u8, fill: u8) -> Vec<u8> {
    let mut b = vec![0xFF, 0xFF, id];
    b.extend_from_slice(&vec![fill; 16384]);
    b
}

fn packed_block(id: u8, data: &[u8]) -> Vec<u8> {
    let mut b = vec![(data.len() & 0xFF) as u8, (data.len() >> 8) as u8, id];
    b.extend_from_slice(data);
    b
}

#[test]
fn input_shorter_than_the_header_is_malformed() {
    assert_eq!(convert_z80_to_sna(&[]), Err(Error::MalformedInput));
    assert_eq!(convert_z80_to_sna(&[0u8; 29][..]), Err(Error::MalformedInput));
    let mut data = base_header(0x8000, 0);
    data.pop();
    assert_eq!(convert_z80_to_sna(&data), Err(Error::MalformedInput));
}

#[test]
fn bare_header_gives_empty_memory() {
    let (sna, machine) = convert_z80_to_sna(&base_header(0x8001, 0x05)).unwrap();
    assert_eq!(machine, Machine::Sinclair48K);
    assert_eq!(sna.len(), 49179);
    assert_eq!(
        &sna[0..27],
        &[
            0x3F, 0x07, 0x08, 0x05, 0x06, 0x03, 0x04, 0x0A, 0x09, 0x55, 0x66, 0x01, 0x02, 0x33,
            0x44, 0x34, 0x12, 0x78, 0x56, 3, 0x81, 0x22, 0x11, 0xFE, 0xFE, 2, 2
        ]
    );
    let at = 27 + (0xFEFE - 0x4000);
    assert_eq!(sna[at], 0x01);
    assert_eq!(sna[at + 1], 0x80);
    let zeros = sna[27..].iter().filter(|b| **b == 0).count();
    assert_eq!(zeros, 49152 - 2);
}

#[test]
fn header_bits_are_taken_apart() {
    // byte 12: bit 0 is bit 7 of R, bits 1 to 3 the border
    let mut data = base_header(0x8000, 0x0E);
    data[11] = 0xFF;
    data[28] = 0x03;
    data[29] = 0xFD;
    let (sna, _) = convert_z80_to_sna(&data).unwrap();
    assert_eq!(sna[19], 2);
    assert_eq!(sna[20], 0x7F);
    assert_eq!(sna[25], 1);
    assert_eq!(sna[26], 7);
}

#[test]
fn flat_image_is_copied() {
    let mut data = base_header(0x8000, 0x00);
    data.extend_from_slice(&[1, 2, 3, 0xED, 0xED, 2, 9]);
    let (sna, machine) = convert_z80_to_sna(&data).unwrap();
    assert_eq!(machine, Machine::Sinclair48K);
    assert_eq!(sna.len(), 49179);
    assert_eq!(&sna[27..35], &[1, 2, 3, 0xED, 0xED, 2, 9, 0]);
}

#[test]
fn flat_image_longer_than_memory_is_cut() {
    let mut data = base_header(0x8000, 0x00);
    data.extend_from_slice(&vec![0x77; 60000]);
    let (sna, _) = convert_z80_to_sna(&data).unwrap();
    assert_eq!(sna.len(), 49179);
    // the pushed program counter replaces two bytes
    let at = 27 + (0xFEFE - 0x4000);
    for (k, b) in sna[27..].iter().enumerate() {
        if k + 27 == at {
            assert_eq!(*b, 0x00);
        } else if k + 27 == at + 1 {
            assert_eq!(*b, 0x80);
        } else {
            assert_eq!(*b, 0x77);
        }
    }
}

#[test]
fn flat_image_is_expanded_when_flagged() {
    let mut data = base_header(0x8000, 0x20);
    data.extend_from_slice(&[1, 0xED, 0xED, 3, 9, 2]);
    let (sna, _) = convert_z80_to_sna(&data).unwrap();
    assert_eq!(&sna[27..33], &[1, 9, 9, 9, 2, 0]);
    assert_eq!(sna[26], 0);
}

#[test]
fn flat_image_fills_pages_5_2_0_in_order() {
    let mut data = base_header(0x8000, 0x00);
    let mut memory = vec![0xA5; 16384];
    memory.extend_from_slice(&vec![0xA2; 16384]);
    memory.extend_from_slice(&vec![0xA0; 16384]);
    data.extend_from_slice(&memory);
    let (sna, _) = convert_z80_to_sna(&data).unwrap();
    assert_eq!(sna[27], 0xA5);
    assert_eq!(sna[27 + 16384], 0xA2);
    assert_eq!(sna[27 + 32768], 0xA0);
}

#[test]
fn hardware_mode_4_with_all_pages_is_128k() {
    let mut data = extended_header(23, 0x1234, 4, 0x13);
    assert_eq!(data.len(), 32 + 23);
    for id in 3..=10u8 {
        if id == 4 {
            data.extend_from_slice(&packed_block(id, &[0xED, 0xED, 0x10, 0xAA, 0xBB]));
        } else {
            data.extend_from_slice(&raw_block(id, 0x20 + (id - 3)));
        }
    }
    let (sna, machine) = convert_z80_to_sna(&data).unwrap();
    assert_eq!(machine, Machine::Sinclair128K);
    assert_eq!(sna.len(), 131103);
    // the stack pointer is left alone
    assert_eq!(sna[23], 0x00);
    assert_eq!(sna[24], 0xFF);
    assert_eq!(sna[27], 0x25);
    assert_eq!(sna[27 + 16384], 0x22);
    assert_eq!(sna[27 + 32768], 0x23);
    let ext = 27 + 49152;
    assert_eq!(&sna[ext..ext + 4], &[0x34, 0x12, 0x13, 0x00]);
    let rest = ext + 4;
    assert_eq!(sna[rest], 0x20);
    // page 1 came packed: sixteen bytes AA, one BB, zeros after them
    let page1 = rest + 16384;
    assert!(sna[page1..page1 + 16].iter().all(|b| *b == 0xAA));
    assert_eq!(sna[page1 + 16], 0xBB);
    assert!(sna[page1 + 17..page1 + 16384].iter().all(|b| *b == 0));
    assert_eq!(sna[rest + 2 * 16384], 0x24);
    assert_eq!(sna[rest + 3 * 16384], 0x26);
    assert_eq!(sna[rest + 4 * 16384], 0x27);
}

#[test]
fn extended_file_for_48k_uses_blocks_8_4_5() {
    let mut data = extended_header(23, 0x9000, 0, 0);
    data.extend_from_slice(&raw_block(8, 0x55));
    data.extend_from_slice(&raw_block(4, 0x52));
    data.extend_from_slice(&raw_block(5, 0x50));
    data.extend_from_slice(&raw_block(3, 0x99));
    let (sna, machine) = convert_z80_to_sna(&data).unwrap();
    assert_eq!(machine, Machine::Sinclair48K);
    assert_eq!(sna.len(), 49179);
    assert_eq!(sna[27], 0x55);
    assert_eq!(sna[27 + 16384], 0x52);
    assert_eq!(sna[27 + 32768], 0x50);
    let at = 27 + (0xFEFE - 0x4000);
    assert_eq!(sna[at], 0x00);
    assert_eq!(sna[at + 1], 0x90);
}

#[test]
fn later_block_writes_over_earlier_one() {
    let mut data = extended_header(23, 0x9000, 0, 0);
    data.extend_from_slice(&raw_block(8, 0x55));
    data.extend_from_slice(&packed_block(8, &[1, 2, 3]));
    let (sna, _) = convert_z80_to_sna(&data).unwrap();
    assert_eq!(&sna[27..32], &[1, 2, 3, 0x55, 0x55]);
}

#[test]
fn block_header_cut_short_is_malformed() {
    let mut data = extended_header(23, 0x9000, 0, 0);
    data.extend_from_slice(&raw_block(8, 0x55));
    data.push(0x10);
    assert_eq!(convert_z80_to_sna(&data), Err(Error::MalformedInput));
    data.push(0x00);
    assert_eq!(convert_z80_to_sna(&data), Err(Error::MalformedInput));
}

#[test]
fn block_data_cut_short_ends_reading() {
    let mut data = extended_header(23, 0x9000, 0, 0);
    data.extend_from_slice(&raw_block(8, 0x55));
    data.extend_from_slice(&[0x10, 0x00, 4, 1, 2, 3]);
    let (sna, _) = convert_z80_to_sna(&data).unwrap();
    assert_eq!(sna[27], 0x55);
    assert_eq!(sna[27 + 16384], 0x00);
}

#[test]
fn extended_header_cut_short_is_malformed() {
    let full = extended_header(23, 0x9000, 0, 0);
    for len in 30..full.len() {
        assert_eq!(convert_z80_to_sna(&full[..len]), Err(Error::MalformedInput));
    }
    assert!(convert_z80_to_sna(&full).is_ok());
}

#[test]
fn short_extended_headers() {
    // length 2: only the program counter
    let mut data = base_header(0, 0);
    data.extend_from_slice(&[2, 0, 0x34, 0x12]);
    data.extend_from_slice(&raw_block(8, 0x55));
    let (sna, machine) = convert_z80_to_sna(&data).unwrap();
    assert_eq!(machine, Machine::Sinclair48K);
    assert_eq!(sna[27], 0x55);
    // length 3: the hardware mode too
    let mut data = base_header(0, 0);
    data.extend_from_slice(&[3, 0, 0x34, 0x12, 4]);
    data.extend_from_slice(&raw_block(8, 0x55));
    let (sna, machine) = convert_z80_to_sna(&data).unwrap();
    assert_eq!(machine, Machine::Sinclair128K);
    assert_eq!(sna[27], 0x55);
    assert_eq!(sna[27 + 49152 + 2], 0);
    // length 1: the program counter is read all the same, one byte skipped
    let mut data = base_header(0, 0);
    data.extend_from_slice(&[1, 0, 0x34, 0x12, 0xEE]);
    data.extend_from_slice(&raw_block(8, 0x55));
    let (sna, _) = convert_z80_to_sna(&data).unwrap();
    assert_eq!(sna[27], 0x55);
    // length 0
    let mut data = base_header(0, 0);
    data.extend_from_slice(&[0, 0, 0x34, 0x12]);
    data.extend_from_slice(&raw_block(8, 0x55));
    let (sna, _) = convert_z80_to_sna(&data).unwrap();
    assert_eq!(sna[27], 0x55);
}

#[test]
fn unknown_header_length_still_reads_blocks() {
    let mut data = extended_header(30, 0x9000, 0, 0);
    data.extend_from_slice(&raw_block(8, 0x55));
    let (sna, _) = convert_z80_to_sna(&data).unwrap();
    assert_eq!(sna[27], 0x55);
}

#[test]
fn hardware_modes_and_machines() {
    assert_eq!(machine_for_mode(0), Machine::Sinclair48K);
    assert_eq!(machine_for_mode(1), Machine::Sinclair48K);
    assert_eq!(machine_for_mode(2), Machine::Sinclair48K);
    assert_eq!(machine_for_mode(3), Machine::Sinclair128K);
    assert_eq!(machine_for_mode(13), Machine::Sinclair128K);
    assert_eq!(machine_for_mode(14), Machine::Sinclair48K);
    assert_eq!(machine_for_mode(255), Machine::Sinclair48K);
}

#[test]
fn block_identifiers_and_pages() {
    assert_eq!(page_for_block(Machine::Sinclair48K, 8), Some(5));
    assert_eq!(page_for_block(Machine::Sinclair48K, 4), Some(2));
    assert_eq!(page_for_block(Machine::Sinclair48K, 5), Some(0));
    assert_eq!(page_for_block(Machine::Sinclair48K, 3), None);
    assert_eq!(page_for_block(Machine::Sinclair48K, 0), None);
    for id in 3..=10u8 {
        assert_eq!(page_for_block(Machine::Sinclair128K, id), Some(id - 3));
    }
    assert_eq!(page_for_block(Machine::Sinclair128K, 2), None);
    assert_eq!(page_for_block(Machine::Sinclair128K, 11), None);
}
