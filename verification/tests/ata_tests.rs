use ata_pio::driver::{read_lba, try_read_lba, try_write_lba, write_lba, AtaError};
use ata_pio::model::PortWrite;
use ata_pio::sim::SimDevice;

/// The register preamble is exactly nine byte writes in the fixed protocol
/// order, followed by the command opcode, with the high half of each field
/// written before its low half.
#[test]
fn preamble_is_nine_writes_in_order() {
    let mut dev = SimDevice::new(vec![0u8; 1024]);
    read_lba(&mut dev, true, 0x0000_1234_5678, 0x0102);
    let log = dev.recorded_writes();
    assert_eq!(log.len(), 10);
    assert_eq!(log[0], PortWrite::Byte(0x1F6, 0x50)); // drive/head: LBA mode, drive 1
    assert_eq!(log[1], PortWrite::Byte(0x1F2, 0x01)); // sector count, high byte
    assert_eq!(log[2], PortWrite::Byte(0x1F3, 0x12)); // LBA bits 24-31
    assert_eq!(log[3], PortWrite::Byte(0x1F4, 0x00)); // LBA bits 32-39
    assert_eq!(log[4], PortWrite::Byte(0x1F5, 0x00)); // LBA bits 40-47
    assert_eq!(log[5], PortWrite::Byte(0x1F2, 0x02)); // sector count, low byte
    assert_eq!(log[6], PortWrite::Byte(0x1F3, 0x78)); // LBA bits 0-7
    assert_eq!(log[7], PortWrite::Byte(0x1F4, 0x56)); // LBA bits 8-15
    assert_eq!(log[8], PortWrite::Byte(0x1F5, 0x34)); // LBA bits 16-23
    assert_eq!(log[9], PortWrite::Byte(0x1F7, 0x24)); // READ SECTORS EXT
}

/// The write path issues the same preamble, then the write opcode, then one
/// data-port word per byte pair.
#[test]
fn write_preamble_and_data_words() {
    let mut dev = SimDevice::new(vec![0u8; 1024]);
    let mut data = vec![0u8; 512];
    data[0] = 0x34;
    data[1] = 0x12;
    data[2] = 0xFE;
    data[3] = 0xCA;
    write_lba(&mut dev, false, 1, 1, &data);
    let log = dev.recorded_writes();
    assert_eq!(log.len(), 10 + 256);
    assert_eq!(log[0], PortWrite::Byte(0x1F6, 0x40));
    assert_eq!(log[9], PortWrite::Byte(0x1F7, 0x34)); // WRITE SECTORS EXT
    // data words are little-endian byte pairs, in input order
    assert_eq!(log[10], PortWrite::Word(0x1F0, 0x1234));
    assert_eq!(log[11], PortWrite::Word(0x1F0, 0xCAFE));
    assert_eq!(log[12], PortWrite::Word(0x1F0, 0x0000));
}

/// The three high LBA bytes of `lba = 0x0001_0203_0405` are written as
/// `{0x02, 0x01, 0x00}` in ascending port order and the three low bytes as
/// `{0x05, 0x04, 0x03}`: each triplet is the little-endian split of its
/// half of the address (byte 0 = bits 0-7, byte 1 = bits 8-15, and so on).
#[test]
fn lba_byte_order_pinned() {
    let mut dev = SimDevice::new(vec![0u8; 512]);
    read_lba(&mut dev, false, 0x0001_0203_0405, 1);
    let log = dev.recorded_writes();
    // high triplet, ascending port order: bits 24-31, 32-39, 40-47
    assert_eq!(log[2], PortWrite::Byte(0x1F3, 0x02));
    assert_eq!(log[3], PortWrite::Byte(0x1F4, 0x01));
    assert_eq!(log[4], PortWrite::Byte(0x1F5, 0x00));
    // low triplet, ascending port order: bits 0-7, 8-15, 16-23
    assert_eq!(log[6], PortWrite::Byte(0x1F3, 0x05));
    assert_eq!(log[7], PortWrite::Byte(0x1F4, 0x04));
    assert_eq!(log[8], PortWrite::Byte(0x1F5, 0x03));
}

/// Round trip: what was written to `(drive, lba, count)` is read back
/// byte-identical from the same span.
#[test]
fn round_trip_returns_identical_bytes() {
    let mut dev = SimDevice::new(vec![0u8; 8 * 512]);
    let data: Vec<u8> = (0..3 * 512).map(|i| (i * 7 % 251) as u8).collect();
    write_lba(&mut dev, false, 2, 3, &data);
    let back = read_lba(&mut dev, false, 2, 3);
    assert_eq!(back, data);
}

/// Sectors the write did not touch keep their previous contents.
#[test]
fn write_leaves_other_sectors_alone() {
    let mut dev = SimDevice::new(vec![0x11u8; 4 * 512]);
    let data = vec![0x22u8; 512];
    write_lba(&mut dev, false, 1, 1, &data);
    let contents = dev.contents();
    assert!(contents[..512].iter().all(|&b| b == 0x11));
    assert!(contents[512..1024].iter().all(|&b| b == 0x22));
    assert!(contents[1024..].iter().all(|&b| b == 0x11));
}

/// A single sector transfers exactly 256 words, that is 512 bytes.
#[test]
fn count_one_transfers_512_bytes() {
    let mut dev = SimDevice::new(vec![0u8; 512]);
    let out = read_lba(&mut dev, false, 0, 1);
    assert_eq!(out.len(), 512);
}

/// The largest count transfers 65535 * 256 words with no intermediate
/// overflow.
#[test]
fn count_max_transfers_all_words() {
    let n = 65535usize * 512;
    let mut dev = SimDevice::new(vec![0x5Au8; n]);
    let out = read_lba(&mut dev, false, 0, 65535);
    assert_eq!(out.len(), n);
    assert!(out.iter().all(|&b| b == 0x5A));
}

/// The largest count also goes through the write path whole: one data word
/// per byte pair, with no intermediate overflow.
#[test]
fn count_max_writes_all_words() {
    let n = 65535usize * 512;
    let data: Vec<u8> = (0..n).map(|i| (i % 256) as u8).collect();
    let mut dev = SimDevice::new(vec![0u8; n]);
    write_lba(&mut dev, false, 0, 65535, &data);
    assert_eq!(dev.recorded_writes().len(), 10 + 65535 * 256);
    assert_eq!(dev.contents(), &data);
}

/// Data words come back from the data port low byte first.
#[test]
fn read_words_are_little_endian() {
    let mut store = vec![0u8; 512];
    store[0] = 0xCD;
    store[1] = 0xAB;
    let mut dev = SimDevice::new(store);
    let out = read_lba(&mut dev, false, 0, 1);
    assert_eq!(out[0], 0xCD);
    assert_eq!(out[1], 0xAB);
}

/// Reading beyond the end of the medium yields zero bytes.
#[test]
fn read_beyond_medium_is_zero() {
    let mut dev = SimDevice::new(vec![0xFFu8; 256]);
    let out = read_lba(&mut dev, false, 0, 1);
    assert!(out[..256].iter().all(|&b| b == 0xFF));
    assert!(out[256..].iter().all(|&b| b == 0x00));
}

/// A write buffer whose length is not `count * 512` is refused before any
/// port is touched: the simulated port sink records zero writes.
#[test]
fn wrong_buffer_length_touches_no_port() {
    let mut dev = SimDevice::new(vec![0u8; 1024]);
    let data = vec![0u8; 511];
    let r = try_write_lba(&mut dev, false, 0, 1, &data);
    assert_eq!(r, Err(AtaError::BufferLength));
    assert_eq!(dev.recorded_writes().len(), 0);
    assert!(dev.contents().iter().all(|&b| b == 0));
}

/// A sector count of zero is refused: its raw register value has a reserved
/// hardware meaning the driver must not trigger.
#[test]
fn sector_count_zero_refused() {
    let mut dev = SimDevice::new(vec![0u8; 1024]);
    assert_eq!(try_read_lba(&mut dev, false, 0, 0), Err(AtaError::SectorCount));
    let data: Vec<u8> = Vec::new();
    assert_eq!(try_write_lba(&mut dev, false, 0, 0, &data), Err(AtaError::SectorCount));
    assert_eq!(dev.recorded_writes().len(), 0);
}

/// An address that does not fit in 48 bits is refused.
#[test]
fn lba_out_of_range_refused() {
    let mut dev = SimDevice::new(vec![0u8; 1024]);
    assert_eq!(try_read_lba(&mut dev, false, 1u64 << 48, 1), Err(AtaError::LbaRange));
    let data = vec![0u8; 512];
    assert_eq!(try_write_lba(&mut dev, false, 1u64 << 48, 1, &data), Err(AtaError::LbaRange));
    assert_eq!(dev.recorded_writes().len(), 0);
}

/// Well-formed requests go through the checked entry points.
#[test]
fn checked_requests_succeed() {
    let mut dev = SimDevice::new(vec![0u8; 1024]);
    let data = vec![0x77u8; 512];
    assert_eq!(try_write_lba(&mut dev, false, 0, 1, &data), Ok(()));
    let out = try_read_lba(&mut dev, false, 0, 1).unwrap();
    assert_eq!(out, data);
}

/// Scenario: reading two sectors at address zero from a device pre-loaded
/// with 1024 bytes of pattern 0xAA returns exactly those 1024 bytes.
#[test]
fn read_two_sectors_of_pattern() {
    let mut dev = SimDevice::new(vec![0xAAu8; 1024]);
    let out = read_lba(&mut dev, false, 0, 2);
    assert_eq!(out.len(), 1024);
    assert!(out.iter().all(|&b| b == 0xAA));
}
