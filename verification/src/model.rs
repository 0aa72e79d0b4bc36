//! Model of one legacy ATA controller channel driven by programmed I/O.
//!
//! The controller's register file is the true state of the protocol: the
//! driver itself is stateless between calls. `DevState` captures that state
//! (the backing store of sectors, the two-deep register FIFOs, the transfer
//! mode, and the log of port writes), and the `dev_*` transition functions
//! say how each port access moves it. The [`crate::bus::PortIo`] trait pins
//! every port backend to these transitions, so everything proved about the
//! driver holds of any backend that behaves like the modeled controller.
//!
//! The drive-select bit is recorded in the register file like every other
//! register write, but the model keeps a single medium per channel: it
//! models the wire protocol of one device position, not a pair of drives.

use vstd::prelude::*;

verus! {

/// Data register: 16-bit transfer unit.
pub const DATA_PORT: u16 = 0x1F0;
/// Sector count register: two sequential byte writes, high half then low half.
pub const COUNT_PORT: u16 = 0x1F2;
/// Low LBA byte of each triplet (bits 0-7 on the second write, 24-31 on the first).
pub const LBA_LO_PORT: u16 = 0x1F3;
/// Middle LBA byte of each triplet (bits 8-15 / 32-39).
pub const LBA_MID_PORT: u16 = 0x1F4;
/// High LBA byte of each triplet (bits 16-23 / 40-47).
pub const LBA_HI_PORT: u16 = 0x1F5;
/// Drive/head select register: fixed mode bits plus the drive-selector bit.
pub const DRIVE_PORT: u16 = 0x1F6;
/// Command register on write, status register on read.
pub const COMMAND_PORT: u16 = 0x1F7;

/// READ SECTORS EXT opcode.
pub const CMD_READ_EXT: u8 = 0x24;
/// WRITE SECTORS EXT opcode.
pub const CMD_WRITE_EXT: u8 = 0x34;
/// Data Request bit of the status register: ready to transfer a word.
pub const STATUS_DRQ: u8 = 0x08;

/// Bytes in one sector.
pub const SECTOR_BYTES: u64 = 512;
/// 16-bit words in one sector.
pub const SECTOR_WORDS: u64 = 256;
/// Exclusive upper bound of a 48-bit logical block address.
pub const LBA_LIMIT: u64 = 0x1_0000_0000_0000;

/// One write observed on the port bus.
#[derive(Clone, Copy, Debug, PartialEq, Eq, Structural)]
pub enum PortWrite {
    Byte(u16, u8),
    Word(u16, u16),
}

/// The controller's register file. Each multi-byte field keeps the last two
/// writes to its port in a two-deep FIFO: `prev` is the older write (the
/// high-order half of the field), `cur` the most recent one (the low-order
/// half).
#[derive(Clone, Copy, Debug, PartialEq, Eq, Structural)]
pub struct Regs {
    pub drive_head: u8,
    pub count_prev: u8,
    pub count_cur: u8,
    pub lba_lo_prev: u8,
    pub lba_lo_cur: u8,
    pub lba_mid_prev: u8,
    pub lba_mid_cur: u8,
    pub lba_hi_prev: u8,
    pub lba_hi_cur: u8,
}

/// Transfer phase of the controller.
#[verifier::ext_equal]
pub enum DevMode {
    /// No command in flight.
    Idle,
    /// A read command was issued; `pending` holds the words the data port
    /// will hand out, in order.
    Reading { pending: Seq<u16> },
    /// A write command was issued; `end` is the byte offset one past the
    /// transfer's span, `left` the words still expected, so the next data
    /// word lands at byte offset `end - 2 * left` of the store.
    Writing { end: nat, left: nat },
}

/// The whole modeled state of one controller channel.
#[verifier::ext_equal]
pub struct DevState {
    /// The device's sector contents, as one flat byte sequence.
    pub store: Seq<u8>,
    /// The register file.
    pub regs: Regs,
    /// The transfer phase.
    pub mode: DevMode,
    /// Every port write received so far, in order.
    pub log: Seq<PortWrite>,
}

/// The store byte at `i`, reading zero beyond the end of the medium.
pub open spec fn byte_at(store: Seq<u8>, i: int) -> u8 {
    if 0 <= i < store.len() {
        store[i]
    } else {
        0
    }
}

/// The little-endian 16-bit word whose bytes sit at offsets `i` and `i + 1`.
pub open spec fn word_at(store: Seq<u8>, i: int) -> u16 {
    (byte_at(store, i) + byte_at(store, i + 1) * 0x100) as u16
}

/// `nwords` consecutive data words starting at byte offset `off`.
pub open spec fn read_words(store: Seq<u8>, off: int, nwords: int) -> Seq<u16> {
    Seq::new(nwords as nat, |i: int| word_at(store, off + 2 * i))
}

/// `nbytes` consecutive store bytes starting at offset `off`.
pub open spec fn read_range(store: Seq<u8>, off: int, nbytes: int) -> Seq<u8> {
    Seq::new(nbytes as nat, |i: int| byte_at(store, off + i))
}

/// The store with byte `i` set to `b`; writes beyond the medium are dropped.
pub open spec fn store_set(store: Seq<u8>, i: int, b: u8) -> Seq<u8> {
    if 0 <= i < store.len() {
        store.update(i, b)
    } else {
        store
    }
}

/// The store with `data` written at byte offset `off`; the part of `data`
/// that falls beyond the medium is dropped.
pub open spec fn store_written(store: Seq<u8>, off: int, data: Seq<u8>) -> Seq<u8> {
    Seq::new(store.len(), |i: int| if off <= i < off + data.len() {
        data[i - off]
    } else {
        store[i]
    })
}

/// Low byte of a little-endian 16-bit word.
pub open spec fn word_lo(w: u16) -> u8 {
    (w % 0x100) as u8
}

/// High byte of a little-endian 16-bit word.
pub open spec fn word_hi(w: u16) -> u8 {
    (w / 0x100) as u8
}

/// The 16-bit word built from a little-endian byte pair.
pub open spec fn word_of(lo: u8, hi: u8) -> u16 {
    (lo + hi * 0x100) as u16
}

/// The little-endian byte stream of a word stream: each word contributes
/// its low byte, then its high byte.
pub open spec fn words_to_le_bytes(words: Seq<u16>) -> Seq<u8> {
    Seq::new(words.len() * 2, |i: int| if i % 2 == 0 {
        word_lo(words[i / 2])
    } else {
        word_hi(words[i / 2])
    })
}

/// Splitting the word built from a byte pair gives the pair back.
pub proof fn lemma_word_of_parts(lo: u8, hi: u8)
    ensures
        word_lo(word_of(lo, hi)) == lo,
        word_hi(word_of(lo, hi)) == hi,
{
    assert(word_lo(word_of(lo, hi)) == lo && word_hi(word_of(lo, hi)) == hi) by (bit_vector);
}

/// The byte stream of the words read from a span of the store is that span
/// itself: reading words and splitting them little-endian loses nothing.
pub proof fn lemma_read_words_bytes(store: Seq<u8>, off: int, nwords: int)
    requires
        0 <= nwords,
    ensures
        words_to_le_bytes(read_words(store, off, nwords)) == read_range(store, off, 2 * nwords),
{
    let ws = read_words(store, off, nwords);
    assert forall|i: int| 0 <= i < 2 * nwords implies words_to_le_bytes(ws)[i] == byte_at(
        store,
        off + i,
    ) by {
        let w = ws[i / 2];
        assert(w == word_at(store, off + 2 * (i / 2)));
        lemma_word_of_parts(byte_at(store, off + 2 * (i / 2)), byte_at(store, off + 2 * (i / 2) + 1));
        if i % 2 == 0 {
            assert(2 * (i / 2) == i);
        } else {
            assert(2 * (i / 2) + 1 == i);
        }
    }
    assert(words_to_le_bytes(ws) =~= read_range(store, off, 2 * nwords));
}

/// Reading back a span that was just written returns what was written,
/// provided the span lies within the medium.
pub proof fn lemma_written_then_read(store: Seq<u8>, off: int, data: Seq<u8>)
    requires
        0 <= off,
        off + data.len() <= store.len(),
    ensures
        read_range(store_written(store, off, data), off, data.len() as int) == data,
{
    assert(read_range(store_written(store, off, data), off, data.len() as int) =~= data);
}

/// One data word of a write transfer extends the span written so far by its
/// two bytes.
pub proof fn lemma_store_written_step(store: Seq<u8>, off: int, data: Seq<u8>, i: int)
    requires
        0 <= off,
        0 <= i,
        2 * i + 2 <= data.len(),
    ensures
        store_set(
            store_set(store_written(store, off, data.take(2 * i)), off + 2 * i, data[2 * i]),
            off + 2 * i + 1,
            data[2 * i + 1],
        ) == store_written(store, off, data.take(2 * i + 2)),
{
    assert(store_set(
        store_set(store_written(store, off, data.take(2 * i)), off + 2 * i, data[2 * i]),
        off + 2 * i + 1,
        data[2 * i + 1],
    ) =~= store_written(store, off, data.take(2 * i + 2)));
}

/// The sector count held by the count register FIFO.
pub open spec fn regs_count(r: Regs) -> int {
    r.count_prev * 0x100 + r.count_cur
}

/// The sector count a command acts on. A raw count of zero has the reserved
/// hardware meaning of the largest transfer, not of an empty one.
pub open spec fn regs_sectors(r: Regs) -> int {
    if regs_count(r) == 0 {
        0x1_0000
    } else {
        regs_count(r)
    }
}

/// The 48-bit logical block address held by the three LBA register FIFOs:
/// the most recent writes are bits 0-23, the older writes bits 24-47.
pub open spec fn regs_lba(r: Regs) -> int {
    r.lba_lo_cur + r.lba_mid_cur * 0x100 + r.lba_hi_cur * 0x1_0000 + r.lba_lo_prev * 0x100_0000
        + r.lba_mid_prev * 0x1_0000_0000 + r.lba_hi_prev * 0x100_0000_0000
}

/// The transfer phase entered when opcode `v` reaches the command register.
pub open spec fn command_mode(s: DevState, v: u8) -> DevMode {
    if v == CMD_READ_EXT {
        DevMode::Reading {
            pending: read_words(
                s.store,
                regs_lba(s.regs) * SECTOR_BYTES as int,
                regs_sectors(s.regs) * SECTOR_WORDS as int,
            ),
        }
    } else if v == CMD_WRITE_EXT {
        DevMode::Writing {
            end: ((regs_lba(s.regs) + regs_sectors(s.regs)) * SECTOR_BYTES as int) as nat,
            left: (regs_sectors(s.regs) * SECTOR_WORDS as int) as nat,
        }
    } else {
        DevMode::Idle
    }
}

/// State after a byte write to `port`: register writes shift the two-deep
/// FIFOs, a command write starts a transfer, and every write is logged.
pub open spec fn dev_write_u8(s: DevState, port: u16, v: u8) -> DevState {
    let logged = DevState { log: s.log.push(PortWrite::Byte(port, v)), ..s };
    if port == COUNT_PORT {
        DevState {
            regs: Regs { count_prev: s.regs.count_cur, count_cur: v, ..s.regs },
            ..logged
        }
    } else if port == LBA_LO_PORT {
        DevState {
            regs: Regs { lba_lo_prev: s.regs.lba_lo_cur, lba_lo_cur: v, ..s.regs },
            ..logged
        }
    } else if port == LBA_MID_PORT {
        DevState {
            regs: Regs { lba_mid_prev: s.regs.lba_mid_cur, lba_mid_cur: v, ..s.regs },
            ..logged
        }
    } else if port == LBA_HI_PORT {
        DevState {
            regs: Regs { lba_hi_prev: s.regs.lba_hi_cur, lba_hi_cur: v, ..s.regs },
            ..logged
        }
    } else if port == DRIVE_PORT {
        DevState { regs: Regs { drive_head: v, ..s.regs }, ..logged }
    } else if port == COMMAND_PORT {
        DevState { mode: command_mode(s, v), ..logged }
    } else {
        logged
    }
}

/// State after a word write to `port`: during a write transfer, a data-port
/// word lands in the store as a little-endian byte pair; every write is
/// logged.
pub open spec fn dev_write_u16(s: DevState, port: u16, v: u16) -> DevState {
    let logged = DevState { log: s.log.push(PortWrite::Word(port, v)), ..s };
    if port == DATA_PORT {
        match s.mode {
            DevMode::Writing { end, left } => {
                if left > 0 {
                    let off = end as int - 2 * (left as int);
                    DevState {
                        store: if off >= 0 {
                            store_set(store_set(s.store, off, word_lo(v)), off + 1, word_hi(v))
                        } else {
                            s.store
                        },
                        mode: if left == 1 {
                            DevMode::Idle
                        } else {
                            DevMode::Writing { end, left: (left - 1) as nat }
                        },
                        ..logged
                    }
                } else {
                    logged
                }
            },
            _ => logged,
        }
    } else {
        logged
    }
}

/// State after a word read from `port`: during a read transfer, a data-port
/// read consumes the next pending word. Reads are not logged.
pub open spec fn dev_read_u16_state(s: DevState, port: u16) -> DevState {
    if port == DATA_PORT {
        match s.mode {
            DevMode::Reading { pending } => {
                if pending.len() > 0 {
                    DevState {
                        mode: if pending.len() == 1 {
                            DevMode::Idle
                        } else {
                            DevMode::Reading { pending: pending.skip(1) }
                        },
                        ..s
                    }
                } else {
                    s
                }
            },
            _ => s,
        }
    } else {
        s
    }
}

/// The value a word read from `port` returns: the next pending word of a
/// read transfer, zero otherwise.
pub open spec fn dev_read_u16_val(s: DevState, port: u16) -> u16 {
    if port == DATA_PORT {
        match s.mode {
            DevMode::Reading { pending } => {
                if pending.len() > 0 {
                    pending[0]
                } else {
                    0
                }
            },
            _ => 0,
        }
    } else {
        0
    }
}

/// Whether the device is ready to transfer a data word.
pub open spec fn dev_ready(s: DevState) -> bool {
    match s.mode {
        DevMode::Idle => false,
        DevMode::Reading { pending } => pending.len() > 0,
        DevMode::Writing { end, left } => left > 0,
    }
}

/// The status byte: the Data Request bit is the only readiness flag the
/// minimal protocol uses.
pub open spec fn dev_status(s: DevState) -> u8 {
    if dev_ready(s) {
        STATUS_DRQ
    } else {
        0
    }
}

/// The value a byte read from `port` returns: the status byte at the
/// command/status port, zero elsewhere. Byte reads never change the state.
pub open spec fn dev_read_u8_val(s: DevState, port: u16) -> u8 {
    if port == COMMAND_PORT {
        dev_status(s)
    } else {
        0
    }
}

/// A freshly powered channel: registers cleared, no command in flight,
/// nothing logged.
pub open spec fn initial_dev(store: Seq<u8>) -> DevState {
    DevState {
        store,
        regs: Regs {
            drive_head: 0,
            count_prev: 0,
            count_cur: 0,
            lba_lo_prev: 0,
            lba_lo_cur: 0,
            lba_mid_prev: 0,
            lba_mid_cur: 0,
            lba_hi_prev: 0,
            lba_hi_cur: 0,
        },
        mode: DevMode::Idle,
        log: Seq::empty(),
    }
}

} // verus!
