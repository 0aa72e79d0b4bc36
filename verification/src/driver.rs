//! The block-device driver: translates `(drive, lba, count)` requests into
//! the register-write sequence of the wire protocol, polls for readiness,
//! and streams the data words.

use vstd::prelude::*;

use crate::bus::PortIo;
use crate::model::{
    dev_ready, dev_status, lemma_read_words_bytes, lemma_store_written_step, lemma_word_of_parts,
    lemma_written_then_read, read_range, read_words, regs_count, regs_lba, regs_sectors,
    store_written, word_of, words_to_le_bytes, DevMode, PortWrite, Regs, CMD_READ_EXT,
    CMD_WRITE_EXT, COMMAND_PORT, COUNT_PORT, DATA_PORT, DRIVE_PORT, LBA_HI_PORT, LBA_LIMIT,
    LBA_LO_PORT, LBA_MID_PORT, SECTOR_BYTES, SECTOR_WORDS, STATUS_DRQ,
};

verus! {

/// Why a request was refused before any port was touched.
#[derive(Clone, Copy, Debug, PartialEq, Eq, Structural)]
pub enum AtaError {
    /// The write buffer's length is not `sectors * 512`.
    BufferLength,
    /// A sector count of zero has a reserved hardware meaning and is refused.
    SectorCount,
    /// The logical block address does not fit in 48 bits.
    LbaRange,
}

/// Bits 0-7 of the logical block address.
pub open spec fn lba_byte0(lba: u64) -> u8 {
    (lba & 0xFF) as u8
}

/// Bits 8-15 of the logical block address.
pub open spec fn lba_byte1(lba: u64) -> u8 {
    ((lba >> 8) & 0xFF) as u8
}

/// Bits 16-23 of the logical block address.
pub open spec fn lba_byte2(lba: u64) -> u8 {
    ((lba >> 16) & 0xFF) as u8
}

/// Bits 24-31 of the logical block address.
pub open spec fn lba_byte3(lba: u64) -> u8 {
    ((lba >> 24) & 0xFF) as u8
}

/// Bits 32-39 of the logical block address.
pub open spec fn lba_byte4(lba: u64) -> u8 {
    ((lba >> 32) & 0xFF) as u8
}

/// Bits 40-47 of the logical block address.
pub open spec fn lba_byte5(lba: u64) -> u8 {
    ((lba >> 40) & 0xFF) as u8
}

/// Low byte of the 16-bit sector count.
pub open spec fn count_lo_byte(sectors: u16) -> u8 {
    (sectors & 0xFF) as u8
}

/// High byte of the 16-bit sector count.
pub open spec fn count_hi_byte(sectors: u16) -> u8 {
    ((sectors >> 8) & 0xFF) as u8
}

/// The drive/head select byte: the fixed LBA-mode pattern with the
/// drive-selector bit in bit 4.
pub open spec fn drive_select_byte(drive_sel: bool) -> u8 {
    if drive_sel {
        0x50
    } else {
        0x40
    }
}

/// The nine register writes of the command preamble, in issue order:
/// drive/head select, then the high halves of the count and LBA fields,
/// then their low halves, each field split little-endian.
pub open spec fn preamble_writes(drive_sel: bool, lba: u64, sectors: u16) -> Seq<PortWrite> {
    seq![
        PortWrite::Byte(DRIVE_PORT, drive_select_byte(drive_sel)),
        PortWrite::Byte(COUNT_PORT, count_hi_byte(sectors)),
        PortWrite::Byte(LBA_LO_PORT, lba_byte3(lba)),
        PortWrite::Byte(LBA_MID_PORT, lba_byte4(lba)),
        PortWrite::Byte(LBA_HI_PORT, lba_byte5(lba)),
        PortWrite::Byte(COUNT_PORT, count_lo_byte(sectors)),
        PortWrite::Byte(LBA_LO_PORT, lba_byte0(lba)),
        PortWrite::Byte(LBA_MID_PORT, lba_byte1(lba)),
        PortWrite::Byte(LBA_HI_PORT, lba_byte2(lba)),
    ]
}

/// The full register sequence of one command: the preamble followed by the
/// opcode written to the command register.
pub open spec fn command_writes(drive_sel: bool, lba: u64, sectors: u16, opcode: u8) -> Seq<
    PortWrite,
> {
    preamble_writes(drive_sel, lba, sectors).push(PortWrite::Byte(COMMAND_PORT, opcode))
}

/// The register file after the preamble has been written: every FIFO holds
/// the high half of its field in the older slot and the low half in the
/// newer one.
pub open spec fn regs_after(drive_sel: bool, lba: u64, sectors: u16) -> Regs {
    Regs {
        drive_head: drive_select_byte(drive_sel),
        count_prev: count_hi_byte(sectors),
        count_cur: count_lo_byte(sectors),
        lba_lo_prev: lba_byte3(lba),
        lba_lo_cur: lba_byte0(lba),
        lba_mid_prev: lba_byte4(lba),
        lba_mid_cur: lba_byte1(lba),
        lba_hi_prev: lba_byte5(lba),
        lba_hi_cur: lba_byte2(lba),
    }
}

/// The little-endian byte split of the LBA is exact: the six register bytes
/// reassemble to the address, so the device selects the requested sectors.
pub proof fn lemma_lba_split(lba: u64)
    requires
        lba < LBA_LIMIT,
    ensures
        lba_byte0(lba) + lba_byte1(lba) * 0x100 + lba_byte2(lba) * 0x1_0000 + lba_byte3(lba)
            * 0x100_0000 + lba_byte4(lba) * 0x1_0000_0000 + lba_byte5(lba) * 0x100_0000_0000
            == lba,
{
    assert(lba_byte0(lba) + lba_byte1(lba) * 0x100 + lba_byte2(lba) * 0x1_0000 + lba_byte3(lba)
        * 0x100_0000 + lba_byte4(lba) * 0x1_0000_0000 + lba_byte5(lba) * 0x100_0000_0000
        == lba) by (bit_vector)
        requires
            lba < 0x1_0000_0000_0000u64,
    ;
}

/// The little-endian byte split of the sector count is exact.
pub proof fn lemma_count_split(sectors: u16)
    ensures
        count_hi_byte(sectors) * 0x100 + count_lo_byte(sectors) == sectors,
{
    assert(count_hi_byte(sectors) * 0x100 + count_lo_byte(sectors) == sectors) by (bit_vector);
}

/// The register file left by the preamble addresses exactly the requested
/// span: the FIFO contents reassemble to `lba` and `sectors`.
pub proof fn lemma_regs_after_exact(drive_sel: bool, lba: u64, sectors: u16)
    requires
        1 <= sectors,
        lba < LBA_LIMIT,
    ensures
        regs_lba(regs_after(drive_sel, lba, sectors)) == lba,
        regs_count(regs_after(drive_sel, lba, sectors)) == sectors,
        regs_sectors(regs_after(drive_sel, lba, sectors)) == sectors,
{
    lemma_lba_split(lba);
    lemma_count_split(sectors);
}

/// Issue one command: the nine-write preamble, the opcode, then a poll of
/// the status register until the Data Request bit is set.
fn issue_command<B: PortIo>(bus: &mut B, drive_sel: bool, lba: u64, sectors: u16, opcode: u8)
    requires
        1 <= sectors,
        lba < LBA_LIMIT,
        opcode == CMD_READ_EXT || opcode == CMD_WRITE_EXT,
    ensures
        final(bus).dev().store == old(bus).dev().store,
        final(bus).dev().regs == regs_after(drive_sel, lba, sectors),
        final(bus).dev().log == old(bus).dev().log + command_writes(drive_sel, lba, sectors, opcode),
        opcode == CMD_READ_EXT ==> final(bus).dev().mode == (DevMode::Reading {
            pending: read_words(
                old(bus).dev().store,
                lba * SECTOR_BYTES as int,
                sectors * SECTOR_WORDS as int,
            ),
        }),
        opcode == CMD_WRITE_EXT ==> final(bus).dev().mode == (DevMode::Writing {
            end: ((lba + sectors) * SECTOR_BYTES as int) as nat,
            left: (sectors * SECTOR_WORDS as int) as nat,
        }),
{
    let ghost s0 = bus.dev();

    let drive_byte: u8 = if drive_sel {
        0x50
    } else {
        0x40
    };
    proof {
        assert(lba & 0xFF < 0x100 && (lba >> 8) & 0xFF < 0x100 && (lba >> 16) & 0xFF < 0x100 && (
        lba >> 24) & 0xFF < 0x100 && (lba >> 32) & 0xFF < 0x100 && (lba >> 40) & 0xFF < 0x100)
            by (bit_vector);
        assert(sectors & 0xFF < 0x100 && (sectors >> 8) & 0xFF < 0x100) by (bit_vector);
    }
    let count_lo: u8 = (sectors & 0xFF) as u8;
    let count_hi: u8 = ((sectors >> 8) & 0xFF) as u8;
    let lba_b0: u8 = (lba & 0xFF) as u8;
    let lba_b1: u8 = ((lba >> 8) & 0xFF) as u8;
    let lba_b2: u8 = ((lba >> 16) & 0xFF) as u8;
    let lba_b3: u8 = ((lba >> 24) & 0xFF) as u8;
    let lba_b4: u8 = ((lba >> 32) & 0xFF) as u8;
    let lba_b5: u8 = ((lba >> 40) & 0xFF) as u8;

    bus.write_u8(DRIVE_PORT, drive_byte);
    bus.write_u8(COUNT_PORT, count_hi);
    bus.write_u8(LBA_LO_PORT, lba_b3);
    bus.write_u8(LBA_MID_PORT, lba_b4);
    bus.write_u8(LBA_HI_PORT, lba_b5);
    bus.write_u8(COUNT_PORT, count_lo);
    bus.write_u8(LBA_LO_PORT, lba_b0);
    bus.write_u8(LBA_MID_PORT, lba_b1);
    bus.write_u8(LBA_HI_PORT, lba_b2);
    bus.write_u8(COMMAND_PORT, opcode);

    proof {
        assert(bus.dev().regs == regs_after(drive_sel, lba, sectors));
        assert(bus.dev().log =~= s0.log + command_writes(drive_sel, lba, sectors, opcode));
        lemma_regs_after_exact(drive_sel, lba, sectors);
    }

    let ghost issued = bus.dev();
    let mut ready = false;
    while !ready
        invariant
            bus.dev() == issued,
            dev_ready(issued),
        decreases (if ready {
            0int
        } else {
            1int
        }),
    {
        let status = bus.read_u8(COMMAND_PORT);
        ready = status & STATUS_DRQ != 0;
        proof {
            assert(status == dev_status(issued));
            assert(STATUS_DRQ & STATUS_DRQ != 0) by (bit_vector);
        }
    }
}

/// Read `sectors` sectors starting at logical block address `lba` from the
/// selected drive, one 16-bit word at a time, low byte first.
///
/// The returned buffer is exactly the addressed span of the device's store,
/// the channel receives exactly the nine-write preamble followed by the read
/// opcode, and the device is left idle with its contents untouched.
pub fn read_lba<B: PortIo>(bus: &mut B, drive_sel: bool, lba: u64, sectors: u16) -> (out: Vec<u8>)
    requires
        1 <= sectors,
        lba < LBA_LIMIT,
    ensures
        out@.len() == sectors as int * SECTOR_BYTES as int,
        out@ == read_range(
            old(bus).dev().store,
            lba as int * SECTOR_BYTES as int,
            sectors as int * SECTOR_BYTES as int,
        ),
        final(bus).dev().store == old(bus).dev().store,
        final(bus).dev().regs == regs_after(drive_sel, lba, sectors),
        final(bus).dev().mode == DevMode::Idle,
        final(bus).dev().log == old(bus).dev().log + command_writes(
            drive_sel,
            lba,
            sectors,
            CMD_READ_EXT,
        ),
{
    let ghost s0 = bus.dev();
    issue_command(bus, drive_sel, lba, sectors, CMD_READ_EXT);
    let ghost words = read_words(s0.store, lba as int * 512, sectors as int * 256);

    let total_words: usize = (sectors as usize) * (SECTOR_WORDS as usize);
    let mut out: Vec<u8> = Vec::new();
    let mut i: usize = 0;
    while i < total_words
        invariant
            total_words == sectors as int * 256,
            i <= total_words,
            bus.dev().store == s0.store,
            bus.dev().regs == regs_after(drive_sel, lba, sectors),
            bus.dev().log == s0.log + command_writes(drive_sel, lba, sectors, CMD_READ_EXT),
            bus.dev().mode == (if i < total_words {
                DevMode::Reading { pending: words.skip(i as int) }
            } else {
                DevMode::Idle
            }),
            words == read_words(s0.store, lba as int * 512, sectors as int * 256),
            out@ == words_to_le_bytes(words.take(i as int)),
        decreases total_words - i,
    {
        let ghost ii = i as int;
        let w = bus.read_u16(DATA_PORT);
        proof {
            assert(words.skip(ii)[0] == words[ii]);
            assert(w == words[ii]);
            if ii + 1 < total_words {
                assert(words.skip(ii).skip(1) =~= words.skip(ii + 1));
                assert(bus.dev().mode =~~= DevMode::Reading { pending: words.skip(ii + 1) });
            }
        }
        proof {
            assert(w & 0xFF == w % 0x100 && w & 0xFF < 0x100) by (bit_vector);
            assert(w >> 8 == w / 0x100 && w >> 8 < 0x100) by (bit_vector);
        }
        let lo = (w & 0xFF) as u8;
        let hi = (w >> 8) as u8;
        out.push(lo);
        out.push(hi);
        i = i + 1;
        proof {
            assert(out@ =~= words_to_le_bytes(words.take(ii + 1)));
        }
    }
    proof {
        assert(words.take(total_words as int) =~= words);
        lemma_read_words_bytes(s0.store, lba as int * 512, sectors as int * 256);
        assert(2 * (sectors as int * 256) == sectors as int * 512);
    }
    out
}

/// The data-port word writes of one write transfer: consecutive
/// little-endian byte pairs of the buffer, in input order.
pub open spec fn data_word_writes(data: Seq<u8>) -> Seq<PortWrite> {
    Seq::new(
        data.len() / 2,
        |i: int| PortWrite::Word(DATA_PORT, word_of(data[2 * i], data[2 * i + 1])),
    )
}

/// Write `data` to `sectors` sectors starting at logical block address
/// `lba` on the selected drive, one 16-bit word at a time, each word built
/// from a consecutive little-endian byte pair of `data`.
///
/// The device's store afterwards holds `data` at the addressed span, the
/// channel receives exactly the nine-write preamble, the write opcode and
/// the data words, and the device is left idle.
pub fn write_lba<B: PortIo>(bus: &mut B, drive_sel: bool, lba: u64, sectors: u16, data: &[u8])
    requires
        1 <= sectors,
        lba < LBA_LIMIT,
        data@.len() == sectors as int * SECTOR_BYTES as int,
    ensures
        final(bus).dev().store == store_written(
            old(bus).dev().store,
            lba as int * SECTOR_BYTES as int,
            data@,
        ),
        final(bus).dev().regs == regs_after(drive_sel, lba, sectors),
        final(bus).dev().mode == DevMode::Idle,
        final(bus).dev().log == old(bus).dev().log + command_writes(
            drive_sel,
            lba,
            sectors,
            CMD_WRITE_EXT,
        ) + data_word_writes(data@),
{
    let ghost s0 = bus.dev();
    issue_command(bus, drive_sel, lba, sectors, CMD_WRITE_EXT);
    let ghost base = lba as int * 512;
    let ghost cmd_log = s0.log + command_writes(drive_sel, lba, sectors, CMD_WRITE_EXT);

    proof {
        assert(store_written(s0.store, base, data@.take(0)) =~= s0.store);
        assert(cmd_log + data_word_writes(data@.take(0)) =~= cmd_log);
    }

    let total_words: usize = (sectors as usize) * (SECTOR_WORDS as usize);
    proof {
        assert(2 * (sectors as int * 256) == sectors as int * 512) by (nonlinear_arith);
    }
    let mut i: usize = 0;
    while i < total_words
        invariant
            total_words == sectors as int * 256,
            data@.len() == 2 * total_words,
            i <= total_words,
            base == lba as int * 512,
            cmd_log == s0.log + command_writes(drive_sel, lba, sectors, CMD_WRITE_EXT),
            bus.dev().store == store_written(s0.store, base, data@.take(2 * i)),
            bus.dev().regs == regs_after(drive_sel, lba, sectors),
            bus.dev().log == cmd_log + data_word_writes(data@.take(2 * i)),
            bus.dev().mode == (if i < total_words {
                DevMode::Writing {
                    end: (base + 2 * total_words) as nat,
                    left: (total_words - i) as nat,
                }
            } else {
                DevMode::Idle
            }),
        decreases total_words - i,
    {
        let ghost ii = i as int;
        let lo = data[2 * i];
        let hi = data[2 * i + 1];
        let w: u16 = lo as u16 | ((hi as u16) << 8);
        proof {
            assert((lo as u16 | ((hi as u16) << 8)) == (lo + hi * 0x100) as u16) by (bit_vector);
            assert(w == word_of(lo, hi));
            lemma_word_of_parts(lo, hi);
        }
        bus.write_u16(DATA_PORT, w);
        i = i + 1;
        proof {
            lemma_store_written_step(s0.store, base, data@, ii);
            assert(data_word_writes(data@.take(2 * ii + 2)) =~= data_word_writes(
                data@.take(2 * ii),
            ).push(PortWrite::Word(DATA_PORT, w)));
            assert(bus.dev().log =~= cmd_log + data_word_writes(data@.take(2 * (ii + 1))));
        }
    }
    proof {
        assert(data@.take(2 * total_words as int) =~= data@);
    }
}

/// Check a read request and perform it only when it is well-formed: the
/// sector count must be at least one and the address must fit in 48 bits.
/// On a refused request no port is touched and the modeled device is left
/// exactly as it was.
pub fn try_read_lba<B: PortIo>(bus: &mut B, drive_sel: bool, lba: u64, sectors: u16) -> (r: Result<
    Vec<u8>,
    AtaError,
>)
    ensures
        r is Ok <==> (1 <= sectors && lba < LBA_LIMIT),
        sectors == 0 ==> r == Err::<Vec<u8>, AtaError>(AtaError::SectorCount),
        1 <= sectors && lba >= LBA_LIMIT ==> r == Err::<Vec<u8>, AtaError>(AtaError::LbaRange),
        r is Err ==> final(bus).dev() == old(bus).dev(),
        r is Ok ==> {
            &&& r->Ok_0@ == read_range(
                old(bus).dev().store,
                lba as int * SECTOR_BYTES as int,
                sectors as int * SECTOR_BYTES as int,
            )
            &&& final(bus).dev().store == old(bus).dev().store
            &&& final(bus).dev().regs == regs_after(drive_sel, lba, sectors)
            &&& final(bus).dev().mode == DevMode::Idle
            &&& final(bus).dev().log == old(bus).dev().log + command_writes(
                drive_sel,
                lba,
                sectors,
                CMD_READ_EXT,
            )
        },
{
    if sectors == 0 {
        Err(AtaError::SectorCount)
    } else if lba >= LBA_LIMIT {
        Err(AtaError::LbaRange)
    } else {
        Ok(read_lba(bus, drive_sel, lba, sectors))
    }
}

/// Check a write request and perform it only when it is well-formed: the
/// buffer must hold exactly `sectors * 512` bytes, the sector count must be
/// at least one, and the address must fit in 48 bits. On a refused request
/// no port is touched and the modeled device is left exactly as it was.
pub fn try_write_lba<B: PortIo>(
    bus: &mut B,
    drive_sel: bool,
    lba: u64,
    sectors: u16,
    data: &[u8],
) -> (r: Result<(), AtaError>)
    ensures
        r is Ok <==> (data@.len() == sectors as int * SECTOR_BYTES as int && 1 <= sectors && lba
            < LBA_LIMIT),
        data@.len() != sectors as int * SECTOR_BYTES as int ==> r == Err::<(), AtaError>(
            AtaError::BufferLength,
        ),
        data@.len() == sectors as int * SECTOR_BYTES as int && sectors == 0 ==> r == Err::<
            (),
            AtaError,
        >(AtaError::SectorCount),
        data@.len() == sectors as int * SECTOR_BYTES as int && 1 <= sectors && lba >= LBA_LIMIT
            ==> r == Err::<(), AtaError>(AtaError::LbaRange),
        r is Err ==> final(bus).dev() == old(bus).dev(),
        r is Ok ==> {
            &&& final(bus).dev().store == store_written(
                old(bus).dev().store,
                lba as int * SECTOR_BYTES as int,
                data@,
            )
            &&& final(bus).dev().regs == regs_after(drive_sel, lba, sectors)
            &&& final(bus).dev().mode == DevMode::Idle
            &&& final(bus).dev().log == old(bus).dev().log + command_writes(
                drive_sel,
                lba,
                sectors,
                CMD_WRITE_EXT,
            ) + data_word_writes(data@)
        },
{
    if data.len() != (sectors as usize) * (SECTOR_BYTES as usize) {
        Err(AtaError::BufferLength)
    } else if sectors == 0 {
        Err(AtaError::SectorCount)
    } else if lba >= LBA_LIMIT {
        Err(AtaError::LbaRange)
    } else {
        write_lba(bus, drive_sel, lba, sectors, data);
        Ok(())
    }
}

/// The command sequence is exactly nine register writes before the opcode,
/// in the fixed order of the protocol: drive/head select, count high, the
/// high LBA triplet in ascending port order, count low, the low LBA triplet
/// in ascending port order, then the opcode at the command register.
pub proof fn lemma_command_write_order(drive_sel: bool, lba: u64, sectors: u16, opcode: u8)
    ensures
        preamble_writes(drive_sel, lba, sectors).len() == 9,
        command_writes(drive_sel, lba, sectors, opcode).len() == 10,
        command_writes(drive_sel, lba, sectors, opcode) == preamble_writes(
            drive_sel,
            lba,
            sectors,
        ).push(PortWrite::Byte(COMMAND_PORT, opcode)),
        command_writes(drive_sel, lba, sectors, opcode)[0] == PortWrite::Byte(
            DRIVE_PORT,
            drive_select_byte(drive_sel),
        ),
        command_writes(drive_sel, lba, sectors, opcode)[1] == PortWrite::Byte(
            COUNT_PORT,
            count_hi_byte(sectors),
        ),
        command_writes(drive_sel, lba, sectors, opcode)[2] == PortWrite::Byte(
            LBA_LO_PORT,
            lba_byte3(lba),
        ),
        command_writes(drive_sel, lba, sectors, opcode)[3] == PortWrite::Byte(
            LBA_MID_PORT,
            lba_byte4(lba),
        ),
        command_writes(drive_sel, lba, sectors, opcode)[4] == PortWrite::Byte(
            LBA_HI_PORT,
            lba_byte5(lba),
        ),
        command_writes(drive_sel, lba, sectors, opcode)[5] == PortWrite::Byte(
            COUNT_PORT,
            count_lo_byte(sectors),
        ),
        command_writes(drive_sel, lba, sectors, opcode)[6] == PortWrite::Byte(
            LBA_LO_PORT,
            lba_byte0(lba),
        ),
        command_writes(drive_sel, lba, sectors, opcode)[7] == PortWrite::Byte(
            LBA_MID_PORT,
            lba_byte1(lba),
        ),
        command_writes(drive_sel, lba, sectors, opcode)[8] == PortWrite::Byte(
            LBA_HI_PORT,
            lba_byte2(lba),
        ),
        command_writes(drive_sel, lba, sectors, opcode)[9] == PortWrite::Byte(
            COMMAND_PORT,
            opcode,
        ),
{
}

/// Round trip: writing a buffer to `(lba, sectors)` and then reading the
/// same `(lba, sectors)` back returns the identical bytes, provided the
/// addressed span lies on the medium. `write_lba` leaves the device's store
/// `store_written(..)` and `read_lba` returns `read_range(..)` of the store
/// it finds; this law connects the two.
pub proof fn lemma_write_read_round_trip(store: Seq<u8>, lba: u64, sectors: u16, data: Seq<u8>)
    requires
        1 <= sectors,
        lba < LBA_LIMIT,
        data.len() == sectors as int * SECTOR_BYTES as int,
        lba as int * SECTOR_BYTES as int + data.len() <= store.len(),
    ensures
        read_range(
            store_written(store, lba as int * SECTOR_BYTES as int, data),
            lba as int * SECTOR_BYTES as int,
            sectors as int * SECTOR_BYTES as int,
        ) == data,
{
    lemma_written_then_read(store, lba as int * 512, data);
}

} // verus!
