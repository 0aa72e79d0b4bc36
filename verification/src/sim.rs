//! A verified in-memory device: an implementation of [`PortIo`] whose port
//! accesses provably follow the controller model, backed by a plain byte
//! vector instead of real hardware.

use vstd::prelude::*;

use crate::bus::PortIo;
use crate::model::{
    byte_at, command_mode, dev_read_u16_state, dev_read_u16_val, dev_read_u8_val, dev_status,
    dev_write_u16, dev_write_u8, initial_dev, read_words, regs_lba, regs_sectors, store_set,
    word_at, word_hi, word_lo, DevMode, DevState, PortWrite, Regs, CMD_READ_EXT, CMD_WRITE_EXT,
    COMMAND_PORT, COUNT_PORT, DATA_PORT, DRIVE_PORT, LBA_HI_PORT, LBA_LIMIT, LBA_LO_PORT,
    LBA_MID_PORT, SECTOR_BYTES, SECTOR_WORDS, STATUS_DRQ,
};

verus! {

/// The transfer phase, as the simulated device stores it.
enum SimMode {
    Idle,
    Reading,
    Writing,
}

/// A simulated device on one controller channel. A byte vector stands in
/// for the medium; the register file, the transfer phase, and the log of
/// port writes are plain fields. Its `PortIo` obligations are proved, not
/// assumed, so a transfer driven through it really follows the model.
pub struct SimDevice {
    store: Vec<u8>,
    log: Vec<PortWrite>,
    drive_head: u8,
    count_prev: u8,
    count_cur: u8,
    lba_lo_prev: u8,
    lba_lo_cur: u8,
    lba_mid_prev: u8,
    lba_mid_cur: u8,
    lba_hi_prev: u8,
    lba_hi_cur: u8,
    mode: SimMode,
    /// Words a read command queued for the data port; `pending_pos` is the
    /// next one to hand out.
    pending: Vec<u16>,
    pending_pos: usize,
    /// Byte offset one past the span of the write command in flight.
    write_end: u64,
    /// Words the write command in flight still expects.
    write_left: u64,
}

impl SimDevice {
    /// The words still queued for the data port.
    closed spec fn pending_view(&self) -> Seq<u16> {
        if self.pending_pos <= self.pending@.len() {
            self.pending@.skip(self.pending_pos as int)
        } else {
            Seq::empty()
        }
    }

    /// A fresh device holding `store` as its medium: registers cleared, no
    /// command in flight, nothing logged.
    pub fn new(store: Vec<u8>) -> (d: SimDevice)
        ensures
            d.dev() == initial_dev(store@),
    {
        let d = SimDevice {
            store,
            log: Vec::new(),
            drive_head: 0,
            count_prev: 0,
            count_cur: 0,
            lba_lo_prev: 0,
            lba_lo_cur: 0,
            lba_mid_prev: 0,
            lba_mid_cur: 0,
            lba_hi_prev: 0,
            lba_hi_cur: 0,
            mode: SimMode::Idle,
            pending: Vec::new(),
            pending_pos: 0,
            write_end: 0,
            write_left: 0,
        };
        proof {
            assert(d.dev() =~~= initial_dev(d.store@));
        }
        d
    }

    /// The medium's current contents.
    pub fn contents(&self) -> (r: &Vec<u8>)
        ensures
            r@ == self.dev().store,
    {
        &self.store
    }

    /// Every port write the device has received, in order.
    pub fn recorded_writes(&self) -> (r: &Vec<PortWrite>)
        ensures
            r@ == self.dev().log,
    {
        &self.log
    }

    /// The 48-bit address held by the LBA register FIFOs.
    fn lba_regs(&self) -> (lba: u64)
        ensures
            lba == regs_lba(self.dev().regs),
            lba < LBA_LIMIT,
    {
        self.lba_lo_cur as u64 + (self.lba_mid_cur as u64) * 0x100 + (self.lba_hi_cur as u64)
            * 0x1_0000 + (self.lba_lo_prev as u64) * 0x100_0000 + (self.lba_mid_prev as u64)
            * 0x1_0000_0000 + (self.lba_hi_prev as u64) * 0x100_0000_0000
    }

    /// The sector count held by the count register FIFO, with the reserved
    /// raw value zero standing for the largest transfer.
    fn sector_regs(&self) -> (n: u32)
        ensures
            n == regs_sectors(self.dev().regs),
            1 <= n <= 0x1_0000,
    {
        let raw: u32 = (self.count_prev as u32) * 0x100 + self.count_cur as u32;
        if raw == 0 {
            0x1_0000
        } else {
            raw
        }
    }

    /// Enter the transfer phase that `opcode` commands: queue the addressed
    /// words for a read, or arm the store cursor for a write.
    fn start_command(&mut self, opcode: u8)
        ensures
            final(self).dev() == (DevState {
                mode: command_mode(old(self).dev(), opcode),
                ..old(self).dev()
            }),
    {
        let ghost s0 = self.dev();
        if opcode == CMD_READ_EXT {
            let base: u64 = self.lba_regs() * SECTOR_BYTES;
            let nwords: u64 = (self.sector_regs() as u64) * SECTOR_WORDS;
            let mut pending: Vec<u16> = Vec::new();
            let mut k: u64 = 0;
            while k < nwords
                invariant
                    k <= nwords,
                    base == regs_lba(s0.regs) * SECTOR_BYTES as int,
                    nwords == regs_sectors(s0.regs) * SECTOR_WORDS as int,
                    nwords <= 0x100_0000,
                    base <= (LBA_LIMIT as int - 1) * SECTOR_BYTES as int,
                    self == old(self),
                    s0 == self.dev(),
                    pending@ == read_words(s0.store, base as int, nwords as int).take(k as int),
                decreases nwords - k,
            {
                let off: u64 = base + 2 * k;
                let lo: u8 = if off < self.store.len() as u64 {
                    self.store[off as usize]
                } else {
                    0
                };
                let hi: u8 = if off + 1 < self.store.len() as u64 {
                    self.store[(off + 1) as usize]
                } else {
                    0
                };
                let w: u16 = lo as u16 + (hi as u16) * 0x100;
                proof {
                    assert(lo == byte_at(s0.store, off as int));
                    assert(hi == byte_at(s0.store, off as int + 1));
                    assert(w == word_at(s0.store, off as int));
                }
                pending.push(w);
                k = k + 1;
                proof {
                    assert(pending@ =~= read_words(s0.store, base as int, nwords as int).take(
                        k as int,
                    ));
                }
            }
            self.pending = pending;
            self.pending_pos = 0;
            self.mode = SimMode::Reading;
            proof {
                assert(self.pending_view() =~= read_words(s0.store, base as int, nwords as int));
                assert(self.dev() =~~= (DevState { mode: command_mode(s0, opcode), ..s0 }));
            }
        } else if opcode == CMD_WRITE_EXT {
            let lba = self.lba_regs();
            let nsect = self.sector_regs() as u64;
            self.write_end = (lba + nsect) * SECTOR_BYTES;
            self.write_left = nsect * SECTOR_WORDS;
            self.mode = SimMode::Writing;
            proof {
                assert(self.dev() =~~= (DevState { mode: command_mode(s0, opcode), ..s0 }));
            }
        } else {
            self.mode = SimMode::Idle;
            proof {
                assert(self.dev() =~~= (DevState { mode: command_mode(s0, opcode), ..s0 }));
            }
        }
    }
}

impl PortIo for SimDevice {
    closed spec fn dev(&self) -> DevState {
        DevState {
            store: self.store@,
            regs: Regs {
                drive_head: self.drive_head,
                count_prev: self.count_prev,
                count_cur: self.count_cur,
                lba_lo_prev: self.lba_lo_prev,
                lba_lo_cur: self.lba_lo_cur,
                lba_mid_prev: self.lba_mid_prev,
                lba_mid_cur: self.lba_mid_cur,
                lba_hi_prev: self.lba_hi_prev,
                lba_hi_cur: self.lba_hi_cur,
            },
            mode: match self.mode {
                SimMode::Idle => DevMode::Idle,
                SimMode::Reading => DevMode::Reading { pending: self.pending_view() },
                SimMode::Writing => DevMode::Writing {
                    end: self.write_end as nat,
                    left: self.write_left as nat,
                },
            },
            log: self.log@,
        }
    }

    fn write_u8(&mut self, port: u16, value: u8) {
        let ghost s0 = self.dev();
        self.log.push(PortWrite::Byte(port, value));
        if port == COUNT_PORT {
            self.count_prev = self.count_cur;
            self.count_cur = value;
        } else if port == LBA_LO_PORT {
            self.lba_lo_prev = self.lba_lo_cur;
            self.lba_lo_cur = value;
        } else if port == LBA_MID_PORT {
            self.lba_mid_prev = self.lba_mid_cur;
            self.lba_mid_cur = value;
        } else if port == LBA_HI_PORT {
            self.lba_hi_prev = self.lba_hi_cur;
            self.lba_hi_cur = value;
        } else if port == DRIVE_PORT {
            self.drive_head = value;
        } else if port == COMMAND_PORT {
            self.start_command(value);
        }
        proof {
            assert(self.dev() =~~= dev_write_u8(s0, port, value));
        }
    }

    fn write_u16(&mut self, port: u16, value: u16) {
        let ghost s0 = self.dev();
        self.log.push(PortWrite::Word(port, value));
        if port == DATA_PORT {
            match self.mode {
                SimMode::Writing => {
                    if self.write_left > 0 {
                        proof {
                            assert(value & 0xFF == value % 0x100 && value & 0xFF < 0x100)
                                by (bit_vector);
                            assert(value >> 8 == value / 0x100 && value >> 8 < 0x100)
                                by (bit_vector);
                        }
                        let lo: u8 = (value & 0xFF) as u8;
                        let hi: u8 = (value >> 8) as u8;
                        if self.write_left <= self.write_end / 2 {
                            let off: u64 = self.write_end - 2 * self.write_left;
                            if off < self.store.len() as u64 {
                                self.store[off as usize] = lo;
                            }
                            if off + 1 < self.store.len() as u64 {
                                self.store[(off + 1) as usize] = hi;
                            }
                            proof {
                                assert(self.store@ =~= store_set(
                                    store_set(s0.store, off as int, word_lo(value)),
                                    off as int + 1,
                                    word_hi(value),
                                ));
                            }
                        }
                        self.write_left = self.write_left - 1;
                        if self.write_left == 0 {
                            self.mode = SimMode::Idle;
                        }
                    }
                },
                _ => {},
            }
        }
        proof {
            assert(self.dev() =~~= dev_write_u16(s0, port, value));
        }
    }

    fn read_u8(&mut self, port: u16) -> (value: u8) {
        if port == COMMAND_PORT {
            let ready = match self.mode {
                SimMode::Idle => false,
                SimMode::Reading => self.pending_pos < self.pending.len(),
                SimMode::Writing => self.write_left > 0,
            };
            if ready {
                STATUS_DRQ
            } else {
                0
            }
        } else {
            0
        }
    }

    fn read_u16(&mut self, port: u16) -> (value: u16) {
        let ghost s0 = self.dev();
        if port == DATA_PORT {
            match self.mode {
                SimMode::Reading => {
                    if self.pending_pos < self.pending.len() {
                        let w = self.pending[self.pending_pos];
                        self.pending_pos = self.pending_pos + 1;
                        if self.pending_pos == self.pending.len() {
                            self.mode = SimMode::Idle;
                        }
                        proof {
                            assert(self.pending_view() =~= s0.mode->Reading_pending.skip(1));
                            assert(self.dev() =~~= dev_read_u16_state(s0, port));
                        }
                        w
                    } else {
                        0
                    }
                },
                _ => 0,
            }
        } else {
            0
        }
    }
}

} // verus!
