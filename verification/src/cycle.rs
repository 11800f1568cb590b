//! The fetch-decode-execute dispatcher and the whole emulation cycle.

use vstd::prelude::*;

use crate::machine::Chip8;
use crate::semantics::execute_outcome;
use crate::semantics::execute_spec;
use crate::semantics::fetch_spec;
use crate::semantics::step_outcome;
use crate::semantics::lemma_decode_bounds;
use crate::semantics::step_spec;
use crate::semantics::tick_spec;
use crate::semantics::with_pc;
use crate::state::Chip8Error;
use crate::state::MEMORY_SIZE;

verus! {

impl Chip8 {
    /// Reads the two bytes at `PC` and `PC + 1` and joins them into an
    /// opcode, high byte first.  `PC` itself is not touched.
    pub fn fetch(&self) -> (op: u16)
        requires
            self.inv(),
            self@.pc + 1 < MEMORY_SIZE,
        ensures
            op == fetch_spec(self@),
    {
        let lows = (self.main_memory[self.regs.pc as usize] as u16) << 8u16;
        let highs = self.main_memory[(self.regs.pc as usize) + 1] as u16;
        lows | highs
    }

    /// Decays both timers: each one strictly greater than zero is
    /// decremented by one.
    pub fn handle_timers(&mut self)
        requires
            old(self).inv(),
        ensures
            final(self).inv(),
            final(self)@ == tick_spec(old(self)@),
    {
        if self.timers.delay > 0 {
            self.timers.delay = self.timers.delay - 1;
        }
        if self.timers.sound > 0 {
            self.timers.sound = self.timers.sound - 1;
        }
        proof {
            assert(self@ =~= tick_spec(old(self)@));
        }
    }

    /// Decodes `opcode` into nibbles and operands and dispatches to exactly
    /// one instruction handler, most specific pattern first; an opcode
    /// matching no pattern is a silent no-op.  The random byte feeds the
    /// one randomness-consuming instruction.
    ///
    /// `PC` must have room to rewind by two (for the key-wait instruction)
    /// and to advance by two more (for the skip instructions); both hold
    /// for the program counter right after a fetch and advance.
    pub fn execute_with(&mut self, opcode: u16, random_byte: u8) -> (r: Result<(), Chip8Error>)
        requires
            old(self).inv(),
            2 <= old(self)@.pc,
            old(self)@.pc + 2 <= u16::MAX,
        ensures
            final(self).inv(),
            ({
                let out = execute_spec(old(self)@, opcode, random_byte);
                &&& (out is Some ==> r == Ok::<(), Chip8Error>(()) && Some(final(self)@) == out)
                &&& (out is None ==> r == Err::<(), Chip8Error>(Chip8Error::AddressOutOfRange)
                    && *final(self) == *old(self))
            }),
    {
        proof {
            lemma_decode_bounds(opcode);
        }
        let nibbles = (
            (opcode & 0xF000) >> 12u16,
            (opcode & 0x0F00) >> 8u16,
            (opcode & 0x00F0) >> 4u16,
            opcode & 0x000F,
        );
        let nnn = opcode & 0x0FFF;
        let kk = (opcode & 0x00FF) as u8;
        let x = nibbles.1 as usize;
        let y = nibbles.2 as usize;
        let n = nibbles.3 as usize;
        match nibbles {
            (0x0, 0x0, 0xE, 0x0) => {
                self.cls();
                Ok(())
            },
            (0x0, 0x0, 0xE, 0xE) => {
                self.ret();
                Ok(())
            },
            (0x1, _, _, _) => {
                self.jp(nnn);
                Ok(())
            },
            (0x2, _, _, _) => {
                self.call(nnn);
                Ok(())
            },
            (0x3, _, _, _) => {
                self.se_vx_byte(x, kk);
                Ok(())
            },
            (0x4, _, _, _) => {
                self.sne_vx_byte(x, kk);
                Ok(())
            },
            (0x5, _, _, 0x0) => {
                self.se_vx_vy(x, y);
                Ok(())
            },
            (0x6, _, _, _) => {
                self.ld_vx_value(x, kk);
                Ok(())
            },
            (0x7, _, _, _) => {
                self.add_vx_byte(x, kk);
                Ok(())
            },
            (0x8, _, _, 0x0) => {
                self.ld_vx_vy(x, y);
                Ok(())
            },
            (0x8, _, _, 0x1) => {
                self.or_vx_vy(x, y);
                Ok(())
            },
            (0x8, _, _, 0x2) => {
                self.and_vx_vy(x, y);
                Ok(())
            },
            (0x8, _, _, 0x3) => {
                self.xor_vx_vy(x, y);
                Ok(())
            },
            (0x8, _, _, 0x4) => {
                self.add_vx_vy(x, y);
                Ok(())
            },
            (0x8, _, _, 0x5) => {
                self.sub_vx_vy(x, y);
                Ok(())
            },
            (0x8, _, _, 0x6) => {
                self.shr_vx(x);
                Ok(())
            },
            (0x8, _, _, 0x7) => {
                self.subn_vx_vy(x, y);
                Ok(())
            },
            (0x8, _, _, 0xE) => {
                self.shl_vx(x);
                Ok(())
            },
            (0x9, _, _, 0x0) => {
                self.sne_vx_vy(x, y);
                Ok(())
            },
            (0xA, _, _, _) => {
                self.ld_i_addr(nnn);
                Ok(())
            },
            (0xB, _, _, _) => {
                self.jp_v0_addr(nnn);
                Ok(())
            },
            (0xC, _, _, _) => {
                self.rnd_vx_byte_from(x, kk, random_byte);
                Ok(())
            },
            (0xD, _, _, _) => self.drw_vx_vy_n(x, y, n),
            (0xE, _, 0x9, 0xE) => self.skip_vx(x),
            (0xE, _, 0xA, 0x1) => self.skip_n_vx(x),
            (0xF, _, 0x0, 0x7) => {
                self.ld_vx_dt(x);
                Ok(())
            },
            (0xF, _, 0x0, 0xA) => {
                self.ld_vx_k(x);
                Ok(())
            },
            (0xF, _, 0x1, 0x5) => {
                self.ld_dt_vx(x);
                Ok(())
            },
            (0xF, _, 0x1, 0x8) => {
                self.ld_st_vx(x);
                Ok(())
            },
            (0xF, _, 0x1, 0xE) => {
                self.add_i_vx(x);
                Ok(())
            },
            (0xF, _, 0x2, 0x9) => {
                self.ld_f_vx(x);
                Ok(())
            },
            (0xF, _, 0x3, 0x3) => self.ld_b_vx(x),
            (0xF, _, 0x5, 0x5) => self.ld_i_vx(x),
            (0xF, _, 0x6, 0x5) => self.ld_vx_i(x),
            _ => Ok(()),
        }
    }

    /// As `execute_with`, drawing the random byte from the process-wide
    /// generator, so the outcome is pinned for every byte it may produce.
    pub fn execute(&mut self, opcode: u16) -> (r: Result<(), Chip8Error>)
        requires
            old(self).inv(),
            2 <= old(self)@.pc,
            old(self)@.pc + 2 <= u16::MAX,
        ensures
            final(self).inv(),
            exists|rb: u8| #[trigger] execute_outcome(old(self)@, final(self)@, opcode, rb, r is Ok),
            r is Err ==> r == Err::<(), Chip8Error>(Chip8Error::AddressOutOfRange) && *final(self)
                == *old(self),
    {
        let rb = crate::rng::random_byte();
        let r = self.execute_with(opcode, rb);
        proof {
            assert(execute_outcome(old(self)@, self@, opcode, rb, r is Ok));
        }
        r
    }

    /// One whole emulation cycle with the random byte supplied: fetch the
    /// opcode at `PC`, advance `PC` by two before executing (so jumps and
    /// skips are not double-counted), execute, then decay both timers.
    ///
    /// On the fatal out-of-range condition the error is returned instead:
    /// from the fetch (a `PC` whose word would run past the end of memory)
    /// with the machine untouched, or from the executed instruction with
    /// `PC` advanced and nothing else changed, the timers not decayed.
    pub fn cycle_with(&mut self, random_byte: u8) -> (r: Result<(), Chip8Error>)
        requires
            old(self).inv(),
        ensures
            final(self).inv(),
            ({
                let so = step_spec(old(self)@, random_byte);
                &&& final(self)@ == so.1
                &&& (so.0 <==> r is Ok)
                &&& (r is Err ==> r == Err::<(), Chip8Error>(Chip8Error::AddressOutOfRange))
            }),
    {
        if self.regs.pc as usize >= MEMORY_SIZE - 1 {
            return Err(Chip8Error::AddressOutOfRange);
        }
        let opcode = self.fetch();
        self.regs.pc = self.regs.pc + 2;
        let ghost advanced = self@;
        proof {
            assert(advanced =~= with_pc(old(self)@, (old(self)@.pc + 2) as u16));
        }
        match self.execute_with(opcode, random_byte) {
            Ok(()) => {
                self.handle_timers();
                Ok(())
            },
            Err(e) => Err(e),
        }
    }

    /// One whole emulation cycle, drawing the random byte from the
    /// process-wide generator: the outcome is `cycle_with` for some byte.
    pub fn cycle(&mut self) -> (r: Result<(), Chip8Error>)
        requires
            old(self).inv(),
        ensures
            final(self).inv(),
            exists|rb: u8| #[trigger] step_outcome(old(self)@, final(self)@, rb, r is Ok),
            r is Err ==> r == Err::<(), Chip8Error>(Chip8Error::AddressOutOfRange),
    {
        let rb = crate::rng::random_byte();
        let r = self.cycle_with(rb);
        proof {
            assert(step_outcome(old(self)@, self@, rb, r is Ok));
        }
        r
    }
}

} // verus!
