//! The executable instruction set.  Every method is one opcode handler; its
//! contract ties the new machine state to the corresponding transformer in
//! [`crate::semantics`].
//!
//! Register indices decoded from an opcode are always below sixteen, which
//! the `requires` clauses reflect.  The skip handlers ask for room to
//! advance `PC` by two more, and the key-wait handler for room to rewind it
//! by two; both hold trivially for a `PC` that just fetched a word inside
//! the 4 KB memory.

use vstd::prelude::*;

use crate::machine::Chip8;
use crate::semantics::add_i_vx_spec;
use crate::semantics::add_vx_byte_spec;
use crate::semantics::add_vx_vy_spec;
use crate::semantics::and_vx_vy_spec;
use crate::semantics::call_spec;
use crate::semantics::cls_spec;
use crate::semantics::first_key_from;
use crate::semantics::jp_spec;
use crate::semantics::jp_v0_addr_spec;
use crate::semantics::ld_b_vx_spec;
use crate::semantics::ld_dt_vx_spec;
use crate::semantics::ld_f_vx_spec;
use crate::semantics::ld_i_addr_spec;
use crate::semantics::ld_i_vx_spec;
use crate::semantics::ld_st_vx_spec;
use crate::semantics::ld_vx_dt_spec;
use crate::semantics::ld_vx_i_spec;
use crate::semantics::ld_vx_k_spec;
use crate::semantics::ld_vx_value_spec;
use crate::semantics::ld_vx_vy_spec;
use crate::semantics::or_vx_vy_spec;
use crate::semantics::ret_spec;
use crate::semantics::rnd_vx_byte_spec;
use crate::semantics::se_vx_byte_spec;
use crate::semantics::se_vx_vy_spec;
use crate::semantics::shl_vx_spec;
use crate::semantics::shr_vx_spec;
use crate::semantics::sne_vx_byte_spec;
use crate::semantics::sne_vx_vy_spec;
use crate::semantics::sub_vx_vy_spec;
use crate::semantics::subn_vx_vy_spec;
use crate::semantics::xor_vx_vy_spec;
use crate::state::Chip8Error;
use crate::state::VmState;
use crate::state::FONT_BASE;
use crate::state::MEMORY_SIZE;
use crate::state::VIDEO_HEIGHT;
use crate::state::VIDEO_WIDTH;

verus! {

/// Sprite position `(r, c)` lands on the screen and is processed strictly
/// before position `(row, col)` in the row-major scan of the draw loops.
spec fn drawn_before(
    s1: VmState,
    x0: int,
    y0: int,
    n: int,
    row: int,
    col: int,
    r: int,
    c: int,
) -> bool {
    crate::semantics::draw_hits(s1, x0, y0, n, r, c) && (r < row || (r == row && c < col))
}

/// The frame buffer after the draw loops have processed every sprite
/// position strictly before `(row, col)`.
spec fn drawn_screen(s1: VmState, x0: int, y0: int, n: int, row: int, col: int) -> Seq<bool> {
    Seq::new(
        (VIDEO_WIDTH * VIDEO_HEIGHT) as nat,
        |p: int|
            s1.screen[p] || exists|r: int, c: int|
                #[trigger] drawn_before(s1, x0, y0, n, row, col, r, c) && p
                    == crate::semantics::draw_cell(x0, y0, r, c),
    )
}

/// Whether some sprite position strictly before `(row, col)` landed on a
/// cell that was already on before the draw began.
spec fn drawn_hit(s1: VmState, x0: int, y0: int, n: int, row: int, col: int) -> bool {
    exists|r: int, c: int|
        #[trigger] drawn_before(s1, x0, y0, n, row, col, r, c) && s1.screen[crate::semantics::draw_cell(
            x0,
            y0,
            r,
            c,
        )]
}

/// Distinct on-screen sprite positions land on distinct frame-buffer cells.
proof fn lemma_draw_cell_injective(x0: int, y0: int, r: int, c: int, r2: int, c2: int)
    requires
        0 <= x0,
        0 <= y0,
        0 <= c,
        0 <= c2,
        x0 + c < VIDEO_WIDTH,
        x0 + c2 < VIDEO_WIDTH,
        crate::semantics::draw_cell(x0, y0, r, c) == crate::semantics::draw_cell(x0, y0, r2, c2),
    ensures
        r == r2,
        c == c2,
{
    assert((y0 + r) * 64 - (y0 + r2) * 64 == 64 * (r - r2)) by (nonlinear_arith);
    assert(64 * (r - r2) == c2 - c);
    if r > r2 {
        assert(64 * (r - r2) >= 64) by (nonlinear_arith)
            requires
                r - r2 >= 1,
        ;
    }
    if r < r2 {
        assert(64 * (r - r2) <= -64) by (nonlinear_arith)
            requires
                r - r2 <= -1,
        ;
    }
}

/// Processing a sprite position that does not land on the screen changes
/// neither the drawn frame buffer nor the collision outcome.
proof fn lemma_draw_skip_pos(s1: VmState, x0: int, y0: int, n: int, row: int, col: int)
    requires
        !crate::semantics::draw_hits(s1, x0, y0, n, row, col),
    ensures
        drawn_screen(s1, x0, y0, n, row, col + 1) == drawn_screen(s1, x0, y0, n, row, col),
        drawn_hit(s1, x0, y0, n, row, col + 1) == drawn_hit(s1, x0, y0, n, row, col),
{
    assert forall|q: int| 0 <= q < VIDEO_WIDTH * VIDEO_HEIGHT implies drawn_screen(
        s1,
        x0,
        y0,
        n,
        row,
        col + 1,
    )[q] == drawn_screen(s1, x0, y0, n, row, col)[q] by {
        if exists|r: int, c: int|
            #[trigger] drawn_before(s1, x0, y0, n, row, col + 1, r, c) && q
                == crate::semantics::draw_cell(x0, y0, r, c) {
            let (r, c) = choose|r: int, c: int|
                #[trigger] drawn_before(s1, x0, y0, n, row, col + 1, r, c) && q
                    == crate::semantics::draw_cell(x0, y0, r, c);
            assert(drawn_before(s1, x0, y0, n, row, col, r, c));
        }
        if exists|r: int, c: int|
            #[trigger] drawn_before(s1, x0, y0, n, row, col, r, c) && q
                == crate::semantics::draw_cell(x0, y0, r, c) {
            let (r, c) = choose|r: int, c: int|
                #[trigger] drawn_before(s1, x0, y0, n, row, col, r, c) && q
                    == crate::semantics::draw_cell(x0, y0, r, c);
            assert(drawn_before(s1, x0, y0, n, row, col + 1, r, c));
        }
    }
    assert(drawn_screen(s1, x0, y0, n, row, col + 1) =~= drawn_screen(s1, x0, y0, n, row, col));
    if drawn_hit(s1, x0, y0, n, row, col + 1) {
        let (r, c) = choose|r: int, c: int|
            #[trigger] drawn_before(s1, x0, y0, n, row, col + 1, r, c) && s1.screen[crate::semantics::draw_cell(
                x0,
                y0,
                r,
                c,
            )];
        assert(drawn_before(s1, x0, y0, n, row, col, r, c));
    }
    if drawn_hit(s1, x0, y0, n, row, col) {
        let (r, c) = choose|r: int, c: int|
            #[trigger] drawn_before(s1, x0, y0, n, row, col, r, c) && s1.screen[crate::semantics::draw_cell(
                x0,
                y0,
                r,
                c,
            )];
        assert(drawn_before(s1, x0, y0, n, row, col + 1, r, c));
    }
}

/// Finishing the eight columns of one sprite row is the same as standing at
/// the start of the next row.
proof fn lemma_draw_next_row(s1: VmState, x0: int, y0: int, n: int, row: int)
    ensures
        drawn_screen(s1, x0, y0, n, row, 8) == drawn_screen(s1, x0, y0, n, row + 1, 0),
        drawn_hit(s1, x0, y0, n, row, 8) == drawn_hit(s1, x0, y0, n, row + 1, 0),
{
    assert forall|r: int, c: int| #[trigger]
        drawn_before(s1, x0, y0, n, row, 8, r, c) == drawn_before(
            s1,
            x0,
            y0,
            n,
            row + 1,
            0,
            r,
            c,
        ) by {}
    assert forall|q: int| 0 <= q < VIDEO_WIDTH * VIDEO_HEIGHT implies drawn_screen(
        s1,
        x0,
        y0,
        n,
        row,
        8,
    )[q] == drawn_screen(s1, x0, y0, n, row + 1, 0)[q] by {
        if exists|r: int, c: int|
            #[trigger] drawn_before(s1, x0, y0, n, row, 8, r, c) && q
                == crate::semantics::draw_cell(x0, y0, r, c) {
            let (r, c) = choose|r: int, c: int|
                #[trigger] drawn_before(s1, x0, y0, n, row, 8, r, c) && q
                    == crate::semantics::draw_cell(x0, y0, r, c);
            assert(drawn_before(s1, x0, y0, n, row + 1, 0, r, c));
        }
        if exists|r: int, c: int|
            #[trigger] drawn_before(s1, x0, y0, n, row + 1, 0, r, c) && q
                == crate::semantics::draw_cell(x0, y0, r, c) {
            let (r, c) = choose|r: int, c: int|
                #[trigger] drawn_before(s1, x0, y0, n, row + 1, 0, r, c) && q
                    == crate::semantics::draw_cell(x0, y0, r, c);
            assert(drawn_before(s1, x0, y0, n, row, 8, r, c));
        }
    }
    assert(drawn_screen(s1, x0, y0, n, row, 8) =~= drawn_screen(s1, x0, y0, n, row + 1, 0));
    if drawn_hit(s1, x0, y0, n, row, 8) {
        let (r, c) = choose|r: int, c: int|
            #[trigger] drawn_before(s1, x0, y0, n, row, 8, r, c) && s1.screen[crate::semantics::draw_cell(
                x0,
                y0,
                r,
                c,
            )];
        assert(drawn_before(s1, x0, y0, n, row + 1, 0, r, c));
    }
    if drawn_hit(s1, x0, y0, n, row + 1, 0) {
        let (r, c) = choose|r: int, c: int|
            #[trigger] drawn_before(s1, x0, y0, n, row + 1, 0, r, c) && s1.screen[crate::semantics::draw_cell(
                x0,
                y0,
                r,
                c,
            )];
        assert(drawn_before(s1, x0, y0, n, row, 8, r, c));
    }
}

impl Chip8 {
    /// `00E0`: clear the display.
    pub fn cls(&mut self)
        requires
            old(self).inv(),
        ensures
            final(self).inv(),
            final(self)@ == cls_spec(old(self)@),
    {
        self.display.buffer = vec![false; VIDEO_WIDTH * VIDEO_HEIGHT];
        proof {
            assert(self@.screen =~= cls_spec(old(self)@).screen);
            assert(self@ =~= cls_spec(old(self)@));
        }
    }

    /// `00EE`: return from a subroutine.  On an empty stack the pop
    /// saturates and nothing changes.
    pub fn ret(&mut self)
        requires
            old(self).inv(),
        ensures
            final(self).inv(),
            final(self)@ == ret_spec(old(self)@),
    {
        match self.stack.pop() {
            Some(addr) => {
                self.regs.pc = addr;
            },
            None => {},
        }
        proof {
            assert(self@.stack =~= ret_spec(old(self)@).stack);
            assert(self@ =~= ret_spec(old(self)@));
        }
    }

    /// `1nnn`: jump to `nnn`.
    pub fn jp(&mut self, nnn: u16)
        requires
            old(self).inv(),
        ensures
            final(self).inv(),
            final(self)@ == jp_spec(old(self)@, nnn),
    {
        self.regs.pc = nnn;
        proof {
            assert(self@ =~= jp_spec(old(self)@, nnn));
        }
    }

    /// `2nnn`: call the subroutine at `nnn`, pushing the current `PC`.  At
    /// depth sixteen the push saturates and only `PC` changes.
    pub fn call(&mut self, nnn: u16)
        requires
            old(self).inv(),
        ensures
            final(self).inv(),
            final(self)@ == call_spec(old(self)@, nnn),
    {
        let pc = self.regs.pc;
        self.stack.push(pc);
        self.regs.pc = nnn;
        proof {
            assert(self@.stack =~= call_spec(old(self)@, nnn).stack);
            assert(self@ =~= call_spec(old(self)@, nnn));
        }
    }

    /// `3xkk`: skip the next instruction iff `V[x] == kk`.
    pub fn se_vx_byte(&mut self, x: usize, kk: u8)
        requires
            old(self).inv(),
            x < 16,
            old(self)@.pc + 2 <= u16::MAX,
        ensures
            final(self).inv(),
            final(self)@ == se_vx_byte_spec(old(self)@, x as int, kk),
    {
        if self.regs.v[x] == kk {
            self.regs.pc = self.regs.pc + 2;
        }
        proof {
            assert(self@ =~= se_vx_byte_spec(old(self)@, x as int, kk));
        }
    }

    /// `4xkk`: skip the next instruction iff `V[x] != kk`.
    pub fn sne_vx_byte(&mut self, x: usize, kk: u8)
        requires
            old(self).inv(),
            x < 16,
            old(self)@.pc + 2 <= u16::MAX,
        ensures
            final(self).inv(),
            final(self)@ == sne_vx_byte_spec(old(self)@, x as int, kk),
    {
        if self.regs.v[x] != kk {
            self.regs.pc = self.regs.pc + 2;
        }
        proof {
            assert(self@ =~= sne_vx_byte_spec(old(self)@, x as int, kk));
        }
    }

    /// `5xy0`: skip the next instruction iff `V[x] == V[y]`.
    pub fn se_vx_vy(&mut self, x: usize, y: usize)
        requires
            old(self).inv(),
            x < 16,
            y < 16,
            old(self)@.pc + 2 <= u16::MAX,
        ensures
            final(self).inv(),
            final(self)@ == se_vx_vy_spec(old(self)@, x as int, y as int),
    {
        if self.regs.v[x] == self.regs.v[y] {
            self.regs.pc = self.regs.pc + 2;
        }
        proof {
            assert(self@ =~= se_vx_vy_spec(old(self)@, x as int, y as int));
        }
    }

    /// `6xkk`: set `V[x] = kk`.
    pub fn ld_vx_value(&mut self, x: usize, kk: u8)
        requires
            old(self).inv(),
            x < 16,
        ensures
            final(self).inv(),
            final(self)@ == ld_vx_value_spec(old(self)@, x as int, kk),
    {
        self.regs.v[x] = kk;
        proof {
            assert(self@ =~= ld_vx_value_spec(old(self)@, x as int, kk));
        }
    }

    /// `7xkk`: set `V[x] = V[x] + kk`, 8-bit wrapping, no flag.
    pub fn add_vx_byte(&mut self, x: usize, kk: u8)
        requires
            old(self).inv(),
            x < 16,
        ensures
            final(self).inv(),
            final(self)@ == add_vx_byte_spec(old(self)@, x as int, kk),
    {
        let result = self.regs.v[x].wrapping_add(kk);
        self.regs.v[x] = result;
        proof {
            assert(self@ =~= add_vx_byte_spec(old(self)@, x as int, kk));
        }
    }

    /// `8xy0`: set `V[x] = V[y]`.
    pub fn ld_vx_vy(&mut self, x: usize, y: usize)
        requires
            old(self).inv(),
            x < 16,
            y < 16,
        ensures
            final(self).inv(),
            final(self)@ == ld_vx_vy_spec(old(self)@, x as int, y as int),
    {
        self.regs.v[x] = self.regs.v[y];
        proof {
            assert(self@ =~= ld_vx_vy_spec(old(self)@, x as int, y as int));
        }
    }

    /// `8xy1`: set `V[x] = V[x] | V[y]`.
    pub fn or_vx_vy(&mut self, x: usize, y: usize)
        requires
            old(self).inv(),
            x < 16,
            y < 16,
        ensures
            final(self).inv(),
            final(self)@ == or_vx_vy_spec(old(self)@, x as int, y as int),
    {
        let result = self.regs.v[x] | self.regs.v[y];
        self.regs.v[x] = result;
        proof {
            assert(self@ =~= or_vx_vy_spec(old(self)@, x as int, y as int));
        }
    }

    /// `8xy2`: set `V[x] = V[x] & V[y]`.
    pub fn and_vx_vy(&mut self, x: usize, y: usize)
        requires
            old(self).inv(),
            x < 16,
            y < 16,
        ensures
            final(self).inv(),
            final(self)@ == and_vx_vy_spec(old(self)@, x as int, y as int),
    {
        let result = self.regs.v[x] & self.regs.v[y];
        self.regs.v[x] = result;
        proof {
            assert(self@ =~= and_vx_vy_spec(old(self)@, x as int, y as int));
        }
    }

    /// `8xy3`: set `V[x] = V[x] ^ V[y]`.
    pub fn xor_vx_vy(&mut self, x: usize, y: usize)
        requires
            old(self).inv(),
            x < 16,
            y < 16,
        ensures
            final(self).inv(),
            final(self)@ == xor_vx_vy_spec(old(self)@, x as int, y as int),
    {
        let result = self.regs.v[x] ^ self.regs.v[y];
        self.regs.v[x] = result;
        proof {
            assert(self@ =~= xor_vx_vy_spec(old(self)@, x as int, y as int));
        }
    }

    /// `8xy4`: set `V[x] = V[x] + V[y]` and `V[0xF] = carry`.
    pub fn add_vx_vy(&mut self, x: usize, y: usize)
        requires
            old(self).inv(),
            x < 16,
            y < 16,
        ensures
            final(self).inv(),
            final(self)@ == add_vx_vy_spec(old(self)@, x as int, y as int),
    {
        let sum = (self.regs.v[x] as u16) + (self.regs.v[y] as u16);
        self.regs.v[0xF] = if sum > 255 {
            1
        } else {
            0
        };
        self.regs.v[x] = (sum % 256) as u8;
        proof {
            assert(self@ =~= add_vx_vy_spec(old(self)@, x as int, y as int));
        }
    }

    /// `8xy5`: set `V[0xF] = 1` iff `V[x] > V[y]`, then `V[x] = V[x] - V[y]`
    /// with 8-bit wraparound.
    pub fn sub_vx_vy(&mut self, x: usize, y: usize)
        requires
            old(self).inv(),
            x < 16,
            y < 16,
        ensures
            final(self).inv(),
            final(self)@ == sub_vx_vy_spec(old(self)@, x as int, y as int),
    {
        self.regs.v[0xF] = if self.regs.v[x] > self.regs.v[y] {
            1
        } else {
            0
        };
        let result = self.regs.v[x].wrapping_sub(self.regs.v[y]);
        self.regs.v[x] = result;
        proof {
            assert(self@ =~= sub_vx_vy_spec(old(self)@, x as int, y as int));
        }
    }

    /// `8xy6`: set `V[0xF]` to the least-significant bit of `V[x]`, then
    /// shift `V[x]` right by one.
    pub fn shr_vx(&mut self, x: usize)
        requires
            old(self).inv(),
            x < 16,
        ensures
            final(self).inv(),
            final(self)@ == shr_vx_spec(old(self)@, x as int),
    {
        self.regs.v[0xF] = self.regs.v[x] & 0x1;
        let result = self.regs.v[x] >> 1u8;
        self.regs.v[x] = result;
        proof {
            assert(self@ =~= shr_vx_spec(old(self)@, x as int));
        }
    }

    /// `8xy7`: set `V[0xF] = 1` iff `V[y] > V[x]`, then `V[x] = V[y] - V[x]`
    /// with 8-bit wraparound.
    pub fn subn_vx_vy(&mut self, x: usize, y: usize)
        requires
            old(self).inv(),
            x < 16,
            y < 16,
        ensures
            final(self).inv(),
            final(self)@ == subn_vx_vy_spec(old(self)@, x as int, y as int),
    {
        self.regs.v[0xF] = if self.regs.v[y] > self.regs.v[x] {
            1
        } else {
            0
        };
        let result = self.regs.v[y].wrapping_sub(self.regs.v[x]);
        self.regs.v[x] = result;
        proof {
            assert(self@ =~= subn_vx_vy_spec(old(self)@, x as int, y as int));
        }
    }

    /// `8xyE`: set `V[0xF]` to the most-significant bit of `V[x]`, then
    /// shift `V[x]` left by one.
    pub fn shl_vx(&mut self, x: usize)
        requires
            old(self).inv(),
            x < 16,
        ensures
            final(self).inv(),
            final(self)@ == shl_vx_spec(old(self)@, x as int),
    {
        self.regs.v[0xF] = (self.regs.v[x] & 0x80) >> 7u8;
        let result = self.regs.v[x] << 1u8;
        self.regs.v[x] = result;
        proof {
            assert(self@ =~= shl_vx_spec(old(self)@, x as int));
        }
    }

    /// `9xy0`: skip the next instruction iff `V[x] != V[y]`.
    pub fn sne_vx_vy(&mut self, x: usize, y: usize)
        requires
            old(self).inv(),
            x < 16,
            y < 16,
            old(self)@.pc + 2 <= u16::MAX,
        ensures
            final(self).inv(),
            final(self)@ == sne_vx_vy_spec(old(self)@, x as int, y as int),
    {
        if self.regs.v[x] != self.regs.v[y] {
            self.regs.pc = self.regs.pc + 2;
        }
        proof {
            assert(self@ =~= sne_vx_vy_spec(old(self)@, x as int, y as int));
        }
    }

    /// `Annn`: set `I = nnn`.
    pub fn ld_i_addr(&mut self, nnn: u16)
        requires
            old(self).inv(),
        ensures
            final(self).inv(),
            final(self)@ == ld_i_addr_spec(old(self)@, nnn),
    {
        self.regs.i = nnn;
        proof {
            assert(self@ =~= ld_i_addr_spec(old(self)@, nnn));
        }
    }

    /// `Bnnn`: jump to `V[0] + nnn`.  The operand is twelve bits, so the sum
    /// fits a `u16`.
    pub fn jp_v0_addr(&mut self, nnn: u16)
        requires
            old(self).inv(),
            nnn <= 0xFFF,
        ensures
            final(self).inv(),
            final(self)@ == jp_v0_addr_spec(old(self)@, nnn),
    {
        self.regs.pc = (self.regs.v[0] as u16) + nnn;
        proof {
            assert(self@ =~= jp_v0_addr_spec(old(self)@, nnn));
        }
    }

    /// `Cxkk`, given the drawn byte: set `V[x] = random_byte & kk`.  Taking
    /// the byte as an argument makes the handler total over every draw the
    /// generator could produce.
    pub fn rnd_vx_byte_from(&mut self, x: usize, kk: u8, random_byte: u8)
        requires
            old(self).inv(),
            x < 16,
        ensures
            final(self).inv(),
            final(self)@ == rnd_vx_byte_spec(old(self)@, x as int, kk, random_byte),
    {
        self.regs.v[x] = random_byte & kk;
        proof {
            assert(self@ =~= rnd_vx_byte_spec(old(self)@, x as int, kk, random_byte));
        }
    }

    /// `Cxkk`: set `V[x]` to a fresh random byte masked by `kk`.  Which
    /// byte the generator produced is existentially bound: the contract
    /// holds whatever came back.
    pub fn rnd_vx_byte(&mut self, x: usize, kk: u8)
        requires
            old(self).inv(),
            x < 16,
        ensures
            final(self).inv(),
            exists|rb: u8| final(self)@ == rnd_vx_byte_spec(old(self)@, x as int, kk, rb),
    {
        let rb = crate::rng::random_byte();
        self.rnd_vx_byte_from(x, kk, rb);
    }

    /// `Dxyn`: draw the `n`-row sprite at memory address `I` with origin
    /// `(V[x] mod 64, V[y] mod 32)`, clipping at the right and bottom
    /// screen edges, OR-merging each landing bit onto the frame buffer;
    /// `V[0xF]` ends `1` iff some landing bit found its cell already on.
    /// A sprite read past the end of memory is the fatal out-of-range
    /// condition and changes nothing.
    pub fn drw_vx_vy_n(&mut self, x: usize, y: usize, n: usize) -> (r: Result<(), Chip8Error>)
        requires
            old(self).inv(),
            x < 16,
            y < 16,
            n < 16,
        ensures
            final(self).inv(),
            old(self)@.i + n <= MEMORY_SIZE ==> r == Ok::<(), Chip8Error>(()) && Some(final(self)@)
                == crate::semantics::drw_vx_vy_n_spec(old(self)@, x as int, y as int, n as int),
            old(self)@.i + n > MEMORY_SIZE ==> r == Err::<(), Chip8Error>(
                Chip8Error::AddressOutOfRange,
            ) && *final(self) == *old(self),
    {
        let i = self.regs.i as usize;
        if i + n > MEMORY_SIZE {
            return Err(Chip8Error::AddressOutOfRange);
        }
        self.regs.v[0xF] = 0;
        let ghost s1 = crate::semantics::with_v(old(self)@, 0xF, 0u8);
        let x_pos = (self.regs.v[x] % 64) as usize;
        let y_pos = (self.regs.v[y] % 32) as usize;
        let ghost x0 = s1.v[x as int] as int % 64;
        let ghost y0 = s1.v[y as int] as int % 32;
        proof {
            assert(x_pos == x0);
            assert(y_pos == y0);
            assert(self@.v =~= s1.v.update(15, 0u8));
            assert(self@.screen =~= drawn_screen(s1, x0, y0, n as int, 0, 0));
        }
        let mut row: usize = 0;
        while row < n
            invariant
                old(self).inv(),
                self.inv(),
                s1.v.len() == 16,
                x < 16,
                y < 16,
                n < 16,
                row <= n,
                i == old(self)@.i,
                i + n <= MEMORY_SIZE,
                s1 == crate::semantics::with_v(old(self)@, 0xF, 0u8),
                0 <= x0 < 64,
                0 <= y0 < 32,
                x_pos == x0,
                y_pos == y0,
                self@.mem == old(self)@.mem,
                self@.i == old(self)@.i,
                self@.pc == old(self)@.pc,
                self@.stack == old(self)@.stack,
                self@.keys == old(self)@.keys,
                self@.delay == old(self)@.delay,
                self@.sound == old(self)@.sound,
                self@.screen == drawn_screen(s1, x0, y0, n as int, row as int, 0),
                self@.v == s1.v.update(
                    15,
                    if drawn_hit(s1, x0, y0, n as int, row as int, 0) {
                        1u8
                    } else {
                        0u8
                    },
                ),
            decreases n - row,
        {
            let sprite_byte = self.main_memory[i + row];
            proof {
                assert(sprite_byte == s1.mem[i + row]);
            }
            let mut col: usize = 0;
            while col < 8
                invariant
                    old(self).inv(),
                    self.inv(),
                    s1.v.len() == 16,
                    x < 16,
                    y < 16,
                    n < 16,
                    row < n,
                    col <= 8,
                    i == old(self)@.i,
                    i + n <= MEMORY_SIZE,
                    s1 == crate::semantics::with_v(old(self)@, 0xF, 0u8),
                    0 <= x0 < 64,
                    0 <= y0 < 32,
                    x_pos == x0,
                    y_pos == y0,
                    sprite_byte == s1.mem[i + row],
                    self@.mem == old(self)@.mem,
                    self@.i == old(self)@.i,
                    self@.pc == old(self)@.pc,
                    self@.stack == old(self)@.stack,
                    self@.keys == old(self)@.keys,
                    self@.delay == old(self)@.delay,
                    self@.sound == old(self)@.sound,
                    self@.screen == drawn_screen(s1, x0, y0, n as int, row as int, col as int),
                    self@.v == s1.v.update(
                        15,
                        if drawn_hit(s1, x0, y0, n as int, row as int, col as int) {
                            1u8
                        } else {
                            0u8
                        },
                    ),
                decreases 8 - col,
            {
                if sprite_byte & (0x80u8 >> (col as u8)) != 0 {
                    proof {
                        assert(crate::semantics::sprite_bit(s1.mem[i + row], col as int));
                    }
                    if y_pos + row < VIDEO_HEIGHT && x_pos + col < VIDEO_WIDTH {
                        let p = (y_pos + row) * VIDEO_WIDTH + (x_pos + col);
                        proof {
                            assert(crate::semantics::draw_hits(
                                s1,
                                x0,
                                y0,
                                n as int,
                                row as int,
                                col as int,
                            ));
                            assert(p == crate::semantics::draw_cell(
                                x0,
                                y0,
                                row as int,
                                col as int,
                            ));
                            assert(p < VIDEO_WIDTH * VIDEO_HEIGHT);
                        }
                        let ghost hit_before = drawn_hit(s1, x0, y0, n as int, row as int, col as int);
                        if self.display.buffer[p] {
                            self.regs.v[0xF] = 1;
                            proof {
                                if !s1.screen[p as int] {
                                    let (r, c) = choose|r: int, c: int|
                                        #[trigger] drawn_before(
                                            s1,
                                            x0,
                                            y0,
                                            n as int,
                                            row as int,
                                            col as int,
                                            r,
                                            c,
                                        ) && p == crate::semantics::draw_cell(x0, y0, r, c);
                                    lemma_draw_cell_injective(x0, y0, r, c, row as int, col as int);
                                    assert(false);
                                }
                                assert(drawn_before(
                                    s1,
                                    x0,
                                    y0,
                                    n as int,
                                    row as int,
                                    col as int + 1,
                                    row as int,
                                    col as int,
                                ) && s1.screen[crate::semantics::draw_cell(
                                    x0,
                                    y0,
                                    row as int,
                                    col as int,
                                )]);
                                assert(drawn_hit(s1, x0, y0, n as int, row as int, col as int + 1));
                                let pre_v = s1.v.update(
                                    15,
                                    if hit_before {
                                        1u8
                                    } else {
                                        0u8
                                    },
                                );
                                assert(self@.v == pre_v.update(0xF as int, 1u8));
                                assert(pre_v.update(0xF as int, 1u8) =~= s1.v.update(15, 1u8));
                                assert(self@.v == s1.v.update(15, 1u8));
                            }
                        } else {
                            proof {
                                assert(!s1.screen[p as int]);
                                assert(drawn_hit(s1, x0, y0, n as int, row as int, col as int + 1)
                                    == hit_before) by {
                                    if drawn_hit(s1, x0, y0, n as int, row as int, col as int + 1) {
                                        let (r, c) = choose|r: int, c: int|
                                            #[trigger] drawn_before(
                                                s1,
                                                x0,
                                                y0,
                                                n as int,
                                                row as int,
                                                col as int + 1,
                                                r,
                                                c,
                                            ) && s1.screen[crate::semantics::draw_cell(
                                                x0,
                                                y0,
                                                r,
                                                c,
                                            )];
                                        if r == row as int && c == col as int {
                                            assert(false);
                                        } else {
                                            assert(drawn_before(
                                                s1,
                                                x0,
                                                y0,
                                                n as int,
                                                row as int,
                                                col as int,
                                                r,
                                                c,
                                            ));
                                        }
                                    }
                                    if hit_before {
                                        let (r, c) = choose|r: int, c: int|
                                            #[trigger] drawn_before(
                                                s1,
                                                x0,
                                                y0,
                                                n as int,
                                                row as int,
                                                col as int,
                                                r,
                                                c,
                                            ) && s1.screen[crate::semantics::draw_cell(
                                                x0,
                                                y0,
                                                r,
                                                c,
                                            )];
                                        assert(drawn_before(
                                            s1,
                                            x0,
                                            y0,
                                            n as int,
                                            row as int,
                                            col as int + 1,
                                            r,
                                            c,
                                        ));
                                    }
                                }
                            }
                        }
                        self.display.buffer[p] = true;
                        proof {
                            let scr = drawn_screen(s1, x0, y0, n as int, row as int, col as int);
                            assert forall|q: int| 0 <= q < VIDEO_WIDTH * VIDEO_HEIGHT implies scr.update(
                                p as int,
                                true,
                            )[q] == drawn_screen(
                                s1,
                                x0,
                                y0,
                                n as int,
                                row as int,
                                col as int + 1,
                            )[q] by {
                                if q == p {
                                    assert(drawn_before(
                                        s1,
                                        x0,
                                        y0,
                                        n as int,
                                        row as int,
                                        col as int + 1,
                                        row as int,
                                        col as int,
                                    ) && q == crate::semantics::draw_cell(
                                        x0,
                                        y0,
                                        row as int,
                                        col as int,
                                    ));
                                } else {
                                    if exists|r: int, c: int|
                                        #[trigger] drawn_before(
                                            s1,
                                            x0,
                                            y0,
                                            n as int,
                                            row as int,
                                            col as int + 1,
                                            r,
                                            c,
                                        ) && q == crate::semantics::draw_cell(x0, y0, r, c) {
                                        let (r, c) = choose|r: int, c: int|
                                            #[trigger] drawn_before(
                                                s1,
                                                x0,
                                                y0,
                                                n as int,
                                                row as int,
                                                col as int + 1,
                                                r,
                                                c,
                                            ) && q == crate::semantics::draw_cell(x0, y0, r, c);
                                        if r == row as int && c == col as int {
                                            assert(false);
                                        } else {
                                            assert(drawn_before(
                                                s1,
                                                x0,
                                                y0,
                                                n as int,
                                                row as int,
                                                col as int,
                                                r,
                                                c,
                                            ));
                                        }
                                    }
                                    if exists|r: int, c: int|
                                        #[trigger] drawn_before(
                                            s1,
                                            x0,
                                            y0,
                                            n as int,
                                            row as int,
                                            col as int,
                                            r,
                                            c,
                                        ) && q == crate::semantics::draw_cell(x0, y0, r, c) {
                                        let (r, c) = choose|r: int, c: int|
                                            #[trigger] drawn_before(
                                                s1,
                                                x0,
                                                y0,
                                                n as int,
                                                row as int,
                                                col as int,
                                                r,
                                                c,
                                            ) && q == crate::semantics::draw_cell(x0, y0, r, c);
                                        assert(drawn_before(
                                            s1,
                                            x0,
                                            y0,
                                            n as int,
                                            row as int,
                                            col as int + 1,
                                            r,
                                            c,
                                        ));
                                    }
                                }
                            }
                            assert(self@.screen =~= drawn_screen(
                                s1,
                                x0,
                                y0,
                                n as int,
                                row as int,
                                col as int + 1,
                            ));
                        }
                    } else {
                        proof {
                            lemma_draw_skip_pos(s1, x0, y0, n as int, row as int, col as int);
                        }
                    }
                } else {
                    proof {
                        assert(!crate::semantics::sprite_bit(s1.mem[i + row], col as int));
                        lemma_draw_skip_pos(s1, x0, y0, n as int, row as int, col as int);
                    }
                }
                col = col + 1;
            }
            proof {
                lemma_draw_next_row(s1, x0, y0, n as int, row as int);
            }
            row = row + 1;
        }
        proof {
            let full = crate::semantics::drw_vx_vy_n_spec(old(self)@, x as int, y as int, n as int);
            let collide = exists|r: int, c: int|
                #[trigger] crate::semantics::draw_hits(s1, x0, y0, n as int, r, c)
                    && s1.screen[crate::semantics::draw_cell(x0, y0, r, c)];
            assert(drawn_hit(s1, x0, y0, n as int, n as int, 0) == collide) by {
                if drawn_hit(s1, x0, y0, n as int, n as int, 0) {
                    let (r, c) = choose|r: int, c: int|
                        #[trigger] drawn_before(s1, x0, y0, n as int, n as int, 0, r, c)
                            && s1.screen[crate::semantics::draw_cell(x0, y0, r, c)];
                    assert(crate::semantics::draw_hits(s1, x0, y0, n as int, r, c)
                        && s1.screen[crate::semantics::draw_cell(x0, y0, r, c)]);
                }
                if collide {
                    let (r, c) = choose|r: int, c: int|
                        #[trigger] crate::semantics::draw_hits(s1, x0, y0, n as int, r, c)
                            && s1.screen[crate::semantics::draw_cell(x0, y0, r, c)];
                    assert(drawn_before(s1, x0, y0, n as int, n as int, 0, r, c));
                }
            }
            assert forall|q: int| 0 <= q < VIDEO_WIDTH * VIDEO_HEIGHT implies drawn_screen(
                s1,
                x0,
                y0,
                n as int,
                n as int,
                0,
            )[q] == full.get_Some_0().screen[q] by {
                if exists|r: int, c: int|
                    #[trigger] drawn_before(s1, x0, y0, n as int, n as int, 0, r, c) && q
                        == crate::semantics::draw_cell(x0, y0, r, c) {
                    let (r, c) = choose|r: int, c: int|
                        #[trigger] drawn_before(s1, x0, y0, n as int, n as int, 0, r, c) && q
                            == crate::semantics::draw_cell(x0, y0, r, c);
                    assert(crate::semantics::draw_hits(s1, x0, y0, n as int, r, c) && q
                        == crate::semantics::draw_cell(x0, y0, r, c));
                }
                if exists|r: int, c: int|
                    #[trigger] crate::semantics::draw_hits(s1, x0, y0, n as int, r, c) && q
                        == crate::semantics::draw_cell(x0, y0, r, c) {
                    let (r, c) = choose|r: int, c: int|
                        #[trigger] crate::semantics::draw_hits(s1, x0, y0, n as int, r, c) && q
                            == crate::semantics::draw_cell(x0, y0, r, c);
                    assert(drawn_before(s1, x0, y0, n as int, n as int, 0, r, c));
                }
            }
            assert(self@.screen =~= full.get_Some_0().screen);
            assert(Some(self@) =~~= full);
        }
        Ok(())
    }

    /// `Ex9E`: skip the next instruction iff the key numbered `V[x]` is
    /// pressed.  A `V[x]` above `0xF` is the fatal out-of-range condition
    /// and changes nothing.
    pub fn skip_vx(&mut self, x: usize) -> (r: Result<(), Chip8Error>)
        requires
            old(self).inv(),
            x < 16,
            old(self)@.pc + 2 <= u16::MAX,
        ensures
            final(self).inv(),
            old(self)@.v[x as int] < 16 ==> r == Ok::<(), Chip8Error>(()) && Some(final(self)@)
                == crate::semantics::skip_vx_spec(old(self)@, x as int),
            old(self)@.v[x as int] >= 16 ==> r == Err::<(), Chip8Error>(
                Chip8Error::AddressOutOfRange,
            ) && *final(self) == *old(self),
    {
        let key = self.regs.v[x] as usize;
        if key >= 16 {
            return Err(Chip8Error::AddressOutOfRange);
        }
        if self.input.key_status[key] {
            self.regs.pc = self.regs.pc + 2;
        }
        proof {
            assert(Some(self@) =~~= crate::semantics::skip_vx_spec(old(self)@, x as int));
        }
        Ok(())
    }

    /// `ExA1`: skip the next instruction iff the key numbered `V[x]` is not
    /// pressed; out of range exactly as the positive form.
    pub fn skip_n_vx(&mut self, x: usize) -> (r: Result<(), Chip8Error>)
        requires
            old(self).inv(),
            x < 16,
            old(self)@.pc + 2 <= u16::MAX,
        ensures
            final(self).inv(),
            old(self)@.v[x as int] < 16 ==> r == Ok::<(), Chip8Error>(()) && Some(final(self)@)
                == crate::semantics::skip_n_vx_spec(old(self)@, x as int),
            old(self)@.v[x as int] >= 16 ==> r == Err::<(), Chip8Error>(
                Chip8Error::AddressOutOfRange,
            ) && *final(self) == *old(self),
    {
        let key = self.regs.v[x] as usize;
        if key >= 16 {
            return Err(Chip8Error::AddressOutOfRange);
        }
        if !self.input.key_status[key] {
            self.regs.pc = self.regs.pc + 2;
        }
        proof {
            assert(Some(self@) =~~= crate::semantics::skip_n_vx_spec(old(self)@, x as int));
        }
        Ok(())
    }

    /// `Fx07`: set `V[x]` to the delay timer.
    pub fn ld_vx_dt(&mut self, x: usize)
        requires
            old(self).inv(),
            x < 16,
        ensures
            final(self).inv(),
            final(self)@ == ld_vx_dt_spec(old(self)@, x as int),
    {
        self.regs.v[x] = self.timers.delay;
        proof {
            assert(self@ =~= ld_vx_dt_spec(old(self)@, x as int));
        }
    }

    /// `Fx0A`: wait for a key press.  The lowest pressed key index goes to
    /// `V[x]`; with no key pressed, `PC` rewinds by two so the same
    /// instruction re-executes on the next cycle.
    pub fn ld_vx_k(&mut self, x: usize)
        requires
            old(self).inv(),
            x < 16,
            old(self)@.pc >= 2,
        ensures
            final(self).inv(),
            final(self)@ == ld_vx_k_spec(old(self)@, x as int),
    {
        let mut k: usize = 0;
        while k < 16
            invariant
                old(self).inv(),
                *self == *old(self),
                x < 16,
                k <= 16,
                first_key_from(old(self)@.keys, 0) == first_key_from(old(self)@.keys, k as int),
            decreases 16 - k,
        {
            if self.input.key_status[k] {
                self.regs.v[x] = k as u8;
                proof {
                    assert(first_key_from(old(self)@.keys, k as int) == Some(k as u8));
                    assert(self@ =~= ld_vx_k_spec(old(self)@, x as int));
                }
                return ;
            }
            k = k + 1;
        }
        self.regs.pc = self.regs.pc - 2;
        proof {
            assert(first_key_from(old(self)@.keys, 16) is None);
            assert(self@ =~= ld_vx_k_spec(old(self)@, x as int));
        }
    }

    /// `Fx15`: set the delay timer from `V[x]`.
    pub fn ld_dt_vx(&mut self, x: usize)
        requires
            old(self).inv(),
            x < 16,
        ensures
            final(self).inv(),
            final(self)@ == ld_dt_vx_spec(old(self)@, x as int),
    {
        self.timers.delay = self.regs.v[x];
        proof {
            assert(self@ =~= ld_dt_vx_spec(old(self)@, x as int));
        }
    }

    /// `Fx18`: set the sound timer from `V[x]`.
    pub fn ld_st_vx(&mut self, x: usize)
        requires
            old(self).inv(),
            x < 16,
        ensures
            final(self).inv(),
            final(self)@ == ld_st_vx_spec(old(self)@, x as int),
    {
        self.timers.sound = self.regs.v[x];
        proof {
            assert(self@ =~= ld_st_vx_spec(old(self)@, x as int));
        }
    }

    /// `Fx1E`: set `I = I + V[x]`, 16-bit wrapping, no flag.
    pub fn add_i_vx(&mut self, x: usize)
        requires
            old(self).inv(),
            x < 16,
        ensures
            final(self).inv(),
            final(self)@ == add_i_vx_spec(old(self)@, x as int),
    {
        self.regs.i = self.regs.i.wrapping_add(self.regs.v[x] as u16);
        proof {
            assert(self@ =~= add_i_vx_spec(old(self)@, x as int));
        }
    }

    /// `Fx29`: point `I` at the font glyph for the digit in `V[x]`: glyphs
    /// are five bytes wide, starting at `FONT_BASE`.
    pub fn ld_f_vx(&mut self, x: usize)
        requires
            old(self).inv(),
            x < 16,
        ensures
            final(self).inv(),
            final(self)@ == ld_f_vx_spec(old(self)@, x as int),
    {
        let digit = self.regs.v[x] as u16;
        self.regs.i = (FONT_BASE as u16) + 5 * digit;
        proof {
            assert(self@ =~= ld_f_vx_spec(old(self)@, x as int));
        }
    }

    /// `Fx33`: write the BCD digits of `V[x]` to `I`, `I + 1`, `I + 2`.  An
    /// `I` within two bytes of the end of memory is the fatal out-of-range
    /// condition and changes nothing.
    pub fn ld_b_vx(&mut self, x: usize) -> (r: Result<(), Chip8Error>)
        requires
            old(self).inv(),
            x < 16,
        ensures
            final(self).inv(),
            old(self)@.i + 2 < MEMORY_SIZE ==> r == Ok::<(), Chip8Error>(()) && Some(final(self)@)
                == ld_b_vx_spec(old(self)@, x as int),
            old(self)@.i + 2 >= MEMORY_SIZE ==> r == Err::<(), Chip8Error>(
                Chip8Error::AddressOutOfRange,
            ) && *final(self) == *old(self),
    {
        let i = self.regs.i as usize;
        if i + 2 >= MEMORY_SIZE {
            return Err(Chip8Error::AddressOutOfRange);
        }
        let value = self.regs.v[x];
        self.main_memory[i + 2] = value % 10;
        self.main_memory[i + 1] = (value / 10) % 10;
        self.main_memory[i] = (value / 100) % 10;
        proof {
            assert(Some(self@) =~~= ld_b_vx_spec(old(self)@, x as int));
        }
        Ok(())
    }

    /// `Fx55`: store the `x + 1` registers `V[0] ..= V[x]` to memory at `I`
    /// onward.  A run past the end of memory is the fatal out-of-range
    /// condition and changes nothing.
    pub fn ld_i_vx(&mut self, x: usize) -> (r: Result<(), Chip8Error>)
        requires
            old(self).inv(),
            x < 16,
        ensures
            final(self).inv(),
            old(self)@.i + x < MEMORY_SIZE ==> r == Ok::<(), Chip8Error>(()) && Some(final(self)@)
                == ld_i_vx_spec(old(self)@, x as int),
            old(self)@.i + x >= MEMORY_SIZE ==> r == Err::<(), Chip8Error>(
                Chip8Error::AddressOutOfRange,
            ) && *final(self) == *old(self),
    {
        let i = self.regs.i as usize;
        if i + x >= MEMORY_SIZE {
            return Err(Chip8Error::AddressOutOfRange);
        }
        let mut j: usize = 0;
        while j <= x
            invariant
                old(self).inv(),
                self.inv(),
                x < 16,
                j <= x + 1,
                i == old(self)@.i,
                i + x < MEMORY_SIZE,
                self@ == (VmState {
                    mem: Seq::new(
                        MEMORY_SIZE as nat,
                        |a: int|
                            if i <= a < i + j {
                                old(self)@.v[a - i]
                            } else {
                                old(self)@.mem[a]
                            },
                    ),
                    ..old(self)@
                }),
            decreases x + 1 - j,
        {
            self.main_memory[i + j] = self.regs.v[j];
            j = j + 1;
            proof {
                assert(self@.mem =~= Seq::new(
                    MEMORY_SIZE as nat,
                    |a: int|
                        if i <= a < i + j {
                            old(self)@.v[a - i]
                        } else {
                            old(self)@.mem[a]
                        },
                ));
            }
        }
        proof {
            assert(Some(self@) =~~= ld_i_vx_spec(old(self)@, x as int));
        }
        Ok(())
    }

    /// `Fx65`: load the `x + 1` registers `V[0] ..= V[x]` from memory at
    /// `I` onward.  A run past the end of memory is the fatal out-of-range
    /// condition and changes nothing.
    pub fn ld_vx_i(&mut self, x: usize) -> (r: Result<(), Chip8Error>)
        requires
            old(self).inv(),
            x < 16,
        ensures
            final(self).inv(),
            old(self)@.i + x < MEMORY_SIZE ==> r == Ok::<(), Chip8Error>(()) && Some(final(self)@)
                == ld_vx_i_spec(old(self)@, x as int),
            old(self)@.i + x >= MEMORY_SIZE ==> r == Err::<(), Chip8Error>(
                Chip8Error::AddressOutOfRange,
            ) && *final(self) == *old(self),
    {
        let i = self.regs.i as usize;
        if i + x >= MEMORY_SIZE {
            return Err(Chip8Error::AddressOutOfRange);
        }
        let mut j: usize = 0;
        while j <= x
            invariant
                old(self).inv(),
                self.inv(),
                x < 16,
                j <= x + 1,
                i == old(self)@.i,
                i + x < MEMORY_SIZE,
                self@ == (VmState {
                    v: Seq::new(
                        16,
                        |a: int|
                            if 0 <= a < j {
                                old(self)@.mem[i + a]
                            } else {
                                old(self)@.v[a]
                            },
                    ),
                    ..old(self)@
                }),
            decreases x + 1 - j,
        {
            self.regs.v[j] = self.main_memory[i + j];
            j = j + 1;
            proof {
                assert(self@.v =~= Seq::new(
                    16,
                    |a: int|
                        if 0 <= a < j {
                            old(self)@.mem[i + a]
                        } else {
                            old(self)@.v[a]
                        },
                ));
            }
        }
        proof {
            assert(Some(self@) =~~= ld_vx_i_spec(old(self)@, x as int));
        }
        Ok(())
    }
}

} // verus!
