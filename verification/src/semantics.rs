//! The instruction-set semantics: one mathematical transformer per opcode
//! over [`VmState`], the opcode decoding functions, and the composition of a
//! whole fetch-decode-execute-timer cycle.
//!
//! Transformers for instructions that can touch memory or the key flags out
//! of range return `Option`: `None` is the fatal `AddressOutOfRange`
//! condition, on which the executable instruction changes nothing.

use vstd::prelude::*;

use crate::state::VmState;
use crate::state::FONT_BASE;
use crate::state::MEMORY_SIZE;
use crate::state::VIDEO_HEIGHT;
use crate::state::VIDEO_WIDTH;

verus! {

// ---------------------------------------------------------------------------
// Opcode decoding
// ---------------------------------------------------------------------------

/// Leading nibble of an opcode.
pub open spec fn op_nib1(op: u16) -> u16 {
    (op & 0xF000) >> 12
}

/// Second nibble: the register index `x`.
pub open spec fn op_x(op: u16) -> u16 {
    (op & 0x0F00) >> 8
}

/// Third nibble: the register index `y`.
pub open spec fn op_y(op: u16) -> u16 {
    (op & 0x00F0) >> 4
}

/// Trailing nibble: the sprite height `n`.
pub open spec fn op_n(op: u16) -> u16 {
    op & 0x000F
}

/// Low twelve bits: the address operand `nnn`.
pub open spec fn op_nnn(op: u16) -> u16 {
    op & 0x0FFF
}

/// Low byte: the immediate operand `kk`.
pub open spec fn op_kk(op: u16) -> u8 {
    (op & 0x00FF) as u8
}

/// The decoded fields stay inside their nibble and operand ranges.
pub proof fn lemma_decode_bounds(op: u16)
    by (bit_vector)
    ensures
        op_nib1(op) < 16,
        op_x(op) < 16,
        op_y(op) < 16,
        op_n(op) < 16,
        op_nnn(op) <= 0xFFF,
{
}

// ---------------------------------------------------------------------------
// Small helpers
// ---------------------------------------------------------------------------

/// The state with register `x` set to `val`.
pub open spec fn with_v(s: VmState, x: int, val: u8) -> VmState {
    VmState { v: s.v.update(x, val), ..s }
}

/// The state with the program counter set to `pc`.
pub open spec fn with_pc(s: VmState, pc: u16) -> VmState {
    VmState { pc, ..s }
}

/// The state after the conditional extra advance of the skip instructions.
pub open spec fn skipped(s: VmState, skip: bool) -> VmState {
    if skip {
        with_pc(s, (s.pc + 2) as u16)
    } else {
        s
    }
}

// ---------------------------------------------------------------------------
// Instruction transformers
// ---------------------------------------------------------------------------

/// `00E0`: clear the display.
pub open spec fn cls_spec(s: VmState) -> VmState {
    VmState { screen: Seq::new((VIDEO_WIDTH * VIDEO_HEIGHT) as nat, |p: int| false), ..s }
}

/// `00EE`: return from a subroutine, popping the stack into `PC`.  On an
/// empty stack the pop saturates and the state is unchanged.
pub open spec fn ret_spec(s: VmState) -> VmState {
    if s.stack.len() == 0 {
        s
    } else {
        VmState { pc: s.stack.last(), stack: s.stack.drop_last(), ..s }
    }
}

/// `1nnn`: jump to `nnn`.
pub open spec fn jp_spec(s: VmState, nnn: u16) -> VmState {
    with_pc(s, nnn)
}

/// `2nnn`: call the subroutine at `nnn`, pushing the current (already
/// advanced) `PC`.  At depth sixteen the push saturates and only `PC`
/// changes.
pub open spec fn call_spec(s: VmState, nnn: u16) -> VmState {
    VmState {
        pc: nnn,
        stack: if s.stack.len() < 16 {
            s.stack.push(s.pc)
        } else {
            s.stack
        },
        ..s
    }
}

/// `3xkk`: skip the next instruction iff `V[x] == kk`.
pub open spec fn se_vx_byte_spec(s: VmState, x: int, kk: u8) -> VmState {
    skipped(s, s.v[x] == kk)
}

/// `4xkk`: skip the next instruction iff `V[x] != kk`.
pub open spec fn sne_vx_byte_spec(s: VmState, x: int, kk: u8) -> VmState {
    skipped(s, s.v[x] != kk)
}

/// `5xy0`: skip the next instruction iff `V[x] == V[y]`.
pub open spec fn se_vx_vy_spec(s: VmState, x: int, y: int) -> VmState {
    skipped(s, s.v[x] == s.v[y])
}

/// `6xkk`: set `V[x] = kk`.
pub open spec fn ld_vx_value_spec(s: VmState, x: int, kk: u8) -> VmState {
    with_v(s, x, kk)
}

/// `7xkk`: set `V[x] = V[x] + kk`, 8-bit wrapping, no flag.
pub open spec fn add_vx_byte_spec(s: VmState, x: int, kk: u8) -> VmState {
    with_v(s, x, ((s.v[x] + kk) % 256) as u8)
}

/// `8xy0`: set `V[x] = V[y]`.
pub open spec fn ld_vx_vy_spec(s: VmState, x: int, y: int) -> VmState {
    with_v(s, x, s.v[y])
}

/// `8xy1`: set `V[x] = V[x] | V[y]`, no flag.
pub open spec fn or_vx_vy_spec(s: VmState, x: int, y: int) -> VmState {
    with_v(s, x, s.v[x] | s.v[y])
}

/// `8xy2`: set `V[x] = V[x] & V[y]`, no flag.
pub open spec fn and_vx_vy_spec(s: VmState, x: int, y: int) -> VmState {
    with_v(s, x, s.v[x] & s.v[y])
}

/// `8xy3`: set `V[x] = V[x] ^ V[y]`, no flag.
pub open spec fn xor_vx_vy_spec(s: VmState, x: int, y: int) -> VmState {
    with_v(s, x, s.v[x] ^ s.v[y])
}

/// `8xy4`: widen, add, set `V[0xF] = carry`, then store the low byte in
/// `V[x]`.  The sum reads the registers before the flag write, the store
/// happens after it, so `x == 0xF` leaves the low byte there.
pub open spec fn add_vx_vy_spec(s: VmState, x: int, y: int) -> VmState {
    let sum = s.v[x] + s.v[y];
    let s1 = with_v(s, 0xF, if sum > 255 { 1u8 } else { 0u8 });
    with_v(s1, x, (sum % 256) as u8)
}

/// `8xy5`: set `V[0xF] = 1` iff `V[x] > V[y]` (not-borrow), then store
/// `V[x] - V[y]` wrapped.  The subtraction reads the registers after the
/// flag write, exactly as the sequential implementation does.
pub open spec fn sub_vx_vy_spec(s: VmState, x: int, y: int) -> VmState {
    let s1 = with_v(s, 0xF, if s.v[x] > s.v[y] { 1u8 } else { 0u8 });
    with_v(
        s1,
        x,
        if s1.v[x] - s1.v[y] < 0 {
            (s1.v[x] - s1.v[y] + 256) as u8
        } else {
            (s1.v[x] - s1.v[y]) as u8
        },
    )
}

/// `8xy6`: set `V[0xF]` to the least-significant bit of `V[x]`, then shift
/// `V[x]` right by one.
pub open spec fn shr_vx_spec(s: VmState, x: int) -> VmState {
    let s1 = with_v(s, 0xF, s.v[x] & 0x1);
    with_v(s1, x, s1.v[x] >> 1u8)
}

/// `8xy7`: set `V[0xF] = 1` iff `V[y] > V[x]` (not-borrow), then store
/// `V[y] - V[x]` wrapped, reading the registers after the flag write.
pub open spec fn subn_vx_vy_spec(s: VmState, x: int, y: int) -> VmState {
    let s1 = with_v(s, 0xF, if s.v[y] > s.v[x] { 1u8 } else { 0u8 });
    with_v(
        s1,
        x,
        if s1.v[y] - s1.v[x] < 0 {
            (s1.v[y] - s1.v[x] + 256) as u8
        } else {
            (s1.v[y] - s1.v[x]) as u8
        },
    )
}

/// `8xyE`: set `V[0xF]` to the most-significant bit of `V[x]`, then shift
/// `V[x]` left by one, dropping that bit.
pub open spec fn shl_vx_spec(s: VmState, x: int) -> VmState {
    let s1 = with_v(s, 0xF, (s.v[x] & 0x80) >> 7u8);
    with_v(s1, x, s1.v[x] << 1u8)
}

/// `9xy0`: skip the next instruction iff `V[x] != V[y]`.
pub open spec fn sne_vx_vy_spec(s: VmState, x: int, y: int) -> VmState {
    skipped(s, s.v[x] != s.v[y])
}

/// `Annn`: set `I = nnn`.
pub open spec fn ld_i_addr_spec(s: VmState, nnn: u16) -> VmState {
    VmState { i: nnn, ..s }
}

/// `Bnnn`: jump to `V[0] + nnn`.
pub open spec fn jp_v0_addr_spec(s: VmState, nnn: u16) -> VmState {
    with_pc(s, (s.v[0] + nnn) as u16)
}

/// `Cxkk`: set `V[x]` to a random byte masked by `kk`.  The byte drawn is a
/// parameter here; the executable instruction draws it from the process-wide
/// generator.
pub open spec fn rnd_vx_byte_spec(s: VmState, x: int, kk: u8, random_byte: u8) -> VmState {
    with_v(s, x, random_byte & kk)
}

/// Bit `c` (0 = most significant) of a sprite row byte.
pub open spec fn sprite_bit(b: u8, c: int) -> bool {
    b & (0x80u8 >> (c as u8)) != 0
}

/// Whether sprite row `r`, column `c` of the `n`-row sprite at memory
/// address `i`, drawn with origin `(x0, y0)`, lands on the screen: the bit
/// is set and the target cell is inside the frame buffer (drawing clips at
/// the right and bottom edges rather than wrapping).
pub open spec fn draw_hits(s: VmState, x0: int, y0: int, n: int, r: int, c: int) -> bool {
    &&& 0 <= r < n
    &&& 0 <= c < 8
    &&& y0 + r < VIDEO_HEIGHT
    &&& x0 + c < VIDEO_WIDTH
    &&& sprite_bit(s.mem[s.i + r], c)
}

/// The frame-buffer cell that sprite position `(r, c)` lands on.
pub open spec fn draw_cell(x0: int, y0: int, r: int, c: int) -> int {
    (y0 + r) * VIDEO_WIDTH + (x0 + c)
}

/// `Dxyn`: draw the `n`-row sprite at memory address `I` with origin
/// `(V[x] mod 64, V[y] mod 32)`.
///
/// `V[0xF]` is cleared first (so an origin register `0xF` reads zero), every
/// landing sprite bit turns its cell on (an OR-merge: a cell already on
/// stays on), and `V[0xF]` ends `1` iff some landing bit found its cell
/// already on.
pub open spec fn drw_vx_vy_n_spec(s: VmState, x: int, y: int, n: int) -> Option<VmState> {
    if s.i + n > MEMORY_SIZE {
        None
    } else {
        let s1 = with_v(s, 0xF, 0u8);
        let x0 = s1.v[x] as int % 64;
        let y0 = s1.v[y] as int % 32;
        let collide = exists|r: int, c: int|
            #[trigger] draw_hits(s1, x0, y0, n, r, c) && s1.screen[draw_cell(x0, y0, r, c)];
        Some(
            VmState {
                v: s1.v.update(0xF, if collide { 1u8 } else { 0u8 }),
                screen: Seq::new(
                    (VIDEO_WIDTH * VIDEO_HEIGHT) as nat,
                    |p: int|
                        s1.screen[p] || exists|r: int, c: int|
                            #[trigger] draw_hits(s1, x0, y0, n, r, c) && p == draw_cell(
                                x0,
                                y0,
                                r,
                                c,
                            ),
                ),
                ..s1
            },
        )
    }
}

/// `Ex9E`: skip the next instruction iff the key numbered `V[x]` is
/// pressed.  `V[x]` above `0xF` would index outside the key flags and is
/// the fatal out-of-range condition.
pub open spec fn skip_vx_spec(s: VmState, x: int) -> Option<VmState> {
    if s.v[x] >= 16 {
        None
    } else {
        Some(skipped(s, s.keys[s.v[x] as int]))
    }
}

/// `ExA1`: skip the next instruction iff the key numbered `V[x]` is not
/// pressed; out of range exactly as the positive form.
pub open spec fn skip_n_vx_spec(s: VmState, x: int) -> Option<VmState> {
    if s.v[x] >= 16 {
        None
    } else {
        Some(skipped(s, !s.keys[s.v[x] as int]))
    }
}

/// `Fx07`: set `V[x]` to the delay timer.
pub open spec fn ld_vx_dt_spec(s: VmState, x: int) -> VmState {
    with_v(s, x, s.delay)
}

/// The lowest-numbered pressed key at or above index `k`, if any.
pub open spec fn first_key_from(keys: Seq<bool>, k: int) -> Option<u8>
    decreases 16 - k,
{
    if !(0 <= k < 16) {
        None
    } else if keys[k] {
        Some(k as u8)
    } else {
        first_key_from(keys, k + 1)
    }
}

/// `Fx0A`: wait for a key.  If some key is pressed, store the lowest
/// pressed index in `V[x]`; otherwise rewind `PC` by two so the same
/// instruction re-executes on the next cycle.
pub open spec fn ld_vx_k_spec(s: VmState, x: int) -> VmState {
    match first_key_from(s.keys, 0) {
        Some(k) => with_v(s, x, k),
        None => with_pc(s, (s.pc - 2) as u16),
    }
}

/// `Fx15`: set the delay timer from `V[x]`.
pub open spec fn ld_dt_vx_spec(s: VmState, x: int) -> VmState {
    VmState { delay: s.v[x], ..s }
}

/// `Fx18`: set the sound timer from `V[x]`.
pub open spec fn ld_st_vx_spec(s: VmState, x: int) -> VmState {
    VmState { sound: s.v[x], ..s }
}

/// `Fx1E`: set `I = I + V[x]`, 16-bit wrapping, no flag.
pub open spec fn add_i_vx_spec(s: VmState, x: int) -> VmState {
    VmState {
        i: if s.i + s.v[x] > 0xFFFF {
            (s.i + s.v[x] - 0x10000) as u16
        } else {
            (s.i + s.v[x]) as u16
        },
        ..s
    }
}

/// `Fx29`: point `I` at the five-byte font glyph for the digit in `V[x]`.
pub open spec fn ld_f_vx_spec(s: VmState, x: int) -> VmState {
    VmState { i: (FONT_BASE + 5 * s.v[x]) as u16, ..s }
}

/// `Fx33`: write the BCD digits of `V[x]` (hundreds, tens, units) to
/// `I`, `I + 1`, `I + 2`.
pub open spec fn ld_b_vx_spec(s: VmState, x: int) -> Option<VmState> {
    if s.i + 2 >= MEMORY_SIZE {
        None
    } else {
        let value = s.v[x];
        Some(
            VmState {
                mem: s.mem.update(s.i + 2, (value % 10) as u8).update(
                    s.i + 1,
                    ((value / 10) % 10) as u8,
                ).update(s.i as int, ((value / 100) % 10) as u8),
                ..s
            },
        )
    }
}

/// `Fx55`: store `V[0] ..= V[x]` (that is, `x + 1` registers) to memory at
/// `I` onward.
pub open spec fn ld_i_vx_spec(s: VmState, x: int) -> Option<VmState> {
    if s.i + x >= MEMORY_SIZE {
        None
    } else {
        Some(
            VmState {
                mem: Seq::new(
                    MEMORY_SIZE as nat,
                    |a: int|
                        if s.i <= a <= s.i + x {
                            s.v[a - s.i]
                        } else {
                            s.mem[a]
                        },
                ),
                ..s
            },
        )
    }
}

/// `Fx65`: load `V[0] ..= V[x]` (that is, `x + 1` registers) from memory at
/// `I` onward.
pub open spec fn ld_vx_i_spec(s: VmState, x: int) -> Option<VmState> {
    if s.i + x >= MEMORY_SIZE {
        None
    } else {
        Some(
            VmState {
                v: Seq::new(
                    16,
                    |j: int|
                        if j <= x {
                            s.mem[s.i + j]
                        } else {
                            s.v[j]
                        },
                ),
                ..s
            },
        )
    }
}

// ---------------------------------------------------------------------------
// Fetch, dispatch, timers, and the whole cycle
// ---------------------------------------------------------------------------

/// The opcode at `PC`: the byte there is the high half, the next byte the
/// low half.
pub open spec fn fetch_spec(s: VmState) -> u16 {
    ((s.mem[s.pc as int] as u16) << 8u16) | (s.mem[s.pc + 1] as u16)
}

/// Dispatch on the decoded nibble pattern, most specific pattern first; an
/// opcode matching no pattern is a silent no-op.  `None` is the fatal
/// out-of-range condition of the dispatched instruction.
pub open spec fn execute_spec(s: VmState, op: u16, random_byte: u8) -> Option<VmState> {
    let n1 = op_nib1(op);
    let x = op_x(op) as int;
    let y = op_y(op) as int;
    let n = op_n(op) as int;
    let nnn = op_nnn(op);
    let kk = op_kk(op);
    if n1 == 0x0 && x == 0x0 && y == 0xE && n == 0x0 {
        Some(cls_spec(s))
    } else if n1 == 0x0 && x == 0x0 && y == 0xE && n == 0xE {
        Some(ret_spec(s))
    } else if n1 == 0x1 {
        Some(jp_spec(s, nnn))
    } else if n1 == 0x2 {
        Some(call_spec(s, nnn))
    } else if n1 == 0x3 {
        Some(se_vx_byte_spec(s, x, kk))
    } else if n1 == 0x4 {
        Some(sne_vx_byte_spec(s, x, kk))
    } else if n1 == 0x5 && n == 0x0 {
        Some(se_vx_vy_spec(s, x, y))
    } else if n1 == 0x6 {
        Some(ld_vx_value_spec(s, x, kk))
    } else if n1 == 0x7 {
        Some(add_vx_byte_spec(s, x, kk))
    } else if n1 == 0x8 && n == 0x0 {
        Some(ld_vx_vy_spec(s, x, y))
    } else if n1 == 0x8 && n == 0x1 {
        Some(or_vx_vy_spec(s, x, y))
    } else if n1 == 0x8 && n == 0x2 {
        Some(and_vx_vy_spec(s, x, y))
    } else if n1 == 0x8 && n == 0x3 {
        Some(xor_vx_vy_spec(s, x, y))
    } else if n1 == 0x8 && n == 0x4 {
        Some(add_vx_vy_spec(s, x, y))
    } else if n1 == 0x8 && n == 0x5 {
        Some(sub_vx_vy_spec(s, x, y))
    } else if n1 == 0x8 && n == 0x6 {
        Some(shr_vx_spec(s, x))
    } else if n1 == 0x8 && n == 0x7 {
        Some(subn_vx_vy_spec(s, x, y))
    } else if n1 == 0x8 && n == 0xE {
        Some(shl_vx_spec(s, x))
    } else if n1 == 0x9 && n == 0x0 {
        Some(sne_vx_vy_spec(s, x, y))
    } else if n1 == 0xA {
        Some(ld_i_addr_spec(s, nnn))
    } else if n1 == 0xB {
        Some(jp_v0_addr_spec(s, nnn))
    } else if n1 == 0xC {
        Some(rnd_vx_byte_spec(s, x, kk, random_byte))
    } else if n1 == 0xD {
        drw_vx_vy_n_spec(s, x, y, n)
    } else if n1 == 0xE && y == 0x9 && n == 0xE {
        skip_vx_spec(s, x)
    } else if n1 == 0xE && y == 0xA && n == 0x1 {
        skip_n_vx_spec(s, x)
    } else if n1 == 0xF && y == 0x0 && n == 0x7 {
        Some(ld_vx_dt_spec(s, x))
    } else if n1 == 0xF && y == 0x0 && n == 0xA {
        Some(ld_vx_k_spec(s, x))
    } else if n1 == 0xF && y == 0x1 && n == 0x5 {
        Some(ld_dt_vx_spec(s, x))
    } else if n1 == 0xF && y == 0x1 && n == 0x8 {
        Some(ld_st_vx_spec(s, x))
    } else if n1 == 0xF && y == 0x1 && n == 0xE {
        Some(add_i_vx_spec(s, x))
    } else if n1 == 0xF && y == 0x2 && n == 0x9 {
        Some(ld_f_vx_spec(s, x))
    } else if n1 == 0xF && y == 0x3 && n == 0x3 {
        ld_b_vx_spec(s, x)
    } else if n1 == 0xF && y == 0x5 && n == 0x5 {
        ld_i_vx_spec(s, x)
    } else if n1 == 0xF && y == 0x6 && n == 0x5 {
        ld_vx_i_spec(s, x)
    } else {
        Some(s)
    }
}

/// One timer decay: each timer strictly greater than zero is decremented by
/// one, once per cycle.
pub open spec fn tick_spec(s: VmState) -> VmState {
    VmState {
        delay: if s.delay > 0 {
            (s.delay - 1) as u8
        } else {
            0u8
        },
        sound: if s.sound > 0 {
            (s.sound - 1) as u8
        } else {
            0u8
        },
        ..s
    }
}

/// One whole cycle: fetch the opcode at `PC`, advance `PC` by two, execute,
/// then decay the timers.
///
/// The first component says whether the cycle succeeded.  A `PC` whose word
/// would run past the end of memory is the fetch-side out-of-range
/// condition and leaves the state untouched; an execute-side out-of-range
/// condition leaves the state as it stood after the advance, with no timer
/// decay.
pub open spec fn step_spec(s: VmState, random_byte: u8) -> (bool, VmState) {
    if s.pc + 1 >= MEMORY_SIZE {
        (false, s)
    } else {
        let op = fetch_spec(s);
        let s1 = with_pc(s, (s.pc + 2) as u16);
        match execute_spec(s1, op, random_byte) {
            Some(s2) => (true, tick_spec(s2)),
            None => (false, s1),
        }
    }
}

/// The dispatch outcome for one drawn random byte: on `Some` the new state
/// is the transformed one and the dispatch succeeded; on `None` (the fatal
/// out-of-range condition) the state is untouched and it failed.
pub open spec fn execute_outcome(pre: VmState, post: VmState, op: u16, random_byte: u8, ok: bool) -> bool {
    match execute_spec(pre, op, random_byte) {
        Some(s2) => ok && post == s2,
        None => !ok && post == pre,
    }
}

/// The whole-cycle outcome for one drawn random byte, as `step_spec` gives
/// it.
pub open spec fn step_outcome(pre: VmState, post: VmState, random_byte: u8, ok: bool) -> bool {
    &&& step_spec(pre, random_byte).1 == post
    &&& (step_spec(pre, random_byte).0 <==> ok)
}

} // verus!
