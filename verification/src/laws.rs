//! Laws of the instruction set that relate several transformers, proved
//! once and for all states.

use vstd::prelude::*;

use crate::semantics::call_spec;
use crate::semantics::fetch_spec;
use crate::semantics::first_key_from;
use crate::semantics::ld_b_vx_spec;
use crate::semantics::ld_f_vx_spec;
use crate::semantics::ld_vx_k_spec;
use crate::semantics::lemma_decode_bounds;
use crate::semantics::op_n;
use crate::semantics::op_nib1;
use crate::semantics::op_nnn;
use crate::semantics::op_x;
use crate::semantics::op_y;
use crate::semantics::ret_spec;
use crate::semantics::step_spec;
use crate::semantics::tick_spec;
use crate::semantics::with_pc;
use crate::semantics::with_v;
use crate::state::font_table;
use crate::state::initial_state;
use crate::state::wf;
use crate::state::VmState;
use crate::state::FONT_BASE;
use crate::state::MEMORY_SIZE;

verus! {

/// A fresh machine carries the font table at `FONT_BASE`, so the
/// font-address law applies to it from the start.
pub proof fn lemma_initial_fonts()
    ensures
        initial_state().mem.subrange(FONT_BASE as int, FONT_BASE + 80) == font_table(),
{
    assert(initial_state().mem.subrange(FONT_BASE as int, FONT_BASE + 80) =~= font_table());
}

/// The font-address instruction points `I` at the glyph of the digit held
/// in `V[x]`, and the five bytes there are exactly that digit's fixed
/// glyph, for every digit, provided the font region of memory is intact.
pub proof fn lemma_font_glyph_address(s: VmState, x: int, digit: u8)
    requires
        wf(s),
        0 <= x < 16,
        s.v[x] == digit,
        digit < 16,
        s.mem.subrange(FONT_BASE as int, FONT_BASE + 80) == font_table(),
    ensures
        ld_f_vx_spec(s, x).i == FONT_BASE + 5 * digit,
        ld_f_vx_spec(s, x).mem[ld_f_vx_spec(s, x).i + 0] == font_table()[5 * digit + 0],
        ld_f_vx_spec(s, x).mem[ld_f_vx_spec(s, x).i + 1] == font_table()[5 * digit + 1],
        ld_f_vx_spec(s, x).mem[ld_f_vx_spec(s, x).i + 2] == font_table()[5 * digit + 2],
        ld_f_vx_spec(s, x).mem[ld_f_vx_spec(s, x).i + 3] == font_table()[5 * digit + 3],
        ld_f_vx_spec(s, x).mem[ld_f_vx_spec(s, x).i + 4] == font_table()[5 * digit + 4],
{
    let fonts = s.mem.subrange(FONT_BASE as int, FONT_BASE + 80);
    assert(fonts[5 * digit + 0] == s.mem[FONT_BASE + 5 * digit + 0]);
    assert(fonts[5 * digit + 1] == s.mem[FONT_BASE + 5 * digit + 1]);
    assert(fonts[5 * digit + 2] == s.mem[FONT_BASE + 5 * digit + 2]);
    assert(fonts[5 * digit + 3] == s.mem[FONT_BASE + 5 * digit + 3]);
    assert(fonts[5 * digit + 4] == s.mem[FONT_BASE + 5 * digit + 4]);
}

/// The BCD instruction's three bytes are decimal digits that reconstruct
/// the stored register: `100 * b0 + 10 * b1 + b2 == V[x]`, for every byte
/// value.
pub proof fn lemma_bcd_round_trip(s: VmState, x: int)
    requires
        wf(s),
        0 <= x < 16,
        s.i + 2 < MEMORY_SIZE,
    ensures
        ld_b_vx_spec(s, x) is Some,
        ({
            let m = ld_b_vx_spec(s, x).unwrap().mem;
            &&& m[s.i as int] <= 9
            &&& m[s.i + 1] <= 9
            &&& m[s.i + 2] <= 9
            &&& 100 * m[s.i as int] + 10 * m[s.i + 1] + m[s.i + 2] == s.v[x]
        }),
{
    let v = s.v[x];
    assert((v / 100) % 10 <= 9 && (v / 10) % 10 <= 9 && v % 10 <= 9 && 100 * ((v / 100) % 10) + 10
        * ((v / 10) % 10) + (v % 10) == v) by (bit_vector);
}

/// A call followed by a return restores the whole machine: the return
/// address pushed is the already-advanced program counter, so `RET` lands
/// on the instruction after the call.  Holds at every nesting depth that
/// the sixteen-level stack can take.
pub proof fn lemma_call_ret_round_trip(s: VmState, nnn: u16)
    requires
        wf(s),
        s.stack.len() < 16,
    ensures
        ret_spec(call_spec(s, nnn)) == s,
{
    assert(ret_spec(call_spec(s, nnn)).stack =~= s.stack);
    assert(ret_spec(call_spec(s, nnn)) =~= s);
}

/// Over two whole cycles: a `CALL nnn` whose target holds `RET` brings the
/// program counter to the word after the call, with registers, memory,
/// stack, keys and screen exactly as before and the timers decayed twice.
/// Holds at every nesting depth that the sixteen-level stack can take.
pub proof fn lemma_call_ret_round_trip_cycles(s: VmState, rb1: u8, rb2: u8)
    requires
        wf(s),
        s.pc + 1 < MEMORY_SIZE,
        op_nib1(fetch_spec(s)) == 0x2,
        op_nnn(fetch_spec(s)) + 1 < MEMORY_SIZE,
        s.mem[op_nnn(fetch_spec(s)) as int] == 0x00,
        s.mem[op_nnn(fetch_spec(s)) + 1] == 0xEE,
        s.stack.len() < 16,
    ensures
        step_spec(s, rb1).0,
        step_spec(step_spec(s, rb1).1, rb2).0,
        step_spec(step_spec(s, rb1).1, rb2).1 == tick_spec(
            tick_spec(with_pc(s, (s.pc + 2) as u16)),
        ),
{
    let nnn = op_nnn(fetch_spec(s));
    let s1 = step_spec(s, rb1).1;
    assert(s1 == tick_spec(call_spec(with_pc(s, (s.pc + 2) as u16), nnn)));
    assert(s1.pc == nnn && s1.mem == s.mem && s1.stack == s.stack.push((s.pc + 2) as u16));
    let op2 = fetch_spec(s1);
    assert(op2 == ((0x00u16 << 8u16) | 0xEEu16));
    assert(((0x00u16 << 8u16) | 0xEEu16) == 0x00EEu16) by (bit_vector);
    assert(op_nib1(0x00EEu16) == 0x0 && op_x(0x00EEu16) == 0x0 && op_y(0x00EEu16) == 0xE && op_n(
        0x00EEu16,
    ) == 0xE) by (bit_vector);
    let s2 = step_spec(s1, rb2).1;
    assert(s2 == tick_spec(ret_spec(with_pc(s1, (s1.pc + 2) as u16))));
    assert(s2 =~= tick_spec(tick_spec(with_pc(s, (s.pc + 2) as u16))));
}

/// What the key scan returns: the lowest pressed key index at or above
/// `k`, or nothing when no key at or above `k` is pressed.
pub proof fn lemma_first_key_from_props(keys: Seq<bool>, k: int)
    requires
        0 <= k <= 16,
    ensures
        match first_key_from(keys, k) {
            Some(k0) => k <= k0 < 16 && keys[k0 as int] && (forall|j: int|
                k <= j < k0 ==> !keys[j]),
            None => forall|j: int| k <= j < 16 ==> !keys[j],
        },
    decreases 16 - k,
{
    if k < 16 && !keys[k] {
        lemma_first_key_from_props(keys, k + 1);
    }
}

/// With a key-wait instruction at `PC` and no key pressed, a whole cycle
/// leaves everything but the timers exactly as it was — in particular `PC`
/// does not move — so the instruction re-executes on the next cycle.
pub proof fn lemma_key_wait_stall(s: VmState, random_byte: u8)
    requires
        wf(s),
        s.pc + 1 < MEMORY_SIZE,
        op_nib1(fetch_spec(s)) == 0xF,
        op_y(fetch_spec(s)) == 0x0,
        op_n(fetch_spec(s)) == 0xA,
        forall|k: int| 0 <= k < 16 ==> !s.keys[k],
    ensures
        step_spec(s, random_byte) == (true, tick_spec(s)),
{
    lemma_first_key_from_props(s.keys, 0);
    let s1 = with_pc(s, (s.pc + 2) as u16);
    assert(ld_vx_k_spec(s1, op_x(fetch_spec(s)) as int) =~= s);
}

/// With a key-wait instruction at `PC` and some key pressed, a whole cycle
/// stores the lowest pressed key index in the target register and advances
/// `PC` normally.
pub proof fn lemma_key_wait_release(s: VmState, random_byte: u8, k0: u8)
    requires
        wf(s),
        s.pc + 1 < MEMORY_SIZE,
        op_nib1(fetch_spec(s)) == 0xF,
        op_y(fetch_spec(s)) == 0x0,
        op_n(fetch_spec(s)) == 0xA,
        k0 < 16,
        s.keys[k0 as int],
        forall|j: int| 0 <= j < k0 ==> !s.keys[j],
    ensures
        step_spec(s, random_byte) == (
            true,
            tick_spec(with_v(with_pc(s, (s.pc + 2) as u16), op_x(fetch_spec(s)) as int, k0)),
        ),
        step_spec(s, random_byte).1.pc == s.pc + 2,
        step_spec(s, random_byte).1.v[op_x(fetch_spec(s)) as int] == k0,
{
    lemma_decode_bounds(fetch_spec(s));
    lemma_first_key_from_props(s.keys, 0);
    let found = first_key_from(s.keys, 0);
    assert(found is Some);
    let kf = found.unwrap();
    assert(!(kf < k0) && !(k0 < kf));
    let s1 = with_pc(s, (s.pc + 2) as u16);
    assert(ld_vx_k_spec(s1, op_x(fetch_spec(s)) as int) =~= with_v(
        s1,
        op_x(fetch_spec(s)) as int,
        k0,
    ));
}

} // verus!
