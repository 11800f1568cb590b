//! The mathematical model of the machine: an abstract state record, its
//! well-formedness predicate, the fixed font table, and the error kinds that
//! the core can surface.

use vstd::prelude::*;

verus! {

/// Total number of addressable memory bytes.
pub const MEMORY_SIZE: usize = 4096;

/// First address at which ROM content is placed, and the initial program
/// counter.
pub const ROM_BASE: usize = 0x200;

/// First address of the built-in font table.
pub const FONT_BASE: usize = 0x50;

/// Width of the frame buffer in pixels.
pub const VIDEO_WIDTH: usize = 64;

/// Height of the frame buffer in pixels.
pub const VIDEO_HEIGHT: usize = 32;

/// Failure kinds surfaced by the core.
#[derive(Clone, Copy, Debug, PartialEq, Eq, Structural)]
pub enum Chip8Error {
    /// ROM content does not fit between `ROM_BASE` and the end of memory.
    CapacityExceeded,
    /// A load was requested past the end of memory.
    InvalidLoadAddress,
    /// An instruction would have read or written past the end of a fixed
    /// array (memory or the key flags); the machine state is malformed or the
    /// ROM is ill-behaved, and the condition is fatal at the emulation layer.
    AddressOutOfRange,
}

/// The abstract machine state that every contract speaks of.
///
/// `stack` holds only the live return addresses, bottom first, so a push
/// appends and a pop removes the last element.
#[verifier::ext_equal]
pub ghost struct VmState {
    /// 4096 memory bytes.
    pub mem: Seq<u8>,
    /// The sixteen general-purpose registers `V0` .. `VF`.
    pub v: Seq<u8>,
    /// The index register.
    pub i: u16,
    /// The program counter.
    pub pc: u16,
    /// Live return addresses, at most sixteen.
    pub stack: Seq<u16>,
    /// The sixteen key-pressed flags.
    pub keys: Seq<bool>,
    /// The 64x32 frame buffer, row-major: pixel `(row, col)` is at
    /// `row * 64 + col`.
    pub screen: Seq<bool>,
    /// The delay timer.
    pub delay: u8,
    /// The sound timer.
    pub sound: u8,
}

/// Shape of a well-formed abstract state: every component has its fixed size.
pub open spec fn wf(s: VmState) -> bool {
    &&& s.mem.len() == MEMORY_SIZE
    &&& s.v.len() == 16
    &&& s.stack.len() <= 16
    &&& s.keys.len() == 16
    &&& s.screen.len() == VIDEO_WIDTH * VIDEO_HEIGHT
}

/// The fixed 80-byte font table: sixteen glyphs of five bytes each, one for
/// every hex digit.
pub open spec fn font_table() -> Seq<u8> {
    seq![
        0xF0u8, 0x90, 0x90, 0x90, 0xF0, // 0
        0x20, 0x60, 0x20, 0x20, 0x70, // 1
        0xF0, 0x10, 0xF0, 0x80, 0xF0, // 2
        0xF0, 0x10, 0xF0, 0x10, 0xF0, // 3
        0x90, 0x90, 0xF0, 0x10, 0x10, // 4
        0xF0, 0x80, 0xF0, 0x10, 0xF0, // 5
        0xF0, 0x80, 0xF0, 0x90, 0xF0, // 6
        0xF0, 0x10, 0x20, 0x40, 0x40, // 7
        0xF0, 0x90, 0xF0, 0x90, 0xF0, // 8
        0xF0, 0x90, 0xF0, 0x10, 0xF0, // 9
        0xF0, 0x90, 0xF0, 0x90, 0x90, // A
        0xE0, 0x90, 0xE0, 0x90, 0xE0, // B
        0xF0, 0x80, 0x80, 0x80, 0xF0, // C
        0xE0, 0x90, 0x90, 0x90, 0xE0, // D
        0xF0, 0x80, 0xF0, 0x80, 0xF0, // E
        0xF0, 0x80, 0xF0, 0x80, 0x80, // F
    ]
}

/// Memory exactly as `Chip8::new` leaves it: all zero except the font table
/// at `FONT_BASE`.
pub open spec fn initial_mem() -> Seq<u8> {
    Seq::new(
        MEMORY_SIZE as nat,
        |a: int|
            if FONT_BASE <= a < FONT_BASE + 80 {
                font_table()[a - FONT_BASE]
            } else {
                0u8
            },
    )
}

/// The whole machine exactly as `Chip8::new` leaves it.
pub open spec fn initial_state() -> VmState {
    VmState {
        mem: initial_mem(),
        v: Seq::new(16, |x: int| 0u8),
        i: 0,
        pc: ROM_BASE as u16,
        stack: Seq::empty(),
        keys: Seq::new(16, |k: int| false),
        screen: Seq::new((VIDEO_WIDTH * VIDEO_HEIGHT) as nat, |p: int| false),
        delay: 0,
        sound: 0,
    }
}

} // verus!
