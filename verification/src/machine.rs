//! The concrete machine: the state containers, their invariant and view onto
//! [`VmState`], creation, ROM loading, and the host-facing accessors.

use vstd::prelude::*;

use crate::state::Chip8Error;
use crate::state::VmState;
use crate::state::FONT_BASE;
use crate::state::MEMORY_SIZE;
use crate::state::ROM_BASE;
use crate::state::VIDEO_HEIGHT;
use crate::state::VIDEO_WIDTH;
use crate::state::font_table;
use crate::state::initial_mem;
use crate::state::initial_state;
use crate::state::wf;

verus! {

/// The sixteen general-purpose registers `V0` .. `VF` (register `VF` doubles
/// as the flag output of the arithmetic, shift and draw instructions), the
/// index register `I`, and the program counter.
pub struct Registers {
    pub(crate) v: Vec<u8>,
    pub(crate) i: u16,
    pub(crate) pc: u16,
}

/// The 16-level call stack and its pointer.
///
/// `pointer` always indicates the next free slot: a push stores first and
/// then increments, a pop decrements first and then loads.
///
/// The reference architecture leaves overflow and underflow undefined; this
/// implementation saturates.  A push at depth sixteen stores nothing and a
/// pop at depth zero removes nothing, so both operations are total and the
/// pointer stays in `0 ..= 16`.
pub struct Stack {
    pub(crate) pointer: u8,
    pub(crate) stored: Vec<u16>,
}

/// The sixteen key-pressed flags, indexed `0x0` .. `0xF`.  The host sets and
/// clears them between cycles; the interpreter only reads them.
pub struct Input {
    pub(crate) key_status: Vec<bool>,
}

/// The 64x32 monochrome frame buffer, row-major: pixel `(row, col)` is at
/// `row * 64 + col`.
pub struct Display {
    pub(crate) buffer: Vec<bool>,
}

/// The two 8-bit countdown timers.
pub struct Timers {
    pub(crate) delay: u8,
    pub(crate) sound: u8,
}

/// A CHIP-8 virtual machine holding all interpreter state.
///
/// Memory layout: addresses `0x000` - `0x1FF` are reserved (the font table
/// sits at `0x050` - `0x09F`), and ROM content is loaded from `0x200` up.
/// Every opcode is two bytes, so a fetch joins the bytes at `PC` and
/// `PC + 1` and the program counter advances by two per cycle.
pub struct Chip8 {
    pub(crate) main_memory: Vec<u8>,
    pub(crate) regs: Registers,
    pub(crate) stack: Stack,
    pub(crate) input: Input,
    pub(crate) display: Display,
    pub(crate) timers: Timers,
}

impl View for Chip8 {
    type V = VmState;

    open(crate) spec fn view(&self) -> VmState {
        VmState {
            mem: self.main_memory@,
            v: self.regs.v@,
            i: self.regs.i,
            pc: self.regs.pc,
            stack: self.stack.stored@.subrange(0, self.stack.pointer as int),
            keys: self.input.key_status@,
            screen: self.display.buffer@,
            delay: self.timers.delay,
            sound: self.timers.sound,
        }
    }
}

impl Stack {
    /// Stores a value at the pointer and increments it; at depth sixteen the
    /// push saturates and the stack is left unchanged.
    pub(crate) fn push(&mut self, value: u16)
        requires
            old(self).stored@.len() == 16,
            old(self).pointer <= 16,
        ensures
            final(self).stored@.len() == 16,
            final(self).pointer <= 16,
            old(self).pointer < 16 ==> {
                &&& final(self).pointer == old(self).pointer + 1
                &&& final(self).stored@ == old(self).stored@.update(old(self).pointer as int, value)
            },
            old(self).pointer == 16 ==> *final(self) == *old(self),
    {
        if self.pointer < 16 {
            self.stored[self.pointer as usize] = value;
            self.pointer = self.pointer + 1;
        }
    }

    /// Decrements the pointer and returns the value there; at depth zero the
    /// pop saturates, leaving the stack unchanged and returning nothing.
    pub(crate) fn pop(&mut self) -> (r: Option<u16>)
        requires
            old(self).stored@.len() == 16,
            old(self).pointer <= 16,
        ensures
            final(self).stored@ == old(self).stored@,
            old(self).pointer > 0 ==> {
                &&& final(self).pointer == old(self).pointer - 1
                &&& r == Some(old(self).stored@[old(self).pointer - 1])
            },
            old(self).pointer == 0 ==> final(self).pointer == 0 && r is None,
    {
        if self.pointer > 0 {
            self.pointer = self.pointer - 1;
            Some(self.stored[self.pointer as usize])
        } else {
            None
        }
    }
}

/// Builds the eighty font bytes as a vector.
fn font_table_vec() -> (r: Vec<u8>)
    ensures
        r@ == font_table(),
{
    let r: Vec<u8> = vec![
        0xF0u8, 0x90, 0x90, 0x90, 0xF0, // 0
        0x20, 0x60, 0x20, 0x20, 0x70, // 1
        0xF0, 0x10, 0xF0, 0x80, 0xF0, // 2
        0xF0, 0x10, 0xF0, 0x10, 0xF0, // 3
        0x90, 0x90, 0xF0, 0x10, 0x10, // 4
        0xF0, 0x80, 0xF0, 0x10, 0xF0, // 5
        0xF0, 0x80, 0xF0, 0x90, 0xF0, // 6
        0xF0, 0x10, 0x20, 0x40, 0x40, // 7
        0xF0, 0x90, 0xF0, 0x90, 0xF0, // 8
        0xF0, 0x90, 0xF0, 0x10, 0xF0, // 9
        0xF0, 0x90, 0xF0, 0x90, 0x90, // A
        0xE0, 0x90, 0xE0, 0x90, 0xE0, // B
        0xF0, 0x80, 0x80, 0x80, 0xF0, // C
        0xE0, 0x90, 0x90, 0x90, 0xE0, // D
        0xF0, 0x80, 0xF0, 0x80, 0xF0, // E
        0xF0, 0x80, 0xF0, 0x80, 0x80, // F
    ];
    proof {
        assert(r@ =~= font_table());
    }
    r
}

impl Chip8 {
    /// Instantiates a machine in its initial state: memory, registers,
    /// stack, keys, frame buffer and timers all zeroed, the font table
    /// copied to `FONT_BASE`, and the program counter at `ROM_BASE`.
    pub fn new() -> (vm: Chip8)
        ensures
            vm.inv(),
            vm@ == initial_state(),
    {
        let mut vm = Chip8 {
            main_memory: vec![0u8; MEMORY_SIZE],
            regs: Registers { v: vec![0u8; 16], i: 0, pc: ROM_BASE as u16 },
            stack: Stack { pointer: 0, stored: vec![0u16; 16] },
            input: Input { key_status: vec![false; 16] },
            display: Display { buffer: vec![false; VIDEO_WIDTH * VIDEO_HEIGHT] },
            timers: Timers { delay: 0, sound: 0 },
        };
        let fonts = font_table_vec();
        let loaded = vm.load_to_memory(FONT_BASE, fonts.as_slice());
        proof {
            assert(loaded is Ok);
            assert(vm@.mem =~= initial_mem());
            assert(vm@ =~= initial_state());
        }
        vm
    }

    /// Copies `content` into memory starting at `initial_address`.
    ///
    /// Returns the number of bytes copied.  Fails, touching nothing, with
    /// `InvalidLoadAddress` when the start lies past the end of memory and
    /// with `CapacityExceeded` when the content would run past it.
    pub fn load_to_memory(&mut self, initial_address: usize, content: &[u8]) -> (r: Result<
        usize,
        Chip8Error,
    >)
        requires
            old(self).inv(),
        ensures
            final(self).inv(),
            initial_address > MEMORY_SIZE ==> r == Err::<usize, Chip8Error>(
                Chip8Error::InvalidLoadAddress,
            ) && *final(self) == *old(self),
            initial_address <= MEMORY_SIZE && initial_address + content@.len() > MEMORY_SIZE ==> r
                == Err::<usize, Chip8Error>(Chip8Error::CapacityExceeded) && *final(self) == *old(
                self,
            ),
            initial_address + content@.len() <= MEMORY_SIZE ==> {
                &&& r == Ok::<usize, Chip8Error>(content@.len() as usize)
                &&& final(self)@ == (VmState {
                    mem: Seq::new(
                        MEMORY_SIZE as nat,
                        |a: int|
                            if initial_address <= a < initial_address + content@.len() {
                                content@[a - initial_address]
                            } else {
                                old(self)@.mem[a]
                            },
                    ),
                    ..old(self)@
                })
            },
    {
        if initial_address > MEMORY_SIZE {
            return Err(Chip8Error::InvalidLoadAddress);
        }
        let content_size = content.len();
        if content_size > MEMORY_SIZE - initial_address {
            return Err(Chip8Error::CapacityExceeded);
        }
        let mut j: usize = 0;
        while j < content_size
            invariant
                self.inv(),
                j <= content_size,
                initial_address + content_size <= MEMORY_SIZE,
                content_size == content@.len(),
                self@ == (VmState {
                    mem: Seq::new(
                        MEMORY_SIZE as nat,
                        |a: int|
                            if initial_address <= a < initial_address + j {
                                content@[a - initial_address]
                            } else {
                                old(self)@.mem[a]
                            },
                    ),
                    ..old(self)@
                }),
            decreases content_size - j,
        {
            self.main_memory[initial_address + j] = content[j];
            j = j + 1;
            proof {
                assert(self@.mem =~= Seq::new(
                    MEMORY_SIZE as nat,
                    |a: int|
                        if initial_address <= a < initial_address + j {
                            content@[a - initial_address]
                        } else {
                            old(self)@.mem[a]
                        },
                ));
                assert(self@ =~= (VmState {
                    mem: Seq::new(
                        MEMORY_SIZE as nat,
                        |a: int|
                            if initial_address <= a < initial_address + j {
                                content@[a - initial_address]
                            } else {
                                old(self)@.mem[a]
                            },
                    ),
                    ..old(self)@
                }));
            }
        }
        Ok(content_size)
    }

    /// Loads ROM content at `ROM_BASE`, the conventional program origin.
    ///
    /// Returns the number of bytes loaded, or `CapacityExceeded`, touching
    /// nothing, when the content is longer than `MEMORY_SIZE - ROM_BASE`
    /// bytes.
    pub fn load_rom_content(&mut self, content: Vec<u8>) -> (r: Result<usize, Chip8Error>)
        requires
            old(self).inv(),
        ensures
            final(self).inv(),
            content@.len() > MEMORY_SIZE - ROM_BASE ==> r == Err::<usize, Chip8Error>(
                Chip8Error::CapacityExceeded,
            ) && *final(self) == *old(self),
            content@.len() <= MEMORY_SIZE - ROM_BASE ==> {
                &&& r == Ok::<usize, Chip8Error>(content@.len() as usize)
                &&& final(self)@ == (VmState {
                    mem: Seq::new(
                        MEMORY_SIZE as nat,
                        |a: int|
                            if ROM_BASE <= a < ROM_BASE + content@.len() {
                                content@[a - ROM_BASE]
                            } else {
                                old(self)@.mem[a]
                            },
                    ),
                    ..old(self)@
                })
            },
    {
        match self.load_to_memory(ROM_BASE, content.as_slice()) {
            Ok(content_size) => Ok(content_size),
            Err(_) => Err(Chip8Error::CapacityExceeded),
        }
    }

    /// The containers have their fixed sizes.  Established by `new` and
    /// preserved by every method.
    pub open(crate) spec fn inv(&self) -> bool {
        &&& self.main_memory@.len() == MEMORY_SIZE
        &&& self.regs.v@.len() == 16
        &&& self.stack.stored@.len() == 16
        &&& self.stack.pointer <= 16
        &&& self.input.key_status@.len() == 16
        &&& self.display.buffer@.len() == VIDEO_WIDTH * VIDEO_HEIGHT
    }

    /// A machine that satisfies its invariant views to a well-formed state.
    pub proof fn lemma_inv_wf(&self)
        requires
            self.inv(),
        ensures
            wf(self@),
    {
    }

    /// Reads one memory byte.
    pub fn read_memory(&self, addr: usize) -> (b: u8)
        requires
            self.inv(),
            addr < MEMORY_SIZE,
        ensures
            b == self@.mem[addr as int],
    {
        self.main_memory[addr]
    }

    /// Reads one general-purpose register.
    pub fn register(&self, x: usize) -> (b: u8)
        requires
            self.inv(),
            x < 16,
        ensures
            b == self@.v[x as int],
    {
        self.regs.v[x]
    }

    /// Reads the index register `I`.
    pub fn index_register(&self) -> (r: u16)
        ensures
            r == self@.i,
    {
        self.regs.i
    }

    /// Reads the program counter.
    pub fn program_counter(&self) -> (r: u16)
        ensures
            r == self@.pc,
    {
        self.regs.pc
    }

    /// Number of live return addresses on the call stack.
    pub fn stack_depth(&self) -> (r: usize)
        requires
            self.inv(),
        ensures
            r == self@.stack.len(),
    {
        self.stack.pointer as usize
    }

    /// Reads the delay timer.
    pub fn delay_timer(&self) -> (r: u8)
        ensures
            r == self@.delay,
    {
        self.timers.delay
    }

    /// Reads the sound timer; non-zero means the host should play a tone.
    pub fn sound_timer(&self) -> (r: u8)
        ensures
            r == self@.sound,
    {
        self.timers.sound
    }

    /// Reads one pixel of the frame buffer.
    pub fn pixel(&self, row: usize, col: usize) -> (r: bool)
        requires
            self.inv(),
            row < VIDEO_HEIGHT,
            col < VIDEO_WIDTH,
        ensures
            r == self@.screen[row * VIDEO_WIDTH + col],
    {
        self.display.buffer[row * VIDEO_WIDTH + col]
    }

    /// The whole frame buffer, row-major, for host rendering.
    pub fn frame_buffer(&self) -> (r: &Vec<bool>)
        ensures
            r@ == self@.screen,
    {
        &self.display.buffer
    }

    /// Reads one key flag.
    pub fn key_pressed(&self, key: usize) -> (r: bool)
        requires
            self.inv(),
            key < 16,
        ensures
            r == self@.keys[key as int],
    {
        self.input.key_status[key]
    }

    /// Sets or clears one key flag.  The host calls this on key events
    /// between cycles; the interpreter itself never writes the flags.
    pub fn set_key(&mut self, key: usize, pressed: bool)
        requires
            old(self).inv(),
            key < 16,
        ensures
            final(self).inv(),
            final(self)@ == (VmState { keys: old(self)@.keys.update(key as int, pressed), ..old(self)@ }),
    {
        self.input.key_status[key] = pressed;
    }
}

} // verus!
