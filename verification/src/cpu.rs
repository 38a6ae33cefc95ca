//! The execution engine: CPU state, instruction decoding, and the
//! fetch-decode-dispatch cycle over the machine's instruction set.
//!
//! One cycle fetches the two bytes at the program counter (big-endian),
//! decodes them, decrements both timers, executes exactly one instruction
//! selected by matching the four nibbles, applies the instruction's
//! program-counter directive, and returns a framebuffer snapshot together
//! with a beep flag. The whole cycle is specified by [`cycle_ok`].

use vstd::prelude::*;
use vstd::arithmetic::div_mod::lemma_mod_multiples_vanish;
use crate::display::Display;
use crate::display::blank;
use crate::display::blit_c;
use crate::display::blit_v;
use crate::display::vram_bytes;
use crate::font::font_seq;
use crate::font::font_set;
use crate::keypad::Keypad;
use crate::rng::os_random_byte;

verus! {

/// The failures a cycle or a program load can surface. Stack misuse and
/// out-of-range accesses are reported instead of silently wrapping.
#[derive(Clone, Copy, Debug, PartialEq, Eq, Structural)]
pub enum EmuError {
    /// A program image would extend past the end of memory.
    ProgramLoadOverflow,
    /// A call was made with the call stack already full.
    StackOverflow,
    /// A return was made with the call stack already empty.
    StackUnderflow,
    /// A fetch or a memory operand reaches past the end of memory.
    MemoryOutOfBounds,
    /// A key-skip instruction names a register value that is no key index.
    KeyOutOfRange,
}

/// The mathematical model of the whole machine.
#[verifier::ext_equal]
pub ghost struct State {
    /// Index register.
    pub i: int,
    /// Program counter.
    pub pc: int,
    /// The sixteen general-purpose registers.
    pub v: Seq<u8>,
    /// The sixteen call-stack slots.
    pub stack: Seq<u16>,
    /// Stack pointer: number of stack slots in use.
    pub sp: int,
    /// Delay timer.
    pub dt: u8,
    /// Sound timer; nonzero means "should beep".
    pub st: u8,
    /// The 4096 memory bytes.
    pub mem: Seq<u8>,
    /// The framebuffer cells, row-major.
    pub vram: Seq<bool>,
    /// The sixteen key states.
    pub keys: Seq<bool>,
}

impl State {
    /// Shape of a valid machine state.
    pub open spec fn wf(self) -> bool {
        &&& self.v.len() == 16
        &&& self.stack.len() == 16
        &&& 0 <= self.sp <= 16
        &&& self.mem.len() == 4096
        &&& self.vram.len() == 2048
        &&& self.keys.len() == 16
        &&& 0 <= self.i < 0x10000
        &&& 0 <= self.pc < 0x10000
    }
}

/// The state every machine starts in and returns to on reset: font table
/// at addresses 0..80, program counter at 0x200, everything else zero.
pub open spec fn init_state() -> State {
    State {
        i: 0,
        pc: 0x200,
        v: Seq::new(16, |k: int| 0u8),
        stack: Seq::new(16, |k: int| 0u16),
        sp: 0,
        dt: 0,
        st: 0,
        mem: Seq::new(4096, |k: int| if 0 <= k < 80 { font_seq()[k] } else { 0u8 }),
        vram: blank(),
        keys: Seq::new(16, |k: int| false),
    }
}

/// First nibble of an instruction word.
pub open spec fn nib1(w: u16) -> u8 {
    ((w & 0xF000) >> 12) as u8
}

/// Second nibble: the register index `x`.
pub open spec fn nib2(w: u16) -> u8 {
    ((w & 0x0F00) >> 8) as u8
}

/// Third nibble: the register index `y`.
pub open spec fn nib3(w: u16) -> u8 {
    ((w & 0x00F0) >> 4) as u8
}

/// Fourth nibble: the 4-bit literal `n`.
pub open spec fn nib4(w: u16) -> u8 {
    (w & 0x000F) as u8
}

/// Low twelve bits: the address operand `nnn`.
pub open spec fn addr_nnn(w: u16) -> u16 {
    w & 0x0FFF
}

/// Low byte: the immediate operand `kk`.
pub open spec fn imm_kk(w: u16) -> u8 {
    (w & 0x00FF) as u8
}

/// Every decoded field lies in its documented range.
pub proof fn lemma_decode_bounds(w: u16)
    ensures
        nib1(w) < 16,
        nib2(w) < 16,
        nib3(w) < 16,
        nib4(w) < 16,
        addr_nnn(w) < 4096,
{
    assert((w & 0xF000) >> 12 < 16) by (bit_vector);
    assert((w & 0x0F00) >> 8 < 16) by (bit_vector);
    assert((w & 0x00F0) >> 4 < 16) by (bit_vector);
    assert((w & 0x000F) < 16) by (bit_vector);
    assert((w & 0x0FFF) < 4096) by (bit_vector);
}

/// The 16-bit instruction word made of two consecutive memory bytes,
/// big-endian: the first byte is the high byte.
pub open spec fn word_of(first: u8, second: u8) -> u16 {
    ((first as u16) << 8) | (second as u16)
}

/// The instruction word fetched at the program counter.
pub open spec fn word_at(s: State) -> u16 {
    word_of(s.mem[s.pc], s.mem[s.pc + 1])
}

/// Both timers decremented by one, with a floor at zero. This happens
/// unconditionally on every cycle, before the instruction's effect.
pub open spec fn tick(s: State) -> State {
    State {
        dt: if s.dt > 0 { (s.dt - 1) as u8 } else { s.dt },
        st: if s.st > 0 { (s.st - 1) as u8 } else { s.st },
        ..s
    }
}

/// Whether some key is currently pressed.
pub open spec fn some_key_pressed(keys: Seq<bool>) -> bool {
    exists|k: int| 0 <= k < 16 && keys[k]
}

/// The lowest pressed key index at or above `k`, or 16 if there is none.
pub open spec fn first_pressed_from(keys: Seq<bool>, k: int) -> int
    decreases 16 - k,
{
    if !(0 <= k < 16) {
        16
    } else if keys[k] {
        k
    } else {
        first_pressed_from(keys, k + 1)
    }
}

/// The lowest pressed key index, or 16 if no key is pressed.
pub open spec fn lowest_pressed(keys: Seq<bool>) -> int {
    first_pressed_from(keys, 0)
}

proof fn lemma_first_pressed_from(keys: Seq<bool>, j: int, k: int)
    requires
        0 <= j <= k < 16,
        keys[k],
        forall|m: int| j <= m < k ==> !keys[m],
    ensures
        first_pressed_from(keys, j) == k,
    decreases k - j,
{
    if j < k {
        lemma_first_pressed_from(keys, j + 1, k);
    }
}

/// The error, if any, that the instruction word `w` raises in state `s`:
/// stack overflow and underflow, and operands that would reach past the
/// end of memory or name no key. An erroneous instruction has no effect.
pub open spec fn check_err(s: State, w: u16) -> Option<EmuError> {
    let x = nib2(w) as int;
    let n = nib4(w) as int;
    match (nib1(w), nib2(w), nib3(w), nib4(w)) {
        (0, 0, 0xE, 0xE) => if s.sp == 0 {
            Some(EmuError::StackUnderflow)
        } else {
            None
        },
        (2, _, _, _) => if s.sp == 16 {
            Some(EmuError::StackOverflow)
        } else {
            None
        },
        (0xD, _, _, _) => if s.i + n > 4096 {
            Some(EmuError::MemoryOutOfBounds)
        } else {
            None
        },
        (0xE, _, _, 0xE) | (0xE, _, _, 1) => if s.v[x] >= 16 {
            Some(EmuError::KeyOutOfRange)
        } else {
            None
        },
        (0xF, _, 3, 3) => if s.i + 2 > 4095 {
            Some(EmuError::MemoryOutOfBounds)
        } else {
            None
        },
        (0xF, _, 5, 5) | (0xF, _, 6, 5) => if s.i + x > 4095 {
            Some(EmuError::MemoryOutOfBounds)
        } else {
            None
        },
        _ => None,
    }
}

/// The effect of one instruction on the already-ticked state `t`. `w` is
/// the fetched word, `rb` the random byte the RND instruction consumed,
/// and `post` the machine state after the program-counter directive was
/// applied. Instructions matching no case advance by two and do nothing.
pub open spec fn exec_rel(t: State, w: u16, rb: u8, post: State) -> bool {
    let x = nib2(w) as int;
    let y = nib3(w) as int;
    let n = nib4(w) as int;
    let kk = imm_kk(w);
    let nnn = addr_nnn(w) as int;
    let vx = t.v[x];
    let vy = t.v[y];
    match (nib1(w), nib2(w), nib3(w), nib4(w)) {
        (0, 0, 0xE, 0) => post == (State { vram: blank(), pc: t.pc + 2, ..t }),
        (0, 0, 0xE, 0xE) => post == (State {
            sp: t.sp - 1,
            pc: t.stack[t.sp - 1] as int,
            ..t
        }),
        (1, _, _, _) => post == (State { pc: nnn, ..t }),
        (2, _, _, _) => post == (State {
            stack: t.stack.update(t.sp, (t.pc + 2) as u16),
            sp: t.sp + 1,
            pc: nnn,
            ..t
        }),
        (3, _, _, _) => post == (State {
            pc: if vx == kk { t.pc + 4 } else { t.pc + 2 },
            ..t
        }),
        (4, _, _, _) => post == (State {
            pc: if vx != kk { t.pc + 4 } else { t.pc + 2 },
            ..t
        }),
        (5, _, _, _) => post == (State {
            pc: if vx == vy { t.pc + 4 } else { t.pc + 2 },
            ..t
        }),
        (6, _, _, _) => post == (State { v: t.v.update(x, kk), pc: t.pc + 2, ..t }),
        (7, _, _, _) => post == (State {
            v: t.v.update(x, ((vx + kk) % 256) as u8),
            pc: t.pc + 2,
            ..t
        }),
        (8, _, _, 0) => post == (State { v: t.v.update(x, vy), pc: t.pc + 2, ..t }),
        (8, _, _, 1) => post == (State { v: t.v.update(x, vx | vy), pc: t.pc + 2, ..t }),
        (8, _, _, 2) => post == (State { v: t.v.update(x, vx & vy), pc: t.pc + 2, ..t }),
        (8, _, _, 3) => post == (State { v: t.v.update(x, vx ^ vy), pc: t.pc + 2, ..t }),
        (8, _, _, 4) => post == (State {
            v: t.v.update(x, ((vx + vy) % 256) as u8).update(
                15,
                if vx + vy > 255 { 1u8 } else { 0u8 },
            ),
            pc: t.pc + 2,
            ..t
        }),
        (8, _, _, 5) => post == (State {
            v: t.v.update(x, ((vx - vy) % 256) as u8).update(
                15,
                if vx > vy { 1u8 } else { 0u8 },
            ),
            pc: t.pc + 2,
            ..t
        }),
        (8, _, _, 6) => {
            let v1 = t.v.update(15, (vx % 2) as u8);
            post == (State { v: v1.update(x, (v1[x] / 2) as u8), pc: t.pc + 2, ..t })
        },
        (8, _, _, 7) => post == (State {
            v: t.v.update(x, ((vx - vy) % 256) as u8).update(
                15,
                if vx > vy { 1u8 } else { 0u8 },
            ),
            pc: t.pc + 2,
            ..t
        }),
        (8, _, _, 0xE) => {
            let v1 = t.v.update(15, (vx / 128) as u8);
            post == (State {
                v: v1.update(x, ((v1[x] * 2) % 256) as u8),
                pc: t.pc + 2,
                ..t
            })
        },
        (9, _, _, _) => post == (State {
            pc: if vx != vy { t.pc + 4 } else { t.pc + 2 },
            ..t
        }),
        (0xA, _, _, _) => post == (State { i: nnn, pc: t.pc + 2, ..t }),
        (0xB, _, _, _) => post == (State { pc: t.v[0] + nnn, ..t }),
        (0xC, _, _, _) => post == (State { v: t.v.update(x, rb & kk), pc: t.pc + 2, ..t }),
        (0xD, _, _, _) => {
            let sprite = t.mem.subrange(t.i, t.i + n);
            let col = blit_c(t.vram, vx as int, vy as int, sprite, n);
            post == (State {
                vram: blit_v(t.vram, vx as int, vy as int, sprite, n),
                v: t.v.update(15, if col { 1u8 } else { 0u8 }),
                pc: t.pc + 2,
                ..t
            })
        },
        (0xE, _, _, 0xE) => post == (State {
            pc: if t.keys[vx as int] { t.pc + 4 } else { t.pc + 2 },
            ..t
        }),
        (0xE, _, _, 1) => post == (State {
            pc: if !t.keys[vx as int] { t.pc + 4 } else { t.pc + 2 },
            ..t
        }),
        (0xF, _, 0, 7) => post == (State { v: t.v.update(x, t.dt), pc: t.pc + 2, ..t }),
        (0xF, _, 0, 0xA) => if some_key_pressed(t.keys) {
            post == (State {
                v: t.v.update(x, lowest_pressed(t.keys) as u8),
                pc: t.pc + 2,
                ..t
            })
        } else {
            post == t
        },
        (0xF, _, 1, 5) => post == (State { dt: vx, pc: t.pc + 2, ..t }),
        (0xF, _, 1, 8) => post == (State { st: vx, pc: t.pc + 2, ..t }),
        (0xF, _, 1, 0xE) => post == (State { i: (t.i + vx) % 0x10000, pc: t.pc + 2, ..t }),
        (0xF, _, 2, 9) => post == (State { i: vx * 5, pc: t.pc + 2, ..t }),
        (0xF, _, 3, 3) => post == (State {
            mem: t.mem.update(t.i, (vx / 100) as u8).update(
                t.i + 1,
                ((vx / 10) % 10) as u8,
            ).update(t.i + 2, (vx % 10) as u8),
            pc: t.pc + 2,
            ..t
        }),
        (0xF, _, 5, 5) => post == (State {
            mem: Seq::new(
                4096,
                |c: int| if t.i <= c <= t.i + x { t.v[c - t.i] } else { t.mem[c] },
            ),
            pc: t.pc + 2,
            ..t
        }),
        (0xF, _, 6, 5) => post == (State {
            v: Seq::new(16, |k: int| if k <= x { t.mem[t.i + k] } else { t.v[k] }),
            pc: t.pc + 2,
            ..t
        }),
        _ => post == (State { pc: t.pc + 2, ..t }),
    }
}

/// One whole cycle from state `pre`: fetch at the program counter, raise
/// any error with the state untouched, otherwise decrement the timers and
/// run the fetched instruction, consuming the random byte `rb` if it is
/// the RND instruction.
pub open spec fn cycle_ok(pre: State, rb: u8, out: Result<State, EmuError>) -> bool {
    if pre.pc + 1 >= 4096 {
        out == Err::<State, EmuError>(EmuError::MemoryOutOfBounds)
    } else {
        let w = word_at(pre);
        match check_err(pre, w) {
            Some(e) => out == Err::<State, EmuError>(e),
            None => match out {
                Ok(post) => exec_rel(tick(pre), w, rb, post),
                Err(_) => false,
            },
        }
    }
}

/// A handler's program-counter directive: advance, skip one instruction,
/// or jump to an absolute address.
#[derive(Clone, Copy, Debug, PartialEq, Eq, Structural)]
pub enum ProgramCounter {
    Next,
    Skip,
    Jump(usize),
}

impl ProgramCounter {
    /// Skip the next instruction when the condition holds.
    fn skip_if(skip: bool) -> (pc: ProgramCounter)
        ensures
            pc == (if skip { ProgramCounter::Skip } else { ProgramCounter::Next }),
    {
        if skip {
            ProgramCounter::Skip
        } else {
            ProgramCounter::Next
        }
    }
}

/// A decoded instruction word: the four nibbles for dispatch, and the
/// derived operand views.
struct Opcode {
    nibbles: (u8, u8, u8, u8),
    x: usize,
    y: usize,
    n: usize,
    nnn: usize,
    kk: u8,
}

impl Opcode {
    /// Split an instruction word into its fields. Total: all 65536 words
    /// decode; unrecognized ones are the dispatcher's concern.
    fn new(opcode: u16) -> (o: Opcode)
        ensures
            o.nibbles == (nib1(opcode), nib2(opcode), nib3(opcode), nib4(opcode)),
            o.x == nib2(opcode) as usize,
            o.y == nib3(opcode) as usize,
            o.n == nib4(opcode) as usize,
            o.nnn == addr_nnn(opcode) as usize,
            o.kk == imm_kk(opcode),
            o.x < 16,
            o.y < 16,
            o.n < 16,
            o.nnn < 4096,
    {
        proof {
            lemma_decode_bounds(opcode);
        }
        let nibbles = (
            ((opcode & 0xF000) >> 12) as u8,
            ((opcode & 0x0F00) >> 8) as u8,
            ((opcode & 0x00F0) >> 4) as u8,
            (opcode & 0x000F) as u8,
        );
        let nnn = (opcode & 0x0FFF) as usize;
        let kk = (opcode & 0x00FF) as u8;
        Opcode { nibbles, x: nibbles.1 as usize, y: nibbles.2 as usize, n: nibbles.3 as usize, nnn, kk }
    }
}

/// One cycle's result for the host: the framebuffer as `0`/`1` bytes,
/// row-major, and whether the sound timer asks for a beep.
pub struct Output {
    pub vram: Vec<u8>,
    pub beep: bool,
}

impl Output {
    /// Bundle a framebuffer snapshot with the beep flag.
    pub fn new(vram: Vec<u8>, beep: bool) -> (o: Output)
        ensures
            o.vram@ == vram@,
            o.beep == beep,
    {
        Output { vram, beep }
    }

    /// A copy of the framebuffer snapshot.
    pub fn get_vram(&self) -> (v: Vec<u8>)
        ensures
            v@ == self.vram@,
    {
        let mut v: Vec<u8> = Vec::new();
        let mut k: usize = 0;
        while k < self.vram.len()
            invariant
                k <= self.vram@.len(),
                v@ =~= self.vram@.subrange(0, k as int),
            decreases self.vram@.len() - k,
        {
            v.push(self.vram[k]);
            k = k + 1;
        }
        proof {
            assert(v@ =~= self.vram@);
        }
        v
    }
}

/// The machine: registers, memory, timers, call stack, framebuffer and
/// keypad, driven one instruction per `emulate_cycle` call.
pub struct CPU {
    /// Index register.
    pub i: u16,
    /// Program counter.
    pub pc: usize,
    /// The sixteen general-purpose registers.
    pub v: Vec<u8>,
    /// The sixteen call-stack slots.
    pub stack: Vec<u16>,
    /// Stack pointer: number of stack slots in use.
    pub sp: usize,
    /// Delay timer.
    pub dt: u8,
    /// Sound timer.
    pub st: u8,
    /// The 4096 memory bytes.
    pub memory: Vec<u8>,
    /// The framebuffer.
    pub display: Display,
    /// The keypad.
    pub keypad: Keypad,
}

impl View for CPU {
    type V = State;

    open spec fn view(&self) -> State {
        State {
            i: self.i as int,
            pc: self.pc as int,
            v: self.v@,
            stack: self.stack@,
            sp: self.sp as int,
            dt: self.dt,
            st: self.st,
            mem: self.memory@,
            vram: self.display.vram@,
            keys: self.keypad.keys@,
        }
    }
}

impl CPU {
    /// A valid machine value.
    pub open spec fn wf(self) -> bool {
        self@.wf()
    }

    /// A fresh machine in the construction state: font table preloaded,
    /// program counter at 0x200, everything else zero.
    pub fn new() -> (c: CPU)
        ensures
            c.wf(),
            c@ == init_state(),
    {
        let mut memory = font_set();
        while memory.len() < 4096
            invariant
                80 <= memory@.len() <= 4096,
                forall|c: int| 0 <= c < 80 ==> memory@[c] == font_seq()[c],
                forall|c: int| 80 <= c < memory@.len() ==> memory@[c] == 0u8,
            decreases 4096 - memory@.len(),
        {
            memory.push(0);
        }
        let mut v: Vec<u8> = Vec::new();
        while v.len() < 16
            invariant
                forall|k: int| 0 <= k < v@.len() ==> v@[k] == 0u8,
                v@.len() <= 16,
            decreases 16 - v@.len(),
        {
            v.push(0);
        }
        let mut stack: Vec<u16> = Vec::new();
        while stack.len() < 16
            invariant
                forall|k: int| 0 <= k < stack@.len() ==> stack@[k] == 0u16,
                stack@.len() <= 16,
            decreases 16 - stack@.len(),
        {
            stack.push(0);
        }
        let c = CPU {
            i: 0,
            pc: 0x200,
            memory,
            display: Display::new(),
            keypad: Keypad::new(),
            v,
            stack,
            sp: 0,
            dt: 0,
            st: 0,
        };
        proof {
            assert(c@.mem =~= init_state().mem);
            assert(c@.v =~= init_state().v);
            assert(c@.stack =~= init_state().stack);
            assert(c@ =~= init_state());
        }
        c
    }

    /// Return the machine to the exact construction-time state, discarding
    /// any loaded program and all other mutations.
    pub fn reset(&mut self)
        ensures
            final(self).wf(),
            final(self)@ == init_state(),
    {
        let fresh = CPU::new();
        *self = fresh;
    }

    /// Copy a program image into memory starting at 0x200. An image that
    /// would write past the end of memory is rejected before any mutation.
    pub fn load(&mut self, data: &[u8]) -> (r: Result<(), EmuError>)
        requires
            old(self).wf(),
        ensures
            final(self).wf(),
            data@.len() <= 4096 - 0x200 ==> r == Ok::<(), EmuError>(()) && final(self)@ == (State {
                mem: Seq::new(
                    4096,
                    |c: int| if 0x200 <= c < 0x200 + data@.len() {
                        data@[c - 0x200]
                    } else {
                        old(self)@.mem[c]
                    },
                ),
                ..old(self)@
            }),
            data@.len() > 4096 - 0x200 ==> r == Err::<(), EmuError>(EmuError::ProgramLoadOverflow)
                && final(self)@ == old(self)@,
    {
        if data.len() > 4096 - 0x200 {
            return Err(EmuError::ProgramLoadOverflow);
        }
        let mut k: usize = 0;
        while k < data.len()
            invariant
                old(self).wf(),
                self.wf(),
                k <= data@.len(),
                data@.len() <= 4096 - 0x200,
                self@ == (State { mem: self@.mem, ..old(self)@ }),
                forall|c: int|
                    0x200 <= c < 0x200 + k ==> self@.mem[c] == data@[c - 0x200],
                forall|c: int|
                    0 <= c < 4096 && !(0x200 <= c < 0x200 + k) ==> self@.mem[c] == old(self)@.mem[c],
            decreases data@.len() - k,
        {
            self.memory[0x200 + k] = data[k];
            k = k + 1;
        }
        proof {
            assert(self@.mem =~= Seq::new(
                4096,
                |c: int| if 0x200 <= c < 0x200 + data@.len() {
                    data@[c - 0x200]
                } else {
                    old(self)@.mem[c]
                },
            ));
            assert(self@ =~= (State {
                mem: Seq::new(
                    4096,
                    |c: int| if 0x200 <= c < 0x200 + data@.len() {
                        data@[c - 0x200]
                    } else {
                        old(self)@.mem[c]
                    },
                ),
                ..old(self)@
            }));
        }
        Ok(())
    }

    /// Report key `key` pressed.
    pub fn key_down(&mut self, key: u8)
        requires
            old(self).wf(),
            key < 16,
        ensures
            final(self).wf(),
            final(self)@ == (State { keys: old(self)@.keys.update(key as int, true), ..old(self)@ }),
    {
        self.keypad.key_down(key);
    }

    /// Report key `key` released.
    pub fn key_up(&mut self, key: u8)
        requires
            old(self).wf(),
            key < 16,
        ensures
            final(self).wf(),
            final(self)@ == (State { keys: old(self)@.keys.update(key as int, false), ..old(self)@ }),
    {
        self.keypad.key_up(key);
    }

    /// Run one cycle, as [`cycle_ok`] specifies: on success the machine
    /// steps and the host receives the framebuffer snapshot and the beep
    /// flag; on an error the machine is left untouched.
    pub fn emulate_cycle(&mut self) -> (result: Result<Output, EmuError>)
        requires
            old(self).wf(),
        ensures
            final(self).wf(),
            result is Ok ==> exists|rb: u8|
                #[trigger] cycle_ok(old(self)@, rb, Ok::<State, EmuError>(final(self)@)),
            result matches Err(e) ==> exists|rb: u8|
                #[trigger] cycle_ok(old(self)@, rb, Err::<State, EmuError>(e)),
            result is Err ==> final(self)@ == old(self)@,
            result matches Ok(out) ==> out.vram@ == vram_bytes(final(self)@.vram) && out.beep == (
            final(self)@.st > 0),
    {
        let pc = self.pc;
        if pc + 1 >= 4096 {
            proof {
                assert(cycle_ok(
                    self@,
                    0u8,
                    Err::<State, EmuError>(EmuError::MemoryOutOfBounds),
                ));
            }
            return Err(EmuError::MemoryOutOfBounds);
        }
        let opcode = CPU::get_opcode(self.memory[pc], self.memory[pc + 1]);
        let parts = Opcode::new(opcode);
        if let Some(e) = self.check_instruction(&parts, Ghost(opcode)) {
            proof {
                assert(cycle_ok(self@, 0u8, Err::<State, EmuError>(e)));
            }
            return Err(e);
        }
        self.decrement_timers();
        self.run_instruction(&parts, Ghost(opcode));
        let out = Output::new(self.display.copy_vram_to_vec(), self.st > 0);
        proof {
            let rb0 = choose|rb: u8| exec_rel(tick(old(self)@), opcode, rb, self@);
            assert(cycle_ok(old(self)@, rb0, Ok::<State, EmuError>(self@)));
        }
        Ok(out)
    }

    /// The error, if any, that the decoded instruction would raise now;
    /// mirrors [`check_err`].
    fn check_instruction(&self, parts: &Opcode, Ghost(w): Ghost<u16>) -> (r: Option<EmuError>)
        requires
            self.wf(),
            parts.nibbles == (nib1(w), nib2(w), nib3(w), nib4(w)),
            parts.x == nib2(w) as usize,
            parts.n == nib4(w) as usize,
        ensures
            r == check_err(self@, w),
    {
        proof {
            lemma_decode_bounds(w);
        }
        match parts.nibbles {
            (0, 0, 0xE, 0xE) => if self.sp == 0 {
                Some(EmuError::StackUnderflow)
            } else {
                None
            },
            (2, _, _, _) => if self.sp == 16 {
                Some(EmuError::StackOverflow)
            } else {
                None
            },
            (0xD, _, _, _) => if self.i as usize + parts.n > 4096 {
                Some(EmuError::MemoryOutOfBounds)
            } else {
                None
            },
            (0xE, _, _, 0xE) | (0xE, _, _, 1) => if self.v[parts.x] >= 16 {
                Some(EmuError::KeyOutOfRange)
            } else {
                None
            },
            (0xF, _, 3, 3) => if self.i as usize + 2 > 4095 {
                Some(EmuError::MemoryOutOfBounds)
            } else {
                None
            },
            (0xF, _, 5, 5) | (0xF, _, 6, 5) => if self.i as usize + parts.x > 4095 {
                Some(EmuError::MemoryOutOfBounds)
            } else {
                None
            },
            _ => None,
        }
    }

    /// Dispatch the decoded instruction to its handler and apply the
    /// handler's program-counter directive.
    fn run_instruction(&mut self, parts: &Opcode, Ghost(w): Ghost<u16>)
        requires
            old(self).wf(),
            old(self)@.pc <= 4094,
            parts.nibbles == (nib1(w), nib2(w), nib3(w), nib4(w)),
            parts.x == nib2(w) as usize,
            parts.y == nib3(w) as usize,
            parts.n == nib4(w) as usize,
            parts.nnn == addr_nnn(w) as usize,
            parts.kk == imm_kk(w),
            check_err(old(self)@, w) == None::<EmuError>,
        ensures
            final(self).wf(),
            exists|rb: u8| exec_rel(old(self)@, w, rb, final(self)@),
    {
        proof {
            lemma_decode_bounds(w);
        }
        let mut rnd: u8 = 0;
        let program_count = match parts.nibbles {
            (0, 0, 0xE, 0x0) => self.op_00e0(),
            (0, 0, 0xE, 0xE) => self.op_00ee(),
            (0x1, _, _, _) => self.op_1nnn(parts.nnn),
            (0x2, _, _, _) => self.op_2nnn(parts.nnn),
            (0x3, _, _, _) => self.op_3xkk(parts.x, parts.kk),
            (0x4, _, _, _) => self.op_4xkk(parts.x, parts.kk),
            (0x5, _, _, _) => self.op_5xy0(parts.x, parts.y),
            (0x6, _, _, _) => self.op_6xkk(parts.x, parts.kk),
            (0x7, _, _, _) => self.op_7xkk(parts.x, parts.kk),
            (0x8, _, _, 0x0) => self.op_8xy0(parts.x, parts.y),
            (0x8, _, _, 0x1) => self.op_8xy1(parts.x, parts.y),
            (0x8, _, _, 0x2) => self.op_8xy2(parts.x, parts.y),
            (0x8, _, _, 0x3) => self.op_8xy3(parts.x, parts.y),
            (0x8, _, _, 0x4) => self.op_8xy4(parts.x, parts.y),
            (0x8, _, _, 0x5) => self.op_8xy5(parts.x, parts.y),
            (0x8, _, _, 0x6) => self.op_8xy6(parts.x),
            (0x8, _, _, 0x7) => self.op_8xy7(parts.x, parts.y),
            (0x8, _, _, 0xE) => self.op_8xye(parts.x),
            (0x9, _, _, _) => self.op_9xy0(parts.x, parts.y),
            (0xA, _, _, _) => self.op_annn(parts.nnn),
            (0xB, _, _, _) => self.op_bnnn(parts.nnn),
            (0xC, _, _, _) => {
                rnd = match os_random_byte() {
                    Some(b) => b,
                    None => 0,
                };
                self.op_cxkk(parts.x, parts.kk, rnd)
            },
            (0xD, _, _, _) => self.op_dxyn(parts.x, parts.y, parts.n),
            (0xE, _, _, 0xE) => self.op_ex9e(parts.x),
            (0xE, _, _, 0x1) => self.op_exa1(parts.x),
            (0xF, _, 0x0, 0x7) => self.op_fx07(parts.x),
            (0xF, _, 0x0, 0xA) => self.op_fx0a(parts.x),
            (0xF, _, 0x1, 0x5) => self.op_fx15(parts.x),
            (0xF, _, 0x1, 0x8) => self.op_fx18(parts.x),
            (0xF, _, 0x1, 0xE) => self.op_fx1e(parts.x),
            (0xF, _, 0x2, 0x9) => self.op_fx29(parts.x),
            (0xF, _, 0x3, 0x3) => self.op_fx33(parts.x),
            (0xF, _, 0x5, 0x5) => self.op_fx55(parts.x),
            (0xF, _, 0x6, 0x5) => self.op_fx65(parts.x),
            _ => ProgramCounter::Next,
        };
        match program_count {
            ProgramCounter::Next => self.pc = self.pc + 2,
            ProgramCounter::Skip => self.pc = self.pc + 4,
            ProgramCounter::Jump(address) => self.pc = address,
        }
        proof {
            assert(exec_rel(old(self)@, w, rnd, self@));
        }
    }

    // CLS
    fn op_00e0(&mut self) -> (pc: ProgramCounter)
        requires
            old(self).wf(),
        ensures
            final(self).wf(),
            final(self)@ == (State { vram: blank(), ..old(self)@ }),
            pc == ProgramCounter::Next,
    {
        self.display.cls();
        ProgramCounter::Next
    }

    // RET
    fn op_00ee(&mut self) -> (pc: ProgramCounter)
        requires
            old(self).wf(),
            old(self)@.sp > 0,
        ensures
            final(self).wf(),
            final(self)@ == (State { sp: old(self)@.sp - 1, ..old(self)@ }),
            pc == ProgramCounter::Jump(old(self)@.stack[old(self)@.sp - 1] as usize),
    {
        self.sp = self.sp - 1;
        ProgramCounter::Jump(self.stack[self.sp] as usize)
    }

    // JP addr
    fn op_1nnn(&mut self, nnn: usize) -> (pc: ProgramCounter)
        requires
            old(self).wf(),
        ensures
            final(self).wf(),
            final(self)@ == old(self)@,
            pc == ProgramCounter::Jump(nnn),
    {
        ProgramCounter::Jump(nnn)
    }

    // CALL addr
    fn op_2nnn(&mut self, nnn: usize) -> (pc: ProgramCounter)
        requires
            old(self).wf(),
            old(self)@.sp < 16,
            old(self)@.pc <= 4094,
        ensures
            final(self).wf(),
            final(self)@ == (State {
                stack: old(self)@.stack.update(old(self)@.sp, (old(self)@.pc + 2) as u16),
                sp: old(self)@.sp + 1,
                ..old(self)@
            }),
            pc == ProgramCounter::Jump(nnn),
    {
        self.stack[self.sp] = (self.pc + 2) as u16;
        self.sp = self.sp + 1;
        ProgramCounter::Jump(nnn)
    }

    // SE Vx, byte
    fn op_3xkk(&mut self, x: usize, kk: u8) -> (pc: ProgramCounter)
        requires
            old(self).wf(),
            x < 16,
        ensures
            final(self).wf(),
            final(self)@ == old(self)@,
            pc == ProgramCounter::skip_spec(old(self)@.v[x as int] == kk),
    {
        ProgramCounter::skip_if(self.v[x] == kk)
    }

    // SNE Vx, byte
    fn op_4xkk(&mut self, x: usize, kk: u8) -> (pc: ProgramCounter)
        requires
            old(self).wf(),
            x < 16,
        ensures
            final(self).wf(),
            final(self)@ == old(self)@,
            pc == ProgramCounter::skip_spec(old(self)@.v[x as int] != kk),
    {
        ProgramCounter::skip_if(self.v[x] != kk)
    }

    // SE Vx, Vy
    fn op_5xy0(&mut self, x: usize, y: usize) -> (pc: ProgramCounter)
        requires
            old(self).wf(),
            x < 16,
            y < 16,
        ensures
            final(self).wf(),
            final(self)@ == old(self)@,
            pc == ProgramCounter::skip_spec(old(self)@.v[x as int] == old(self)@.v[y as int]),
    {
        ProgramCounter::skip_if(self.v[x] == self.v[y])
    }

    // LD Vx, byte
    fn op_6xkk(&mut self, x: usize, kk: u8) -> (pc: ProgramCounter)
        requires
            old(self).wf(),
            x < 16,
        ensures
            final(self).wf(),
            final(self)@ == (State { v: old(self)@.v.update(x as int, kk), ..old(self)@ }),
            pc == ProgramCounter::Next,
    {
        self.v[x] = kk;
        ProgramCounter::Next
    }

    // ADD Vx, byte (8-bit wraparound, flag untouched)
    fn op_7xkk(&mut self, x: usize, kk: u8) -> (pc: ProgramCounter)
        requires
            old(self).wf(),
            x < 16,
        ensures
            final(self).wf(),
            final(self)@ == (State {
                v: old(self)@.v.update(
                    x as int,
                    ((old(self)@.v[x as int] + kk) % 256) as u8,
                ),
                ..old(self)@
            }),
            pc == ProgramCounter::Next,
    {
        let sum: u16 = self.v[x] as u16 + kk as u16;
        self.v[x] = (sum % 256) as u8;
        ProgramCounter::Next
    }

    // LD Vx, Vy
    fn op_8xy0(&mut self, x: usize, y: usize) -> (pc: ProgramCounter)
        requires
            old(self).wf(),
            x < 16,
            y < 16,
        ensures
            final(self).wf(),
            final(self)@ == (State {
                v: old(self)@.v.update(x as int, old(self)@.v[y as int]),
                ..old(self)@
            }),
            pc == ProgramCounter::Next,
    {
        self.v[x] = self.v[y];
        ProgramCounter::Next
    }

    // OR Vx, Vy
    fn op_8xy1(&mut self, x: usize, y: usize) -> (pc: ProgramCounter)
        requires
            old(self).wf(),
            x < 16,
            y < 16,
        ensures
            final(self).wf(),
            final(self)@ == (State {
                v: old(self)@.v.update(x as int, old(self)@.v[x as int] | old(self)@.v[y as int]),
                ..old(self)@
            }),
            pc == ProgramCounter::Next,
    {
        self.v[x] = self.v[x] | self.v[y];
        ProgramCounter::Next
    }

    // AND Vx, Vy
    fn op_8xy2(&mut self, x: usize, y: usize) -> (pc: ProgramCounter)
        requires
            old(self).wf(),
            x < 16,
            y < 16,
        ensures
            final(self).wf(),
            final(self)@ == (State {
                v: old(self)@.v.update(x as int, old(self)@.v[x as int] & old(self)@.v[y as int]),
                ..old(self)@
            }),
            pc == ProgramCounter::Next,
    {
        self.v[x] = self.v[x] & self.v[y];
        ProgramCounter::Next
    }

    // XOR Vx, Vy
    fn op_8xy3(&mut self, x: usize, y: usize) -> (pc: ProgramCounter)
        requires
            old(self).wf(),
            x < 16,
            y < 16,
        ensures
            final(self).wf(),
            final(self)@ == (State {
                v: old(self)@.v.update(x as int, old(self)@.v[x as int] ^ old(self)@.v[y as int]),
                ..old(self)@
            }),
            pc == ProgramCounter::Next,
    {
        self.v[x] = self.v[x] ^ self.v[y];
        ProgramCounter::Next
    }

    // ADD Vx, Vy (widened sum; flag = carry)
    fn op_8xy4(&mut self, x: usize, y: usize) -> (pc: ProgramCounter)
        requires
            old(self).wf(),
            x < 16,
            y < 16,
        ensures
            final(self).wf(),
            final(self)@ == (State {
                v: old(self)@.v.update(
                    x as int,
                    ((old(self)@.v[x as int] + old(self)@.v[y as int]) % 256) as u8,
                ).update(
                    15,
                    if old(self)@.v[x as int] + old(self)@.v[y as int] > 255 { 1u8 } else { 0u8 },
                ),
                ..old(self)@
            }),
            pc == ProgramCounter::Next,
    {
        let result: u16 = self.v[x] as u16 + self.v[y] as u16;
        self.v[x] = (result % 256) as u8;
        self.v[0xF] = if result > 0xFF {
            1
        } else {
            0
        };
        ProgramCounter::Next
    }

    // SUB Vx, Vy (8-bit wraparound; flag = not-borrow, from the operand
    // values before the subtraction)
    fn op_8xy5(&mut self, x: usize, y: usize) -> (pc: ProgramCounter)
        requires
            old(self).wf(),
            x < 16,
            y < 16,
        ensures
            final(self).wf(),
            final(self)@ == (State {
                v: old(self)@.v.update(
                    x as int,
                    ((old(self)@.v[x as int] - old(self)@.v[y as int]) % 256) as u8,
                ).update(
                    15,
                    if old(self)@.v[x as int] > old(self)@.v[y as int] { 1u8 } else { 0u8 },
                ),
                ..old(self)@
            }),
            pc == ProgramCounter::Next,
    {
        let a = self.v[x];
        let b = self.v[y];
        let diff: u16 = (a as u16 + 256 - b as u16) % 256;
        proof {
            lemma_mod_multiples_vanish(1, a - b, 256);
        }
        self.v[x] = diff as u8;
        self.v[0xF] = if a > b {
            1
        } else {
            0
        };
        ProgramCounter::Next
    }

    // SHR Vx (flag = low bit before the shift)
    fn op_8xy6(&mut self, x: usize) -> (pc: ProgramCounter)
        requires
            old(self).wf(),
            x < 16,
        ensures
            final(self).wf(),
            final(self)@ == (State {
                v: old(self)@.v.update(15, (old(self)@.v[x as int] % 2) as u8).update(
                    x as int,
                    (old(self)@.v.update(15, (old(self)@.v[x as int] % 2) as u8)[x as int]
                        / 2) as u8,
                ),
                ..old(self)@
            }),
            pc == ProgramCounter::Next,
    {
        self.v[0xF] = self.v[x] % 2;
        self.v[x] = self.v[x] / 2;
        ProgramCounter::Next
    }

    // SUBN Vx, Vy (same result and flag rule as SUB, reading the operands
    // in the stated order)
    fn op_8xy7(&mut self, x: usize, y: usize) -> (pc: ProgramCounter)
        requires
            old(self).wf(),
            x < 16,
            y < 16,
        ensures
            final(self).wf(),
            final(self)@ == (State {
                v: old(self)@.v.update(
                    x as int,
                    ((old(self)@.v[x as int] - old(self)@.v[y as int]) % 256) as u8,
                ).update(
                    15,
                    if old(self)@.v[x as int] > old(self)@.v[y as int] { 1u8 } else { 0u8 },
                ),
                ..old(self)@
            }),
            pc == ProgramCounter::Next,
    {
        let a = self.v[x];
        let b = self.v[y];
        let diff: u16 = (a as u16 + 256 - b as u16) % 256;
        proof {
            lemma_mod_multiples_vanish(1, a - b, 256);
        }
        self.v[x] = diff as u8;
        self.v[0xF] = if a > b {
            1
        } else {
            0
        };
        ProgramCounter::Next
    }

    // SHL Vx (flag = high bit before the shift; 8-bit wraparound)
    fn op_8xye(&mut self, x: usize) -> (pc: ProgramCounter)
        requires
            old(self).wf(),
            x < 16,
        ensures
            final(self).wf(),
            final(self)@ == (State {
                v: old(self)@.v.update(15, (old(self)@.v[x as int] / 128) as u8).update(
                    x as int,
                    ((old(self)@.v.update(15, (old(self)@.v[x as int] / 128) as u8)[x as int]
                        * 2) % 256) as u8,
                ),
                ..old(self)@
            }),
            pc == ProgramCounter::Next,
    {
        self.v[0xF] = self.v[x] / 128;
        let cur = self.v[x];
        self.v[x] = ((cur as u16 * 2) % 256) as u8;
        ProgramCounter::Next
    }

    // SNE Vx, Vy
    fn op_9xy0(&mut self, x: usize, y: usize) -> (pc: ProgramCounter)
        requires
            old(self).wf(),
            x < 16,
            y < 16,
        ensures
            final(self).wf(),
            final(self)@ == old(self)@,
            pc == ProgramCounter::skip_spec(old(self)@.v[x as int] != old(self)@.v[y as int]),
    {
        ProgramCounter::skip_if(self.v[x] != self.v[y])
    }

    // LD I, addr
    fn op_annn(&mut self, nnn: usize) -> (pc: ProgramCounter)
        requires
            old(self).wf(),
            nnn < 4096,
        ensures
            final(self).wf(),
            final(self)@ == (State { i: nnn as int, ..old(self)@ }),
            pc == ProgramCounter::Next,
    {
        self.i = nnn as u16;
        ProgramCounter::Next
    }

    // JP V0, addr
    fn op_bnnn(&mut self, nnn: usize) -> (pc: ProgramCounter)
        requires
            old(self).wf(),
            nnn < 4096,
        ensures
            final(self).wf(),
            final(self)@ == old(self)@,
            pc == ProgramCounter::Jump((old(self)@.v[0] + nnn) as usize),
    {
        ProgramCounter::Jump(self.v[0] as usize + nnn)
    }

    // RND Vx, byte: the random byte is drawn by the caller and handed in,
    // so this handler is exact for every value of it.
    fn op_cxkk(&mut self, x: usize, kk: u8, rbyte: u8) -> (pc: ProgramCounter)
        requires
            old(self).wf(),
            x < 16,
        ensures
            final(self).wf(),
            final(self)@ == (State {
                v: old(self)@.v.update(x as int, rbyte & kk),
                ..old(self)@
            }),
            pc == ProgramCounter::Next,
    {
        self.v[x] = rbyte & kk;
        ProgramCounter::Next
    }

    // DRW Vx, Vy, nibble
    fn op_dxyn(&mut self, x: usize, y: usize, n: usize) -> (pc: ProgramCounter)
        requires
            old(self).wf(),
            x < 16,
            y < 16,
            old(self)@.i + n <= 4096,
        ensures
            final(self).wf(),
            final(self)@ == (State {
                vram: blit_v(
                    old(self)@.vram,
                    old(self)@.v[x as int] as int,
                    old(self)@.v[y as int] as int,
                    old(self)@.mem.subrange(old(self)@.i, old(self)@.i + n),
                    n as int,
                ),
                v: old(self)@.v.update(
                    15,
                    if blit_c(
                        old(self)@.vram,
                        old(self)@.v[x as int] as int,
                        old(self)@.v[y as int] as int,
                        old(self)@.mem.subrange(old(self)@.i, old(self)@.i + n),
                        n as int,
                    ) {
                        1u8
                    } else {
                        0u8
                    },
                ),
                ..old(self)@
            }),
            pc == ProgramCounter::Next,
    {
        let vx = self.v[x];
        let vy = self.v[y];
        let i = self.i as usize;
        let mut sprite: Vec<u8> = Vec::new();
        let mut k: usize = 0;
        while k < n
            invariant
                self.wf(),
                self == old(self),
                i == old(self)@.i,
                i + n <= 4096,
                k <= n,
                sprite@ =~= old(self)@.mem.subrange(i as int, i + k),
            decreases n - k,
        {
            sprite.push(self.memory[i + k]);
            proof {
                assert(sprite@ =~= old(self)@.mem.subrange(i as int, i + k + 1));
            }
            k = k + 1;
        }
        let collision = self.display.draw(vx as usize, vy as usize, sprite.as_slice());
        self.v[0xF] = if collision {
            1
        } else {
            0
        };
        ProgramCounter::Next
    }

    // SKP Vx
    fn op_ex9e(&mut self, x: usize) -> (pc: ProgramCounter)
        requires
            old(self).wf(),
            x < 16,
            old(self)@.v[x as int] < 16,
        ensures
            final(self).wf(),
            final(self)@ == old(self)@,
            pc == ProgramCounter::skip_spec(old(self)@.keys[old(self)@.v[x as int] as int]),
    {
        ProgramCounter::skip_if(self.keypad.is_key_pressed(self.v[x]))
    }

    // SKNP Vx
    fn op_exa1(&mut self, x: usize) -> (pc: ProgramCounter)
        requires
            old(self).wf(),
            x < 16,
            old(self)@.v[x as int] < 16,
        ensures
            final(self).wf(),
            final(self)@ == old(self)@,
            pc == ProgramCounter::skip_spec(!old(self)@.keys[old(self)@.v[x as int] as int]),
    {
        ProgramCounter::skip_if(!self.keypad.is_key_pressed(self.v[x]))
    }

    // LD Vx, DT
    fn op_fx07(&mut self, x: usize) -> (pc: ProgramCounter)
        requires
            old(self).wf(),
            x < 16,
        ensures
            final(self).wf(),
            final(self)@ == (State {
                v: old(self)@.v.update(x as int, old(self)@.dt),
                ..old(self)@
            }),
            pc == ProgramCounter::Next,
    {
        self.v[x] = self.dt;
        ProgramCounter::Next
    }

    // LD Vx, K: when some key is pressed, store the lowest pressed key
    // index and advance; otherwise leave the program counter in place so
    // the same instruction re-executes next cycle.
    fn op_fx0a(&mut self, x: usize) -> (pc: ProgramCounter)
        requires
            old(self).wf(),
            x < 16,
        ensures
            final(self).wf(),
            some_key_pressed(old(self)@.keys) ==> final(self)@ == (State {
                v: old(self)@.v.update(x as int, lowest_pressed(old(self)@.keys) as u8),
                ..old(self)@
            }) && pc == ProgramCounter::Next,
            !some_key_pressed(old(self)@.keys) ==> final(self)@ == old(self)@ && pc
                == ProgramCounter::Jump(old(self).pc),
    {
        let mut k: usize = 0;
        while k < 16
            invariant
                self.wf(),
                self == old(self),
                x < 16,
                k <= 16,
                forall|m: int| 0 <= m < k ==> !old(self)@.keys[m],
            decreases 16 - k,
        {
            if self.keypad.is_key_pressed(k as u8) {
                proof {
                    lemma_first_pressed_from(old(self)@.keys, 0, k as int);
                }
                self.v[x] = k as u8;
                return ProgramCounter::Next;
            }
            k = k + 1;
        }
        ProgramCounter::Jump(self.pc)
    }

    // LD DT, Vx
    fn op_fx15(&mut self, x: usize) -> (pc: ProgramCounter)
        requires
            old(self).wf(),
            x < 16,
        ensures
            final(self).wf(),
            final(self)@ == (State { dt: old(self)@.v[x as int], ..old(self)@ }),
            pc == ProgramCounter::Next,
    {
        self.dt = self.v[x];
        ProgramCounter::Next
    }

    // LD ST, Vx
    fn op_fx18(&mut self, x: usize) -> (pc: ProgramCounter)
        requires
            old(self).wf(),
            x < 16,
        ensures
            final(self).wf(),
            final(self)@ == (State { st: old(self)@.v[x as int], ..old(self)@ }),
            pc == ProgramCounter::Next,
    {
        self.st = self.v[x];
        ProgramCounter::Next
    }

    // ADD I, Vx (16-bit wraparound; no flag)
    fn op_fx1e(&mut self, x: usize) -> (pc: ProgramCounter)
        requires
            old(self).wf(),
            x < 16,
        ensures
            final(self).wf(),
            final(self)@ == (State {
                i: (old(self)@.i + old(self)@.v[x as int]) % 0x10000,
                ..old(self)@
            }),
            pc == ProgramCounter::Next,
    {
        let sum: u32 = self.i as u32 + self.v[x] as u32;
        self.i = (sum % 0x10000) as u16;
        ProgramCounter::Next
    }

    // LD F, Vx: address of the font glyph for v[x]
    fn op_fx29(&mut self, x: usize) -> (pc: ProgramCounter)
        requires
            old(self).wf(),
            x < 16,
        ensures
            final(self).wf(),
            final(self)@ == (State { i: old(self)@.v[x as int] * 5, ..old(self)@ }),
            pc == ProgramCounter::Next,
    {
        self.i = self.v[x] as u16 * 5;
        ProgramCounter::Next
    }

    // LD B, Vx: the three decimal digits of v[x], most significant first
    fn op_fx33(&mut self, x: usize) -> (pc: ProgramCounter)
        requires
            old(self).wf(),
            x < 16,
            old(self)@.i + 2 <= 4095,
        ensures
            final(self).wf(),
            final(self)@ == (State {
                mem: old(self)@.mem.update(old(self)@.i, (old(self)@.v[x as int] / 100) as u8)
                    .update(old(self)@.i + 1, ((old(self)@.v[x as int] / 10) % 10) as u8)
                    .update(old(self)@.i + 2, (old(self)@.v[x as int] % 10) as u8),
                ..old(self)@
            }),
            pc == ProgramCounter::Next,
    {
        let i = self.i as usize;
        let a = self.v[x];
        self.memory[i] = a / 100;
        self.memory[i + 1] = (a / 10) % 10;
        self.memory[i + 2] = a % 10;
        ProgramCounter::Next
    }

    // LD [I], Vx: block-copy v[0..=x] into memory at i
    fn op_fx55(&mut self, x: usize) -> (pc: ProgramCounter)
        requires
            old(self).wf(),
            x < 16,
            old(self)@.i + x <= 4095,
        ensures
            final(self).wf(),
            final(self)@ == (State {
                mem: Seq::new(
                    4096,
                    |c: int| if old(self)@.i <= c <= old(self)@.i + x {
                        old(self)@.v[c - old(self)@.i]
                    } else {
                        old(self)@.mem[c]
                    },
                ),
                ..old(self)@
            }),
            pc == ProgramCounter::Next,
    {
        let i = self.i as usize;
        let mut k: usize = 0;
        while k < x + 1
            invariant
                self.wf(),
                x < 16,
                i == old(self)@.i,
                i + x <= 4095,
                k <= x + 1,
                self@ == (State { mem: self@.mem, ..old(self)@ }),
                forall|c: int| i <= c < i + k ==> self@.mem[c] == old(self)@.v[c - i],
                forall|c: int|
                    0 <= c < 4096 && !(i <= c < i + k) ==> self@.mem[c] == old(self)@.mem[c],
            decreases x + 1 - k,
        {
            self.memory[i + k] = self.v[k];
            k = k + 1;
        }
        proof {
            assert(self@.mem =~= Seq::new(
                4096,
                |c: int| if old(self)@.i <= c <= old(self)@.i + x {
                    old(self)@.v[c - old(self)@.i]
                } else {
                    old(self)@.mem[c]
                },
            ));
        }
        ProgramCounter::Next
    }

    // LD Vx, [I]: block-copy memory at i into v[0..=x]
    fn op_fx65(&mut self, x: usize) -> (pc: ProgramCounter)
        requires
            old(self).wf(),
            x < 16,
            old(self)@.i + x <= 4095,
        ensures
            final(self).wf(),
            final(self)@ == (State {
                v: Seq::new(
                    16,
                    |k: int| if k <= x { old(self)@.mem[old(self)@.i + k] } else { old(self)@.v[k] },
                ),
                ..old(self)@
            }),
            pc == ProgramCounter::Next,
    {
        let i = self.i as usize;
        let mut k: usize = 0;
        while k < x + 1
            invariant
                self.wf(),
                x < 16,
                i == old(self)@.i,
                i + x <= 4095,
                k <= x + 1,
                self@ == (State { v: self@.v, ..old(self)@ }),
                forall|m: int| 0 <= m < k ==> self@.v[m] == old(self)@.mem[i + m],
                forall|m: int| k <= m < 16 ==> self@.v[m] == old(self)@.v[m],
            decreases x + 1 - k,
        {
            self.v[k] = self.memory[i + k];
            k = k + 1;
        }
        proof {
            assert(self@.v =~= Seq::new(
                16,
                |m: int| if m <= x { old(self)@.mem[old(self)@.i + m] } else { old(self)@.v[m] },
            ));
        }
        ProgramCounter::Next
    }

    /// Decrement both timers, with a floor at zero.
    fn decrement_timers(&mut self)
        requires
            old(self).wf(),
        ensures
            final(self).wf(),
            final(self)@ == tick(old(self)@),
    {
        if self.st > 0 {
            self.st = self.st - 1;
        }
        if self.dt > 0 {
            self.dt = self.dt - 1;
        }
    }

    /// Join two memory bytes into one big-endian instruction word.
    fn get_opcode(first: u8, second: u8) -> (w: u16)
        ensures
            w == word_of(first, second),
    {
        (first as u16) << 8 | second as u16
    }
}

impl ProgramCounter {
    /// The directive `skip_if` returns.
    pub open spec fn skip_spec(skip: bool) -> ProgramCounter {
        if skip {
            ProgramCounter::Skip
        } else {
            ProgramCounter::Next
        }
    }
}

/// Law: a cycle that runs ADD Vx,Vy (with `x` other than 0xF, whose
/// register the flag overwrites) stores the 8-bit-wrapped sum in `v[x]`
/// and sets register 0xF to 1 exactly when the true sum exceeds 255.
pub proof fn lemma_add_sets_carry(pre: State, rb: u8, post: State, x: int, y: int)
    requires
        pre.wf(),
        cycle_ok(pre, rb, Ok::<State, EmuError>(post)),
        nib1(word_at(pre)) == 8,
        nib4(word_at(pre)) == 4,
        x == nib2(word_at(pre)) as int,
        y == nib3(word_at(pre)) as int,
        x != 15,
    ensures
        post.v[x] == (pre.v[x] + pre.v[y]) % 256,
        post.v[15] == (if pre.v[x] + pre.v[y] > 255 { 1u8 } else { 0u8 }),
{
    lemma_decode_bounds(word_at(pre));
}

/// Law: a cycle that runs SUB Vx,Vy (with `x` other than 0xF) stores the
/// 8-bit-wrapped difference in `v[x]` and sets register 0xF to 1 exactly
/// when `v[x] > v[y]` held before the subtraction.
pub proof fn lemma_sub_sets_not_borrow(pre: State, rb: u8, post: State, x: int, y: int)
    requires
        pre.wf(),
        cycle_ok(pre, rb, Ok::<State, EmuError>(post)),
        nib1(word_at(pre)) == 8,
        nib4(word_at(pre)) == 5,
        x == nib2(word_at(pre)) as int,
        y == nib3(word_at(pre)) as int,
        x != 15,
    ensures
        post.v[x] == (pre.v[x] - pre.v[y]) % 256,
        post.v[15] == (if pre.v[x] > pre.v[y] { 1u8 } else { 0u8 }),
{
    lemma_decode_bounds(word_at(pre));
}

/// Law: a CALL cycle followed by a RET cycle at the call target leaves
/// the program counter two past the CALL (control returns to the
/// instruction after the call) and the stack pointer where it began.
pub proof fn lemma_call_then_ret(pre: State, rb1: u8, mid: State, rb2: u8, post: State)
    requires
        pre.wf(),
        nib1(word_at(pre)) == 2,
        cycle_ok(pre, rb1, Ok::<State, EmuError>(mid)),
        word_at(mid) == 0x00EE,
        cycle_ok(mid, rb2, Ok::<State, EmuError>(post)),
    ensures
        post.pc == pre.pc + 2,
        post.sp == pre.sp,
{
    lemma_decode_bounds(word_at(pre));
    assert((0x00EEu16 & 0xF000) >> 12 == 0) by (bit_vector);
    assert((0x00EEu16 & 0x0F00) >> 8 == 0) by (bit_vector);
    assert((0x00EEu16 & 0x00F0) >> 4 == 0xE) by (bit_vector);
    assert((0x00EEu16 & 0x000F) == 0xE) by (bit_vector);
}

} // verus!
