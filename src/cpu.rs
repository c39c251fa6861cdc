//! Machine state: memory, registers, stack, timers, framebuffer, keypad and
//! execution state, with the control calls a host makes.
use crate::font::{sprite_addr, FONT, FONT_LEN};
use crate::opcode::{operands_in_range, spec_decode, Opcode};
use crate::model::{
    blank_display, collides, covered_before, drawn, fetched, first_event_from, lemma_draw_cell,
    lemma_draw_done, lemma_draw_row_end, lemma_pixel_index, lit_before, loaded_memory,
    pending_key, spec_execute, spec_step, tick, view_wf, zero_view, CpuView,
};
use vstd::prelude::*;

verus! {

/// Number of pixels in the 64×32 framebuffer.
pub const DISPLAY_SIZE: usize = 2048;

/// Number of return addresses the stack holds.
pub const STACK_SIZE: usize = 16;

/// Bytes of addressable memory.
pub const MEMORY_SIZE: usize = 4096;

/// Where programs are loaded and execution starts.
pub const PROGRAM_START: usize = 0x200;

/// One framebuffer pixel.
#[derive(Clone, Copy, Debug, PartialEq, Eq, Structural)]
pub enum PixelState {
    Off,
    On,
}

impl PixelState {
    /// The other state.
    pub open spec fn toggled(self) -> PixelState {
        match self {
            PixelState::On => PixelState::Off,
            PixelState::Off => PixelState::On,
        }
    }

    /// Flips the pixel.
    pub fn toggle(&mut self)
        ensures
            *final(self) == old(self).toggled(),
    {
        match self {
            PixelState::On => *self = PixelState::Off,
            PixelState::Off => *self = PixelState::On,
        }
    }
}

/// Whether a key is held.
#[derive(Clone, Copy, Debug, PartialEq, Eq, Structural)]
pub enum KeyState {
    Up,
    Down,
}

/// What `step` does next.
#[derive(Clone, Copy, Debug, PartialEq, Eq, Structural)]
pub enum CpuState {
    /// Not running
    Halt,
    /// Running
    Running,
    /// Waiting for a key, to be stored in the given register
    WaitInput(usize),
}

/// Why a step could not be carried out. The machine halts on each.
#[derive(Clone, Copy, Debug, PartialEq, Eq, Structural)]
pub enum Fault {
    /// The fetched word encodes no instruction.
    UnknownOpcode(u16),
    /// A fetch or a memory operand lies past the end of memory.
    MemoryOutOfBounds,
    /// A call with all sixteen return addresses in use.
    StackOverflow,
    /// A return with no call to return from.
    StackUnderflow,
    /// A key instruction names a key above 0xF.
    KeyOutOfRange(u8),
}

/// Why a program could not be loaded.
#[derive(Clone, Copy, Debug, PartialEq, Eq, Structural)]
pub enum LoadError {
    /// The program, of the given length, does not fit above 0x200.
    RomTooLarge(usize),
}

/// The interpreter core's state store.
pub struct Cpu {
    pub(crate) registers: [u8; 16],
    pub(crate) i: u16,
    pub(crate) sp: usize,
    pub(crate) pc: usize,
    pub(crate) dt: u8,
    pub(crate) st: u8,
    pub(crate) stack: [u16; STACK_SIZE],
    pub(crate) memory: [u8; MEMORY_SIZE],
    pub(crate) display: [PixelState; DISPLAY_SIZE],
    pub(crate) keypad: [KeyState; 16],
    pub(crate) key_events: [bool; 16],
    pub(crate) state: CpuState,
}

impl View for Cpu {
    type V = CpuView;

    closed spec fn view(&self) -> CpuView {
        CpuView {
            registers: self.registers@,
            i: self.i,
            sp: self.sp as nat,
            pc: self.pc as nat,
            dt: self.dt,
            st: self.st,
            stack: self.stack@,
            memory: self.memory@,
            display: self.display@,
            keypad: self.keypad@,
            key_events: self.key_events@,
            state: self.state,
        }
    }
}

impl Default for Cpu {
    fn default() -> (r: Self)
        ensures
            r@ == zero_view(),
            r.wf(),
    {
        let r = Self {
            registers: [0u8; 16],
            i: 0,
            pc: 0,
            sp: 0,
            dt: 0,
            st: 0,
            stack: [0u16; STACK_SIZE],
            memory: [0u8; MEMORY_SIZE],
            display: [PixelState::Off; DISPLAY_SIZE],
            keypad: [KeyState::Up; 16],
            key_events: [false; 16],
            state: CpuState::Halt,
        };
        assert(r@ =~= zero_view());
        r
    }
}

impl Cpu {
    /// The invariant every public call keeps.
    pub open spec fn wf(&self) -> bool {
        view_wf(self@)
    }

    /// Creates a halted machine with everything set to zero.
    pub fn new() -> (r: Self)
        ensures
            r@ == zero_view(),
            r.wf(),
    {
        Self::default()
    }

    /// Stops the machine, whatever it was doing.
    pub fn halt(&mut self)
        requires
            old(self).wf(),
        ensures
            final(self)@ == (CpuView { state: CpuState::Halt, ..old(self)@ }),
            final(self).wf(),
    {
        self.state = CpuState::Halt
    }

    pub fn state(&self) -> (r: &CpuState)
        ensures
            *r == self@.state,
    {
        &self.state
    }

    pub fn registers(&self) -> (r: &[u8; 16])
        ensures
            r@ == self@.registers,
    {
        &self.registers
    }

    pub fn program_counter(&self) -> (r: usize)
        ensures
            r == self@.pc,
    {
        self.pc
    }

    pub fn stack_pointer(&self) -> (r: usize)
        ensures
            r == self@.sp,
    {
        self.sp
    }

    pub fn delay_timer(&self) -> (r: usize)
        ensures
            r == self@.dt,
    {
        self.dt as usize
    }

    pub fn sound_timer(&self) -> (r: usize)
        ensures
            r == self@.st,
    {
        self.st as usize
    }

    pub fn stack(&self) -> (r: &[u16; STACK_SIZE])
        ensures
            r@ == self@.stack,
    {
        &self.stack
    }

    pub fn i(&self) -> (r: u16)
        ensures
            r == self@.i,
    {
        self.i
    }

    /// Return memory
    pub fn memory(&self) -> (r: &[u8; MEMORY_SIZE])
        ensures
            r@ == self@.memory,
    {
        &self.memory
    }

    pub fn display(&self) -> (r: &[PixelState; DISPLAY_SIZE])
        ensures
            r@ == self@.display,
    {
        &self.display
    }

    /// Resets the cpu to the state of `new`.
    pub fn reset(&mut self)
        ensures
            final(self)@ == zero_view(),
            final(self).wf(),
    {
        *self = Self::default();
    }

    /// Resets the machine, installs the digit sprites, copies `rom` to 0x200
    /// and starts running there. A program longer than the memory above 0x200
    /// is refused: like every fault, it halts the machine, which keeps the
    /// rest of its state.
    pub fn load(&mut self, rom: &[u8]) -> (r: Result<(), LoadError>)
        requires
            old(self).wf(),
        ensures
            final(self).wf(),
            rom@.len() > MEMORY_SIZE - PROGRAM_START ==> r == Err::<(), LoadError>(
                LoadError::RomTooLarge(rom@.len() as usize),
            ) && final(self)@ == (CpuView { state: CpuState::Halt, ..old(self)@ }),
            rom@.len() <= MEMORY_SIZE - PROGRAM_START ==> r is Ok && final(self)@ == (CpuView {
                memory: loaded_memory(FONT@, rom@),
                pc: PROGRAM_START as nat,
                state: CpuState::Running,
                ..zero_view()
            }),
    {
        if rom.len() > MEMORY_SIZE - PROGRAM_START {
            self.state = CpuState::Halt;
            return Err(LoadError::RomTooLarge(rom.len()));
        }
        self.reset();
        let mut k: usize = 0;
        while k < FONT_LEN
            invariant
                k <= FONT_LEN,
                FONT@.len() == FONT_LEN,
                rom@.len() <= MEMORY_SIZE - PROGRAM_START,
                self@ == (CpuView { memory: self@.memory, ..zero_view() }),
                self@.memory.len() == MEMORY_SIZE,
                forall|j: int|
                    0 <= j < MEMORY_SIZE ==> #[trigger] self@.memory[j] == if j < k {
                        FONT@[j]
                    } else {
                        0u8
                    },
            decreases FONT_LEN - k,
        {
            self.memory[k] = FONT[k];
            k = k + 1;
        }
        let mut k: usize = 0;
        while k < rom.len()
            invariant
                k <= rom@.len(),
                FONT@.len() == FONT_LEN,
                rom@.len() <= MEMORY_SIZE - PROGRAM_START,
                self@ == (CpuView { memory: self@.memory, ..zero_view() }),
                self@.memory.len() == MEMORY_SIZE,
                forall|j: int|
                    0 <= j < MEMORY_SIZE ==> #[trigger] self@.memory[j] == if j < FONT_LEN {
                        FONT@[j]
                    } else if PROGRAM_START <= j < PROGRAM_START + k {
                        rom@[j - PROGRAM_START]
                    } else {
                        0u8
                    },
            decreases rom@.len() - k,
        {
            self.memory[PROGRAM_START + k] = rom[k];
            k = k + 1;
        }
        assert(self@.memory =~= loaded_memory(FONT@, rom@));
        self.pc = PROGRAM_START;
        self.state = CpuState::Running;
        Ok(())
    }

    /// Records a key going down or up. A key going down also leaves a pending
    /// event, which the next `step` consumes.
    pub fn set_key(&mut self, key: usize, state: KeyState)
        requires
            old(self).wf(),
            key < 16,
        ensures
            final(self).wf(),
            final(self)@ == (CpuView {
                keypad: old(self)@.keypad.update(key as int, state),
                key_events: if state == KeyState::Down {
                    old(self)@.key_events.update(key as int, true)
                } else {
                    old(self)@.key_events
                },
                ..old(self)@
            }),
    {
        self.keypad[key] = state;
        if state == KeyState::Down {
            self.key_events[key] = true;
        }
    }
}

impl Cpu {
    /// XOR-draws the `nibble`-row sprite at memory `I` onto the framebuffer
    /// at `(Vx, Vy)`, wrapping on both axes, and sets VF to whether a lit
    /// pixel was turned off.
    fn drw_x_y_nibble(&mut self, x: usize, y: usize, nibble: u8)
        requires
            old(self).wf(),
            x < 16,
            y < 16,
            nibble < 16,
            old(self)@.i + nibble <= MEMORY_SIZE,
        ensures
            ({
                let s = old(self)@;
                let (vx, vy) = (s.registers[x as int], s.registers[y as int]);
                let hit = collides(s.display, s.memory, s.i as int, nibble as int, vx, vy);
                final(self)@ == (CpuView {
                    display: drawn(s.display, s.memory, s.i as int, nibble as int, vx, vy),
                    registers: s.registers.update(15, if hit { 1u8 } else { 0u8 }),
                    ..s
                })
            }),
    {
        let ghost s0 = self@;
        let vx = self.registers[x];
        let vy = self.registers[y];
        let i = self.i as usize;
        let n = nibble as usize;
        let ghost (d0, mem, gi, gn) = (s0.display, s0.memory, s0.i as int, n as int);
        let mut hit = false;
        let mut row: usize = 0;
        while row < n
            invariant
                row <= n,
                n < 16,
                n == gn,
                i == gi,
                gi + gn <= MEMORY_SIZE,
                view_wf(s0),
                (d0, mem) == (s0.display, s0.memory),
                vx == s0.registers[x as int],
                vy == s0.registers[y as int],
                self@ == (CpuView { display: self@.display, ..s0 }),
                self@.display.len() == DISPLAY_SIZE,
                forall|p: int|
                    0 <= p < DISPLAY_SIZE ==> #[trigger] self@.display[p] == if covered_before(
                        mem,
                        gi,
                        gn,
                        vx,
                        vy,
                        p,
                        row as int,
                        0,
                    ) {
                        d0[p].toggled()
                    } else {
                        d0[p]
                    },
                hit == lit_before(d0, mem, gi, gn, vx, vy, row as int, 0),
            decreases n - row,
        {
            let byte = self.memory[i + row];
            let mut bit: u8 = 0;
            while bit < 8
                invariant
                    row < n,
                    n < 16,
                    n == gn,
                    bit <= 8,
                    i == gi,
                    gi + gn <= MEMORY_SIZE,
                    view_wf(s0),
                    (d0, mem) == (s0.display, s0.memory),
                    byte == mem[gi + row],
                    vx == s0.registers[x as int],
                    vy == s0.registers[y as int],
                    self@ == (CpuView { display: self@.display, ..s0 }),
                    self@.display.len() == DISPLAY_SIZE,
                    forall|p: int|
                        0 <= p < DISPLAY_SIZE ==> #[trigger] self@.display[p]
                            == if covered_before(mem, gi, gn, vx, vy, p, row as int, bit as int) {
                            d0[p].toggled()
                        } else {
                            d0[p]
                        },
                    hit == lit_before(d0, mem, gi, gn, vx, vy, row as int, bit as int),
                decreases 8 - bit,
            {
                proof {
                    lemma_pixel_index(vx, vy, row as int, bit as int);
                    lemma_draw_cell(d0, mem, gi, gn, vx, vy, row as int, bit as int);
                }
                if byte & (0x80u8 >> bit) != 0 {
                    let idx = 64 * ((vy as usize + row) % 32) + (vx as usize + bit as usize) % 64;
                    let mut px = self.display[idx];
                    if px == PixelState::On {
                        hit = true;
                    }
                    px.toggle();
                    self.display[idx] = px;
                }
                bit = bit + 1;
            }
            proof {
                lemma_draw_row_end(d0, mem, gi, gn, vx, vy, row as int);
            }
            row = row + 1;
        }
        self.registers[15] = if hit { 1 } else { 0 };
        proof {
            lemma_draw_done(d0, mem, gi, gn, vx, vy);
            assert(self@.display =~= drawn(d0, mem, gi, gn, vx, vy));
        }
    }
}

impl Cpu {
    /// Copies V0..=Vx to memory from `I` on; `I` itself is left as it is.
    fn store_registers(&mut self, x: usize)
        requires
            old(self).wf(),
            x < 16,
            old(self)@.i + x + 1 <= MEMORY_SIZE,
        ensures
            ({
                let s = old(self)@;
                final(self)@ == (CpuView {
                    memory: Seq::new(
                        4096,
                        |k: int|
                            if s.i <= k <= s.i + x {
                                s.registers[k - s.i]
                            } else {
                                s.memory[k]
                            },
                    ),
                    ..s
                })
            }),
    {
        let ghost s0 = self@;
        let base = self.i as usize;
        let mut k: usize = 0;
        while k <= x
            invariant
                k <= x + 1,
                x < 16,
                base == s0.i,
                base + x + 1 <= MEMORY_SIZE,
                view_wf(s0),
                self@ == (CpuView { memory: self@.memory, ..s0 }),
                self@.memory.len() == MEMORY_SIZE,
                forall|j: int|
                    0 <= j < MEMORY_SIZE ==> #[trigger] self@.memory[j] == if base <= j < base + k {
                        s0.registers[j - base]
                    } else {
                        s0.memory[j]
                    },
            decreases x + 1 - k,
        {
            self.memory[base + k] = self.registers[k];
            k = k + 1;
        }
        assert(self@.memory =~= Seq::new(
            4096,
            |j: int|
                if s0.i <= j <= s0.i + x {
                    s0.registers[j - s0.i]
                } else {
                    s0.memory[j]
                },
        ));
    }

    /// Copies memory from `I` on into V0..=Vx; `I` itself is left as it is.
    fn load_registers(&mut self, x: usize)
        requires
            old(self).wf(),
            x < 16,
            old(self)@.i + x + 1 <= MEMORY_SIZE,
        ensures
            ({
                let s = old(self)@;
                final(self)@ == (CpuView {
                    registers: Seq::new(
                        16,
                        |k: int|
                            if k <= x {
                                s.memory[s.i + k]
                            } else {
                                s.registers[k]
                            },
                    ),
                    ..s
                })
            }),
    {
        let ghost s0 = self@;
        let base = self.i as usize;
        let mut k: usize = 0;
        while k <= x
            invariant
                k <= x + 1,
                x < 16,
                base == s0.i,
                base + x + 1 <= MEMORY_SIZE,
                view_wf(s0),
                self@ == (CpuView { registers: self@.registers, ..s0 }),
                self@.registers.len() == 16,
                forall|j: int|
                    0 <= j < 16 ==> #[trigger] self@.registers[j] == if j < k {
                        s0.memory[base + j]
                    } else {
                        s0.registers[j]
                    },
            decreases x + 1 - k,
        {
            self.registers[k] = self.memory[base + k];
            k = k + 1;
        }
        assert(self@.registers =~= Seq::new(
            16,
            |j: int|
                if j <= x {
                    s0.memory[s0.i + j]
                } else {
                    s0.registers[j]
                },
        ));
    }

    /// Sets every pixel off.
    fn clear_display(&mut self)
        ensures
            final(self)@ == (CpuView { display: blank_display(), ..old(self)@ }),
    {
        self.display = [PixelState::Off; DISPLAY_SIZE];
        assert(self@.display =~= blank_display());
    }

    /// Instructions that decide where execution goes next: jumps, calls,
    /// returns, skips, and the two that only move on (`SYS`, `CLS`).
    fn execute_flow(&mut self, op: Opcode, random: u8) -> (r: Result<(), Fault>)
        requires
            old(self).wf(),
            operands_in_range(op),
            old(self)@.pc < MEMORY_SIZE,
            changes_flow(op),
        ensures
            final(self).wf(),
            match spec_execute(old(self)@, op, random) {
                Ok(t) => r == Ok::<(), Fault>(()) && final(self)@ == t,
                Err(e) => r == Err::<(), Fault>(e) && final(self)@ == old(self)@,
            },
    {
        reveal(spec_execute);
        let ghost s0 = self@;
        match op {
            Opcode::SYS_addr(_addr) => {
                self.pc = self.pc + 2;
            },
            Opcode::CLS => {
                self.clear_display();
                self.pc = self.pc + 2;
            },
            Opcode::RET => {
                if self.sp == 0 {
                    return Err(Fault::StackUnderflow);
                }
                self.sp = self.sp - 1;
                self.pc = self.stack[self.sp] as usize + 2;
            },
            Opcode::JP_addr(addr) => {
                self.pc = addr;
            },
            Opcode::CALL_addr(addr) => {
                if self.sp >= STACK_SIZE {
                    return Err(Fault::StackOverflow);
                }
                self.stack[self.sp] = self.pc as u16;
                self.sp = self.sp + 1;
                self.pc = addr;
            },
            Opcode::SE_Vx_byte(x, b) => {
                self.pc = if self.registers[x] == b { self.pc + 4 } else { self.pc + 2 };
            },
            Opcode::SNE_Vx_byte(x, b) => {
                self.pc = if self.registers[x] != b { self.pc + 4 } else { self.pc + 2 };
            },
            Opcode::SE_Vx_Vy(x, y) => {
                self.pc = if self.registers[x] == self.registers[y] { self.pc + 4 } else { self.pc + 2 };
            },
            Opcode::SNE_Vx_Vy(x, y) => {
                self.pc = if self.registers[x] != self.registers[y] { self.pc + 4 } else { self.pc + 2 };
            },
            Opcode::JP_V0_addr(addr) => {
                self.pc = addr + self.registers[0x0] as usize;
            },
            Opcode::SKP_Vx(x) => {
                let key = self.registers[x];
                if key >= 16 {
                    return Err(Fault::KeyOutOfRange(key));
                }
                self.pc = if self.keypad[key as usize] == KeyState::Down { self.pc + 4 } else { self.pc + 2 };
            },
            Opcode::SKNP_Vx(x) => {
                let key = self.registers[x];
                if key >= 16 {
                    return Err(Fault::KeyOutOfRange(key));
                }
                self.pc = if self.keypad[key as usize] == KeyState::Up { self.pc + 4 } else { self.pc + 2 };
            },
            _ => {},
        }
        assert(self@ =~= spec_execute(s0, op, random).unwrap());
        Ok(())
    }

    /// Instructions that compute into the register file.
    fn execute_alu(&mut self, op: Opcode, random: u8) -> (r: Result<(), Fault>)
        requires
            old(self).wf(),
            operands_in_range(op),
            old(self)@.pc < MEMORY_SIZE,
            computes_register(op),
        ensures
            final(self).wf(),
            match spec_execute(old(self)@, op, random) {
                Ok(t) => r == Ok::<(), Fault>(()) && final(self)@ == t,
                Err(e) => r == Err::<(), Fault>(e) && final(self)@ == old(self)@,
            },
    {
        reveal(spec_execute);
        let ghost s0 = self@;
        match op {
            Opcode::LD_Vx_byte(x, b) => {
                self.registers[x] = b;
                self.pc = self.pc + 2;
            },
            Opcode::ADD_Vx_byte(x, b) => {
                let sum = self.registers[x] as u16 + b as u16;
                self.registers[x] = (sum % 256) as u8;
                self.pc = self.pc + 2;
            },
            Opcode::LD_Vx_Vy(x, y) => {
                self.registers[x] = self.registers[y];
                self.pc = self.pc + 2;
            },
            Opcode::OR_Vx_Vy(x, y) => {
                self.registers[x] = self.registers[x] | self.registers[y];
                self.pc = self.pc + 2;
            },
            Opcode::AND_Vx_Vy(x, y) => {
                self.registers[x] = self.registers[x] & self.registers[y];
                self.pc = self.pc + 2;
            },
            Opcode::XOR_Vx_Vy(x, y) => {
                self.registers[x] = self.registers[x] ^ self.registers[y];
                self.pc = self.pc + 2;
            },
            Opcode::ADD_Vx_Vy(x, y) => {
                let sum = self.registers[x] as u16 + self.registers[y] as u16;
                self.registers[0xF] = if sum > 0xFF { 1 } else { 0 };
                self.registers[x] = (sum % 256) as u8;
                self.pc = self.pc + 2;
            },
            Opcode::SUB_Vx_Vy(x, y) => {
                let (vx, vy) = (self.registers[x], self.registers[y]);
                if vx > vy {
                    self.registers[0xF] = 1;
                    self.registers[x] = vx - vy;
                } else {
                    self.registers[0xF] = 0;
                }
                self.pc = self.pc + 2;
            },
            Opcode::SHR_Vx_Vy(x, _y) => {
                let vx = self.registers[x];
                self.registers[0xF] = vx % 2;
                self.registers[x] = vx / 2;
                self.pc = self.pc + 2;
            },
            Opcode::SUBN_Vx_Vy(x, y) => {
                let (vx, vy) = (self.registers[x], self.registers[y]);
                if vy > vx {
                    self.registers[0xF] = 1;
                    self.registers[y] = vy - vx;
                } else {
                    self.registers[0xF] = 0;
                }
                self.pc = self.pc + 2;
            },
            Opcode::SHL_Vx_Vy(x, _y) => {
                let vx = self.registers[x];
                self.registers[0xF] = vx / 128;
                self.registers[x] = ((vx as u16 * 2) % 256) as u8;
                self.pc = self.pc + 2;
            },
            Opcode::RND_Vx_byte(x, b) => {
                self.registers[x] = random & b;
                self.pc = self.pc + 2;
            },
            _ => {},
        }
        assert(self@ =~= spec_execute(s0, op, random).unwrap());
        Ok(())
    }

    /// Instructions on the index register, memory, the screen, the timers and
    /// the key wait.
    fn execute_memory(&mut self, op: Opcode, random: u8) -> (r: Result<(), Fault>)
        requires
            old(self).wf(),
            operands_in_range(op),
            old(self)@.pc < MEMORY_SIZE,
            uses_memory(op),
        ensures
            final(self).wf(),
            match spec_execute(old(self)@, op, random) {
                Ok(t) => r == Ok::<(), Fault>(()) && final(self)@ == t,
                Err(e) => r == Err::<(), Fault>(e) && final(self)@ == old(self)@,
            },
    {
        reveal(spec_execute);
        let ghost s0 = self@;
        match op {
            Opcode::LD_I_addr(addr) => {
                self.i = addr as u16;
                self.pc = self.pc + 2;
            },
            Opcode::DRW_Vx_Vy_nibble(x, y, nibble) => {
                if self.i as usize + nibble as usize > MEMORY_SIZE {
                    return Err(Fault::MemoryOutOfBounds);
                }
                self.drw_x_y_nibble(x, y, nibble);
                self.pc = self.pc + 2;
            },
            Opcode::LD_Vx_DT(x) => {
                self.registers[x] = self.dt;
                self.pc = self.pc + 2;
            },
            Opcode::LD_Vx_K(x) => {
                self.state = CpuState::WaitInput(x);
                self.pc = self.pc + 2;
            },
            Opcode::LD_DT_Vx(x) => {
                self.dt = self.registers[x];
                self.pc = self.pc + 2;
            },
            Opcode::LD_ST_Vx(x) => {
                self.st = self.registers[x];
                self.pc = self.pc + 2;
            },
            Opcode::ADD_I_Vx(x) => {
                self.i = ((self.i as u32 + self.registers[x] as u32) % 65536) as u16;
                self.pc = self.pc + 2;
            },
            Opcode::LD_F_Vx(x) => {
                self.i = sprite_addr(self.registers[x]);
                self.pc = self.pc + 2;
            },
            Opcode::LD_B_Vx(x) => {
                let base = self.i as usize;
                if base + 3 > MEMORY_SIZE {
                    return Err(Fault::MemoryOutOfBounds);
                }
                let v = self.registers[x];
                self.memory[base] = v / 100;
                self.memory[base + 1] = (v / 10) % 10;
                self.memory[base + 2] = v % 10;
                self.pc = self.pc + 2;
            },
            Opcode::LD_I_Vx(x) => {
                if self.i as usize + x + 1 > MEMORY_SIZE {
                    return Err(Fault::MemoryOutOfBounds);
                }
                self.store_registers(x);
                self.pc = self.pc + 2;
            },
            Opcode::LD_Vx_I(x) => {
                if self.i as usize + x + 1 > MEMORY_SIZE {
                    return Err(Fault::MemoryOutOfBounds);
                }
                self.load_registers(x);
                self.pc = self.pc + 2;
            },
            _ => {},
        }
        assert(self@ =~= spec_execute(s0, op, random).unwrap());
        Ok(())
    }

    /// Applies one decoded instruction, program-counter advance included.
    /// On a fault nothing changes and the fault is returned.
    pub fn execute(&mut self, op: Opcode, random: u8) -> (r: Result<(), Fault>)
        requires
            old(self).wf(),
            operands_in_range(op),
            old(self)@.pc < MEMORY_SIZE,
        ensures
            final(self).wf(),
            match spec_execute(old(self)@, op, random) {
                Ok(t) => r == Ok::<(), Fault>(()) && final(self)@ == t,
                Err(e) => r == Err::<(), Fault>(e) && final(self)@ == old(self)@,
            },
    {
        match op {
            Opcode::SYS_addr(..)
            | Opcode::CLS
            | Opcode::RET
            | Opcode::JP_addr(..)
            | Opcode::CALL_addr(..)
            | Opcode::SE_Vx_byte(..)
            | Opcode::SNE_Vx_byte(..)
            | Opcode::SE_Vx_Vy(..)
            | Opcode::SNE_Vx_Vy(..)
            | Opcode::JP_V0_addr(..)
            | Opcode::SKP_Vx(..)
            | Opcode::SKNP_Vx(..) => self.execute_flow(op, random),
            Opcode::LD_Vx_byte(..)
            | Opcode::ADD_Vx_byte(..)
            | Opcode::LD_Vx_Vy(..)
            | Opcode::OR_Vx_Vy(..)
            | Opcode::AND_Vx_Vy(..)
            | Opcode::XOR_Vx_Vy(..)
            | Opcode::ADD_Vx_Vy(..)
            | Opcode::SUB_Vx_Vy(..)
            | Opcode::SHR_Vx_Vy(..)
            | Opcode::SUBN_Vx_Vy(..)
            | Opcode::SHL_Vx_Vy(..)
            | Opcode::RND_Vx_byte(..) => self.execute_alu(op, random),
            _ => self.execute_memory(op, random),
        }
    }
}

/// Jumps, calls, returns, skips, `SYS` and `CLS`.
spec fn changes_flow(op: Opcode) -> bool {
    match op {
        Opcode::SYS_addr(..)
        | Opcode::CLS
        | Opcode::RET
        | Opcode::JP_addr(..)
        | Opcode::CALL_addr(..)
        | Opcode::SE_Vx_byte(..)
        | Opcode::SNE_Vx_byte(..)
        | Opcode::SE_Vx_Vy(..)
        | Opcode::SNE_Vx_Vy(..)
        | Opcode::JP_V0_addr(..)
        | Opcode::SKP_Vx(..)
        | Opcode::SKNP_Vx(..) => true,
        _ => false,
    }
}

/// Instructions that compute into the register file.
spec fn computes_register(op: Opcode) -> bool {
    match op {
        Opcode::LD_Vx_byte(..)
        | Opcode::ADD_Vx_byte(..)
        | Opcode::LD_Vx_Vy(..)
        | Opcode::OR_Vx_Vy(..)
        | Opcode::AND_Vx_Vy(..)
        | Opcode::XOR_Vx_Vy(..)
        | Opcode::ADD_Vx_Vy(..)
        | Opcode::SUB_Vx_Vy(..)
        | Opcode::SHR_Vx_Vy(..)
        | Opcode::SUBN_Vx_Vy(..)
        | Opcode::SHL_Vx_Vy(..)
        | Opcode::RND_Vx_byte(..) => true,
        _ => false,
    }
}

/// Instructions on the index register, memory, screen, timers and key wait.
spec fn uses_memory(op: Opcode) -> bool {
    match op {
        Opcode::LD_I_addr(..)
        | Opcode::DRW_Vx_Vy_nibble(..)
        | Opcode::LD_Vx_DT(..)
        | Opcode::LD_Vx_K(..)
        | Opcode::LD_DT_Vx(..)
        | Opcode::LD_ST_Vx(..)
        | Opcode::ADD_I_Vx(..)
        | Opcode::LD_F_Vx(..)
        | Opcode::LD_B_Vx(..)
        | Opcode::LD_I_Vx(..)
        | Opcode::LD_Vx_I(..) => true,
        _ => false,
    }
}

/// Relies on `rand::random::<u8>`: one byte from the thread-local generator.
/// Nothing is promised of its value.
#[verifier::external_body]
fn random_byte() -> (r: u8) {
    rand::random::<u8>()
}

impl Cpu {
    /// Counts both timers down by one, stopping at zero.
    pub fn update_timers(&mut self)
        requires
            old(self).wf(),
        ensures
            final(self).wf(),
            final(self)@ == tick(old(self)@),
    {
        if self.dt > 0 {
            self.dt = self.dt - 1;
        }
        if self.st > 0 {
            self.st = self.st - 1;
        }
    }

    /// The lowest key with a pending down-event.
    fn any_key_down(&self) -> (r: Option<usize>)
        requires
            self.wf(),
        ensures
            match pending_key(self@.key_events) {
                Some(k) => r == Some(k as usize) && 0 <= k < 16,
                None => r is None,
            },
    {
        let mut k: usize = 0;
        while k < 16
            invariant
                k <= 16,
                self.wf(),
                pending_key(self@.key_events) == first_event_from(self@.key_events, k as int),
            decreases 16 - k,
        {
            if self.key_events[k] {
                return Some(k);
            }
            k = k + 1;
        }
        None
    }

    /// The big-endian word at the program counter.
    fn fetch(&self) -> (r: u16)
        requires
            self.wf(),
            self@.pc + 1 < MEMORY_SIZE,
        ensures
            r == fetched(self@),
    {
        self.memory[self.pc] as u16 * 256 + self.memory[self.pc + 1] as u16
    }

    /// Decodes the instruction at the program counter without executing it.
    pub fn peek(&self) -> (r: Result<Opcode, Fault>)
        requires
            self.wf(),
        ensures
            self@.pc + 1 >= MEMORY_SIZE ==> r == Err::<Opcode, Fault>(Fault::MemoryOutOfBounds),
            self@.pc + 1 < MEMORY_SIZE ==> r == match spec_decode(fetched(self@)) {
                Some(o) => Ok::<Opcode, Fault>(o),
                None => Err(Fault::UnknownOpcode(fetched(self@))),
            },
    {
        if self.pc >= MEMORY_SIZE - 1 {
            return Err(Fault::MemoryOutOfBounds);
        }
        let op = self.fetch();
        match Opcode::decode(op) {
            Some(o) => Ok(o),
            None => Err(Fault::UnknownOpcode(op)),
        }
    }

    /// One cycle, with `random` as the byte that a random-number instruction
    /// draws. A fault halts the machine and is returned.
    pub fn step_with(&mut self, random: u8) -> (r: Result<(), Fault>)
        requires
            old(self).wf(),
        ensures
            final(self).wf(),
            (final(self)@, r) == spec_step(old(self)@, random),
    {
        let ghost s0 = self@;
        match self.state {
            CpuState::WaitInput(x) => {
                match self.any_key_down() {
                    Some(key) => {
                        self.registers[x] = key as u8;
                        self.state = CpuState::Running;
                        self.key_events = [false; 16];
                        assert(self@ =~= spec_step(s0, random).0);
                        return Ok(());
                    },
                    None => {
                        self.key_events = [false; 16];
                        assert(self@ =~= spec_step(s0, random).0);
                        return Ok(());
                    },
                }
            },
            CpuState::Halt => {
                self.key_events = [false; 16];
                assert(self@ =~= spec_step(s0, random).0);
                return Ok(());
            },
            CpuState::Running => {
                if self.pc >= MEMORY_SIZE - 1 {
                    self.state = CpuState::Halt;
                    return Err(Fault::MemoryOutOfBounds);
                }
                let op = self.fetch();
                match Opcode::decode(op) {
                    None => {
                        self.state = CpuState::Halt;
                        return Err(Fault::UnknownOpcode(op));
                    },
                    Some(o) => {
                        match self.execute(o, random) {
                            Err(e) => {
                                self.state = CpuState::Halt;
                                return Err(e);
                            },
                            Ok(()) => {
                                self.update_timers();
                            },
                        }
                    },
                }
            },
        }
        self.key_events = [false; 16];
        assert(self@ =~= spec_step(s0, random).0);
        Ok(())
    }

    /// One cycle: a halted machine does nothing; a machine waiting for a key
    /// takes the lowest pending key into its register and resumes, executing
    /// nothing; a running one executes the instruction at the program
    /// counter and ticks the timers. Pending key events are dropped. A fault
    /// halts the machine and is returned.
    pub fn step(&mut self) -> (r: Result<(), Fault>)
        requires
            old(self).wf(),
        ensures
            final(self).wf(),
            exists|random: u8| (final(self)@, r) == spec_step(old(self)@, random),
    {
        let random = random_byte();
        self.step_with(random)
    }
}

} // verus!
