//! The mathematical model of the machine and the meaning of each instruction
//! and of one step, over that model.
use crate::cpu::{CpuState, Fault, KeyState, PixelState};
use crate::font::spec_sprite_addr;
use crate::opcode::{spec_decode, Opcode};
use vstd::arithmetic::div_mod::{
    lemma_fundamental_div_mod, lemma_fundamental_div_mod_converse,
    lemma_fundamental_div_mod_converse_mod, lemma_mod_bound,
};
use vstd::prelude::*;

verus! {

/// The whole machine state, as plain values.
#[verifier::ext_equal]
pub struct CpuView {
    pub registers: Seq<u8>,
    pub i: u16,
    pub sp: nat,
    pub pc: nat,
    pub dt: u8,
    pub st: u8,
    pub stack: Seq<u16>,
    pub memory: Seq<u8>,
    pub display: Seq<PixelState>,
    pub keypad: Seq<KeyState>,
    pub key_events: Seq<bool>,
    pub state: CpuState,
}

/// Sizes of the fixed parts, a stack pointer within the stack, and a key-wait
/// that names a register.
pub open spec fn view_wf(s: CpuView) -> bool {
    &&& s.registers.len() == 16
    &&& s.stack.len() == 16
    &&& s.sp <= 16
    &&& s.memory.len() == 4096
    &&& s.display.len() == 2048
    &&& s.keypad.len() == 16
    &&& s.key_events.len() == 16
    &&& s.state matches CpuState::WaitInput(r) ==> r < 16
}

/// A framebuffer with every pixel off.
pub open spec fn blank_display() -> Seq<PixelState> {
    Seq::new(2048, |p: int| PixelState::Off)
}

/// The state right after creation or `reset`: all zero, halted.
pub open spec fn zero_view() -> CpuView {
    CpuView {
        registers: Seq::new(16, |k: int| 0u8),
        i: 0,
        sp: 0,
        pc: 0,
        dt: 0,
        st: 0,
        stack: Seq::new(16, |k: int| 0u16),
        memory: Seq::new(4096, |k: int| 0u8),
        display: blank_display(),
        keypad: Seq::new(16, |k: int| KeyState::Up),
        key_events: Seq::new(16, |k: int| false),
        state: CpuState::Halt,
    }
}

/// Memory after `load`: the digit table at the bottom, the program at 0x200,
/// zero elsewhere.
pub open spec fn loaded_memory(font: Seq<u8>, rom: Seq<u8>) -> Seq<u8> {
    Seq::new(
        4096,
        |k: int|
            if k < font.len() {
                font[k]
            } else if 0x200 <= k < 0x200 + rom.len() {
                rom[k - 0x200]
            } else {
                0u8
            },
    )
}

/// Moves on to the following instruction.
pub open spec fn next(s: CpuView) -> CpuView {
    CpuView { pc: s.pc + 2nat, ..s }
}

/// Moves on by one instruction, or by two when `cond` holds.
pub open spec fn skip_if(s: CpuView, cond: bool) -> CpuView {
    CpuView { pc: s.pc + if cond { 4nat } else { 2nat }, ..s }
}

/// Replaces the register file, then moves on.
pub open spec fn with_regs(s: CpuView, regs: Seq<u8>) -> CpuView {
    next(CpuView { registers: regs, ..s })
}

/// The row of a sprite that screen pixel `p` falls in, for a sprite whose
/// top edge is at `vy`, wrapping around the 32 rows.
pub open spec fn sprite_row_of(p: int, vy: u8) -> int {
    (p / 64 + 32 - vy as int % 32) % 32
}

/// The column of a sprite that screen pixel `p` falls in, for a sprite whose
/// left edge is at `vx`, wrapping around the 64 columns.
pub open spec fn sprite_col_of(p: int, vx: u8) -> int {
    (p % 64 + 64 - vx as int % 64) % 64
}

/// Whether column `bit` (0 is the leftmost) of a sprite row is set.
pub open spec fn sprite_bit(byte: u8, bit: u8) -> bool {
    byte & (0x80u8 >> bit) != 0
}

/// Whether the `n`-row sprite read from `mem` at `i` and placed at
/// `(vx, vy)` has a set bit over screen pixel `p`.
pub open spec fn covers(mem: Seq<u8>, i: int, n: int, vx: u8, vy: u8, p: int) -> bool {
    let row = sprite_row_of(p, vy);
    let col = sprite_col_of(p, vx);
    row < n && col < 8 && sprite_bit(mem[i + row], col as u8)
}

/// The framebuffer after XOR-drawing that sprite.
pub open spec fn drawn(
    display: Seq<PixelState>,
    mem: Seq<u8>,
    i: int,
    n: int,
    vx: u8,
    vy: u8,
) -> Seq<PixelState> {
    Seq::new(
        2048,
        |p: int|
            if covers(mem, i, n, vx, vy, p) {
                display[p].toggled()
            } else {
                display[p]
            },
    )
}

/// Whether drawing that sprite turns off a pixel that was lit.
pub open spec fn collides(
    display: Seq<PixelState>,
    mem: Seq<u8>,
    i: int,
    n: int,
    vx: u8,
    vy: u8,
) -> bool {
    exists|p: int|
        0 <= p < 2048 && #[trigger] covers(mem, i, n, vx, vy, p) && display[p]
            == PixelState::On
}

/// The effect of one decoded instruction, program-counter advance included.
/// Operands are read before anything is written; where an instruction sets
/// the flag register VF and a result register, VF is written first, so a
/// result in VF replaces the flag. A fault leaves the state to the caller.
#[verifier::opaque]
pub open spec fn spec_execute(s: CpuView, op: Opcode, random: u8) -> Result<CpuView, Fault> {
    let r = s.registers;
    match op {
        Opcode::SYS_addr(_) => Ok(next(s)),
        Opcode::CLS => Ok(next(CpuView { display: blank_display(), ..s })),
        Opcode::RET => if s.sp == 0 {
            Err(Fault::StackUnderflow)
        } else {
            Ok(CpuView { sp: (s.sp - 1) as nat, pc: (s.stack[s.sp - 1] + 2) as nat, ..s })
        },
        Opcode::JP_addr(a) => Ok(CpuView { pc: a as nat, ..s }),
        Opcode::CALL_addr(a) => if s.sp >= 16 {
            Err(Fault::StackOverflow)
        } else {
            Ok(
                CpuView {
                    stack: s.stack.update(s.sp as int, s.pc as u16),
                    sp: s.sp + 1,
                    pc: a as nat,
                    ..s
                },
            )
        },
        Opcode::SE_Vx_byte(x, b) => Ok(skip_if(s, r[x as int] == b)),
        Opcode::SNE_Vx_byte(x, b) => Ok(skip_if(s, r[x as int] != b)),
        Opcode::SE_Vx_Vy(x, y) => Ok(skip_if(s, r[x as int] == r[y as int])),
        Opcode::SNE_Vx_Vy(x, y) => Ok(skip_if(s, r[x as int] != r[y as int])),
        Opcode::LD_Vx_byte(x, b) => Ok(with_regs(s, r.update(x as int, b))),
        Opcode::ADD_Vx_byte(x, b) => Ok(
            with_regs(s, r.update(x as int, ((r[x as int] + b) % 256) as u8)),
        ),
        Opcode::LD_Vx_Vy(x, y) => Ok(with_regs(s, r.update(x as int, r[y as int]))),
        Opcode::OR_Vx_Vy(x, y) => Ok(with_regs(s, r.update(x as int, r[x as int] | r[y as int]))),
        Opcode::AND_Vx_Vy(x, y) => Ok(
            with_regs(s, r.update(x as int, r[x as int] & r[y as int])),
        ),
        Opcode::XOR_Vx_Vy(x, y) => Ok(
            with_regs(s, r.update(x as int, r[x as int] ^ r[y as int])),
        ),
        Opcode::ADD_Vx_Vy(x, y) => {
            let sum = r[x as int] + r[y as int];
            Ok(
                with_regs(
                    s,
                    r.update(15, if sum > 255 { 1u8 } else { 0u8 }).update(
                        x as int,
                        (sum % 256) as u8,
                    ),
                ),
            )
        },
        Opcode::SUB_Vx_Vy(x, y) => if r[x as int] > r[y as int] {
            Ok(with_regs(s, r.update(15, 1u8).update(x as int, (r[x as int] - r[y as int]) as u8)))
        } else {
            Ok(with_regs(s, r.update(15, 0u8)))
        },
        Opcode::SUBN_Vx_Vy(x, y) => if r[y as int] > r[x as int] {
            Ok(with_regs(s, r.update(15, 1u8).update(y as int, (r[y as int] - r[x as int]) as u8)))
        } else {
            Ok(with_regs(s, r.update(15, 0u8)))
        },
        Opcode::SHR_Vx_Vy(x, _) => Ok(
            with_regs(s, r.update(15, (r[x as int] % 2) as u8).update(x as int, (r[x as int] / 2) as u8)),
        ),
        Opcode::SHL_Vx_Vy(x, _) => Ok(
            with_regs(
                s,
                r.update(15, (r[x as int] / 128) as u8).update(x as int, ((r[x as int] * 2) % 256) as u8),
            ),
        ),
        Opcode::LD_I_addr(a) => Ok(next(CpuView { i: a as u16, ..s })),
        Opcode::JP_V0_addr(a) => Ok(CpuView { pc: (a + r[0]) as nat, ..s }),
        Opcode::RND_Vx_byte(x, b) => Ok(with_regs(s, r.update(x as int, random & b))),
        Opcode::DRW_Vx_Vy_nibble(x, y, n) => if s.i + n > 4096 {
            Err(Fault::MemoryOutOfBounds)
        } else {
            let (vx, vy) = (r[x as int], r[y as int]);
            let hit = collides(s.display, s.memory, s.i as int, n as int, vx, vy);
            Ok(
                next(
                    CpuView {
                        display: drawn(s.display, s.memory, s.i as int, n as int, vx, vy),
                        registers: r.update(15, if hit { 1u8 } else { 0u8 }),
                        ..s
                    },
                ),
            )
        },
        Opcode::SKP_Vx(x) => if r[x as int] >= 16 {
            Err(Fault::KeyOutOfRange(r[x as int]))
        } else {
            Ok(skip_if(s, s.keypad[r[x as int] as int] == KeyState::Down))
        },
        Opcode::SKNP_Vx(x) => if r[x as int] >= 16 {
            Err(Fault::KeyOutOfRange(r[x as int]))
        } else {
            Ok(skip_if(s, s.keypad[r[x as int] as int] == KeyState::Up))
        },
        Opcode::LD_Vx_DT(x) => Ok(with_regs(s, r.update(x as int, s.dt))),
        Opcode::LD_Vx_K(x) => Ok(next(CpuView { state: CpuState::WaitInput(x), ..s })),
        Opcode::LD_DT_Vx(x) => Ok(next(CpuView { dt: r[x as int], ..s })),
        Opcode::LD_ST_Vx(x) => Ok(next(CpuView { st: r[x as int], ..s })),
        Opcode::ADD_I_Vx(x) => Ok(next(CpuView { i: ((s.i + r[x as int]) % 65536) as u16, ..s })),
        Opcode::LD_F_Vx(x) => Ok(next(CpuView { i: spec_sprite_addr(r[x as int]), ..s })),
        Opcode::LD_B_Vx(x) => if s.i + 3 > 4096 {
            Err(Fault::MemoryOutOfBounds)
        } else {
            let v = r[x as int];
            Ok(
                next(
                    CpuView {
                        memory: s.memory.update(s.i as int, (v / 100) as u8).update(
                            s.i + 1,
                            ((v / 10) % 10) as u8,
                        ).update(s.i + 2, (v % 10) as u8),
                        ..s
                    },
                ),
            )
        },
        Opcode::LD_I_Vx(x) => if s.i + x + 1 > 4096 {
            Err(Fault::MemoryOutOfBounds)
        } else {
            Ok(
                next(
                    CpuView {
                        memory: Seq::new(
                            4096,
                            |k: int|
                                if s.i <= k <= s.i + x {
                                    r[k - s.i]
                                } else {
                                    s.memory[k]
                                },
                        ),
                        ..s
                    },
                ),
            )
        },
        Opcode::LD_Vx_I(x) => if s.i + x + 1 > 4096 {
            Err(Fault::MemoryOutOfBounds)
        } else {
            Ok(
                with_regs(
                    s,
                    Seq::new(16, |k: int| if k <= x { s.memory[s.i + k] } else { r[k] }),
                ),
            )
        },
    }
}

/// The lowest key index from `k` on whose down-event is pending.
pub open spec fn first_event_from(events: Seq<bool>, k: int) -> Option<int>
    decreases 16 - k,
{
    if k >= 16 || k < 0 {
        None
    } else if events[k] {
        Some(k)
    } else {
        first_event_from(events, k + 1)
    }
}

/// The lowest key index whose down-event is pending.
pub open spec fn pending_key(events: Seq<bool>) -> Option<int> {
    first_event_from(events, 0)
}

/// Drops every pending key-down event.
pub open spec fn clear_events(s: CpuView) -> CpuView {
    CpuView { key_events: Seq::new(16, |k: int| false), ..s }
}

/// Counts both timers down by one, stopping at zero.
pub open spec fn tick(s: CpuView) -> CpuView {
    CpuView {
        dt: if s.dt > 0 { (s.dt - 1) as u8 } else { 0u8 },
        st: if s.st > 0 { (s.st - 1) as u8 } else { 0u8 },
        ..s
    }
}

/// Stops the machine and changes nothing else.
pub open spec fn halted(s: CpuView) -> CpuView {
    CpuView { state: CpuState::Halt, ..s }
}

/// The big-endian word at the program counter.
pub open spec fn fetched(s: CpuView) -> u16 {
    (s.memory[s.pc as int] * 256 + s.memory[s.pc + 1int]) as u16
}

/// One cycle: the state after it and what it reports. A halted machine only
/// drops its key events; a waiting one takes a pending key if there is one
/// and executes nothing; a running one fetches, decodes and executes, then
/// ticks the timers and drops the key events. A fault halts the machine and
/// changes nothing else.
pub open spec fn spec_step(s: CpuView, random: u8) -> (CpuView, Result<(), Fault>) {
    match s.state {
        CpuState::Halt => (clear_events(s), Ok(())),
        CpuState::WaitInput(reg) => match pending_key(s.key_events) {
            Some(k) => (
                clear_events(
                    CpuView {
                        registers: s.registers.update(reg as int, k as u8),
                        state: CpuState::Running,
                        ..s
                    },
                ),
                Ok(()),
            ),
            None => (clear_events(s), Ok(())),
        },
        CpuState::Running => if s.pc + 1 >= 4096 {
            (halted(s), Err(Fault::MemoryOutOfBounds))
        } else {
            let op = fetched(s);
            match spec_decode(op) {
                None => (halted(s), Err(Fault::UnknownOpcode(op))),
                Some(o) => match spec_execute(s, o, random) {
                    Ok(t) => (clear_events(tick(t)), Ok(())),
                    Err(e) => (halted(s), Err(e)),
                },
            }
        },
    }
}

} // verus!

verus! {

/// Whether the sprite covers pixel `p` in one of its first `row` rows, or in
/// row `row` left of column `bit`: the part that a row-by-row, left-to-right
/// draw has reached.
pub open spec fn covered_before(
    mem: Seq<u8>,
    i: int,
    n: int,
    vx: u8,
    vy: u8,
    p: int,
    row: int,
    bit: int,
) -> bool {
    &&& covers(mem, i, n, vx, vy, p)
    &&& (sprite_row_of(p, vy) < row || (sprite_row_of(p, vy) == row && sprite_col_of(p, vx) < bit))
}

/// Whether a pixel that the draw has reached so far was lit beforehand.
pub open spec fn lit_before(
    display: Seq<PixelState>,
    mem: Seq<u8>,
    i: int,
    n: int,
    vx: u8,
    vy: u8,
    row: int,
    bit: int,
) -> bool {
    exists|p: int|
        0 <= p < 2048 && #[trigger] covered_before(mem, i, n, vx, vy, p, row, bit) && display[p]
            == PixelState::On
}

/// Drawing one more sprite cell reaches exactly its pixel, when its bit is
/// set, and no other.
pub proof fn lemma_draw_cell(
    display: Seq<PixelState>,
    mem: Seq<u8>,
    i: int,
    n: int,
    vx: u8,
    vy: u8,
    row: int,
    bit: int,
)
    requires
        0 <= row < n < 16,
        0 <= bit < 8,
    ensures
        ({
            let idx = pixel_index(vx, vy, row, bit);
            let set = sprite_bit(mem[i + row], bit as u8);
            &&& set == covers(mem, i, n, vx, vy, idx)
            &&& !covered_before(mem, i, n, vx, vy, idx, row, bit)
            &&& forall|p: int|
                0 <= p < 2048 ==> #[trigger] covered_before(mem, i, n, vx, vy, p, row, bit + 1) == (
                covered_before(mem, i, n, vx, vy, p, row, bit) || (set && p == idx))
            &&& lit_before(display, mem, i, n, vx, vy, row, bit + 1) == (lit_before(
                display,
                mem,
                i,
                n,
                vx,
                vy,
                row,
                bit,
            ) || (set && display[idx] == PixelState::On))
        }),
{
    let idx = pixel_index(vx, vy, row, bit);
    lemma_pixel_index(vx, vy, row, bit);
    if lit_before(display, mem, i, n, vx, vy, row, bit + 1) {
        let p = choose|p: int|
            0 <= p < 2048 && #[trigger] covered_before(mem, i, n, vx, vy, p, row, bit + 1)
                && display[p] == PixelState::On;
        if !covered_before(mem, i, n, vx, vy, p, row, bit) {
            assert(p == idx);
        }
    }
    if lit_before(display, mem, i, n, vx, vy, row, bit) {
        let p = choose|p: int|
            0 <= p < 2048 && #[trigger] covered_before(mem, i, n, vx, vy, p, row, bit)
                && display[p] == PixelState::On;
        assert(covered_before(mem, i, n, vx, vy, p, row, bit + 1));
    }
    if sprite_bit(mem[i + row], bit as u8) && display[idx] == PixelState::On {
        assert(covered_before(mem, i, n, vx, vy, idx, row, bit + 1));
    }
}

/// Finishing a sprite row reaches the same pixels as starting the next one,
/// and finishing the last row reaches every pixel the sprite covers.
pub proof fn lemma_draw_row_end(
    display: Seq<PixelState>,
    mem: Seq<u8>,
    i: int,
    n: int,
    vx: u8,
    vy: u8,
    row: int,
)
    requires
        0 <= row < n,
    ensures
        forall|p: int|
            #![trigger covered_before(mem, i, n, vx, vy, p, row + 1, 0)]
            0 <= p < 2048 ==> covered_before(mem, i, n, vx, vy, p, row, 8) == covered_before(
                mem,
                i,
                n,
                vx,
                vy,
                p,
                row + 1,
                0,
            ),
        lit_before(display, mem, i, n, vx, vy, row, 8) == lit_before(
            display,
            mem,
            i,
            n,
            vx,
            vy,
            row + 1,
            0,
        ),
{
    if lit_before(display, mem, i, n, vx, vy, row, 8) {
        let p = choose|p: int|
            0 <= p < 2048 && #[trigger] covered_before(mem, i, n, vx, vy, p, row, 8) && display[p]
                == PixelState::On;
        assert(covered_before(mem, i, n, vx, vy, p, row + 1, 0));
    }
    if lit_before(display, mem, i, n, vx, vy, row + 1, 0) {
        let p = choose|p: int|
            0 <= p < 2048 && #[trigger] covered_before(mem, i, n, vx, vy, p, row + 1, 0)
                && display[p] == PixelState::On;
        assert(covered_before(mem, i, n, vx, vy, p, row, 8));
    }
}

/// A draw that has gone through all `n` rows has reached every covered
/// pixel, and has met a lit one exactly when the sprite collides.
pub proof fn lemma_draw_done(
    display: Seq<PixelState>,
    mem: Seq<u8>,
    i: int,
    n: int,
    vx: u8,
    vy: u8,
)
    ensures
        forall|p: int|
            #![trigger covers(mem, i, n, vx, vy, p)]
            covered_before(mem, i, n, vx, vy, p, n, 0) == covers(mem, i, n, vx, vy, p),
        lit_before(display, mem, i, n, vx, vy, n, 0) == collides(display, mem, i, n, vx, vy),
{
    if lit_before(display, mem, i, n, vx, vy, n, 0) {
        let p = choose|p: int|
            0 <= p < 2048 && #[trigger] covered_before(mem, i, n, vx, vy, p, n, 0) && display[p]
                == PixelState::On;
        assert(covers(mem, i, n, vx, vy, p));
    }
    if collides(display, mem, i, n, vx, vy) {
        let p = choose|p: int|
            0 <= p < 2048 && #[trigger] covers(mem, i, n, vx, vy, p) && display[p]
                == PixelState::On;
        assert(covered_before(mem, i, n, vx, vy, p, n, 0));
    }
}

/// The screen pixel that column `bit` of sprite row `row` lands on.
pub open spec fn pixel_index(vx: u8, vy: u8, row: int, bit: int) -> int {
    64 * ((vy + row) % 32) + (vx + bit) % 64
}

/// Wrapping offsets: position `t` on a ring of `m` lies `k` places after
/// `b` exactly when it is `(b + k) mod m`.
pub proof fn lemma_wrap_offset(b: int, k: int, t: int, m: int)
    requires
        m > 0,
        b >= 0,
        0 <= k < m,
        0 <= t < m,
    ensures
        ((t + m - b % m) % m == k) == (t == (b + k) % m),
{
    let a = b % m;
    let q = b / m;
    lemma_fundamental_div_mod(b, m);
    lemma_mod_bound(b, m);
    if a + k < m {
        lemma_fundamental_div_mod_converse_mod(b + k, m, q, a + k);
    } else {
        assert((q + 1) * m == q * m + m) by (nonlinear_arith);
        lemma_fundamental_div_mod_converse_mod(b + k, m, q + 1, a + k - m);
    }
    if t >= a {
        lemma_fundamental_div_mod_converse_mod(t + m - a, m, 1, t - a);
    } else {
        lemma_fundamental_div_mod_converse_mod(t + m - a, m, 0, t + m - a);
    }
}

/// The pixel that a sprite cell lands on is in the framebuffer, maps back to
/// that cell, and is the only pixel that does.
pub proof fn lemma_pixel_index(vx: u8, vy: u8, row: int, bit: int)
    requires
        0 <= row < 32,
        0 <= bit < 64,
    ensures
        0 <= pixel_index(vx, vy, row, bit) < 2048,
        sprite_row_of(pixel_index(vx, vy, row, bit), vy) == row,
        sprite_col_of(pixel_index(vx, vy, row, bit), vx) == bit,
        forall|p: int|
            0 <= p < 2048 && #[trigger] sprite_row_of(p, vy) == row && sprite_col_of(p, vx) == bit
                ==> p == pixel_index(vx, vy, row, bit),
{
    let idx = pixel_index(vx, vy, row, bit);
    let r = (vy + row) % 32;
    let c = (vx + bit) % 64;
    lemma_mod_bound(vy + row, 32);
    lemma_mod_bound(vx + bit, 64);
    lemma_fundamental_div_mod_converse(idx, 64, r, c);
    lemma_wrap_offset(vy as int, row, r, 32);
    lemma_wrap_offset(vx as int, bit, c, 64);
    assert forall|p: int|
        0 <= p < 2048 && #[trigger] sprite_row_of(p, vy) == row && sprite_col_of(p, vx)
            == bit implies p == idx by {
        let pr = p / 64;
        let pc = p % 64;
        lemma_fundamental_div_mod(p, 64);
        lemma_mod_bound(p, 64);
        assert(0 <= pr < 32) by (nonlinear_arith)
            requires
                0 <= p < 2048,
                p == 64 * pr + pc,
                0 <= pc < 64,
        ;
        lemma_wrap_offset(vy as int, row, pr, 32);
        lemma_wrap_offset(vx as int, bit, pc, 64);
    }
}

} // verus!
