//! Properties of the instruction semantics that hold for every machine state.
use crate::cpu::{CpuState, PixelState};
use crate::model::{
    covers, lemma_pixel_index, pixel_index, sprite_bit, sprite_col_of, sprite_row_of,
    blank_display, collides, drawn, fetched, first_event_from, pending_key, spec_execute, spec_step, view_wf,
    CpuView,
};
use crate::opcode::Opcode;
use vstd::prelude::*;

verus! {

/// `ADD Vx, Vy` leaves `(Vx + Vy) mod 256` in Vx and sets VF exactly when
/// the sum exceeds 255 (for any Vx other than VF itself).
pub proof fn lemma_add_carry(s: CpuView, x: usize, y: usize, random: u8)
    requires
        view_wf(s),
        x < 15,
        y < 16,
    ensures
        spec_execute(s, Opcode::ADD_Vx_Vy(x, y), random) matches Ok(t) && {
            let (a, b) = (s.registers[x as int], s.registers[y as int]);
            &&& t.registers[x as int] == (a + b) % 256
            &&& t.registers[15] == if a + b > 255 { 1u8 } else { 0u8 }
        },
{
    reveal(spec_execute);
}

/// `SUB Vx, Vy` subtracts and sets VF when Vx > Vy; otherwise it clears VF
/// and leaves Vx as it was (for any Vx other than VF itself).
pub proof fn lemma_sub_borrow(s: CpuView, x: usize, y: usize, random: u8)
    requires
        view_wf(s),
        x < 15,
        y < 16,
    ensures
        spec_execute(s, Opcode::SUB_Vx_Vy(x, y), random) matches Ok(t) && {
            let (a, b) = (s.registers[x as int], s.registers[y as int]);
            if a > b {
                t.registers[x as int] == a - b && t.registers[15] == 1
            } else {
                t.registers[x as int] == a && t.registers[15] == 0
            }
        },
{
    reveal(spec_execute);
}

/// A step that executes `CLS` leaves every pixel off.
pub proof fn lemma_clear_screen(s: CpuView, random: u8)
    requires
        view_wf(s),
        s.state == CpuState::Running,
        s.pc + 1 < 4096,
        fetched(s) == 0x00E0,
    ensures
        spec_step(s, random).1 is Ok,
        spec_step(s, random).0.display == blank_display(),
        forall|p: int| 0 <= p < 2048 ==> spec_step(s, random).0.display[p] == PixelState::Off,
{
    reveal(spec_execute);
}

/// Drawing the same sprite at the same place twice restores every pixel, and
/// the second draw's VF reports the collisions of that draw alone (the
/// coordinates must not live in VF, which the first draw overwrites).
pub proof fn lemma_draw_twice(s: CpuView, x: usize, y: usize, n: u8, random: u8)
    requires
        view_wf(s),
        x < 15,
        y < 15,
        n < 16,
        s.i + n <= 4096,
    ensures
        spec_execute(s, Opcode::DRW_Vx_Vy_nibble(x, y, n), random) matches Ok(t1) && (spec_execute(
            t1,
            Opcode::DRW_Vx_Vy_nibble(x, y, n),
            random,
        ) matches Ok(t2) && {
            let (vx, vy) = (s.registers[x as int], s.registers[y as int]);
            &&& t2.display == s.display
            &&& t2.registers[15] == if collides(t1.display, s.memory, s.i as int, n as int, vx, vy) {
                1u8
            } else {
                0u8
            }
        }),
{
    reveal(spec_execute);
    let (vx, vy) = (s.registers[x as int], s.registers[y as int]);
    lemma_drawn_self_inverse(s.display, s.memory, s.i as int, n as int, vx, vy);
}

/// XOR-drawing a sprite is its own inverse: drawing it twice at the same
/// place gives back any framebuffer.
pub proof fn lemma_drawn_self_inverse(
    display: Seq<PixelState>,
    mem: Seq<u8>,
    i: int,
    n: int,
    vx: u8,
    vy: u8,
)
    requires
        display.len() == 2048,
    ensures
        drawn(drawn(display, mem, i, n, vx, vy), mem, i, n, vx, vy) == display,
{
    assert(drawn(drawn(display, mem, i, n, vx, vy), mem, i, n, vx, vy) =~= display);
}

/// Drawing sets VF exactly when a pixel under a set sprite bit was lit: a
/// set bit of sprite row `r`, column `c` over a lit pixel sets VF, and a
/// sprite whose set bits all fall on unlit pixels (a blank screen, say)
/// clears it.
pub proof fn lemma_draw_collision(s: CpuView, x: usize, y: usize, n: u8, random: u8)
    requires
        view_wf(s),
        x < 16,
        y < 16,
        n < 16,
        s.i + n <= 4096,
    ensures
        spec_execute(s, Opcode::DRW_Vx_Vy_nibble(x, y, n), random) matches Ok(t) && {
            let (vx, vy) = (s.registers[x as int], s.registers[y as int]);
            &&& (t.registers[15] == 1) == collides(s.display, s.memory, s.i as int, n as int, vx, vy)
            &&& (exists|r: int, c: int|
                0 <= r < n && 0 <= c < 8 && sprite_bit(s.memory[s.i + r], c as u8)
                    && #[trigger] s.display[pixel_index(vx, vy, r, c)] == PixelState::On)
                ==> t.registers[15] == 1
            &&& (forall|r: int, c: int|
                0 <= r < n && 0 <= c < 8 && sprite_bit(s.memory[s.i + r], c as u8)
                    ==> #[trigger] s.display[pixel_index(vx, vy, r, c)] == PixelState::Off)
                ==> t.registers[15] == 0
            &&& (forall|p: int| 0 <= p < 2048 ==> s.display[p] == PixelState::Off) ==> t.registers[15] == 0
        },
{
    reveal(spec_execute);
    let (vx, vy) = (s.registers[x as int], s.registers[y as int]);
    let (mem, i, m) = (s.memory, s.i as int, n as int);
    if exists|r: int, c: int|
        0 <= r < n && 0 <= c < 8 && sprite_bit(s.memory[s.i + r], c as u8)
            && #[trigger] s.display[pixel_index(vx, vy, r, c)] == PixelState::On {
        let (r, c) = choose|r: int, c: int|
            0 <= r < n && 0 <= c < 8 && sprite_bit(s.memory[s.i + r], c as u8)
                && #[trigger] s.display[pixel_index(vx, vy, r, c)] == PixelState::On;
        lemma_pixel_index(vx, vy, r, c);
        assert(covers(mem, i, m, vx, vy, pixel_index(vx, vy, r, c)));
    }
    if collides(s.display, mem, i, m, vx, vy) {
        let p = choose|p: int|
            0 <= p < 2048 && #[trigger] covers(mem, i, m, vx, vy, p) && s.display[p]
                == PixelState::On;
        let (r, c) = (sprite_row_of(p, vy), sprite_col_of(p, vx));
        lemma_pixel_index(vx, vy, r, c);
        assert(p == pixel_index(vx, vy, r, c));
    }
}

/// A call followed at once by a return resumes after the call, with the
/// stack as deep as before.
pub proof fn lemma_call_return(s: CpuView, addr: usize, random: u8)
    requires
        view_wf(s),
        s.sp < 16,
        s.pc < 4096,
        addr < 4096,
    ensures
        spec_execute(s, Opcode::CALL_addr(addr), random) matches Ok(t1) && (t1.pc == addr && (
        spec_execute(t1, Opcode::RET, random) matches Ok(t2) && t2.pc == s.pc + 2 && t2.sp
            == s.sp)),
{
    reveal(spec_execute);
}

/// While it waits for a key with none pending, a step changes neither the
/// program counter nor the execution state; with a key pending, the key's
/// index lands in the register and the machine runs again, at the same
/// program counter.
pub proof fn lemma_key_wait(s: CpuView, reg: usize, random: u8)
    requires
        view_wf(s),
        s.state == CpuState::WaitInput(reg),
    ensures
        pending_key(s.key_events) is None ==> spec_step(s, random).0.pc == s.pc && spec_step(
            s,
            random,
        ).0.state == s.state,
        pending_key(s.key_events) matches Some(k) ==> spec_step(s, random).0.pc == s.pc
            && spec_step(s, random).0.state == CpuState::Running && spec_step(
            s,
            random,
        ).0.registers[reg as int] == k,
{
    if let Some(k) = pending_key(s.key_events) {
        lemma_pending_key_range(s.key_events, 0);
    }
}

/// A pending key found from `k` on is a key index at or after `k`.
proof fn lemma_pending_key_range(events: Seq<bool>, k: int)
    requires
        0 <= k,
    ensures
        first_event_from(events, k) matches Some(j) ==> k <= j < 16,
    decreases 16 - k,
{
    if k < 16 && !events[k] {
        lemma_pending_key_range(events, k + 1);
    }
}

/// `LD B, Vx` writes the hundreds, tens and ones digits of Vx at I, I+1, I+2.
pub proof fn lemma_bcd(s: CpuView, x: usize, random: u8)
    requires
        view_wf(s),
        x < 16,
        s.i + 3 <= 4096,
    ensures
        spec_execute(s, Opcode::LD_B_Vx(x), random) matches Ok(t) && {
            let v = s.registers[x as int];
            let (h, d, o) = (t.memory[s.i as int], t.memory[s.i + 1], t.memory[s.i + 2]);
            &&& h < 10 && d < 10 && o < 10
            &&& 100 * h + 10 * d + o == v
        },
{
    reveal(spec_execute);
}

/// Storing V0..=Vx at I and loading them back from I, with any registers in
/// between, restores V0..=Vx exactly.
pub proof fn lemma_dump_load_round_trip(s: CpuView, x: usize, between: CpuView, random: u8)
    requires
        view_wf(s),
        view_wf(between),
        x < 16,
        s.i + x + 1 <= 4096,
        spec_execute(s, Opcode::LD_I_Vx(x), random) matches Ok(t) && between.memory == t.memory
            && between.i == t.i,
    ensures
        spec_execute(between, Opcode::LD_Vx_I(x), random) matches Ok(u) && forall|k: int|
            0 <= k <= x ==> u.registers[k] == s.registers[k],
{
    reveal(spec_execute);
}

} // verus!
