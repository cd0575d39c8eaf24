use vstd::prelude::*;

use crate::cpu::{CpuFault, NUM_KEYS, VF};
use crate::display::{CHIP8_HEIGHT, CHIP8_WIDTH};
use crate::semantics::{draw_collides, draw_flips, execute, key_pressed, last_pressed, step, CpuView};

verus! {

/// The instruction of `s` belongs to the register-to-register family with sub-code `sub`.
pub open spec fn is_alu(s: CpuView, sub: int) -> bool {
    s.opcode as int / 0x1000 == 0x8 && s.n() == sub
}

/// Add with carry (8XY4): VF is 1 exactly when VX + VY exceeds 255, else 0,
/// and VX receives the low eight bits of the sum. (When X is F the sum
/// overwrites the flag, so X is taken to be another register.)
pub proof fn law_add_carry(s: CpuView, rnd: u8)
    requires
        s.wf(),
        is_alu(s, 0x4),
        s.x() != VF,
    ensures
        execute(s, rnd) is Ok,
        execute(s, rnd)->Ok_0.v[VF as int] == (if s.vx() + s.vy() > 255 { 1u8 } else { 0u8 }),
        execute(s, rnd)->Ok_0.v[s.x()] == (s.vx() + s.vy()) % 256,
{
}

/// Subtract (8XY5): VF is 0 exactly when VY > VX (a borrow), else 1, and VX
/// receives VX - VY modulo 256. (X is taken to be other than F.)
pub proof fn law_sub_borrow(s: CpuView, rnd: u8)
    requires
        s.wf(),
        is_alu(s, 0x5),
        s.x() != VF,
    ensures
        execute(s, rnd) is Ok,
        execute(s, rnd)->Ok_0.v[VF as int] == (if s.vy() > s.vx() { 0u8 } else { 1u8 }),
        execute(s, rnd)->Ok_0.v[s.x()] == (s.vx() - s.vy() + 256) % 256,
{
}

/// Shift right (8XY6): VF receives the least significant bit of VX before
/// the shift, and VX becomes VY shifted right by one. (X is taken to be
/// other than F.)
pub proof fn law_shift_right(s: CpuView, rnd: u8)
    requires
        s.wf(),
        is_alu(s, 0x6),
        s.x() != VF,
    ensures
        execute(s, rnd) is Ok,
        execute(s, rnd)->Ok_0.v[VF as int] == s.vx() % 2,
        execute(s, rnd)->Ok_0.v[s.x()] == s.vy() / 2,
{
    let vx = s.vx();
    let vy = s.vy();
    assert(vx & 1u8 == vx % 2) by (bit_vector);
    assert(vy >> 1u8 == vy / 2) by (bit_vector);
}

/// Drawing a sprite twice at the same place restores the framebuffer. The
/// first draw reports a collision exactly when a sprite pixel landed on a lit
/// pixel; the second exactly when one landed on a dark pixel. (X and Y are
/// taken to be other than F, so that the flag does not move the sprite.)
pub proof fn law_draw_twice(s: CpuView, rnd: u8)
    requires
        s.wf(),
        s.opcode as int / 0x1000 == 0xD,
        s.x() != VF,
        s.y() != VF,
        execute(s, rnd) is Ok,
    ensures
        execute(execute(s, rnd)->Ok_0, rnd) is Ok,
        execute(execute(s, rnd)->Ok_0, rnd)->Ok_0.gfx == s.gfx,
        execute(s, rnd)->Ok_0.v[VF as int] == 1 <==> exists|r: int, c: int|
            0 <= r < CHIP8_HEIGHT && 0 <= c < CHIP8_WIDTH && #[trigger] draw_flips(s, r, c)
                && s.gfx[r][c] == 1,
        execute(execute(s, rnd)->Ok_0, rnd)->Ok_0.v[VF as int] == 1 <==> exists|r: int, c: int|
            0 <= r < CHIP8_HEIGHT && 0 <= c < CHIP8_WIDTH && #[trigger] draw_flips(s, r, c)
                && s.gfx[r][c] == 0,
{
    let t1 = execute(s, rnd)->Ok_0;
    assert(t1.vx() == s.vx() && t1.vy() == s.vy());
    assert forall|r: int, c: int| draw_flips(t1, r, c) == draw_flips(s, r, c) by {}
    let t2 = execute(t1, rnd)->Ok_0;
    assert(t2.gfx =~~= s.gfx) by {
        assert forall|r: int, c: int| 0 <= r < CHIP8_HEIGHT && 0 <= c < CHIP8_WIDTH implies t2.gfx[r][c]
            == s.gfx[r][c] by {
            assert(s.gfx[r][c] <= 1);
        }
    }
    if draw_collides(t1) {
        let (r, c) = choose|r: int, c: int|
            0 <= r < CHIP8_HEIGHT && 0 <= c < CHIP8_WIDTH && #[trigger] draw_flips(t1, r, c)
                && t1.gfx[r][c] == 1;
        assert(draw_flips(s, r, c) && s.gfx[r][c] == 0);
    }
    if exists|r: int, c: int|
        0 <= r < CHIP8_HEIGHT && 0 <= c < CHIP8_WIDTH && #[trigger] draw_flips(s, r, c) && s.gfx[r][c]
            == 0 {
        let (r, c) = choose|r: int, c: int|
            0 <= r < CHIP8_HEIGHT && 0 <= c < CHIP8_WIDTH && #[trigger] draw_flips(s, r, c)
                && s.gfx[r][c] == 0;
        assert(draw_flips(t1, r, c) && t1.gfx[r][c] == 1);
    }
}

/// The condition under which a skip instruction passes over the next one;
/// false for every other instruction.
pub open spec fn skip_taken(s: CpuView) -> bool {
    let family = s.opcode as int / 0x1000;
    if family == 0x3 {
        s.vx() == s.kk()
    } else if family == 0x4 {
        s.vx() != s.kk()
    } else if family == 0x5 {
        s.vx() == s.vy()
    } else if family == 0x9 {
        s.vx() != s.vy()
    } else if family == 0xE && s.kk() == 0x9E {
        key_pressed(s, s.vx())
    } else if family == 0xE && s.kk() == 0xA1 {
        !key_pressed(s, s.vx())
    } else {
        false
    }
}

/// The instruction of `s` is one of 3XKK, 4XKK, 5XY0, 9XY0, EX9E, EXA1.
pub open spec fn is_skip(s: CpuView) -> bool {
    let family = s.opcode as int / 0x1000;
    family == 0x3 || family == 0x4 || family == 0x5 || family == 0x9 || (family == 0xE && (s.kk()
        == 0x9E || s.kk() == 0xA1))
}

/// A skip instruction moves PC on by exactly 4 when its condition holds and
/// by exactly 2 otherwise, and changes nothing else, whatever the registers
/// and keys hold.
pub proof fn law_skip_advance(s: CpuView, rnd: u8)
    requires
        s.wf(),
        is_skip(s),
    ensures
        execute(s, rnd) == Ok::<CpuView, CpuFault>(
            CpuView { pc: s.pc + if skip_taken(s) { 4int } else { 2int }, ..s },
        ),
{
}

proof fn lemma_last_pressed(keys: Seq<bool>, n: int)
    requires
        0 <= n <= keys.len(),
    ensures
        match last_pressed(keys, n) {
            Some(j) => 0 <= j < n && keys[j] && forall|k: int| j < k < n ==> !#[trigger] keys[k],
            None => forall|k: int| 0 <= k < n ==> !#[trigger] keys[k],
        },
    decreases n,
{
    if n > 0 {
        lemma_last_pressed(keys, n - 1);
    }
}

/// FX0A enters key-wait mode. While waiting, a step whose snapshot has no key
/// pressed executes nothing: only the snapshot is recorded. A step with some
/// key pressed ends the wait and puts the highest pressed index in the target
/// register, again without executing an instruction.
pub proof fn law_key_wait(s: CpuView, keys: Seq<bool>, rnd: u8)
    requires
        s.wf(),
        keys.len() == NUM_KEYS,
    ensures
        s.opcode as int / 0x1000 == 0xF && s.kk() == 0x0A ==> execute(s, rnd) is Ok && execute(
            s,
            rnd,
        )->Ok_0.key_wait && execute(s, rnd)->Ok_0.key_wait_reg == s.x(),
        s.key_wait && (forall|k: int| 0 <= k < NUM_KEYS ==> !#[trigger] keys[k]) ==> step(s, keys, rnd)
            == (CpuView { keypad: keys, ..s }, Ok::<(), CpuFault>(())),
        s.key_wait && (exists|k: int| 0 <= k < NUM_KEYS && #[trigger] keys[k]) ==> {
            let t = step(s, keys, rnd).0;
            let w = t.v[s.key_wait_reg] as int;
            &&& !t.key_wait
            &&& t.pc == s.pc
            &&& t.opcode == s.opcode
            &&& 0 <= w < NUM_KEYS
            &&& keys[w]
            &&& forall|k: int| w < k < NUM_KEYS ==> !#[trigger] keys[k]
        },
{
    lemma_last_pressed(keys, NUM_KEYS as int);
}

} // verus!
