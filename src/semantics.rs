use vstd::prelude::*;

use crate::cpu::{CpuFault, MEMORY_SIZE, NUM_KEYS, NUM_REGISTERS, PROGRAM_START, STACK_SIZE, VF};
use crate::display::{font_glyphs, CHIP8_HEIGHT, CHIP8_WIDTH, FONT_SIZE};

verus! {

/// The machine state as mathematical values.
pub struct CpuView {
    pub opcode: u16,
    pub memory: Seq<u8>,
    pub v: Seq<u8>,
    pub i: int,
    pub pc: int,
    pub delay_timer: u8,
    pub sound_timer: u8,
    pub stack: Seq<u16>,
    pub sp: int,
    pub keypad: Seq<bool>,
    pub key_wait: bool,
    pub key_wait_reg: int,
    pub gfx: Seq<Seq<u8>>,
    pub draw_flag: bool,
}

impl CpuView {
    /// The machine's invariant: the stack pointer and the key-wait target are
    /// in range, I and PC fit in 16 bits, and every pixel is 0 or 1.
    pub open spec fn wf(self) -> bool {
        &&& self.memory.len() == MEMORY_SIZE
        &&& self.v.len() == NUM_REGISTERS
        &&& self.stack.len() == STACK_SIZE
        &&& self.keypad.len() == NUM_KEYS
        &&& self.gfx.len() == CHIP8_HEIGHT
        &&& forall|r: int| 0 <= r < CHIP8_HEIGHT ==> #[trigger] self.gfx[r].len() == CHIP8_WIDTH
        &&& forall|r: int, c: int|
            0 <= r < CHIP8_HEIGHT && 0 <= c < CHIP8_WIDTH ==> #[trigger] self.gfx[r][c] <= 1
        &&& 0 <= self.sp <= STACK_SIZE
        &&& 0 <= self.i <= 0xFFFF
        &&& 0 <= self.pc <= 0xFFFF
        &&& 0 <= self.key_wait_reg < NUM_REGISTERS
    }

    /// The register selected by bits 8 to 11 of the instruction.
    pub open spec fn x(self) -> int {
        (self.opcode as int / 0x100) % 16
    }

    /// The register selected by bits 4 to 7 of the instruction.
    pub open spec fn y(self) -> int {
        (self.opcode as int / 0x10) % 16
    }

    /// The low nibble of the instruction.
    pub open spec fn n(self) -> int {
        self.opcode as int % 16
    }

    /// The low byte of the instruction.
    pub open spec fn kk(self) -> u8 {
        (self.opcode as int % 0x100) as u8
    }

    /// The low twelve bits of the instruction.
    pub open spec fn nnn(self) -> int {
        self.opcode as int % 0x1000
    }

    /// Value of register VX.
    pub open spec fn vx(self) -> u8 {
        self.v[self.x()]
    }

    /// Value of register VY.
    pub open spec fn vy(self) -> u8 {
        self.v[self.y()]
    }

    /// The same state with the program counter moved on by `d` bytes.
    pub open spec fn advance(self, d: int) -> CpuView {
        CpuView { pc: self.pc + d, ..self }
    }

    /// The same state with VX set to `val` and the program counter moved on.
    pub open spec fn set_vx(self, val: u8) -> CpuView {
        CpuView { v: self.v.update(self.x(), val), pc: self.pc + 2, ..self }
    }

    /// VF set to `flag`, then VX set to `val`, then the program counter moved on.
    pub open spec fn set_vf_vx(self, flag: u8, val: u8) -> CpuView {
        CpuView { v: self.v.update(VF as int, flag).update(self.x(), val), pc: self.pc + 2, ..self }
    }
}

/// A framebuffer with every pixel off.
pub open spec fn blank_screen() -> Seq<Seq<u8>> {
    Seq::new(CHIP8_HEIGHT as nat, |r: int| Seq::new(CHIP8_WIDTH as nat, |c: int| 0u8))
}

/// A conditional skip: the next instruction is passed over when `cond` holds.
pub open spec fn skip_if(s: CpuView, cond: bool) -> CpuView {
    if cond {
        s.advance(4)
    } else {
        s.advance(2)
    }
}

/// Whether key `k` reads as pressed; an index past the keypad is never pressed.
pub open spec fn key_pressed(s: CpuView, k: u8) -> bool {
    (k as int) < NUM_KEYS && s.keypad[k as int]
}


/// Return from a subroutine: pop the stack into PC.
pub open spec fn sem_return(s: CpuView) -> Result<CpuView, CpuFault> {
    if s.sp == 0 {
        Err(CpuFault::StackUnderflow)
    } else {
        Ok(CpuView { sp: s.sp - 1, pc: s.stack[s.sp - 1] as int, ..s })
    }
}

/// Call a subroutine: push the address of the next instruction, jump to NNN.
pub open spec fn sem_call(s: CpuView) -> Result<CpuView, CpuFault> {
    if s.sp >= STACK_SIZE {
        Err(CpuFault::StackOverflow)
    } else {
        Ok(
            CpuView {
                stack: s.stack.update(s.sp, (s.pc as u16).wrapping_add(2)),
                sp: s.sp + 1,
                pc: s.nnn(),
                ..s
            },
        )
    }
}

/// Sprite row that lands on screen row `r` when the sprite's top is at `top`.
pub open spec fn sprite_row(top: u8, r: int) -> int {
    (r - top) % (CHIP8_HEIGHT as int)
}

/// Sprite column that lands on screen column `c` when the sprite's left edge is at `left`.
pub open spec fn sprite_col(left: u8, c: int) -> int {
    (c - left) % (CHIP8_WIDTH as int)
}

/// Bit `col` of a sprite row, counted from the most significant bit.
pub open spec fn sprite_bit(b: u8, col: int) -> bool {
    (b >> ((7 - col) as u8)) & 1u8 == 1u8
}

/// Whether drawing the sprite of `s` toggles the screen pixel at row `r`, column `c`.
pub open spec fn draw_flips(s: CpuView, r: int, c: int) -> bool {
    let row = sprite_row(s.vy(), r);
    let col = sprite_col(s.vx(), c);
    row < s.n() && col < 8 && sprite_bit(s.memory[s.i + row], col)
}

/// The framebuffer after the sprite of `s` is XOR-drawn onto it.
pub open spec fn draw_gfx(s: CpuView) -> Seq<Seq<u8>> {
    Seq::new(
        CHIP8_HEIGHT as nat,
        |r: int|
            Seq::new(
                CHIP8_WIDTH as nat,
                |c: int|
                    if draw_flips(s, r, c) {
                        (1 - s.gfx[r][c]) as u8
                    } else {
                        s.gfx[r][c]
                    },
            ),
    )
}

/// Whether drawing the sprite of `s` turns off a pixel that was on.
pub open spec fn draw_collides(s: CpuView) -> bool {
    exists|r: int, c: int|
        0 <= r < CHIP8_HEIGHT && 0 <= c < CHIP8_WIDTH && #[trigger] draw_flips(s, r, c)
            && s.gfx[r][c] == 1
}

/// Draw the N-row sprite at memory[I] at (VX, VY); VF records a collision.
pub open spec fn sem_draw(s: CpuView) -> Result<CpuView, CpuFault> {
    if s.n() > 0 && s.i + s.n() > MEMORY_SIZE {
        Err(CpuFault::MemoryOutOfRange)
    } else {
        Ok(
            CpuView {
                gfx: draw_gfx(s),
                v: s.v.update(VF as int, if draw_collides(s) { 1u8 } else { 0u8 }),
                draw_flag: true,
                pc: s.pc + 2,
                ..s
            },
        )
    }
}

/// Store the decimal digits of VX at I, I+1 and I+2.
pub open spec fn sem_bcd(s: CpuView) -> Result<CpuView, CpuFault> {
    if s.i + 3 > MEMORY_SIZE {
        Err(CpuFault::MemoryOutOfRange)
    } else {
        Ok(
            CpuView {
                memory: s.memory.update(s.i, s.vx() / 100).update(s.i + 1, (s.vx() / 10) % 10).update(
                    s.i + 2,
                    s.vx() % 10,
                ),
                pc: s.pc + 2,
                ..s
            },
        )
    }
}

/// Store V0..VX in memory from address I on.
pub open spec fn sem_store_regs(s: CpuView) -> Result<CpuView, CpuFault> {
    if s.i + s.x() >= MEMORY_SIZE {
        Err(CpuFault::MemoryOutOfRange)
    } else {
        Ok(
            CpuView {
                memory: Seq::new(
                    MEMORY_SIZE as nat,
                    |k: int|
                        if s.i <= k <= s.i + s.x() {
                            s.v[k - s.i]
                        } else {
                            s.memory[k]
                        },
                ),
                pc: s.pc + 2,
                ..s
            },
        )
    }
}

/// Load V0..VX from memory from address I on.
pub open spec fn sem_load_regs(s: CpuView) -> Result<CpuView, CpuFault> {
    if s.i + s.x() >= MEMORY_SIZE {
        Err(CpuFault::MemoryOutOfRange)
    } else {
        Ok(
            CpuView {
                v: Seq::new(
                    NUM_REGISTERS as nat,
                    |k: int|
                        if k <= s.x() {
                            s.memory[s.i + k]
                        } else {
                            s.v[k]
                        },
                ),
                pc: s.pc + 2,
                ..s
            },
        )
    }
}

/// Instructions of family 0: clear screen, return, and the ignored machine-code call.
pub open spec fn exec_family_0(s: CpuView) -> Result<CpuView, CpuFault> {
    if s.opcode == 0x00E0 {
        Ok(CpuView { gfx: blank_screen(), draw_flag: true, pc: s.pc + 2, ..s })
    } else if s.opcode == 0x00EE {
        sem_return(s)
    } else {
        Ok(s.advance(2))
    }
}

/// Register-to-register instructions (family 8), chosen by the low nibble.
pub open spec fn exec_family_8(s: CpuView) -> Result<CpuView, CpuFault> {
    let vx = s.vx();
    let vy = s.vy();
    if s.n() == 0x0 {
        Ok(s.set_vx(vy))
    } else if s.n() == 0x1 {
        Ok(s.set_vx(vx | vy))
    } else if s.n() == 0x2 {
        Ok(s.set_vx(vx & vy))
    } else if s.n() == 0x3 {
        Ok(s.set_vx(vx ^ vy))
    } else if s.n() == 0x4 {
        Ok(s.set_vf_vx(if vx + vy > 255 { 1u8 } else { 0u8 }, vx.wrapping_add(vy)))
    } else if s.n() == 0x5 {
        Ok(s.set_vf_vx(if vy > vx { 0u8 } else { 1u8 }, vx.wrapping_sub(vy)))
    } else if s.n() == 0x6 {
        Ok(s.set_vf_vx(vx & 1u8, vy >> 1u8))
    } else if s.n() == 0x7 {
        Ok(s.set_vf_vx(if vx > vy { 0u8 } else { 1u8 }, vy.wrapping_sub(vx)))
    } else if s.n() == 0xE {
        Ok(s.set_vf_vx(vx >> 7u8, vx << 1u8))
    } else {
        Err(CpuFault::UnknownOpcode(s.opcode))
    }
}

/// Key-conditional skips (family E), chosen by the low byte.
pub open spec fn exec_family_e(s: CpuView) -> Result<CpuView, CpuFault> {
    if s.kk() == 0x9E {
        Ok(skip_if(s, key_pressed(s, s.vx())))
    } else if s.kk() == 0xA1 {
        Ok(skip_if(s, !key_pressed(s, s.vx())))
    } else {
        Err(CpuFault::UnknownOpcode(s.opcode))
    }
}

/// Timer, key-wait, index and memory instructions (family F), chosen by the low byte.
pub open spec fn exec_family_f(s: CpuView) -> Result<CpuView, CpuFault> {
    let vx = s.vx();
    if s.kk() == 0x07 {
        Ok(s.set_vx(s.delay_timer))
    } else if s.kk() == 0x0A {
        Ok(CpuView { key_wait: true, key_wait_reg: s.x(), pc: s.pc + 2, ..s })
    } else if s.kk() == 0x15 {
        Ok(CpuView { delay_timer: vx, pc: s.pc + 2, ..s })
    } else if s.kk() == 0x18 {
        Ok(CpuView { sound_timer: vx, pc: s.pc + 2, ..s })
    } else if s.kk() == 0x1E {
        Ok(CpuView { i: (s.i + vx) % 0x10000, pc: s.pc + 2, ..s })
    } else if s.kk() == 0x29 {
        Ok(CpuView { i: vx * 5, pc: s.pc + 2, ..s })
    } else if s.kk() == 0x33 {
        sem_bcd(s)
    } else if s.kk() == 0x55 {
        sem_store_regs(s)
    } else if s.kk() == 0x65 {
        sem_load_regs(s)
    } else {
        Err(CpuFault::UnknownOpcode(s.opcode))
    }
}

/// The effect of executing the instruction held in `s.opcode`; `rnd` is the
/// random byte that CXKK consumes. A fault leaves the state as it was.
pub open spec fn execute(s: CpuView, rnd: u8) -> Result<CpuView, CpuFault> {
    let family = s.opcode as int / 0x1000;
    if family == 0x0 {
        exec_family_0(s)
    } else if family == 0x1 {
        Ok(CpuView { pc: s.nnn(), ..s })
    } else if family == 0x2 {
        sem_call(s)
    } else if family == 0x3 {
        Ok(skip_if(s, s.vx() == s.kk()))
    } else if family == 0x4 {
        Ok(skip_if(s, s.vx() != s.kk()))
    } else if family == 0x5 {
        Ok(skip_if(s, s.vx() == s.vy()))
    } else if family == 0x6 {
        Ok(s.set_vx(s.kk()))
    } else if family == 0x7 {
        Ok(s.set_vx(s.vx().wrapping_add(s.kk())))
    } else if family == 0x8 {
        exec_family_8(s)
    } else if family == 0x9 {
        Ok(skip_if(s, s.vx() != s.vy()))
    } else if family == 0xA {
        Ok(CpuView { i: s.nnn(), pc: s.pc + 2, ..s })
    } else if family == 0xB {
        Ok(CpuView { pc: s.nnn() + s.v[0], ..s })
    } else if family == 0xC {
        Ok(s.set_vx(rnd & s.kk()))
    } else if family == 0xD {
        sem_draw(s)
    } else if family == 0xE {
        exec_family_e(s)
    } else {
        exec_family_f(s)
    }
}

/// Highest index below `n` whose key is pressed, if any.
pub open spec fn last_pressed(keys: Seq<bool>, n: int) -> Option<int>
    decreases n,
{
    if n <= 0 {
        None
    } else if keys[n - 1] {
        Some(n - 1)
    } else {
        last_pressed(keys, n - 1)
    }
}

/// The state after the instruction word at PC is fetched into `opcode`.
pub open spec fn fetch(s: CpuView) -> CpuView {
    CpuView { opcode: (s.memory[s.pc] as int * 0x100 + s.memory[s.pc + 1]) as u16, ..s }
}

/// One step of the machine with the key snapshot `keys`: the new state, and
/// whether the step faulted. In key-wait mode no instruction runs; the highest
/// pressed key, if any, goes to the target register and ends the wait.
pub open spec fn step(s: CpuView, keys: Seq<bool>, rnd: u8) -> (CpuView, Result<(), CpuFault>) {
    let s1 = CpuView { keypad: keys, ..s };
    if s1.key_wait {
        match last_pressed(keys, NUM_KEYS as int) {
            Some(k) => (CpuView { key_wait: false, v: s1.v.update(s1.key_wait_reg, k as u8), ..s1 }, Ok(())),
            None => (s1, Ok(())),
        }
    } else if s1.pc + 1 >= MEMORY_SIZE {
        (s1, Err(CpuFault::MemoryOutOfRange))
    } else {
        let s2 = fetch(s1);
        match execute(s2, rnd) {
            Ok(t) => (t, Ok(())),
            Err(e) => (s2, Err(e)),
        }
    }
}

/// `r` and `post` are what `want` describes, with `pre` kept on a fault.
pub open spec fn outcome(
    r: Result<(), CpuFault>,
    pre: CpuView,
    post: CpuView,
    want: Result<CpuView, CpuFault>,
) -> bool {
    match want {
        Ok(t) => r == Ok::<(), CpuFault>(()) && post == t,
        Err(e) => r == Err::<(), CpuFault>(e) && post == pre,
    }
}

/// Memory as `initialize` lays it out: the glyph set at 0..80, `program`
/// from 0x200 on as far as it fits, zero everywhere else.
pub open spec fn load_image(program: Seq<u8>) -> Seq<u8> {
    Seq::new(
        MEMORY_SIZE as nat,
        |a: int|
            if a < FONT_SIZE {
                font_glyphs()[a]
            } else if PROGRAM_START <= a < PROGRAM_START + program.len() {
                program[a - PROGRAM_START]
            } else {
                0u8
            },
    )
}

} // verus!
