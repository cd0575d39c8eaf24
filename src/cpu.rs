use vstd::prelude::*;

use crate::display::{font_glyphs, font_set, CHIP8_HEIGHT, CHIP8_WIDTH, FONT_SIZE};
use crate::semantics::{
    blank_screen, draw_flips, exec_family_0, exec_family_8, exec_family_e, exec_family_f, execute,
    key_pressed, last_pressed, load_image, outcome, sem_bcd, sem_call, sem_draw, sem_load_regs,
    sem_return, sem_store_regs, skip_if, sprite_col, sprite_row, step, CpuView,
};

verus! {

/// Size of the emulated memory, in bytes.
pub const MEMORY_SIZE: usize = 4096;

/// Address at which programs are loaded and execution starts.
pub const PROGRAM_START: usize = 0x200;

/// Number of general-purpose registers (V0 to VF).
pub const NUM_REGISTERS: usize = 16;

/// Depth of the call stack.
pub const STACK_SIZE: usize = 16;

/// Number of keys on the keypad.
pub const NUM_KEYS: usize = 16;

/// Index of the flag register VF.
pub const VF: usize = 15;

/// A condition under which an instruction cannot be carried out.
///
/// A fault leaves the machine as it was before the instruction ran (with the
/// key snapshot and the fetched word recorded); the caller decides whether
/// to stop or to report it.
#[derive(Debug, Clone, Copy, PartialEq, Eq, Structural)]
pub enum CpuFault {
    /// The instruction word matches no known encoding.
    UnknownOpcode(u16),
    /// A call was made with all sixteen stack entries in use.
    StackOverflow,
    /// A return was made with an empty stack.
    StackUnderflow,
    /// The instruction would read or write memory past address 0xFFF.
    MemoryOutOfRange,
}

/// The whole state of the emulated machine.
pub struct CPU {
    pub opcode: u16,
    pub memory: [u8; MEMORY_SIZE],
    pub v: [u8; NUM_REGISTERS],
    pub i: usize,
    pub pc: usize,
    pub delay_timer: u8,
    pub sound_timer: u8,
    pub stack: [u16; STACK_SIZE],
    pub sp: usize,
    pub keypad: [bool; NUM_KEYS],
    pub key_wait: bool,
    pub key_wait_reg: usize,
    pub gfx: [[u8; CHIP8_WIDTH]; CHIP8_HEIGHT],
    pub draw_flag: bool,
}

impl View for CPU {
    type V = CpuView;

    open spec fn view(&self) -> CpuView {
        CpuView {
            opcode: self.opcode,
            memory: self.memory@,
            v: self.v@,
            i: self.i as int,
            pc: self.pc as int,
            delay_timer: self.delay_timer,
            sound_timer: self.sound_timer,
            stack: self.stack@,
            sp: self.sp as int,
            keypad: self.keypad@,
            key_wait: self.key_wait,
            key_wait_reg: self.key_wait_reg as int,
            gfx: self.gfx@.map_values(|row: [u8; CHIP8_WIDTH]| row@),
            draw_flag: self.draw_flag,
        }
    }
}


impl CPU {
    /// A machine with every field zero, false or empty, PC included.
    pub fn new() -> (r: CPU)
        ensures
            r@ == (CpuView {
                opcode: 0,
                memory: Seq::new(MEMORY_SIZE as nat, |k: int| 0u8),
                v: Seq::new(NUM_REGISTERS as nat, |k: int| 0u8),
                i: 0,
                pc: 0,
                delay_timer: 0,
                sound_timer: 0,
                stack: Seq::new(STACK_SIZE as nat, |k: int| 0u16),
                sp: 0,
                keypad: Seq::new(NUM_KEYS as nat, |k: int| false),
                key_wait: false,
                key_wait_reg: 0,
                gfx: blank_screen(),
                draw_flag: false,
            }),
            r@.wf(),
    {
        let r = CPU {
            opcode: 0u16,
            memory: [0u8; MEMORY_SIZE],
            v: [0u8; NUM_REGISTERS],
            i: 0usize,
            pc: 0usize,
            delay_timer: 0u8,
            sound_timer: 0u8,
            stack: [0u16; STACK_SIZE],
            sp: 0usize,
            keypad: [false; NUM_KEYS],
            key_wait: false,
            key_wait_reg: 0usize,
            gfx: [[0u8; CHIP8_WIDTH]; CHIP8_HEIGHT],
            draw_flag: false,
        };
        assert(r@.memory =~= Seq::new(MEMORY_SIZE as nat, |k: int| 0u8));
        assert(r@.v =~= Seq::new(NUM_REGISTERS as nat, |k: int| 0u8));
        assert(r@.stack =~= Seq::new(STACK_SIZE as nat, |k: int| 0u16));
        assert(r@.keypad =~= Seq::new(NUM_KEYS as nat, |k: int| false));
        assert(r@.gfx =~~= blank_screen());
        r
    }

    /// Count both timers down by one, stopping at zero.
    pub fn decrement_timers(&mut self)
        ensures
            final(self)@ == (CpuView {
                delay_timer: if old(self).delay_timer > 0 { (old(self).delay_timer - 1) as u8 } else { 0 },
                sound_timer: if old(self).sound_timer > 0 { (old(self).sound_timer - 1) as u8 } else { 0 },
                ..old(self)@
            }),
    {
        if self.delay_timer > 0 {
            self.delay_timer -= 1;
        }
        if self.sound_timer > 0 {
            self.sound_timer -= 1;
        }
    }

    fn reg_x(&self) -> (r: usize)
        ensures
            r == self@.x(),
    {
        ((self.opcode / 0x100) % 16) as usize
    }

    fn reg_y(&self) -> (r: usize)
        ensures
            r == self@.y(),
    {
        ((self.opcode / 0x10) % 16) as usize
    }

    fn byte_kk(&self) -> (r: u8)
        ensures
            r == self@.kk(),
    {
        (self.opcode % 0x100) as u8
    }

    fn addr_nnn(&self) -> (r: usize)
        ensures
            r == self@.nnn(),
    {
        (self.opcode % 0x1000) as usize
    }

    /// Move PC on by two, or by four when `cond` holds.
    fn skip_when(&mut self, cond: bool)
        requires
            old(self)@.wf(),
        ensures
            final(self)@ == skip_if(old(self)@, cond),
    {
        if cond {
            self.pc += 4;
        } else {
            self.pc += 2;
        }
    }

    fn set_vx_and_advance(&mut self, val: u8)
        requires
            old(self)@.wf(),
        ensures
            final(self)@ == old(self)@.set_vx(val),
    {
        let x = self.reg_x();
        self.v[x] = val;
        self.pc += 2;
    }

    fn set_vf_vx_and_advance(&mut self, flag: u8, val: u8)
        requires
            old(self)@.wf(),
        ensures
            final(self)@ == old(self)@.set_vf_vx(flag, val),
    {
        let x = self.reg_x();
        self.v[VF] = flag;
        self.v[x] = val;
        self.pc += 2;
    }

    /// 0NNN: machine-code routine call, ignored.
    pub fn oc_0nnn(&mut self)
        requires
            old(self)@.wf(),
        ensures
            final(self)@ == old(self)@.advance(2),
    {
        self.pc += 2;
    }

    /// 00E0: clear the framebuffer.
    pub fn oc_00e0(&mut self)
        requires
            old(self)@.wf(),
        ensures
            final(self)@ == (CpuView { gfx: blank_screen(), draw_flag: true, pc: old(self)@.pc + 2, ..old(self)@ }),
    {
        self.gfx = [[0u8; CHIP8_WIDTH]; CHIP8_HEIGHT];
        self.draw_flag = true;
        self.pc += 2;
        assert(self@.gfx =~~= blank_screen());
    }

    /// 00EE: return from a subroutine.
    pub fn oc_00ee(&mut self) -> (r: Result<(), CpuFault>)
        requires
            old(self)@.wf(),
        ensures
            outcome(r, old(self)@, final(self)@, sem_return(old(self)@)),
    {
        if self.sp == 0 {
            return Err(CpuFault::StackUnderflow);
        }
        self.sp -= 1;
        self.pc = self.stack[self.sp] as usize;
        Ok(())
    }

    /// 1NNN: jump to NNN.
    pub fn oc_1nnn(&mut self)
        requires
            old(self)@.wf(),
        ensures
            final(self)@ == (CpuView { pc: old(self)@.nnn(), ..old(self)@ }),
    {
        self.pc = self.addr_nnn();
    }

    /// 2NNN: call the subroutine at NNN.
    pub fn oc_2nnn(&mut self) -> (r: Result<(), CpuFault>)
        requires
            old(self)@.wf(),
        ensures
            outcome(r, old(self)@, final(self)@, sem_call(old(self)@)),
    {
        if self.sp >= STACK_SIZE {
            return Err(CpuFault::StackOverflow);
        }
        let addr = self.addr_nnn();
        self.stack[self.sp] = (self.pc as u16).wrapping_add(2);
        self.sp += 1;
        self.pc = addr;
        Ok(())
    }

    /// 3XKK: skip the next instruction if VX == KK.
    pub fn oc_3xkk(&mut self)
        requires
            old(self)@.wf(),
        ensures
            final(self)@ == skip_if(old(self)@, old(self)@.vx() == old(self)@.kk()),
    {
        let x = self.reg_x();
        let kk = self.byte_kk();
        let cond = self.v[x] == kk;
        self.skip_when(cond);
    }

    /// 4XKK: skip the next instruction if VX != KK.
    pub fn oc_4xkk(&mut self)
        requires
            old(self)@.wf(),
        ensures
            final(self)@ == skip_if(old(self)@, old(self)@.vx() != old(self)@.kk()),
    {
        let x = self.reg_x();
        let kk = self.byte_kk();
        let cond = self.v[x] != kk;
        self.skip_when(cond);
    }

    /// 5XY0: skip the next instruction if VX == VY.
    pub fn oc_5xy0(&mut self)
        requires
            old(self)@.wf(),
        ensures
            final(self)@ == skip_if(old(self)@, old(self)@.vx() == old(self)@.vy()),
    {
        let x = self.reg_x();
        let y = self.reg_y();
        let cond = self.v[x] == self.v[y];
        self.skip_when(cond);
    }

    /// 6XKK: VX := KK.
    pub fn oc_6xkk(&mut self)
        requires
            old(self)@.wf(),
        ensures
            final(self)@ == old(self)@.set_vx(old(self)@.kk()),
    {
        let kk = self.byte_kk();
        self.set_vx_and_advance(kk);
    }

    /// 7XKK: VX := VX + KK, wrapping at 8 bits; VF untouched.
    pub fn oc_7xkk(&mut self)
        requires
            old(self)@.wf(),
        ensures
            final(self)@ == old(self)@.set_vx(old(self)@.vx().wrapping_add(old(self)@.kk())),
    {
        let x = self.reg_x();
        let kk = self.byte_kk();
        let val = self.v[x].wrapping_add(kk);
        self.set_vx_and_advance(val);
    }

    /// 8XY0: VX := VY.
    pub fn oc_8xy0(&mut self)
        requires
            old(self)@.wf(),
        ensures
            final(self)@ == old(self)@.set_vx(old(self)@.vy()),
    {
        let y = self.reg_y();
        let val = self.v[y];
        self.set_vx_and_advance(val);
    }

    /// 8XY1: VX := VX OR VY.
    pub fn oc_8xy1(&mut self)
        requires
            old(self)@.wf(),
        ensures
            final(self)@ == old(self)@.set_vx(old(self)@.vx() | old(self)@.vy()),
    {
        let x = self.reg_x();
        let y = self.reg_y();
        let val = self.v[x] | self.v[y];
        self.set_vx_and_advance(val);
    }

    /// 8XY2: VX := VX AND VY.
    pub fn oc_8xy2(&mut self)
        requires
            old(self)@.wf(),
        ensures
            final(self)@ == old(self)@.set_vx(old(self)@.vx() & old(self)@.vy()),
    {
        let x = self.reg_x();
        let y = self.reg_y();
        let val = self.v[x] & self.v[y];
        self.set_vx_and_advance(val);
    }

    /// 8XY3: VX := VX XOR VY.
    pub fn oc_8xy3(&mut self)
        requires
            old(self)@.wf(),
        ensures
            final(self)@ == old(self)@.set_vx(old(self)@.vx() ^ old(self)@.vy()),
    {
        let x = self.reg_x();
        let y = self.reg_y();
        let val = self.v[x] ^ self.v[y];
        self.set_vx_and_advance(val);
    }

    /// 8XY4: VX := VX + VY; VF := 1 on carry past 255, else 0.
    pub fn oc_8xy4(&mut self)
        requires
            old(self)@.wf(),
        ensures
            final(self)@ == old(self)@.set_vf_vx(if old(self)@.vx() + old(self)@.vy() > 255 { 1u8 } else { 0u8 }, old(self)@.vx().wrapping_add(old(self)@.vy())),
    {
        let x = self.reg_x();
        let y = self.reg_y();
        let sum: u16 = self.v[x] as u16 + self.v[y] as u16;
        let flag: u8 = if sum > 255 { 1 } else { 0 };
        let val = self.v[x].wrapping_add(self.v[y]);
        self.set_vf_vx_and_advance(flag, val);
    }

    /// 8XY5: VX := VX - VY, wrapping; VF := 0 on borrow, else 1.
    pub fn oc_8xy5(&mut self)
        requires
            old(self)@.wf(),
        ensures
            final(self)@ == old(self)@.set_vf_vx(if old(self)@.vy() > old(self)@.vx() { 0u8 } else { 1u8 }, old(self)@.vx().wrapping_sub(old(self)@.vy())),
    {
        let x = self.reg_x();
        let y = self.reg_y();
        let flag: u8 = if self.v[y] > self.v[x] { 0 } else { 1 };
        let val = self.v[x].wrapping_sub(self.v[y]);
        self.set_vf_vx_and_advance(flag, val);
    }

    /// 8XY6: VF := low bit of VX; VX := VY shifted right by one.
    pub fn oc_8xy6(&mut self)
        requires
            old(self)@.wf(),
        ensures
            final(self)@ == old(self)@.set_vf_vx(old(self)@.vx() & 1u8, old(self)@.vy() >> 1u8),
    {
        let x = self.reg_x();
        let y = self.reg_y();
        let flag = self.v[x] & 1u8;
        let val = self.v[y] >> 1u8;
        self.set_vf_vx_and_advance(flag, val);
    }

    /// 8XY7: VX := VY - VX, wrapping; VF := 0 on borrow, else 1.
    pub fn oc_8xy7(&mut self)
        requires
            old(self)@.wf(),
        ensures
            final(self)@ == old(self)@.set_vf_vx(if old(self)@.vx() > old(self)@.vy() { 0u8 } else { 1u8 }, old(self)@.vy().wrapping_sub(old(self)@.vx())),
    {
        let x = self.reg_x();
        let y = self.reg_y();
        let flag: u8 = if self.v[x] > self.v[y] { 0 } else { 1 };
        let val = self.v[y].wrapping_sub(self.v[x]);
        self.set_vf_vx_and_advance(flag, val);
    }

    /// 8XYE: VF := high bit of VX; VX := VX shifted left by one.
    pub fn oc_8xye(&mut self)
        requires
            old(self)@.wf(),
        ensures
            final(self)@ == old(self)@.set_vf_vx(old(self)@.vx() >> 7u8, old(self)@.vx() << 1u8),
    {
        let x = self.reg_x();
        let flag = self.v[x] >> 7u8;
        let val = self.v[x] << 1u8;
        self.set_vf_vx_and_advance(flag, val);
    }

    /// 9XY0: skip the next instruction if VX != VY.
    pub fn oc_9xy0(&mut self)
        requires
            old(self)@.wf(),
        ensures
            final(self)@ == skip_if(old(self)@, old(self)@.vx() != old(self)@.vy()),
    {
        let x = self.reg_x();
        let y = self.reg_y();
        let cond = self.v[x] != self.v[y];
        self.skip_when(cond);
    }

    /// ANNN: I := NNN.
    pub fn oc_annn(&mut self)
        requires
            old(self)@.wf(),
        ensures
            final(self)@ == (CpuView { i: old(self)@.nnn(), pc: old(self)@.pc + 2, ..old(self)@ }),
    {
        self.i = self.addr_nnn();
        self.pc += 2;
    }

    /// BNNN: jump to NNN + V0.
    pub fn oc_bnnn(&mut self)
        requires
            old(self)@.wf(),
        ensures
            final(self)@ == (CpuView { pc: old(self)@.nnn() + old(self)@.v[0], ..old(self)@ }),
    {
        self.pc = self.addr_nnn() + self.v[0] as usize;
    }

    /// CXKK: VX := `rnd` AND KK, where `rnd` is a freshly drawn random byte.
    pub fn oc_cxkk(&mut self, rnd: u8)
        requires
            old(self)@.wf(),
        ensures
            final(self)@ == old(self)@.set_vx(rnd & old(self)@.kk()),
    {
        let kk = self.byte_kk();
        self.set_vx_and_advance(rnd & kk);
    }

    /// Whether key `k` is held; an index past the keypad never is.
    fn key_is_pressed(&self, k: u8) -> (r: bool)
        ensures
            r == key_pressed(self@, k),
    {
        (k as usize) < NUM_KEYS && self.keypad[k as usize]
    }

    /// EX9E: skip the next instruction if key VX is pressed.
    pub fn oc_ex9e(&mut self)
        requires
            old(self)@.wf(),
        ensures
            final(self)@ == skip_if(old(self)@, key_pressed(old(self)@, old(self)@.vx())),
    {
        let x = self.reg_x();
        let cond = self.key_is_pressed(self.v[x]);
        self.skip_when(cond);
    }

    /// EXA1: skip the next instruction if key VX is not pressed.
    pub fn oc_exa1(&mut self)
        requires
            old(self)@.wf(),
        ensures
            final(self)@ == skip_if(old(self)@, !key_pressed(old(self)@, old(self)@.vx())),
    {
        let x = self.reg_x();
        let cond = !self.key_is_pressed(self.v[x]);
        self.skip_when(cond);
    }

    /// FX07: VX := delay timer.
    pub fn oc_fx07(&mut self)
        requires
            old(self)@.wf(),
        ensures
            final(self)@ == old(self)@.set_vx(old(self)@.delay_timer),
    {
        let val = self.delay_timer;
        self.set_vx_and_advance(val);
    }

    /// FX0A: wait for a key press, to be stored in VX.
    pub fn oc_fx0a(&mut self)
        requires
            old(self)@.wf(),
        ensures
            final(self)@ == (CpuView { key_wait: true, key_wait_reg: old(self)@.x(), pc: old(self)@.pc + 2, ..old(self)@ }),
    {
        self.key_wait = true;
        self.key_wait_reg = self.reg_x();
        self.pc += 2;
    }

    /// FX15: delay timer := VX.
    pub fn oc_fx15(&mut self)
        requires
            old(self)@.wf(),
        ensures
            final(self)@ == (CpuView { delay_timer: old(self)@.vx(), pc: old(self)@.pc + 2, ..old(self)@ }),
    {
        let x = self.reg_x();
        self.delay_timer = self.v[x];
        self.pc += 2;
    }

    /// FX18: sound timer := VX.
    pub fn oc_fx18(&mut self)
        requires
            old(self)@.wf(),
        ensures
            final(self)@ == (CpuView { sound_timer: old(self)@.vx(), pc: old(self)@.pc + 2, ..old(self)@ }),
    {
        let x = self.reg_x();
        self.sound_timer = self.v[x];
        self.pc += 2;
    }

    /// FX1E: I := I + VX, not range-checked; I is a 16-bit register and wraps.
    pub fn oc_fx1e(&mut self)
        requires
            old(self)@.wf(),
        ensures
            final(self)@ == (CpuView { i: (old(self)@.i + old(self)@.vx()) % 0x10000, pc: old(self)@.pc + 2, ..old(self)@ }),
    {
        let x = self.reg_x();
        self.i = (self.i + self.v[x] as usize) % 0x10000;
        self.pc += 2;
    }

    /// FX29: I := address of the glyph for digit VX.
    pub fn oc_fx29(&mut self)
        requires
            old(self)@.wf(),
        ensures
            final(self)@ == (CpuView { i: old(self)@.vx() * 5, pc: old(self)@.pc + 2, ..old(self)@ }),
    {
        let x = self.reg_x();
        self.i = self.v[x] as usize * 5;
        self.pc += 2;
    }

    /// FX33: store the hundreds, tens and units digits of VX at I, I+1, I+2.
    pub fn oc_fx33(&mut self) -> (r: Result<(), CpuFault>)
        requires
            old(self)@.wf(),
        ensures
            outcome(r, old(self)@, final(self)@, sem_bcd(old(self)@)),
    {
        if self.i + 3 > MEMORY_SIZE {
            return Err(CpuFault::MemoryOutOfRange);
        }
        let x = self.reg_x();
        let vx = self.v[x];
        self.memory[self.i] = vx / 100;
        self.memory[self.i + 1] = (vx / 10) % 10;
        self.memory[self.i + 2] = vx % 10;
        self.pc += 2;
        Ok(())
    }

    /// FX55: store V0..VX in memory from I on; I is left as it was.
    pub fn oc_fx55(&mut self) -> (r: Result<(), CpuFault>)
        requires
            old(self)@.wf(),
        ensures
            outcome(r, old(self)@, final(self)@, sem_store_regs(old(self)@)),
    {
        let x = self.reg_x();
        if self.i + x >= MEMORY_SIZE {
            return Err(CpuFault::MemoryOutOfRange);
        }
        let ghost s0 = self@;
        let mut ind: usize = 0;
        while ind <= x
            invariant
                s0 == old(self)@,
                x == s0.x(),
                s0.i + x < MEMORY_SIZE,
                ind <= x + 1,
                self@ == (CpuView { memory: self@.memory, ..s0 }),
                forall|k: int|
                    0 <= k < MEMORY_SIZE ==> #[trigger] self@.memory[k] == if s0.i <= k < s0.i + ind {
                        s0.v[k - s0.i]
                    } else {
                        s0.memory[k]
                    },
            decreases x + 1 - ind,
        {
            self.memory[self.i + ind] = self.v[ind];
            ind += 1;
        }
        self.pc += 2;
        proof {
            let want = sem_store_regs(s0);
            assert(self@.memory =~= want.unwrap().memory);
        }
        Ok(())
    }

    /// FX65: load V0..VX from memory from I on; I is left as it was.
    pub fn oc_fx65(&mut self) -> (r: Result<(), CpuFault>)
        requires
            old(self)@.wf(),
        ensures
            outcome(r, old(self)@, final(self)@, sem_load_regs(old(self)@)),
    {
        let x = self.reg_x();
        if self.i + x >= MEMORY_SIZE {
            return Err(CpuFault::MemoryOutOfRange);
        }
        let ghost s0 = self@;
        let mut ind: usize = 0;
        while ind <= x
            invariant
                s0 == old(self)@,
                x == s0.x(),
                s0.i + x < MEMORY_SIZE,
                ind <= x + 1,
                self@ == (CpuView { v: self@.v, ..s0 }),
                forall|k: int|
                    0 <= k < NUM_REGISTERS ==> #[trigger] self@.v[k] == if k < ind {
                        s0.memory[s0.i + k]
                    } else {
                        s0.v[k]
                    },
            decreases x + 1 - ind,
        {
            self.v[ind] = self.memory[self.i + ind];
            ind += 1;
        }
        self.pc += 2;
        proof {
            let want = sem_load_regs(s0);
            assert(self@.v =~= want.unwrap().v);
        }
        Ok(())
    }

    /// DXYN: XOR-draw the N-row sprite at memory[I] with its top-left corner
    /// at (VX, VY), wrapping at the screen edges; VF := 1 iff a pixel went from
    /// on to off, else 0.
    pub fn oc_dxyn(&mut self) -> (r: Result<(), CpuFault>)
        requires
            old(self)@.wf(),
        ensures
            outcome(r, old(self)@, final(self)@, sem_draw(old(self)@)),
    {
        let x = self.v[self.reg_x()] as usize;
        let y = self.v[self.reg_y()] as usize;
        let height = (self.opcode % 16) as usize;
        if height > 0 && self.i + height > MEMORY_SIZE {
            return Err(CpuFault::MemoryOutOfRange);
        }
        let ghost s0 = self@;
        let mut collided = false;
        let mut row: usize = 0;
        while row < height
            invariant
                s0 == old(self)@,
                s0.wf(),
                x == s0.vx(),
                y == s0.vy(),
                height == s0.n(),
                row <= height,
                height > 0 ==> s0.i + height <= MEMORY_SIZE,
                self@ == (CpuView { gfx: self@.gfx, ..s0 }),
                drawn_upto(s0, self@.gfx, row as int, 0),
                collided == collided_upto(s0, row as int, 0),
            decreases height - row,
        {
            let pixel = self.memory[self.i + row];
            let mut col: usize = 0;
            while col < 8
                invariant
                    s0 == old(self)@,
                    s0.wf(),
                    x == s0.vx(),
                    y == s0.vy(),
                    height == s0.n(),
                    row < height,
                    col <= 8,
                    s0.i + height <= MEMORY_SIZE,
                    pixel == s0.memory[s0.i + row],
                    self@ == (CpuView { gfx: self@.gfx, ..s0 }),
                    drawn_upto(s0, self@.gfx, row as int, col as int),
                    collided == collided_upto(s0, row as int, col as int),
                decreases 8 - col,
            {
                let gr = (y + row) % CHIP8_HEIGHT;
                let gc = (x + col) % CHIP8_WIDTH;
                proof {
                    lemma_sprite_position(s0, row as int, col as int);
                }
                let ghost g0 = self@.gfx;
                proof {
                    lemma_step_done(s0, row as int, col as int);
                    assert(g0[gr as int][gc as int] == s0.gfx[gr as int][gc as int]);
                }
                if (pixel >> ((7 - col) as u8)) & 1u8 == 1u8 {
                    assert(draw_flips(s0, gr as int, gc as int));
                    let old_px = self.gfx[gr][gc];
                    if old_px == 1 {
                        collided = true;
                    }
                    self.gfx[gr][gc] = 1 - old_px;
                    proof {
                        let g1 = g0.update(gr as int, g0[gr as int].update(gc as int, (1 - old_px) as u8));
                        assert(self@.gfx =~~= g1);
                    }
                } else {
                    assert(!draw_flips(s0, gr as int, gc as int));
                    assert(self@.gfx =~~= g0);
                }
                col += 1;
            }
            proof {
                lemma_next_row(s0, row as int);
            }
            row += 1;
        }
        self.v[VF] = if collided { 1 } else { 0 };
        self.draw_flag = true;
        self.pc += 2;
        proof {
            lemma_drawn_all(s0, row as int);
            let want = sem_draw(s0).unwrap();
            assert(self@.gfx =~~= want.gfx);
            assert(self@.v =~= want.v);
        }
        Ok(())
    }

    /// Family 0: 00E0, 00EE, and 0NNN for every other word.
    fn decode_0(&mut self) -> (r: Result<(), CpuFault>)
        requires
            old(self)@.wf(),
        ensures
            outcome(r, old(self)@, final(self)@, exec_family_0(old(self)@)),
    {
        if self.opcode == 0x00E0 {
            self.oc_00e0();
            Ok(())
        } else if self.opcode == 0x00EE {
            self.oc_00ee()
        } else {
            self.oc_0nnn();
            Ok(())
        }
    }

    /// Family 8, by the low nibble.
    fn decode_8(&mut self) -> (r: Result<(), CpuFault>)
        requires
            old(self)@.wf(),
        ensures
            outcome(r, old(self)@, final(self)@, exec_family_8(old(self)@)),
    {
        let n = self.opcode % 16;
        if n == 0x0 {
            self.oc_8xy0();
        } else if n == 0x1 {
            self.oc_8xy1();
        } else if n == 0x2 {
            self.oc_8xy2();
        } else if n == 0x3 {
            self.oc_8xy3();
        } else if n == 0x4 {
            self.oc_8xy4();
        } else if n == 0x5 {
            self.oc_8xy5();
        } else if n == 0x6 {
            self.oc_8xy6();
        } else if n == 0x7 {
            self.oc_8xy7();
        } else if n == 0xE {
            self.oc_8xye();
        } else {
            return Err(CpuFault::UnknownOpcode(self.opcode));
        }
        Ok(())
    }

    /// Family E, by the low byte.
    fn decode_e(&mut self) -> (r: Result<(), CpuFault>)
        requires
            old(self)@.wf(),
        ensures
            outcome(r, old(self)@, final(self)@, exec_family_e(old(self)@)),
    {
        let kk = self.byte_kk();
        if kk == 0xA1 {
            self.oc_exa1();
        } else if kk == 0x9E {
            self.oc_ex9e();
        } else {
            return Err(CpuFault::UnknownOpcode(self.opcode));
        }
        Ok(())
    }

    /// Family F, by the low byte.
    fn decode_f(&mut self) -> (r: Result<(), CpuFault>)
        requires
            old(self)@.wf(),
        ensures
            outcome(r, old(self)@, final(self)@, exec_family_f(old(self)@)),
    {
        let kk = self.byte_kk();
        if kk == 0x07 {
            self.oc_fx07();
        } else if kk == 0x0A {
            self.oc_fx0a();
        } else if kk == 0x15 {
            self.oc_fx15();
        } else if kk == 0x18 {
            self.oc_fx18();
        } else if kk == 0x1E {
            self.oc_fx1e();
        } else if kk == 0x29 {
            self.oc_fx29();
        } else if kk == 0x33 {
            return self.oc_fx33();
        } else if kk == 0x55 {
            return self.oc_fx55();
        } else if kk == 0x65 {
            return self.oc_fx65();
        } else {
            return Err(CpuFault::UnknownOpcode(self.opcode));
        }
        Ok(())
    }

    /// Execute the instruction held in `opcode`, dispatching on its high
    /// nibble; `rnd` is the random byte that CXKK consumes. An unknown
    /// instruction, a stack overflow or underflow, or a memory access past
    /// 0xFFF is reported as a fault and leaves the machine as it was.
    pub fn decode_opcode(&mut self, rnd: u8) -> (r: Result<(), CpuFault>)
        requires
            old(self)@.wf(),
        ensures
            outcome(r, old(self)@, final(self)@, execute(old(self)@, rnd)),
            old(self).pc < MEMORY_SIZE ==> final(self)@.wf(),
    {
        proof {
            if self.pc < MEMORY_SIZE {
                lemma_execute_wf(self@, rnd);
            }
        }
        let family = self.opcode / 0x1000;
        if family == 0x0 {
            return self.decode_0();
        } else if family == 0x1 {
            self.oc_1nnn();
        } else if family == 0x2 {
            return self.oc_2nnn();
        } else if family == 0x3 {
            self.oc_3xkk();
        } else if family == 0x4 {
            self.oc_4xkk();
        } else if family == 0x5 {
            self.oc_5xy0();
        } else if family == 0x6 {
            self.oc_6xkk();
        } else if family == 0x7 {
            self.oc_7xkk();
        } else if family == 0x8 {
            return self.decode_8();
        } else if family == 0x9 {
            self.oc_9xy0();
        } else if family == 0xA {
            self.oc_annn();
        } else if family == 0xB {
            self.oc_bnnn();
        } else if family == 0xC {
            self.oc_cxkk(rnd);
        } else if family == 0xD {
            return self.oc_dxyn();
        } else if family == 0xE {
            return self.decode_e();
        } else {
            return self.decode_f();
        }
        Ok(())
    }

    /// One step with the key snapshot `keypad` and the random byte `rnd`
    /// (used only by CXKK): record the snapshot, then either resolve a
    /// pending key wait or fetch and execute one instruction.
    pub fn emulate_cycle_with(&mut self, keypad: [bool; NUM_KEYS], rnd: u8) -> (r: Result<(), CpuFault>)
        requires
            old(self)@.wf(),
        ensures
            (final(self)@, r) == step(old(self)@, keypad@, rnd),
            final(self)@.wf(),
    {
        self.keypad = keypad;
        if self.key_wait {
            let ghost s1 = self@;
            let mut k: usize = 0;
            while k < NUM_KEYS
                invariant
                    s1.wf(),
                    s1.key_wait,
                    s1.keypad == keypad@,
                    k <= NUM_KEYS,
                    self@ == match last_pressed(keypad@, k as int) {
                        Some(j) => CpuView {
                            key_wait: false,
                            v: s1.v.update(s1.key_wait_reg, j as u8),
                            ..s1
                        },
                        None => s1,
                    },
                decreases NUM_KEYS - k,
            {
                if keypad[k] {
                    self.key_wait = false;
                    self.v[self.key_wait_reg] = k as u8;
                    assert(self@.v =~= s1.v.update(s1.key_wait_reg, k as u8));
                }
                k += 1;
            }
            return Ok(());
        }
        if self.pc + 1 >= MEMORY_SIZE {
            return Err(CpuFault::MemoryOutOfRange);
        }
        self.opcode = (self.memory[self.pc] as u16) * 0x100 + self.memory[self.pc + 1] as u16;
        self.decode_opcode(rnd)
    }

    /// One step with the key snapshot `keypad`; a random byte below 255 is
    /// drawn for CXKK. The outcome is that of `emulate_cycle_with` for some
    /// such byte.
    pub fn emulate_cycle(&mut self, keypad: [bool; NUM_KEYS]) -> (r: Result<(), CpuFault>)
        requires
            old(self)@.wf(),
        ensures
            exists|rnd: u8| rnd < 255 && (final(self)@, r) == step(old(self)@, keypad@, rnd),
            final(self)@.wf(),
    {
        let rnd = random_below(255);
        self.emulate_cycle_with(keypad, rnd)
    }

    /// Reset the machine and load `program` at 0x200: PC := 0x200; I, SP,
    /// the opcode, registers, stack and timers cleared; memory holds the glyph
    /// set at 0..80, the program from 0x200 on (bytes past 0xFFF dropped), and
    /// zero elsewhere. Framebuffer, keypad and key-wait state are kept.
    pub fn initialize(&mut self, program: &[u8])
        requires
            old(self)@.wf(),
        ensures
            final(self)@ == (CpuView {
                opcode: 0,
                memory: load_image(program@),
                v: Seq::new(NUM_REGISTERS as nat, |k: int| 0u8),
                i: 0,
                pc: PROGRAM_START as int,
                delay_timer: 0,
                sound_timer: 0,
                stack: Seq::new(STACK_SIZE as nat, |k: int| 0u16),
                sp: 0,
                ..old(self)@
            }),
            final(self)@.wf(),
    {
        self.pc = PROGRAM_START;
        self.opcode = 0;
        self.i = 0;
        self.sp = 0;
        self.stack = [0u16; STACK_SIZE];
        self.v = [0u8; NUM_REGISTERS];
        self.memory = [0u8; MEMORY_SIZE];
        self.delay_timer = 0;
        self.sound_timer = 0;
        let ghost mid = self@;
        assert(mid.v =~= Seq::new(NUM_REGISTERS as nat, |k: int| 0u8));
        assert(mid.stack =~= Seq::new(STACK_SIZE as nat, |k: int| 0u16));
        let font = font_set();
        let mut k: usize = 0;
        while k < FONT_SIZE
            invariant
                k <= FONT_SIZE,
                font@ == font_glyphs(),
                self@ == (CpuView { memory: self@.memory, ..mid }),
                forall|a: int|
                    0 <= a < MEMORY_SIZE ==> #[trigger] self.memory@[a] == if a < k {
                        font_glyphs()[a]
                    } else {
                        0u8
                    },
            decreases FONT_SIZE - k,
        {
            self.memory[k] = font[k];
            k += 1;
        }
        let mut j: usize = 0;
        while j < program.len() && PROGRAM_START + j < MEMORY_SIZE
            invariant
                j <= program@.len(),
                PROGRAM_START + j <= MEMORY_SIZE,
                self@ == (CpuView { memory: self@.memory, ..mid }),
                forall|a: int|
                    0 <= a < MEMORY_SIZE ==> #[trigger] self.memory@[a] == if a < FONT_SIZE {
                        font_glyphs()[a]
                    } else if PROGRAM_START <= a < PROGRAM_START + j {
                        program@[a - PROGRAM_START]
                    } else {
                        0u8
                    },
            decreases program@.len() - j,
        {
            self.memory[PROGRAM_START + j] = program[j];
            j += 1;
        }
        assert(self.memory@ =~= load_image(program@));
    }
}

/// Whether the sprite cell (row, col) is drawn before the cell (row_done, col_done),
/// in the order rows first, columns within a row.
pub open spec fn cell_before(row: int, col: int, row_done: int, col_done: int) -> bool {
    row < row_done || (row == row_done && col < col_done)
}

/// The screen pixel (r, c) is among the cells drawn so far.
pub open spec fn pixel_done(s: CpuView, r: int, c: int, row_done: int, col_done: int) -> bool {
    cell_before(sprite_row(s.vy(), r), sprite_col(s.vx(), c), row_done, col_done)
}

/// `g` is the framebuffer of `s` with the cells before (row_done, col_done) drawn.
pub open spec fn drawn_upto(s: CpuView, g: Seq<Seq<u8>>, row_done: int, col_done: int) -> bool {
    &&& g.len() == CHIP8_HEIGHT
    &&& forall|r: int| 0 <= r < CHIP8_HEIGHT ==> #[trigger] g[r].len() == CHIP8_WIDTH
    &&& forall|r: int, c: int|
        0 <= r < CHIP8_HEIGHT && 0 <= c < CHIP8_WIDTH ==> #[trigger] g[r][c] == if draw_flips(s, r, c)
            && pixel_done(s, r, c, row_done, col_done) {
            (1 - s.gfx[r][c]) as u8
        } else {
            s.gfx[r][c]
        }
}

/// Some pixel drawn before (row_done, col_done) was on and was turned off.
pub open spec fn collided_upto(s: CpuView, row_done: int, col_done: int) -> bool {
    exists|r: int, c: int|
        0 <= r < CHIP8_HEIGHT && 0 <= c < CHIP8_WIDTH && #[trigger] draw_flips(s, r, c)
            && pixel_done(s, r, c, row_done, col_done) && s.gfx[r][c] == 1
}

proof fn lemma_sprite_position(s: CpuView, row: int, col: int)
    requires
        0 <= row < 16,
        0 <= col < 8,
    ensures
        sprite_row(s.vy(), (s.vy() + row) % (CHIP8_HEIGHT as int)) == row,
        sprite_col(s.vx(), (s.vx() + col) % (CHIP8_WIDTH as int)) == col,
        forall|r: int|
            0 <= r < CHIP8_HEIGHT ==> (#[trigger] sprite_row(s.vy(), r) == row <==> r == (s.vy() + row)
                % (CHIP8_HEIGHT as int)),
        forall|c: int|
            0 <= c < CHIP8_WIDTH ==> (#[trigger] sprite_col(s.vx(), c) == col <==> c == (s.vx() + col)
                % (CHIP8_WIDTH as int)),
{
}

proof fn lemma_step_done(s: CpuView, row: int, col: int)
    requires
        0 <= row < 16,
        0 <= col < 8,
    ensures
        forall|r: int, c: int|
            0 <= r < CHIP8_HEIGHT && 0 <= c < CHIP8_WIDTH ==> (#[trigger] pixel_done(s, r, c, row, col + 1)
                <==> pixel_done(s, r, c, row, col) || (r == (s.vy() + row) % (CHIP8_HEIGHT as int) && c
                == (s.vx() + col) % (CHIP8_WIDTH as int))),
{
    lemma_sprite_position(s, row, col);
}

proof fn lemma_next_row(s: CpuView, row: int)
    requires
        0 <= row < 16,
    ensures
        forall|r: int, c: int|
            0 <= r < CHIP8_HEIGHT && 0 <= c < CHIP8_WIDTH && #[trigger] draw_flips(s, r, c) ==> (
            pixel_done(s, r, c, row, 8) <==> pixel_done(s, r, c, row + 1, 0)),
{
}

proof fn lemma_drawn_all(s: CpuView, rows: int)
    requires
        rows == s.n(),
    ensures
        forall|r: int, c: int|
            0 <= r < CHIP8_HEIGHT && 0 <= c < CHIP8_WIDTH && #[trigger] draw_flips(s, r, c) ==> pixel_done(
                s,
                r,
                c,
                rows,
                0,
            ),
{
}

/// Every instruction fetched from within memory that completes keeps the
/// machine's invariant.
pub proof fn lemma_execute_wf(s: CpuView, rnd: u8)
    requires
        s.wf(),
        s.pc < MEMORY_SIZE,
    ensures
        execute(s, rnd) is Ok ==> execute(s, rnd)->Ok_0.wf(),
{
    if s.opcode as int / 0x1000 == 0xD && sem_draw(s) is Ok {
        let t = sem_draw(s)->Ok_0;
        assert forall|r: int, c: int| 0 <= r < CHIP8_HEIGHT && 0 <= c < CHIP8_WIDTH implies #[trigger] t.gfx[r][c] <= 1 by {
            assert(s.gfx[r][c] <= 1);
        }
    }
    if s.opcode as int / 0x1000 == 0x0 && s.opcode == 0x00E0 {
        let t = exec_family_0(s)->Ok_0;
        assert(t.gfx == blank_screen());
    }
}

/// Relies on `rand::Rng::gen_range` over `rand::thread_rng()`: a value drawn
/// from `[0, high)`; it panics when the range is empty.
#[verifier::external_body]
fn random_below(high: u8) -> (r: u8)
    requires
        0 < high,
    ensures
        r < high,
{
    rand::Rng::gen_range(&mut rand::thread_rng(), 0u8, high)
}

} // verus!
