use vstd::prelude::*;
use rand::Rng;
use crate::instruction::{decode_word, decode_spec, Instruction};
use crate::memory::{Memory, MEMORY_SIZE};

verus! {

/// Width of the framebuffer, in pixels.
pub const DISPLAY_WIDTH: usize = 64;

/// Height of the framebuffer, in pixels.
pub const DISPLAY_HEIGHT: usize = 32;

/// Number of general-purpose registers, V0 to VF.
pub const REGISTER_COUNT: usize = 16;

/// Number of keys on the keypad.
pub const KEY_COUNT: usize = 16;

/// Index of VF, the flag register.
pub const FLAG_REGISTER: usize = 15;

#[verifier::external_type_specification]
#[verifier::external_body]
pub struct ExThreadRng(rand::rngs::ThreadRng);

/// Relies on rand::thread_rng: a handle on the thread's generator, seeded from
/// the system on first use (it panics if the system source fails). Nothing is
/// promised of it.
pub assume_specification[ rand::thread_rng ]() -> rand::rngs::ThreadRng;

/// Relies on rand::Rng::gen::<u8> on a `ThreadRng`: the low byte of the
/// generator's next `u32`. Any byte may come back.
#[verifier::external_body]
fn random_byte(rng: &mut rand::rngs::ThreadRng) -> u8 {
    rng.gen::<u8>()
}

/// Why an instruction could not be executed. Each is fatal to the program.
#[derive(Debug, Clone, Copy, PartialEq, Eq, Structural)]
pub enum ExecError {
    /// The word is not in the instruction set.
    UnknownInstruction(u8, u8),
    /// `RET` with no return address on the stack.
    StackUnderflow,
    /// The instruction reaches past memory, or past a 16-bit address.
    AddressOutOfRange,
}

/// The machine state as a mathematical value. `vram` is indexed by column,
/// then row.
pub struct CpuState {
    pub pc: u16,
    pub stack: Seq<u16>,
    pub vram: Seq<Seq<u8>>,
    pub registers: Seq<u8>,
    pub i: u16,
    pub delay_timer: u8,
    pub sound_timer: u8,
    pub keys: Seq<bool>,
}

impl CpuState {
    /// The register file, keypad and framebuffer have their fixed sizes.
    pub open spec fn wf(self) -> bool {
        &&& self.registers.len() == REGISTER_COUNT
        &&& self.keys.len() == KEY_COUNT
        &&& self.vram.len() == DISPLAY_WIDTH
        &&& forall|x: int| 0 <= x < DISPLAY_WIDTH ==> (#[trigger] self.vram[x]).len() == DISPLAY_HEIGHT
    }

    /// The value of register `x`.
    pub open spec fn reg(self, x: u8) -> u8 {
        self.registers[x as int]
    }
}

/// A framebuffer with every pixel off.
pub open spec fn blank_screen() -> Seq<Seq<u8>> {
    Seq::new(DISPLAY_WIDTH as nat, |x: int| Seq::new(DISPLAY_HEIGHT as nat, |y: int| 0u8))
}

/// The state in which the machine starts, at program counter `pc`.
pub open spec fn initial_state(pc: u16) -> CpuState {
    CpuState {
        pc,
        stack: Seq::empty(),
        vram: blank_screen(),
        registers: Seq::new(REGISTER_COUNT as nat, |k: int| 0u8),
        i: 0,
        delay_timer: 0,
        sound_timer: 0,
        keys: Seq::new(KEY_COUNT as nat, |k: int| false),
    }
}

/// One tick of a timer: down by one, never below zero.
pub open spec fn tick(t: u8) -> u8 {
    if t > 0 { (t - 1) as u8 } else { 0 }
}

/// `a` reduced into `0..size`, for `0 <= a < 2 * size`.
pub open spec fn wrap(a: int, size: int) -> int {
    if a < size { a } else { a - size }
}

/// How far `p` lies past `base` on a circle of `size` cells.
pub open spec fn offset(p: int, base: int, size: int) -> int {
    if p >= base { p - base } else { p + size - base }
}

/// Bit `c` of a sprite row, counted from the most significant bit.
pub open spec fn bit_at(b: u8, c: int) -> u8 {
    (b >> ((7 - c) as u8)) & 1u8
}

/// The sprite bit that an `n`-row sprite read from `m` at `i` and drawn at
/// `(vx, vy)` places on pixel `(px, py)`, wrapping round the edges; 0 where the
/// sprite does not cover the pixel.
pub open spec fn sprite_pixel(m: Seq<u8>, i: u16, vx: u8, vy: u8, n: u8, px: int, py: int) -> u8 {
    let c = offset(px, (vx % 64) as int, DISPLAY_WIDTH as int);
    let r = offset(py, (vy % 32) as int, DISPLAY_HEIGHT as int);
    if c < 8 && r < n { bit_at(m[i + r], c) } else { 0 }
}

/// The framebuffer after that sprite is XORed onto `vram`.
pub open spec fn draw_screen(vram: Seq<Seq<u8>>, m: Seq<u8>, i: u16, vx: u8, vy: u8, n: u8) -> Seq<Seq<u8>> {
    Seq::new(
        DISPLAY_WIDTH as nat,
        |px: int|
            Seq::new(
                DISPLAY_HEIGHT as nat,
                |py: int| vram[px][py] ^ sprite_pixel(m, i, vx, vy, n, px, py),
            ),
    )
}

/// Sprite bit `c` of row `r` ANDed with the pixel it lands on in `vram`.
pub open spec fn collision_at(vram: Seq<Seq<u8>>, m: Seq<u8>, i: u16, bx: int, by: int, r: int, c: int) -> u8 {
    bit_at(m[i + r], c) & vram[wrap(bx + c, DISPLAY_WIDTH as int)][wrap(by + r, DISPLAY_HEIGHT as int)]
}

/// The flag a draw leaves in VF: the collision of the last bit drawn alone,
/// 0 for an empty sprite.
pub open spec fn draw_flag(vram: Seq<Seq<u8>>, m: Seq<u8>, i: u16, vx: u8, vy: u8, n: u8) -> u8 {
    if n == 0 { 0 } else { collision_at(vram, m, i, (vx % 64) as int, (vy % 32) as int, n - 1, 7) }
}

/// Why `ins` cannot run in state `s`, if it cannot.
pub open spec fn fault(s: CpuState, ins: Instruction) -> Option<ExecError> {
    match ins {
        Instruction::Unknown(h, l) => Some(ExecError::UnknownInstruction(h, l)),
        Instruction::RET => if s.stack.len() == 0 { Some(ExecError::StackUnderflow) } else { None },
        Instruction::SE(x, kk) => if s.reg(x) == kk && s.pc + 2 > 0xFFFF {
            Some(ExecError::AddressOutOfRange)
        } else {
            None
        },
        Instruction::SNE(x, kk) => if s.reg(x) != kk && s.pc + 2 > 0xFFFF {
            Some(ExecError::AddressOutOfRange)
        } else {
            None
        },
        Instruction::DRW(_, _, n) => if n > 0 && s.i + n > MEMORY_SIZE {
            Some(ExecError::AddressOutOfRange)
        } else {
            None
        },
        Instruction::LDB(_) => if s.i + 3 > MEMORY_SIZE { Some(ExecError::AddressOutOfRange) } else { None },
        Instruction::LDV(x) | Instruction::LDRM(x) => if x > 0 && s.i + x > MEMORY_SIZE {
            Some(ExecError::AddressOutOfRange)
        } else {
            None
        },
        Instruction::ADDI(x) => if s.i + s.reg(x) > 0xFFFF { Some(ExecError::AddressOutOfRange) } else { None },
        _ => None,
    }
}

/// The effect of `ins` on state `s` and memory `m`, once the timers have
/// ticked; `rnd` is the random byte that `RND` draws.
pub open spec fn apply(s: CpuState, m: Seq<u8>, ins: Instruction, rnd: u8) -> (CpuState, Seq<u8>) {
    let r = s.registers;
    match ins {
        Instruction::CLS => (CpuState { vram: blank_screen(), ..s }, m),
        Instruction::RET => (CpuState { pc: s.stack.last(), stack: s.stack.drop_last(), ..s }, m),
        Instruction::JP(a) => (CpuState { pc: a, ..s }, m),
        Instruction::CALL(a) => (CpuState { pc: a, stack: s.stack.push(s.pc), ..s }, m),
        Instruction::SE(x, kk) => if s.reg(x) == kk {
            (CpuState { pc: (s.pc + 2) as u16, ..s }, m)
        } else {
            (s, m)
        },
        Instruction::SNE(x, kk) => if s.reg(x) != kk {
            (CpuState { pc: (s.pc + 2) as u16, ..s }, m)
        } else {
            (s, m)
        },
        Instruction::LD(x, kk) => (CpuState { registers: r.update(x as int, kk), ..s }, m),
        Instruction::ADD(x, kk) => (
            CpuState { registers: r.update(x as int, ((s.reg(x) + kk) % 256) as u8), ..s },
            m,
        ),
        Instruction::LDR(x, y) => (CpuState { registers: r.update(x as int, s.reg(y)), ..s }, m),
        Instruction::AND(x, y) => (
            CpuState { registers: r.update(x as int, s.reg(x) & s.reg(y)), ..s },
            m,
        ),
        Instruction::XOR(x, y) => (
            CpuState { registers: r.update(x as int, s.reg(x) ^ s.reg(y)), ..s },
            m,
        ),
        Instruction::ADDC(x, y) => if s.reg(x) + s.reg(y) > 255 {
            (CpuState { registers: r.update(FLAG_REGISTER as int, 1), ..s }, m)
        } else {
            (CpuState { registers: r.update(x as int, (s.reg(x) + s.reg(y)) as u8), ..s }, m)
        },
        Instruction::SUB(x, y) => if s.reg(x) > s.reg(y) {
            (
                CpuState {
                    registers: r.update(FLAG_REGISTER as int, 1).update(
                        x as int,
                        (s.reg(x) - s.reg(y)) as u8,
                    ),
                    ..s
                },
                m,
            )
        } else {
            (s, m)
        },
        Instruction::LDI(a) => (CpuState { i: a, ..s }, m),
        Instruction::RND(x, kk) => (CpuState { registers: r.update(x as int, rnd & kk), ..s }, m),
        Instruction::DRW(x, y, n) => (
            CpuState {
                vram: draw_screen(s.vram, m, s.i, s.reg(x), s.reg(y), n),
                registers: r.update(
                    FLAG_REGISTER as int,
                    draw_flag(s.vram, m, s.i, s.reg(x), s.reg(y), n),
                ),
                ..s
            },
            m,
        ),
        Instruction::LDB(x) => (
            s,
            m.update(s.i as int, s.reg(x) / 100).update(s.i + 1, (s.reg(x) / 10) % 10).update(
                s.i + 2,
                s.reg(x) % 10,
            ),
        ),
        Instruction::LDF(x) => (CpuState { i: (s.reg(x) * 5) as u16, ..s }, m),
        Instruction::LDV(x) => (
            CpuState {
                registers: Seq::new(
                    REGISTER_COUNT as nat,
                    |k: int| if k < x { m[s.i + k] } else { r[k] },
                ),
                ..s
            },
            m,
        ),
        Instruction::LDRM(x) => (
            s,
            Seq::new(
                m.len(),
                |a: int| if s.i <= a < s.i + x { r[a - s.i] } else { m[a] },
            ),
        ),
        Instruction::LDDT(x) => (CpuState { delay_timer: s.reg(x), ..s }, m),
        Instruction::LDST(x) => (CpuState { sound_timer: s.reg(x), ..s }, m),
        Instruction::DTLD(x) => (CpuState { registers: r.update(x as int, s.delay_timer), ..s }, m),
        Instruction::ADDI(x) => (CpuState { i: (s.i + s.reg(x)) as u16, ..s }, m),
        Instruction::Unknown(_, _) => (s, m),
    }
}

/// Whether pixel `(px, py)` is among the sprite bits already drawn when the
/// draw has reached bit `bit` of row `row`.
pub open spec fn drawn(px: int, py: int, bx: int, by: int, n: u8, row: int, bit: int) -> bool {
    let c = offset(px, bx, DISPLAY_WIDTH as int);
    let r = offset(py, by, DISPLAY_HEIGHT as int);
    c < 8 && r < n && (r < row || (r == row && c < bit))
}

/// `s` with both timers ticked once.
pub open spec fn ticked(s: CpuState) -> CpuState {
    CpuState { delay_timer: tick(s.delay_timer), sound_timer: tick(s.sound_timer), ..s }
}

/// One executed instruction: the timers tick, then `ins` takes effect.
pub open spec fn step(s: CpuState, m: Seq<u8>, ins: Instruction, rnd: u8) -> (CpuState, Seq<u8>) {
    apply(ticked(s), m, ins, rnd)
}

/// The processor: program counter, call stack, framebuffer, registers,
/// index register, timers, keypad, and a random source for `RND`.
pub struct CPU {
    pc: u16,
    stack: Vec<u16>,
    vram: [[u8; DISPLAY_HEIGHT]; DISPLAY_WIDTH],
    registers: [u8; REGISTER_COUNT],
    i: u16,
    delay_timer: u8,
    sound_timer: u8,
    keys: [bool; KEY_COUNT],
    rnd: rand::rngs::ThreadRng,
}

impl View for CPU {
    type V = CpuState;

    closed spec fn view(&self) -> CpuState {
        CpuState {
            pc: self.pc,
            stack: self.stack@,
            vram: Seq::new(DISPLAY_WIDTH as nat, |x: int| self.vram@[x]@),
            registers: self.registers@,
            i: self.i,
            delay_timer: self.delay_timer,
            sound_timer: self.sound_timer,
            keys: self.keys@,
        }
    }
}

impl CPU {
    /// The state of every processor has the fixed sizes.
    pub proof fn lemma_wf(&self)
        ensures
            self@.wf(),
    {
    }

    /// A processor in its initial state, with the program counter at 0.
    pub fn new() -> (r: Self)
        ensures
            r@ == initial_state(0),
    {
        let r = CPU {
            pc: 0,
            stack: Vec::new(),
            vram: [[0u8; DISPLAY_HEIGHT]; DISPLAY_WIDTH],
            registers: [0u8; REGISTER_COUNT],
            i: 0,
            delay_timer: 0,
            sound_timer: 0,
            keys: [false; KEY_COUNT],
            rnd: rand::thread_rng(),
        };
        assert(r@.vram =~= blank_screen()) by {
            assert forall|x: int| 0 <= x < DISPLAY_WIDTH implies r@.vram[x] =~= blank_screen()[x] by {}
        }
        assert(r@.registers =~= initial_state(0).registers);
        assert(r@.keys =~= initial_state(0).keys);
        r
    }

    /// A processor in its initial state, with the program counter at `pc`.
    pub fn from_pc(pc: u16) -> (r: Self)
        ensures
            r@ == initial_state(pc),
    {
        let mut cpu = CPU::new();
        cpu.pc = pc;
        cpu
    }

    /// Reads the two bytes of the instruction word at the program counter and
    /// advances the program counter past them.
    pub fn fetch(&mut self, memory: &Memory) -> (r: (u8, u8))
        requires
            old(self)@.pc + 1 < MEMORY_SIZE,
        ensures
            r == (memory@[old(self)@.pc as int], memory@[old(self)@.pc + 1]),
            final(self)@ == (CpuState { pc: (old(self)@.pc + 2) as u16, ..old(self)@ }),
    {
        let high = memory.read(self.pc);
        let low = memory.read(self.pc + 1);
        self.pc = self.pc + 2;
        (high, low)
    }

    /// Decodes the word `high, low`.
    pub fn decode(&self, high: u8, low: u8) -> (r: Instruction)
        ensures
            r == decode_spec(high, low),
            r.wf(),
    {
        decode_word(high, low)
    }

    /// Turns every pixel off.
    pub fn clear_screen(&mut self)
        ensures
            final(self)@ == (CpuState { vram: blank_screen(), ..old(self)@ }),
    {
        let ghost s0 = self@;
        let mut x: usize = 0;
        while x < DISPLAY_WIDTH
            invariant
                x <= DISPLAY_WIDTH,
                self@ == (CpuState { vram: self@.vram, ..s0 }),
                forall|c: int| 0 <= c < x ==> (#[trigger] self.vram@[c])@ =~= blank_screen()[c],
                forall|c: int| x <= c < DISPLAY_WIDTH ==> (#[trigger] self.vram@[c])@ == s0.vram[c],
            decreases DISPLAY_WIDTH - x,
        {
            let mut y: usize = 0;
            let mut col = self.vram[x];
            while y < DISPLAY_HEIGHT
                invariant
                    y <= DISPLAY_HEIGHT,
                    forall|r: int| 0 <= r < y ==> col@[r] == 0,
                decreases DISPLAY_HEIGHT - y,
            {
                col[y] = 0;
                y = y + 1;
            }
            self.vram[x] = col;
            x = x + 1;
        }
        assert(self@.vram =~= blank_screen());
    }

    /// Whether a sound should be playing: the sound timer is running.
    pub fn play_sound(&self) -> (r: bool)
        ensures
            r == (self@.sound_timer > 0),
    {
        self.sound_timer > 0
    }

    /// The framebuffer, indexed by column, then row.
    pub fn vram(&self) -> (r: &[[u8; DISPLAY_HEIGHT]; DISPLAY_WIDTH])
        ensures
            forall|x: int, y: int|
                0 <= x < DISPLAY_WIDTH && 0 <= y < DISPLAY_HEIGHT ==> #[trigger] r@[x]@[y]
                    == self@.vram[x][y],
    {
        &self.vram
    }

    /// The program counter.
    pub fn pc(&self) -> (r: u16)
        ensures
            r == self@.pc,
    {
        self.pc
    }

    /// The index register I.
    pub fn index(&self) -> (r: u16)
        ensures
            r == self@.i,
    {
        self.i
    }

    /// The value of register `x`.
    pub fn register(&self, x: usize) -> (r: u8)
        requires
            x < REGISTER_COUNT,
        ensures
            r == self@.registers[x as int],
    {
        self.registers[x]
    }

    /// The delay timer.
    pub fn delay_timer(&self) -> (r: u8)
        ensures
            r == self@.delay_timer,
    {
        self.delay_timer
    }

    /// The sound timer.
    pub fn sound_timer(&self) -> (r: u8)
        ensures
            r == self@.sound_timer,
    {
        self.sound_timer
    }

    /// The number of return addresses on the call stack.
    pub fn stack_depth(&self) -> (r: usize)
        ensures
            r == self@.stack.len(),
    {
        self.stack.len()
    }

    /// Marks key `index` as held down.
    pub fn set_key(&mut self, index: usize)
        requires
            index < KEY_COUNT,
        ensures
            final(self)@ == (CpuState { keys: old(self)@.keys.update(index as int, true), ..old(self)@ }),
    {
        self.keys[index] = true;
    }

    /// Marks key `index` as released.
    pub fn reset_key(&mut self, index: usize)
        requires
            index < KEY_COUNT,
        ensures
            final(self)@ == (CpuState { keys: old(self)@.keys.update(index as int, false), ..old(self)@ }),
    {
        self.keys[index] = false;
    }

    /// Whether key `index` is held down.
    pub fn is_key_pressed(&self, index: usize) -> (r: bool)
        requires
            index < KEY_COUNT,
        ensures
            r == self@.keys[index as int],
    {
        self.keys[index]
    }

    /// XORs the `n`-row sprite at I onto the framebuffer at `(vx, vy)` and
    /// leaves the collision flag of the last bit drawn in VF.
    fn draw(&mut self, memory: &Memory, vx: u8, vy: u8, n: u8)
        requires
            n < 16,
            n > 0 ==> old(self)@.i + n <= MEMORY_SIZE,
        ensures
            final(self)@ == (CpuState {
                vram: draw_screen(old(self)@.vram, memory@, old(self)@.i, vx, vy, n),
                registers: old(self)@.registers.update(
                    FLAG_REGISTER as int,
                    draw_flag(old(self)@.vram, memory@, old(self)@.i, vx, vy, n),
                ),
                ..old(self)@
            }),
    {
        let ghost s0 = self@;
        let ghost m = memory@;
        let bx: usize = (vx % 64) as usize;
        let by: usize = (vy % 32) as usize;
        let mut flag: u8 = 0;
        let mut row: u8 = 0;
        while row < n
            invariant
                row <= n,
                n < 16,
                n > 0 ==> s0.i + n <= MEMORY_SIZE,
                m == memory@,
                bx == vx % 64,
                by == vy % 32,
                self@ == (CpuState { vram: self@.vram, ..s0 }),
                forall|px: int, py: int|
                    0 <= px < DISPLAY_WIDTH && 0 <= py < DISPLAY_HEIGHT ==> #[trigger] self.vram@[px]@[py]
                        == if drawn(px, py, bx as int, by as int, n, row as int, 0) {
                        s0.vram[px][py] ^ sprite_pixel(m, s0.i, vx, vy, n, px, py)
                    } else {
                        s0.vram[px][py]
                    },
                row == 0 ==> flag == 0,
                row > 0 ==> flag == collision_at(s0.vram, m, s0.i, bx as int, by as int, row - 1, 7),
            decreases n - row,
        {
            let py: usize = if by + (row as usize) < DISPLAY_HEIGHT {
                by + row as usize
            } else {
                by + row as usize - DISPLAY_HEIGHT
            };
            let byte = memory.read(self.i + row as u16);
            let mut bit: u8 = 0;
            while bit < 8
                invariant
                    bit <= 8,
                    row < n,
                    n < 16,
                    m == memory@,
                    bx == vx % 64,
                    by == vy % 32,
                    py == wrap(by + row, DISPLAY_HEIGHT as int),
                    byte == m[s0.i + row],
                    self@ == (CpuState { vram: self@.vram, ..s0 }),
                    forall|px: int, qy: int|
                        0 <= px < DISPLAY_WIDTH && 0 <= qy < DISPLAY_HEIGHT ==> #[trigger] self.vram@[px]@[qy]
                            == if drawn(px, qy, bx as int, by as int, n, row as int, bit as int) {
                            s0.vram[px][qy] ^ sprite_pixel(m, s0.i, vx, vy, n, px, qy)
                        } else {
                            s0.vram[px][qy]
                        },
                    bit == 0 && row == 0 ==> flag == 0,
                    bit == 0 && row > 0 ==> flag == collision_at(s0.vram, m, s0.i, bx as int, by as int, row - 1, 7),
                    bit > 0 ==> flag == collision_at(s0.vram, m, s0.i, bx as int, by as int, row as int, bit - 1),
                decreases 8 - bit,
            {
                let px: usize = if bx + (bit as usize) < DISPLAY_WIDTH {
                    bx + bit as usize
                } else {
                    bx + bit as usize - DISPLAY_WIDTH
                };
                let is_on: u8 = (byte >> (7 - bit)) & 1u8;
                assert(is_on == bit_at(byte, bit as int));
                let mut col = self.vram[px];
                flag = is_on & col[py];
                col[py] = col[py] ^ is_on;
                self.vram[px] = col;
                bit = bit + 1;
            }
            row = row + 1;
        }
        self.registers[FLAG_REGISTER] = flag;
        assert(self@.vram =~= draw_screen(s0.vram, m, s0.i, vx, vy, n)) by {
            assert forall|px: int| 0 <= px < DISPLAY_WIDTH implies self@.vram[px]
                =~= draw_screen(s0.vram, m, s0.i, vx, vy, n)[px] by {
                assert forall|py: int| 0 <= py < DISPLAY_HEIGHT implies self@.vram[px][py]
                    == draw_screen(s0.vram, m, s0.i, vx, vy, n)[px][py] by {
                    assert(self.vram@[px]@[py] == self@.vram[px][py]);
                    if !drawn(px, py, bx as int, by as int, n, n as int, 0) {
                        assert(sprite_pixel(m, s0.i, vx, vy, n, px, py) == 0);
                        let v = s0.vram[px][py];
                        assert(v ^ 0u8 == v) by (bit_vector);
                    }
                }
            }
        }
    }

    fn check(&self, instruction: &Instruction) -> (r: Option<ExecError>)
        requires
            instruction.wf(),
        ensures
            r == fault(self@, *instruction),
    {
        match *instruction {
            Instruction::Unknown(h, l) => Some(ExecError::UnknownInstruction(h, l)),
            Instruction::RET => if self.stack.len() == 0 {
                Some(ExecError::StackUnderflow)
            } else {
                None
            },
            Instruction::SE(x, kk) => if self.registers[x as usize] == kk && self.pc as u32 + 2 > 0xFFFF {
                Some(ExecError::AddressOutOfRange)
            } else {
                None
            },
            Instruction::SNE(x, kk) => if self.registers[x as usize] != kk && self.pc as u32 + 2 > 0xFFFF {
                Some(ExecError::AddressOutOfRange)
            } else {
                None
            },
            Instruction::DRW(_, _, n) => if n > 0 && self.i as usize + n as usize > MEMORY_SIZE {
                Some(ExecError::AddressOutOfRange)
            } else {
                None
            },
            Instruction::LDB(_) => if self.i as usize + 3 > MEMORY_SIZE {
                Some(ExecError::AddressOutOfRange)
            } else {
                None
            },
            Instruction::LDV(x) | Instruction::LDRM(x) => if x > 0 && self.i as usize + x as usize > MEMORY_SIZE {
                Some(ExecError::AddressOutOfRange)
            } else {
                None
            },
            Instruction::ADDI(x) => if self.i as u32 + self.registers[x as usize] as u32 > 0xFFFF {
                Some(ExecError::AddressOutOfRange)
            } else {
                None
            },
            _ => None,
        }
    }

    /// Executes `instruction`, with `random` as the byte that `RND` draws.
    /// Where the instruction cannot run (`fault`), nothing changes and the
    /// reason comes back; otherwise both timers tick and the instruction
    /// takes effect (`step`).
    pub fn execute_with_random(&mut self, memory: &mut Memory, instruction: &Instruction, random: u8) -> (r: Result<(), ExecError>)
        requires
            instruction.wf(),
        ensures
            match fault(old(self)@, *instruction) {
                Some(e) => r == Err::<(), ExecError>(e) && final(self)@ == old(self)@ && final(memory)@ == old(memory)@,
                None => r is Ok && (final(self)@, final(memory)@) == step(old(self)@, old(memory)@, *instruction, random),
            },
    {
        match self.check(instruction) {
            Some(e) => {
                return Err(e);
            },
            None => {},
        }
        proof { memory.lemma_len(); }
        self.decrement_timers();
        let ghost s = self@;
        let ghost m = memory@;
        match *instruction {
            Instruction::CLS => self.clear_screen(),
            Instruction::RET => {
                let a = self.stack.pop().unwrap();
                self.pc = a;
            },
            Instruction::JP(addr) => self.pc = addr,
            Instruction::CALL(addr) => {
                self.stack.push(self.pc);
                self.pc = addr;
            },
            Instruction::SE(x, kk) => {
                if self.registers[x as usize] == kk {
                    self.pc = self.pc + 2;
                }
            },
            Instruction::SNE(x, kk) => {
                if self.registers[x as usize] != kk {
                    self.pc = self.pc + 2;
                }
            },
            Instruction::LD(x, kk) => self.registers[x as usize] = kk,
            Instruction::ADD(x, kk) => {
                self.registers[x as usize] = self.registers[x as usize].wrapping_add(kk);
            },
            Instruction::LDR(x, y) => self.registers[x as usize] = self.registers[y as usize],
            Instruction::AND(x, y) => {
                self.registers[x as usize] = self.registers[x as usize] & self.registers[y as usize];
            },
            Instruction::XOR(x, y) => {
                self.registers[x as usize] = self.registers[x as usize] ^ self.registers[y as usize];
            },
            Instruction::ADDC(x, y) => {
                match self.registers[x as usize].checked_add(self.registers[y as usize]) {
                    Some(sum) => self.registers[x as usize] = sum,
                    None => self.registers[FLAG_REGISTER] = 1,
                }
            },
            Instruction::SUB(x, y) => {
                let a = self.registers[x as usize];
                let b = self.registers[y as usize];
                if a > b {
                    self.registers[FLAG_REGISTER] = 1;
                    self.registers[x as usize] = a - b;
                }
            },
            Instruction::LDI(addr) => self.i = addr,
            Instruction::RND(x, kk) => self.registers[x as usize] = random & kk,
            Instruction::DRW(x, y, n) => {
                let vx = self.registers[x as usize];
                let vy = self.registers[y as usize];
                self.draw(memory, vx, vy, n);
            },
            Instruction::LDB(x) => {
                let mut val = self.registers[x as usize];
                memory.write(self.i + 2, val % 10);
                val = val / 10;
                memory.write(self.i + 1, val % 10);
                val = val / 10;
                memory.write(self.i, val % 10);
                assert(memory@ =~= apply(s, m, *instruction, random).1);
            },
            Instruction::LDF(x) => self.i = self.registers[x as usize] as u16 * 5,
            Instruction::LDV(x) => {
                let mut k: u8 = 0;
                while k < x
                    invariant
                        k <= x,
                        x < REGISTER_COUNT,
                        x > 0 ==> s.i + x <= MEMORY_SIZE,
                        m == memory@,
                        m.len() == MEMORY_SIZE,
                        self@ == (CpuState { registers: self@.registers, ..s }),
                        self@.registers.len() == REGISTER_COUNT,
                        forall|j: int| 0 <= j < REGISTER_COUNT ==> #[trigger] self@.registers[j]
                            == if j < k { m[s.i + j] } else { s.registers[j] },
                    decreases x - k,
                {
                    self.registers[k as usize] = memory.read(self.i + k as u16);
                    k = k + 1;
                }
                assert(self@.registers =~= apply(s, m, *instruction, random).0.registers);
            },
            Instruction::LDRM(x) => {
                let mut k: u8 = 0;
                while k < x
                    invariant
                        k <= x,
                        x < REGISTER_COUNT,
                        x > 0 ==> s.i + x <= MEMORY_SIZE,
                        self@ == s,
                        m.len() == MEMORY_SIZE,
                        memory@.len() == MEMORY_SIZE,
                        forall|a: int| 0 <= a < m.len() ==> #[trigger] memory@[a]
                            == if s.i <= a < s.i + k { s.registers[a - s.i] } else { m[a] },
                    decreases x - k,
                {
                    memory.write(self.i + k as u16, self.registers[k as usize]);
                    proof { memory.lemma_len(); }
                    k = k + 1;
                }
                assert(memory@ =~= apply(s, m, *instruction, random).1);
            },
            Instruction::LDDT(x) => self.delay_timer = self.registers[x as usize],
            Instruction::LDST(x) => self.sound_timer = self.registers[x as usize],
            Instruction::DTLD(x) => self.registers[x as usize] = self.delay_timer,
            Instruction::ADDI(x) => self.i = self.i + self.registers[x as usize] as u16,
            Instruction::Unknown(_, _) => {},
        }
        Ok(())
    }

    /// Executes `instruction`, drawing the byte for `RND` from the random
    /// source. As `execute_with_random`, for some byte.
    pub fn execute(&mut self, memory: &mut Memory, instruction: &Instruction) -> (r: Result<(), ExecError>)
        requires
            instruction.wf(),
        ensures
            match fault(old(self)@, *instruction) {
                Some(e) => r == Err::<(), ExecError>(e) && final(self)@ == old(self)@ && final(memory)@ == old(memory)@,
                None => r is Ok && exists|b: u8| (final(self)@, final(memory)@) == #[trigger] step(old(self)@, old(memory)@, *instruction, b),
            },
    {
        let random: u8 = match *instruction {
            Instruction::RND(_, _) => random_byte(&mut self.rnd),
            _ => 0,
        };
        self.execute_with_random(memory, instruction, random)
    }

    fn decrement_timers(&mut self)
        ensures
            final(self)@ == ticked(old(self)@),
    {
        if self.delay_timer > 0 {
            self.delay_timer = self.delay_timer - 1;
        }
        if self.sound_timer > 0 {
            self.sound_timer = self.sound_timer - 1;
        }
    }
}

} // verus!
