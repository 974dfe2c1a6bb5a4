use vstd::prelude::*;
use crate::cpu::{
    step, tick, CpuState, DISPLAY_HEIGHT, DISPLAY_WIDTH, FLAG_REGISTER,
};
use crate::instruction::Instruction;
use crate::memory::FONT_SIZE;

verus! {

/// `ADD x, kk` leaves `(Vx + kk) mod 256` in Vx, for every pair of bytes.
pub proof fn lemma_add_wraps(s: CpuState, m: Seq<u8>, x: u8, kk: u8, rnd: u8)
    requires
        s.wf(),
        x < 16,
    ensures
        step(s, m, Instruction::ADD(x, kk), rnd).0.reg(x) == (s.reg(x) + kk) % 256,
{
}

/// `ADDC x, y` with x other than VF: when `Vx + Vy >= 256`, Vx keeps its value
/// and VF becomes 1; otherwise Vx becomes `Vx + Vy` and VF keeps its value.
pub proof fn lemma_addc_carry(s: CpuState, m: Seq<u8>, x: u8, y: u8, rnd: u8)
    requires
        s.wf(),
        x < 16,
        y < 16,
        x != FLAG_REGISTER,
    ensures
        ({
            let t = step(s, m, Instruction::ADDC(x, y), rnd).0;
            if s.reg(x) + s.reg(y) >= 256 {
                t.reg(x) == s.reg(x) && t.registers[FLAG_REGISTER as int] == 1
            } else {
                t.reg(x) == s.reg(x) + s.reg(y) && t.registers[FLAG_REGISTER as int]
                    == s.registers[FLAG_REGISTER as int]
            }
        }),
{
}

/// `SUB x, y` with x other than VF: when `Vx > Vy`, VF becomes 1 and Vx becomes
/// `Vx - Vy`; otherwise Vx and VF keep their values.
pub proof fn lemma_sub_borrow(s: CpuState, m: Seq<u8>, x: u8, y: u8, rnd: u8)
    requires
        s.wf(),
        x < 16,
        y < 16,
        x != FLAG_REGISTER,
    ensures
        ({
            let t = step(s, m, Instruction::SUB(x, y), rnd).0;
            if s.reg(x) > s.reg(y) {
                t.reg(x) == s.reg(x) - s.reg(y) && t.registers[FLAG_REGISTER as int] == 1
            } else {
                t.reg(x) == s.reg(x) && t.registers[FLAG_REGISTER as int]
                    == s.registers[FLAG_REGISTER as int]
            }
        }),
{
}

/// After `CLS` every pixel of the framebuffer is off.
pub proof fn lemma_clear_blanks(s: CpuState, m: Seq<u8>, rnd: u8, px: int, py: int)
    requires
        0 <= px < DISPLAY_WIDTH,
        0 <= py < DISPLAY_HEIGHT,
    ensures
        step(s, m, Instruction::CLS, rnd).0.vram[px][py] == 0,
{
}

/// Drawing the same sprite twice at the same registers, neither of them VF,
/// gives back the framebuffer from before the first draw.
pub proof fn lemma_draw_twice(s: CpuState, m: Seq<u8>, x: u8, y: u8, n: u8, r1: u8, r2: u8)
    requires
        s.wf(),
        x < 15,
        y < 15,
        n < 16,
    ensures
        ({
            let ins = Instruction::DRW(x, y, n);
            let (s1, m1) = step(s, m, ins, r1);
            step(s1, m1, ins, r2).0.vram == s.vram
        }),
{
    let ins = Instruction::DRW(x, y, n);
    let (s1, m1) = step(s, m, ins, r1);
    let s2 = step(s1, m1, ins, r2).0;
    assert(s1.reg(x) == s.reg(x) && s1.reg(y) == s.reg(y) && s1.i == s.i && m1 == m);
    assert forall|px: int| 0 <= px < DISPLAY_WIDTH implies s2.vram[px] =~= s.vram[px] by {
        assert forall|py: int| 0 <= py < DISPLAY_HEIGHT implies s2.vram[px][py] == s.vram[px][py] by {
            let v = s.vram[px][py];
            let b = crate::cpu::sprite_pixel(m, s.i, s.reg(x), s.reg(y), n, px, py);
            assert((v ^ b) ^ b == v) by (bit_vector);
        }
    }
    assert(s2.vram =~= s.vram);
}

/// `CALL a` followed by `RET` restores the program counter and the call stack
/// from before the call.
pub proof fn lemma_call_ret(s: CpuState, m: Seq<u8>, a: u16, r1: u8, r2: u8)
    ensures
        ({
            let (s1, m1) = step(s, m, Instruction::CALL(a), r1);
            let s2 = step(s1, m1, Instruction::RET, r2).0;
            s2.pc == s.pc && s2.stack == s.stack
        }),
{
    let (s1, m1) = step(s, m, Instruction::CALL(a), r1);
    let s2 = step(s1, m1, Instruction::RET, r2).0;
    assert(s2.stack =~= s.stack);
}

/// `LDB x` stores the three decimal digits of Vx, most significant first, at
/// I, I+1 and I+2.
pub proof fn lemma_ldb_digits(s: CpuState, m: Seq<u8>, x: u8, rnd: u8)
    requires
        s.wf(),
        x < 16,
        s.i + 2 < m.len(),
    ensures
        ({
            let m1 = step(s, m, Instruction::LDB(x), rnd).1;
            let i = s.i as int;
            &&& m1[i] < 10 && m1[i + 1] < 10 && m1[i + 2] < 10
            &&& m1[i] * 100 + m1[i + 1] * 10 + m1[i + 2] == s.reg(x)
        }),
{
    let v = s.reg(x) as int;
    assert(v / 100 < 10 && (v / 10) % 10 < 10 && v % 10 < 10 && (v / 100) * 100 + ((v / 10) % 10) * 10 + v % 10 == v) by (nonlinear_arith)
        requires
            0 <= v < 256,
    ;
}

/// `LDF x` with a digit in Vx points I at that digit's glyph, five bytes per
/// glyph, inside the font.
pub proof fn lemma_font_address(s: CpuState, m: Seq<u8>, x: u8, rnd: u8)
    requires
        s.wf(),
        x < 16,
    ensures
        step(s, m, Instruction::LDF(x), rnd).0.i == s.reg(x) * 5,
        s.reg(x) < 16 ==> step(s, m, Instruction::LDF(x), rnd).0.i + 5 <= FONT_SIZE,
{
}

/// The state after running the instructions of `prog` one after another;
/// `rnd` gives the bytes that `RND` draws at each step.
pub open spec fn run(s: CpuState, m: Seq<u8>, prog: Seq<Instruction>, rnd: Seq<u8>) -> (CpuState, Seq<u8>)
    decreases prog.len(),
{
    if prog.len() == 0 {
        (s, m)
    } else {
        let (s1, m1) = step(s, m, prog[0], rnd[0]);
        run(s1, m1, prog.drop_first(), rnd.drop_first())
    }
}

/// Every executed instruction other than `LDDT` ticks the delay timer once.
pub proof fn lemma_delay_ticks(s: CpuState, m: Seq<u8>, ins: Instruction, rnd: u8)
    requires
        !(ins is LDDT),
    ensures
        step(s, m, ins, rnd).0.delay_timer == tick(s.delay_timer),
{
}

/// After `k` instructions, none of them `LDDT`, a delay timer that started at
/// `d` reads `d - k`, or 0 once `k >= d`, and stays there.
pub proof fn lemma_delay_runs_down(s: CpuState, m: Seq<u8>, prog: Seq<Instruction>, rnd: Seq<u8>)
    requires
        forall|k: int| 0 <= k < prog.len() ==> !(#[trigger] prog[k] is LDDT),
    ensures
        run(s, m, prog, rnd).0.delay_timer == if s.delay_timer >= prog.len() {
            s.delay_timer - prog.len()
        } else {
            0
        },
    decreases prog.len(),
{
    if prog.len() > 0 {
        lemma_delay_ticks(s, m, prog[0], rnd[0]);
        let (s1, m1) = step(s, m, prog[0], rnd[0]);
        assert forall|k: int| 0 <= k < prog.drop_first().len() implies !(#[trigger] prog.drop_first()[k] is LDDT) by {
            assert(prog.drop_first()[k] == prog[k + 1]);
        }
        lemma_delay_runs_down(s1, m1, prog.drop_first(), rnd.drop_first());
    }
}

} // verus!
