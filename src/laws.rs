//! Properties of the engine that relate several instructions or hold of
//! every state, proved from the instruction semantics.
use vstd::prelude::*;
use crate::decode::{addr_of, kk_of, n_of, op_of, spec_decode, x_of, y_of, Instruction};
use crate::execute::{
    advance, collides, covers, drawn, run_instruction, sprite_rows, with_reg, Fault, FaultKind,
    StepOutcome,
};
use crate::machine::{Machine, LAST_PC};

verus! {

/// Loading an immediate: for every register X and byte KK, executing 6XKK
/// leaves KK in VX and moves the program counter on by 2.
pub proof fn lemma_load_immediate(m: Machine, x: u8, kk: u8, rnd: u8, key: Option<u8>)
    requires
        m.wf(),
        m.pc <= LAST_PC,
        x < 16,
    ensures
        run_instruction(m, 0x6000u16 | ((x as u16) << 8u16) | (kk as u16), rnd, key) matches Ok(
            (StepOutcome::Executed, next),
        ) && next.v[x as int] == kk && next.pc == m.pc + 2,
{
    let w = 0x6000u16 | ((x as u16) << 8u16) | (kk as u16);
    assert(op_of(w) == 6 && x_of(w) == x && kk_of(w) == kk && w != 0x00E0 && w != 0x00EE)
        by (bit_vector)
        requires
            w == 0x6000u16 | ((x as u16) << 8u16) | (kk as u16),
            x < 16,
    ;
    assert(spec_decode(w) == Some(Instruction::LoadImm { x, kk }));
}

/// Call and return: executing 2NNN and then, at NNN, 00EE brings the program
/// counter back to just after the call and the stack depth back to what it
/// was.
pub proof fn lemma_call_then_return(
    m: Machine,
    addr: u16,
    rnd1: u8,
    key1: Option<u8>,
    rnd2: u8,
    key2: Option<u8>,
)
    requires
        m.wf(),
        m.pc <= LAST_PC,
        m.sp < 16,
        addr <= LAST_PC,
    ensures
        ({
            let first = run_instruction(m, 0x2000u16 | addr, rnd1, key1);
            let called = first->Ok_0.1;
            let second = run_instruction(called, 0x00EEu16, rnd2, key2);
            let returned = second->Ok_0.1;
            &&& first is Ok && first->Ok_0.0 == StepOutcome::Executed
            &&& called.pc == addr
            &&& second is Ok && second->Ok_0.0 == StepOutcome::Executed
            &&& returned.pc == m.pc + 2
            &&& returned.sp == m.sp
        }),
{
    let w = 0x2000u16 | addr;
    assert(op_of(w) == 2 && addr_of(w) == addr && w != 0x00E0 && w != 0x00EE) by (bit_vector)
        requires
            w == 0x2000u16 | addr,
            addr <= 4094,
    ;
    assert(spec_decode(w) == Some(Instruction::Call { addr }));
    assert(spec_decode(0x00EEu16) == Some(Instruction::Return));
}

/// A flipped cell flipped again is what it was.
proof fn lemma_flip_twice(b: u8)
    ensures
        (b ^ 1u8) ^ 1u8 == b,
{
    assert((b ^ 1u8) ^ 1u8 == b) by (bit_vector);
}

/// Drawing a sprite twice: executing DXYN twice in a row (VX and VY not the
/// flag register) leaves the framebuffer as it was. On a blank screen the
/// first draw reports no collision, and the second reports one exactly when
/// the first lit a cell.
pub proof fn lemma_draw_twice(
    m: Machine,
    x: u8,
    y: u8,
    n: u8,
    rnd1: u8,
    key1: Option<u8>,
    rnd2: u8,
    key2: Option<u8>,
)
    requires
        m.wf(),
        m.pc + 2 <= LAST_PC,
        x < 15,
        y < 15,
        n < 16,
        m.i + n <= 4096,
    ensures
        ({
            let w = 0xD000u16 | ((x as u16) << 8u16) | ((y as u16) << 4u16) | (n as u16);
            let first = run_instruction(m, w, rnd1, key1);
            let once = first->Ok_0.1;
            let second = run_instruction(once, w, rnd2, key2);
            let twice = second->Ok_0.1;
            &&& first is Ok && first->Ok_0.0 == StepOutcome::Executed
            &&& second is Ok && second->Ok_0.0 == StepOutcome::Executed
            &&& twice.gfx == m.gfx
            &&& (forall|p: int| 0 <= p < 2048 ==> m.gfx[p] == 0) ==> (once.v[15] == 0 && (twice.v[15]
                == 1 <==> once.gfx != m.gfx))
        }),
{
    let w = 0xD000u16 | ((x as u16) << 8u16) | ((y as u16) << 4u16) | (n as u16);
    assert(op_of(w) == 0xD && x_of(w) == x && y_of(w) == y && n_of(w) == n && w != 0x00E0 && w
        != 0x00EE) by (bit_vector)
        requires
            w == 0xD000u16 | ((x as u16) << 8u16) | ((y as u16) << 4u16) | (n as u16),
            x < 16,
            y < 16,
            n < 16,
    ;
    assert(spec_decode(w) == Some(Instruction::Draw { x, y, n }));
    let sprite = sprite_rows(m, n);
    let x0 = m.v[x as int] as int;
    let y0 = m.v[y as int] as int;
    let g1 = drawn(m.gfx, sprite, x0, y0);
    let once = run_instruction(m, w, rnd1, key1)->Ok_0.1;
    assert(once.gfx == g1);
    assert(once.v[x as int] == m.v[x as int] && once.v[y as int] == m.v[y as int]);
    assert(sprite_rows(once, n) =~= sprite);
    let twice = run_instruction(once, w, rnd2, key2)->Ok_0.1;
    assert forall|p: int| 0 <= p < 2048 implies #[trigger] drawn(g1, sprite, x0, y0)[p] == m.gfx[p] by {
        lemma_flip_twice(m.gfx[p]);
    }
    assert(twice.gfx =~= m.gfx);
    if forall|p: int| 0 <= p < 2048 ==> m.gfx[p] == 0 {
        assert(!collides(m.gfx, sprite, x0, y0));
        if collides(g1, sprite, x0, y0) {
            let p = choose|p: int| 0 <= p < 2048 && #[trigger] covers(sprite, x0, y0, p) && g1[p] == 1;
            assert(g1[p] != m.gfx[p]);
        }
        if once.gfx != m.gfx {
            if !collides(g1, sprite, x0, y0) {
                assert forall|p: int| 0 <= p < 2048 implies g1[p] == m.gfx[p] by {
                    if covers(sprite, x0, y0, p) {
                        lemma_flip_twice(m.gfx[p]);
                        assert(0u8 ^ 1u8 == 1u8) by (bit_vector);
                    }
                }
                assert(g1 =~= m.gfx);
            }
        }
    }
}

/// Waiting for a key: FX0A with no key press at hand suspends and changes
/// nothing; once a key code is delivered, VX holds it, the program counter
/// moves on by 2, the timers tick, and nothing else changes.
pub proof fn lemma_wait_for_key(m: Machine, x: u8, rnd: u8, key: u8)
    requires
        m.wf(),
        m.pc <= LAST_PC,
        x < 16,
        key < 16,
    ensures
        run_instruction(m, 0xF00Au16 | ((x as u16) << 8u16), rnd, None) == Ok::<
            (StepOutcome, Machine),
            Fault,
        >((StepOutcome::AwaitingKey, m)),
        run_instruction(m, 0xF00Au16 | ((x as u16) << 8u16), rnd, Some(key)) == Ok::<
            (StepOutcome, Machine),
            Fault,
        >((StepOutcome::Executed, advance(with_reg(m, x, key), 2).tick())),
{
    let w = 0xF00Au16 | ((x as u16) << 8u16);
    assert(op_of(w) == 0xF && x_of(w) == x && kk_of(w) == 0x0A && w != 0x00E0 && w != 0x00EE)
        by (bit_vector)
        requires
            w == 0xF00Au16 | ((x as u16) << 8u16),
            x < 16,
    ;
    assert(spec_decode(w) == Some(Instruction::WaitKey { x }));
}

/// The delay timer only moves toward zero: every instruction but FX15 that
/// takes effect lowers a nonzero timer by one and leaves a zero timer at
/// zero, and a suspended wait changes nothing; so a timer at zero stays
/// there however many such instructions follow.
pub proof fn lemma_timer_floor(m: Machine, w: u16, rnd: u8, key: Option<u8>)
    requires
        !(spec_decode(w) matches Some(Instruction::SetDelay { .. })),
    ensures
        ({
            let r = run_instruction(m, w, rnd, key);
            &&& r matches Ok((StepOutcome::Executed, next)) ==> next.delay_timer == if m.delay_timer
                > 0 {
                m.delay_timer - 1
            } else {
                0
            }
            &&& r matches Ok((StepOutcome::AwaitingKey, next)) ==> next == m
            &&& m.delay_timer == 0 ==> (r matches Ok((_, next)) ==> next.delay_timer == 0)
        }),
{
}

/// An unknown instruction is fatal: for every word that decodes to no
/// instruction, the run ends with a fault that names the word and the
/// program counter.
pub proof fn lemma_unknown_instruction(m: Machine, w: u16, rnd: u8, key: Option<u8>)
    requires
        m.pc <= LAST_PC,
        spec_decode(w) is None,
    ensures
        run_instruction(m, w, rnd, key) == Err::<(StepOutcome, Machine), Fault>(
            Fault { kind: FaultKind::UnknownInstruction, opcode: w, pc: m.pc },
        ),
{
}

} // verus!
