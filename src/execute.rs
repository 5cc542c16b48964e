//! The execution engine: what each instruction does to the machine, and the
//! code that does it.
use vstd::prelude::*;
use crate::decode::{decode, fetch_instruction, fetched, spec_decode, Instruction};
use crate::machine::{Chip8State, Machine, LAST_PC};
use vstd::arithmetic::div_mod::{lemma_fundamental_div_mod, lemma_fundamental_div_mod_converse};

verus! {

/// Why execution cannot continue.
#[derive(PartialEq, Eq, Structural, Clone, Copy, Debug)]
pub enum FaultKind {
    /// The word at the program counter encodes no instruction.
    UnknownInstruction,
    /// A call with all sixteen stack slots in use.
    StackOverflow,
    /// A return with an empty stack.
    StackUnderflow,
    /// An access through I beyond the last memory address.
    MemoryOutOfRange,
    /// A key code outside 0x0..=0xF.
    KeyOutOfRange,
    /// A program counter at which no whole instruction fits in memory.
    PcOutOfRange,
}

/// A fatal error, with the instruction word and the address it stood at.
#[derive(PartialEq, Eq, Structural, Clone, Copy, Debug)]
pub struct Fault {
    pub kind: FaultKind,
    pub opcode: u16,
    pub pc: u16,
}

/// How an instruction that did not fault ended.
#[derive(PartialEq, Eq, Structural, Clone, Copy, Debug)]
pub enum StepOutcome {
    /// The instruction took effect.
    Executed,
    /// The instruction waits for a key press; nothing was changed.
    AwaitingKey,
}

/// Whether the sprite row `b` has the pixel in column `col` (0 is leftmost) set.
pub open spec fn sprite_bit(b: u8, col: int) -> bool {
    b & (0x80u8 >> (col as u8)) != 0u8
}

/// The sprite column that lands on cell `p` when the sprite's left edge is `x0`.
pub open spec fn col_of(x0: int, p: int) -> int {
    (p % 64 - x0) % 64
}

/// The sprite row that lands on cell `p` when the sprite's top edge is `y0`.
pub open spec fn row_of(y0: int, p: int) -> int {
    (p / 64 - y0) % 32
}

/// The cell on which the sprite pixel at (`row`, `col`) lands, each axis
/// wrapped onto the screen on its own.
pub open spec fn pixel_index(x0: int, y0: int, row: int, col: int) -> int {
    (x0 + col) % 64 + ((y0 + row) % 32) * 64
}

/// Whether a set pixel of `sprite` drawn at (`x0`, `y0`) lands on cell `p`.
pub open spec fn covers(sprite: Seq<u8>, x0: int, y0: int, p: int) -> bool {
    &&& col_of(x0, p) < 8
    &&& row_of(y0, p) < sprite.len()
    &&& sprite_bit(sprite[row_of(y0, p)], col_of(x0, p))
}

/// The framebuffer after XOR-drawing `sprite` at (`x0`, `y0`).
pub open spec fn drawn(gfx: Seq<u8>, sprite: Seq<u8>, x0: int, y0: int) -> Seq<u8> {
    Seq::new(2048, |p: int| if covers(sprite, x0, y0, p) { gfx[p] ^ 1u8 } else { gfx[p] })
}

/// Whether drawing `sprite` at (`x0`, `y0`) turns off a lit cell.
pub open spec fn collides(gfx: Seq<u8>, sprite: Seq<u8>, x0: int, y0: int) -> bool {
    exists|p: int| 0 <= p < 2048 && #[trigger] covers(sprite, x0, y0, p) && gfx[p] == 1
}

/// The `n` sprite rows stored in memory from address I.
pub open spec fn sprite_rows(m: Machine, n: u8) -> Seq<u8> {
    Seq::new(n as nat, |r: int| m.memory[m.i + r])
}

/// 8-bit addition, wrapping on overflow.
pub open spec fn wrap_add8(a: u8, b: u8) -> u8 {
    ((a + b) % 256) as u8
}

/// 8-bit subtraction, wrapping on underflow.
pub open spec fn wrap_sub8(a: u8, b: u8) -> u8 {
    if a >= b {
        (a - b) as u8
    } else {
        (a - b + 256) as u8
    }
}

/// The machine with the program counter moved on by `by` bytes.
pub open spec fn advance(m: Machine, by: int) -> Machine {
    Machine { pc: (m.pc + by) as u16, ..m }
}

/// The machine moved past the next instruction too when `cond` holds.
pub open spec fn skip_if(m: Machine, cond: bool) -> Machine {
    advance(m, if cond { 4 } else { 2 })
}

/// The machine with register `x` set to `val`.
pub open spec fn with_reg(m: Machine, x: u8, val: u8) -> Machine {
    Machine { v: m.v.update(x as int, val), ..m }
}

/// The effect of one instruction, before the timers move. `rnd` is the random
/// byte that a random-number instruction uses; `key` is the key code that a
/// wait-for-key instruction receives.
pub open spec fn effect(m: Machine, ins: Instruction, rnd: u8, key: u8) -> Result<Machine, FaultKind> {
    match ins {
        Instruction::Clear => Ok(Machine { gfx: Seq::new(2048, |p: int| 0u8), ..advance(m, 2) }),
        Instruction::Return => if m.sp == 0 {
            Err(FaultKind::StackUnderflow)
        } else {
            Ok(Machine { sp: (m.sp - 1) as u16, pc: (m.stack[m.sp - 1] + 2) as u16, ..m })
        },
        Instruction::Jump { addr } => Ok(Machine { pc: addr, ..m }),
        Instruction::Call { addr } => if m.sp >= 16 {
            Err(FaultKind::StackOverflow)
        } else {
            Ok(
                Machine {
                    stack: m.stack.update(m.sp as int, m.pc),
                    sp: (m.sp + 1) as u16,
                    pc: addr,
                    ..m
                },
            )
        },
        Instruction::SkipEqImm { x, kk } => Ok(skip_if(m, m.v[x as int] == kk)),
        Instruction::SkipNeImm { x, kk } => Ok(skip_if(m, m.v[x as int] != kk)),
        Instruction::SkipEqReg { x, y } => Ok(skip_if(m, m.v[x as int] == m.v[y as int])),
        Instruction::LoadImm { x, kk } => Ok(advance(with_reg(m, x, kk), 2)),
        Instruction::AddImm { x, kk } => Ok(advance(with_reg(m, x, wrap_add8(m.v[x as int], kk)), 2)),
        Instruction::Move { x, y } => Ok(advance(with_reg(m, x, m.v[y as int]), 2)),
        Instruction::AddReg { x, y } => {
            let sum = m.v[x as int] + m.v[y as int];
            let flagged = with_reg(m, 15, if sum > 255 { 1 } else { 0 });
            Ok(advance(with_reg(flagged, x, (sum % 256) as u8), 2))
        },
        Instruction::SubReg { x, y } => {
            let flagged = with_reg(m, 15, if m.v[x as int] > m.v[y as int] { 1 } else { 0 });
            Ok(advance(with_reg(flagged, x, wrap_sub8(flagged.v[x as int], flagged.v[y as int])), 2))
        },
        Instruction::SubnReg { x, y } => {
            let flagged = with_reg(m, 15, if m.v[y as int] > m.v[x as int] { 1 } else { 0 });
            Ok(advance(with_reg(flagged, x, wrap_sub8(flagged.v[y as int], flagged.v[x as int])), 2))
        },
        Instruction::SkipNeReg { x, y } => Ok(skip_if(m, m.v[x as int] != m.v[y as int])),
        Instruction::SetIndex { addr } => Ok(advance(Machine { i: addr, ..m }, 2)),
        Instruction::JumpOffset { addr } => Ok(Machine { pc: (addr + m.v[0]) as u16, ..m }),
        Instruction::Random { x, kk } => Ok(advance(with_reg(m, x, rnd & kk), 2)),
        Instruction::Draw { x, y, n } => if n > 0 && m.i + n > 4096 {
            Err(FaultKind::MemoryOutOfRange)
        } else {
            let sprite = sprite_rows(m, n);
            let x0 = m.v[x as int] as int;
            let y0 = m.v[y as int] as int;
            Ok(
                advance(
                    Machine {
                        gfx: drawn(m.gfx, sprite, x0, y0),
                        v: m.v.update(15, if collides(m.gfx, sprite, x0, y0) { 1 } else { 0 }),
                        ..m
                    },
                    2,
                ),
            )
        },
        Instruction::SkipKey { x } => if m.v[x as int] >= 16 {
            Err(FaultKind::KeyOutOfRange)
        } else {
            Ok(skip_if(m, m.keys[m.v[x as int] as int]))
        },
        Instruction::SkipNotKey { x } => if m.v[x as int] >= 16 {
            Err(FaultKind::KeyOutOfRange)
        } else {
            Ok(skip_if(m, !m.keys[m.v[x as int] as int]))
        },
        Instruction::ReadDelay { x } => Ok(advance(with_reg(m, x, m.delay_timer), 2)),
        Instruction::WaitKey { x } => if key >= 16 {
            Err(FaultKind::KeyOutOfRange)
        } else {
            Ok(advance(with_reg(m, x, key), 2))
        },
        Instruction::SetDelay { x } => Ok(advance(Machine { delay_timer: m.v[x as int], ..m }, 2)),
        Instruction::SetSound { x } => Ok(advance(Machine { sound_timer: m.v[x as int], ..m }, 2)),
        Instruction::AddIndex { x } => Ok(
            advance(Machine { i: ((m.i + m.v[x as int]) % 65536) as u16, ..m }, 2),
        ),
        Instruction::FontChar { x } => Ok(advance(Machine { i: (m.v[x as int] * 5) as u16, ..m }, 2)),
        Instruction::Bcd { x } => if m.i + 3 > 4096 {
            Err(FaultKind::MemoryOutOfRange)
        } else {
            let val = m.v[x as int];
            Ok(
                advance(
                    Machine {
                        memory: m.memory.update(m.i as int, val / 100).update(
                            m.i + 1,
                            (val / 10) % 10,
                        ).update(m.i + 2, val % 10),
                        ..m
                    },
                    2,
                ),
            )
        },
        Instruction::Store { x } => if m.i + x + 1 > 4096 {
            Err(FaultKind::MemoryOutOfRange)
        } else {
            Ok(
                advance(
                    Machine {
                        memory: Seq::new(
                            4096,
                            |k: int|
                                if m.i <= k <= m.i + x {
                                    m.v[k - m.i]
                                } else {
                                    m.memory[k]
                                },
                        ),
                        i: (m.i + x + 1) as u16,
                        ..m
                    },
                    2,
                ),
            )
        },
        Instruction::Load { x } => if m.i + x + 1 > 4096 {
            Err(FaultKind::MemoryOutOfRange)
        } else {
            Ok(
                advance(
                    Machine {
                        v: Seq::new(16, |k: int| if k <= x { m.memory[m.i + k] } else { m.v[k] }),
                        i: (m.i + x + 1) as u16,
                        ..m
                    },
                    2,
                ),
            )
        },
    }
}

/// One instruction: its effect, then one tick of both timers.
pub open spec fn execute(m: Machine, ins: Instruction, rnd: u8, key: u8) -> Result<Machine, FaultKind> {
    match effect(m, ins, rnd, key) {
        Ok(next) => Ok(next.tick()),
        Err(kind) => Err(kind),
    }
}

/// What the engine does with the word `w` at the program counter of `m`: the
/// outcome and the next machine state, or the fault that ends the run. A
/// wait-for-key instruction with no key press at hand suspends and changes
/// nothing.
pub open spec fn run_instruction(m: Machine, w: u16, rnd: u8, key: Option<u8>) -> Result<
    (StepOutcome, Machine),
    Fault,
> {
    if m.pc > LAST_PC {
        Err(Fault { kind: FaultKind::PcOutOfRange, opcode: w, pc: m.pc })
    } else {
        match spec_decode(w) {
            None => Err(Fault { kind: FaultKind::UnknownInstruction, opcode: w, pc: m.pc }),
            Some(ins) => if ins is WaitKey && key is None {
                Ok((StepOutcome::AwaitingKey, m))
            } else {
                match execute(m, ins, rnd, key.unwrap_or(0)) {
                    Ok(next) => Ok((StepOutcome::Executed, next)),
                    Err(kind) => Err(Fault { kind, opcode: w, pc: m.pc }),
                }
            },
        }
    }
}

/// The word fetched at the program counter, run as `run_instruction` says.
pub open spec fn run_step(m: Machine, rnd: u8, key: Option<u8>) -> Result<(StepOutcome, Machine), Fault> {
    if m.pc > LAST_PC {
        Err(Fault { kind: FaultKind::PcOutOfRange, opcode: 0, pc: m.pc })
    } else {
        run_instruction(m, fetched(m), rnd, key)
    }
}

/// The sprite pixel at (`row`, `col`) lands on a cell of the screen, and that
/// cell is the only one that `col_of` and `row_of` map back to it.
proof fn lemma_pixel_index(x0: int, y0: int, row: int, col: int)
    requires
        0 <= x0 < 256,
        0 <= y0 < 256,
        0 <= row < 32,
        0 <= col < 8,
    ensures
        0 <= pixel_index(x0, y0, row, col) < 2048,
        col_of(x0, pixel_index(x0, y0, row, col)) == col,
        row_of(y0, pixel_index(x0, y0, row, col)) == row,
        forall|p: int|
            0 <= p < 2048 && col_of(x0, p) == col && row_of(y0, p) == row ==> p == pixel_index(
                x0,
                y0,
                row,
                col,
            ),
{
    let cx = (x0 + col) % 64;
    let ry = (y0 + row) % 32;
    let q = pixel_index(x0, y0, row, col);
    lemma_fundamental_div_mod(x0 + col, 64);
    lemma_fundamental_div_mod(y0 + row, 32);
    lemma_fundamental_div_mod_converse(q, 64, ry, cx);
    let a = (x0 + col) / 64;
    lemma_fundamental_div_mod_converse(cx - x0, 64, -a, col);
    let c = (y0 + row) / 32;
    lemma_fundamental_div_mod_converse(ry - y0, 32, -c, row);
    assert forall|p: int|
        0 <= p < 2048 && col_of(x0, p) == col && row_of(y0, p) == row implies p == q by {
        let pc = p % 64;
        let pr = p / 64;
        lemma_fundamental_div_mod(p, 64);
        lemma_fundamental_div_mod(pc - x0, 64);
        lemma_fundamental_div_mod(pr - y0, 32);
        let b = (pc - x0) / 64;
        let e = (pr - y0) / 32;
        lemma_fundamental_div_mod_converse(x0 + col, 64, -b, pc);
        lemma_fundamental_div_mod_converse(y0 + row, 32, -e, pr);
    }
}

/// Cells that hold 0 or 1 still do after a flip.
proof fn lemma_flip(b: u8)
    requires
        b <= 1,
    ensures
        b ^ 1u8 <= 1,
        b ^ 1u8 == 1 - b,
{
    assert(b <= 1 ==> b ^ 1u8 <= 1 && b ^ 1u8 == 1 - b) by (bit_vector);
}

/// Whether a set sprite pixel that comes before (`row`, `col`), in row-major
/// order, lands on cell `p`.
pub open spec fn covers_before(sprite: Seq<u8>, x0: int, y0: int, p: int, row: int, col: int) -> bool {
    &&& covers(sprite, x0, y0, p)
    &&& (row_of(y0, p) < row || (row_of(y0, p) == row && col_of(x0, p) < col))
}

/// Whether such a pixel lands on a cell that was lit in `gfx`.
pub open spec fn collides_before(gfx: Seq<u8>, sprite: Seq<u8>, x0: int, y0: int, row: int, col: int) -> bool {
    exists|p: int|
        0 <= p < 2048 && #[trigger] covers_before(sprite, x0, y0, p, row, col) && gfx[p] == 1
}

/// XOR-draws the `n`-row sprite at I onto the framebuffer at (`x0`, `y0`) and
/// sets VF to whether a lit cell was turned off.
fn draw_sprite(state: &mut Chip8State, x0: u8, y0: u8, n: u8)
    requires
        old(state).wf(),
        n < 16,
        n == 0 || old(state).i + n <= 4096,
    ensures
        final(state)@ == (Machine {
            gfx: drawn(old(state)@.gfx, sprite_rows(old(state)@, n), x0 as int, y0 as int),
            v: old(state)@.v.update(
                15,
                if collides(old(state)@.gfx, sprite_rows(old(state)@, n), x0 as int, y0 as int) {
                    1
                } else {
                    0
                },
            ),
            ..old(state)@
        }),
        final(state).wf(),
{
    let ghost old_gfx = state.gfx@;
    let ghost sprite = sprite_rows(state@, n);
    let ghost gx = x0 as int;
    let ghost gy = y0 as int;
    let base = state.i as usize;
    let mut collision = false;
    let mut row: usize = 0;
    while row < n as usize
        invariant
            row <= n,
            n < 16,
            base == old(state).i,
            n == 0 || base + n <= 4096,
            sprite == sprite_rows(old(state)@, n),
            old_gfx == old(state).gfx@,
            gx == x0,
            gy == y0,
            old(state).wf(),
            state.memory == old(state).memory,
            state.v == old(state).v,
            state.i == old(state).i,
            state.pc == old(state).pc,
            state.delay_timer == old(state).delay_timer,
            state.sound_timer == old(state).sound_timer,
            state.stack == old(state).stack,
            state.sp == old(state).sp,
            state.key == old(state).key,
            forall|p: int|
                0 <= p < 2048 ==> #[trigger] state.gfx@[p] == if covers_before(
                    sprite,
                    gx,
                    gy,
                    p,
                    row as int,
                    0,
                ) {
                    old_gfx[p] ^ 1u8
                } else {
                    old_gfx[p]
                },
            collision == collides_before(old_gfx, sprite, gx, gy, row as int, 0),
        decreases n - row,
    {
        let pixel = state.memory[base + row];
        assert(pixel == sprite[row as int]);
        let mut col: usize = 0;
        while col < 8
            invariant
                row < n,
                col <= 8,
                n < 16,
                base == old(state).i,
                base + n <= 4096,
                sprite == sprite_rows(old(state)@, n),
                pixel == sprite[row as int],
                old_gfx == old(state).gfx@,
                gx == x0,
                gy == y0,
                old(state).wf(),
                state.memory == old(state).memory,
                state.v == old(state).v,
                state.i == old(state).i,
                state.pc == old(state).pc,
                state.delay_timer == old(state).delay_timer,
                state.sound_timer == old(state).sound_timer,
                state.stack == old(state).stack,
                state.sp == old(state).sp,
                state.key == old(state).key,
                forall|p: int|
                    0 <= p < 2048 ==> #[trigger] state.gfx@[p] == if covers_before(
                        sprite,
                        gx,
                        gy,
                        p,
                        row as int,
                        col as int,
                    ) {
                        old_gfx[p] ^ 1u8
                    } else {
                        old_gfx[p]
                    },
                collision == collides_before(old_gfx, sprite, gx, gy, row as int, col as int),
            decreases 8 - col,
        {
            let ghost before = state.gfx@;
            let ghost q = pixel_index(gx, gy, row as int, col as int);
            proof {
                lemma_pixel_index(gx, gy, row as int, col as int);
            }
            if pixel & (0x80u8 >> col as u8) != 0 {
                let pos = (x0 as usize + col) % 64 + ((y0 as usize + row) % 32) * 64;
                assert(pos == q);
                assert(covers(sprite, gx, gy, q));
                assert(!covers_before(sprite, gx, gy, q, row as int, col as int));
                let cell = state.gfx[pos];
                assert(cell == old_gfx[q]);
                proof {
                    lemma_flip(cell);
                }
                if cell == 1 {
                    collision = true;
                }
                state.gfx[pos] = cell ^ 1u8;
                proof {
                assert forall|p: int| 0 <= p < 2048 implies #[trigger] covers_before(
                    sprite,
                    gx,
                    gy,
                    p,
                    row as int,
                    col + 1,
                ) == (covers_before(sprite, gx, gy, p, row as int, col as int) || p == q) by {}
                assert forall|p: int| 0 <= p < 2048 implies #[trigger] state.gfx@[p] == if covers_before(
                    sprite,
                    gx,
                    gy,
                    p,
                    row as int,
                    col + 1,
                ) {
                    old_gfx[p] ^ 1u8
                } else {
                    old_gfx[p]
                } by {
                    if p != q {
                        assert(state.gfx@[p] == before[p]);
                    }
                }
                if collides_before(old_gfx, sprite, gx, gy, row as int, col + 1) {
                    let p = choose|p: int|
                        0 <= p < 2048 && #[trigger] covers_before(sprite, gx, gy, p, row as int, col + 1)
                            && old_gfx[p] == 1;
                    if p != q {
                        assert(covers_before(sprite, gx, gy, p, row as int, col as int));
                    }
                }
                if collision {
                    if cell == 1 {
                        assert(covers_before(sprite, gx, gy, q, row as int, col + 1));
                    } else {
                        let p = choose|p: int|
                            0 <= p < 2048 && #[trigger] covers_before(sprite, gx, gy, p, row as int, col as int)
                                && old_gfx[p] == 1;
                        assert(covers_before(sprite, gx, gy, p, row as int, col + 1));
                    }
                }
                }
            } else {
                proof {
                assert(!covers(sprite, gx, gy, q));
                assert forall|p: int| 0 <= p < 2048 implies #[trigger] covers_before(
                    sprite,
                    gx,
                    gy,
                    p,
                    row as int,
                    col + 1,
                ) == covers_before(sprite, gx, gy, p, row as int, col as int) by {}
                if collides_before(old_gfx, sprite, gx, gy, row as int, col + 1) {
                    let p = choose|p: int|
                        0 <= p < 2048 && #[trigger] covers_before(sprite, gx, gy, p, row as int, col + 1)
                            && old_gfx[p] == 1;
                    assert(covers_before(sprite, gx, gy, p, row as int, col as int));
                }
                if collides_before(old_gfx, sprite, gx, gy, row as int, col as int) {
                    let p = choose|p: int|
                        0 <= p < 2048 && #[trigger] covers_before(sprite, gx, gy, p, row as int, col as int)
                            && old_gfx[p] == 1;
                    assert(covers_before(sprite, gx, gy, p, row as int, col + 1));
                }
                }
            }
            col = col + 1;
        }
        proof {
        assert forall|p: int| 0 <= p < 2048 implies #[trigger] covers_before(
            sprite,
            gx,
            gy,
            p,
            row + 1,
            0,
        ) == covers_before(sprite, gx, gy, p, row as int, 8) by {}
        if collides_before(old_gfx, sprite, gx, gy, row + 1, 0) {
            let p = choose|p: int|
                0 <= p < 2048 && #[trigger] covers_before(sprite, gx, gy, p, row + 1, 0)
                    && old_gfx[p] == 1;
            assert(covers_before(sprite, gx, gy, p, row as int, 8));
        }
        if collides_before(old_gfx, sprite, gx, gy, row as int, 8) {
            let p = choose|p: int|
                0 <= p < 2048 && #[trigger] covers_before(sprite, gx, gy, p, row as int, 8)
                    && old_gfx[p] == 1;
            assert(covers_before(sprite, gx, gy, p, row + 1, 0));
        }
        }
        row = row + 1;
    }
    proof {
    assert forall|p: int| 0 <= p < 2048 implies #[trigger] covers_before(sprite, gx, gy, p, n as int, 0)
        == covers(sprite, gx, gy, p) by {}
    assert(state.gfx@ =~= drawn(old_gfx, sprite, gx, gy));
    if collision {
        let p = choose|p: int|
            0 <= p < 2048 && #[trigger] covers_before(sprite, gx, gy, p, n as int, 0) && old_gfx[p] == 1;
        assert(covers(sprite, gx, gy, p));
    }
    if collides(old_gfx, sprite, gx, gy) {
        let p = choose|p: int| 0 <= p < 2048 && #[trigger] covers(sprite, gx, gy, p) && old_gfx[p] == 1;
        assert(covers_before(sprite, gx, gy, p, n as int, 0));
    }
    }
    state.v[15] = if collision { 1 } else { 0 };
    assert forall|p: int| 0 <= p < 2048 implies #[trigger] state.gfx@[p] <= 1 by {
        assert(old_gfx[p] <= 1);
        lemma_flip(old_gfx[p]);
    }
}

/// Copies V0..=VX into memory from address I.
fn store_registers(state: &mut Chip8State, x: u8)
    requires
        old(state).wf(),
        x < 16,
        old(state).i + x + 1 <= 4096,
    ensures
        final(state)@ == (Machine {
            memory: Seq::new(
                4096,
                |k: int|
                    if old(state).i <= k <= old(state).i + x {
                        old(state).v@[k - old(state).i]
                    } else {
                        old(state).memory@[k]
                    },
            ),
            ..old(state)@
        }),
{
    let base = state.i as usize;
    let mut k: usize = 0;
    while k <= x as usize
        invariant
            k <= x + 1,
            x < 16,
            base == old(state).i,
            base + x + 1 <= 4096,
            state.v == old(state).v,
            state.i == old(state).i,
            state.pc == old(state).pc,
            state.gfx == old(state).gfx,
            state.delay_timer == old(state).delay_timer,
            state.sound_timer == old(state).sound_timer,
            state.stack == old(state).stack,
            state.sp == old(state).sp,
            state.key == old(state).key,
            forall|q: int|
                0 <= q < 4096 ==> #[trigger] state.memory@[q] == if base <= q < base + k {
                    old(state).v@[q - base]
                } else {
                    old(state).memory@[q]
                },
        decreases x + 1 - k,
    {
        state.memory[base + k] = state.v[k];
        k = k + 1;
    }
    assert(state.memory@ =~= Seq::new(
        4096,
        |q: int|
            if old(state).i <= q <= old(state).i + x {
                old(state).v@[q - old(state).i]
            } else {
                old(state).memory@[q]
            },
    ));
}

/// Copies memory from address I into V0..=VX.
fn load_registers(state: &mut Chip8State, x: u8)
    requires
        old(state).wf(),
        x < 16,
        old(state).i + x + 1 <= 4096,
    ensures
        final(state)@ == (Machine {
            v: Seq::new(
                16,
                |k: int|
                    if k <= x {
                        old(state).memory@[old(state).i + k]
                    } else {
                        old(state).v@[k]
                    },
            ),
            ..old(state)@
        }),
{
    let base = state.i as usize;
    let mut k: usize = 0;
    while k <= x as usize
        invariant
            k <= x + 1,
            x < 16,
            base == old(state).i,
            base + x + 1 <= 4096,
            state.memory == old(state).memory,
            state.i == old(state).i,
            state.pc == old(state).pc,
            state.gfx == old(state).gfx,
            state.delay_timer == old(state).delay_timer,
            state.sound_timer == old(state).sound_timer,
            state.stack == old(state).stack,
            state.sp == old(state).sp,
            state.key == old(state).key,
            forall|q: int|
                0 <= q < 16 ==> #[trigger] state.v@[q] == if q < k {
                    old(state).memory@[base + q]
                } else {
                    old(state).v@[q]
                },
        decreases x + 1 - k,
    {
        state.v[k] = state.memory[base + k];
        k = k + 1;
    }
    assert(state.v@ =~= Seq::new(
        16,
        |q: int|
            if q <= x {
                old(state).memory@[old(state).i + q]
            } else {
                old(state).v@[q]
            },
    ));
}

/// Applies the effect of one instruction, as `effect` states it; on a fault
/// nothing changes.
#[verifier::rlimit(50)]
fn apply_effect(state: &mut Chip8State, ins: Instruction, rnd: u8, key: u8) -> (r: Result<(), FaultKind>)
    requires
        old(state).wf(),
        old(state).pc <= LAST_PC,
        ins.wf(),
    ensures
        match effect(old(state)@, ins, rnd, key) {
            Ok(next) => r is Ok && final(state)@ == next,
            Err(kind) => r == Err::<(), FaultKind>(kind) && final(state)@ == old(state)@,
        },
        final(state).wf(),
{
    match ins {
        Instruction::Clear => {
            state.gfx = [0u8; 2048];
            state.pc = state.pc + 2;
            assert(state.gfx@ =~= Seq::new(2048, |p: int| 0u8));
        },
        Instruction::Return => {
            if state.sp == 0 {
                return Err(FaultKind::StackUnderflow);
            }
            state.sp = state.sp - 1;
            state.pc = state.stack[state.sp as usize] + 2;
        },
        Instruction::Jump { addr } => {
            state.pc = addr;
        },
        Instruction::Call { addr } => {
            if state.sp >= 16 {
                return Err(FaultKind::StackOverflow);
            }
            state.stack[state.sp as usize] = state.pc;
            state.sp = state.sp + 1;
            state.pc = addr;
        },
        Instruction::SkipEqImm { x, kk } => {
            state.pc = if state.v[x as usize] == kk { state.pc + 4 } else { state.pc + 2 };
        },
        Instruction::SkipNeImm { x, kk } => {
            state.pc = if state.v[x as usize] != kk { state.pc + 4 } else { state.pc + 2 };
        },
        Instruction::SkipEqReg { x, y } => {
            state.pc = if state.v[x as usize] == state.v[y as usize] { state.pc + 4 } else { state.pc + 2 };
        },
        Instruction::LoadImm { x, kk } => {
            state.v[x as usize] = kk;
            state.pc = state.pc + 2;
        },
        Instruction::AddImm { x, kk } => {
            state.v[x as usize] = ((state.v[x as usize] as u16 + kk as u16) % 256) as u8;
            state.pc = state.pc + 2;
        },
        Instruction::Move { x, y } => {
            state.v[x as usize] = state.v[y as usize];
            state.pc = state.pc + 2;
        },
        Instruction::AddReg { x, y } => {
            let sum = state.v[x as usize] as u16 + state.v[y as usize] as u16;
            state.v[15] = if sum > 0xFF { 1 } else { 0 };
            state.v[x as usize] = (sum % 256) as u8;
            state.pc = state.pc + 2;
        },
        Instruction::SubReg { x, y } => {
            state.v[15] = if state.v[x as usize] > state.v[y as usize] { 1 } else { 0 };
            state.v[x as usize] = state.v[x as usize].wrapping_sub(state.v[y as usize]);
            state.pc = state.pc + 2;
        },
        Instruction::SubnReg { x, y } => {
            state.v[15] = if state.v[y as usize] > state.v[x as usize] { 1 } else { 0 };
            state.v[x as usize] = state.v[y as usize].wrapping_sub(state.v[x as usize]);
            state.pc = state.pc + 2;
        },
        Instruction::SkipNeReg { x, y } => {
            state.pc = if state.v[x as usize] != state.v[y as usize] { state.pc + 4 } else { state.pc + 2 };
        },
        Instruction::SetIndex { addr } => {
            state.i = addr;
            state.pc = state.pc + 2;
        },
        Instruction::JumpOffset { addr } => {
            state.pc = addr + state.v[0] as u16;
        },
        Instruction::Random { x, kk } => {
            state.v[x as usize] = rnd & kk;
            state.pc = state.pc + 2;
        },
        Instruction::Draw { x, y, n } => {
            if n > 0 && state.i as usize + n as usize > 4096 {
                return Err(FaultKind::MemoryOutOfRange);
            }
            let x0 = state.v[x as usize];
            let y0 = state.v[y as usize];
            draw_sprite(state, x0, y0, n);
            state.pc = state.pc + 2;
        },
        Instruction::SkipKey { x } => {
            let code = state.v[x as usize];
            if code >= 16 {
                return Err(FaultKind::KeyOutOfRange);
            }
            state.pc = if state.key[code as usize] { state.pc + 4 } else { state.pc + 2 };
        },
        Instruction::SkipNotKey { x } => {
            let code = state.v[x as usize];
            if code >= 16 {
                return Err(FaultKind::KeyOutOfRange);
            }
            state.pc = if !state.key[code as usize] { state.pc + 4 } else { state.pc + 2 };
        },
        Instruction::ReadDelay { x } => {
            state.v[x as usize] = state.delay_timer;
            state.pc = state.pc + 2;
        },
        Instruction::WaitKey { x } => {
            if key >= 16 {
                return Err(FaultKind::KeyOutOfRange);
            }
            state.v[x as usize] = key;
            state.pc = state.pc + 2;
        },
        Instruction::SetDelay { x } => {
            state.delay_timer = state.v[x as usize];
            state.pc = state.pc + 2;
        },
        Instruction::SetSound { x } => {
            state.sound_timer = state.v[x as usize];
            state.pc = state.pc + 2;
        },
        Instruction::AddIndex { x } => {
            state.i = state.i.wrapping_add(state.v[x as usize] as u16);
            state.pc = state.pc + 2;
        },
        Instruction::FontChar { x } => {
            state.i = state.v[x as usize] as u16 * 5;
            state.pc = state.pc + 2;
        },
        Instruction::Bcd { x } => {
            if state.i as usize + 3 > 4096 {
                return Err(FaultKind::MemoryOutOfRange);
            }
            let val = state.v[x as usize];
            let at = state.i as usize;
            state.memory[at] = val / 100;
            state.memory[at + 1] = (val / 10) % 10;
            state.memory[at + 2] = val % 10;
            state.pc = state.pc + 2;
        },
        Instruction::Store { x } => {
            if state.i as usize + x as usize + 1 > 4096 {
                return Err(FaultKind::MemoryOutOfRange);
            }
            store_registers(state, x);
            state.i = state.i + x as u16 + 1;
            state.pc = state.pc + 2;
        },
        Instruction::Load { x } => {
            if state.i as usize + x as usize + 1 > 4096 {
                return Err(FaultKind::MemoryOutOfRange);
            }
            load_registers(state, x);
            state.i = state.i + x as u16 + 1;
            state.pc = state.pc + 2;
        },
    }
    Ok(())
}

/// Executes one decoded instruction and then ticks both timers, as
/// `execute` states it; on a fault nothing changes.
pub fn execute_instruction(state: &mut Chip8State, ins: Instruction, rnd: u8, key: u8) -> (r: Result<(), FaultKind>)
    requires
        old(state).wf(),
        old(state).pc <= LAST_PC,
        ins.wf(),
    ensures
        match execute(old(state)@, ins, rnd, key) {
            Ok(next) => r is Ok && final(state)@ == next,
            Err(kind) => r == Err::<(), FaultKind>(kind) && final(state)@ == old(state)@,
        },
        final(state).wf(),
{
    let r = apply_effect(state, ins, rnd, key);
    if r.is_ok() {
        state.tick_timers();
    }
    r
}

/// Executes the instruction word `opcode` at the program counter. `rnd` is
/// the random byte for a random-number instruction; `key` is the key press
/// delivered to a wait-for-key instruction, which without one suspends and
/// changes nothing. On a fault nothing changes.
pub fn process_instruction(state: &mut Chip8State, opcode: u16, rnd: u8, key: Option<u8>) -> (r: Result<StepOutcome, Fault>)
    requires
        old(state).wf(),
    ensures
        match run_instruction(old(state)@, opcode, rnd, key) {
            Ok((outcome, next)) => r == Ok::<StepOutcome, Fault>(outcome) && final(state)@ == next,
            Err(fault) => r == Err::<StepOutcome, Fault>(fault) && final(state)@ == old(state)@,
        },
        final(state).wf(),
{
    let pc = state.pc;
    if pc > LAST_PC {
        return Err(Fault { kind: FaultKind::PcOutOfRange, opcode, pc });
    }
    match decode(opcode) {
        None => Err(Fault { kind: FaultKind::UnknownInstruction, opcode, pc }),
        Some(ins) => {
            let k = match key {
                Some(k) => k,
                None => {
                    if let Instruction::WaitKey { .. } = ins {
                        return Ok(StepOutcome::AwaitingKey);
                    }
                    0
                },
            };
            match execute_instruction(state, ins, rnd, k) {
                Ok(()) => Ok(StepOutcome::Executed),
                Err(kind) => Err(Fault { kind, opcode, pc }),
            }
        },
    }
}

/// Relies on rand::random::<u8>, which draws a byte from the thread-local
/// generator; any byte may come back.
#[verifier::external_body]
fn random_byte() -> (r: u8) {
    rand::random::<u8>()
}

/// Fetches the instruction at the program counter and executes it, drawing
/// the random byte that a random-number instruction needs. The result is
/// what `run_step` gives for some byte.
pub fn step(state: &mut Chip8State, key: Option<u8>) -> (r: Result<StepOutcome, Fault>)
    requires
        old(state).wf(),
    ensures
        exists|rnd: u8|
            match #[trigger] run_step(old(state)@, rnd, key) {
                Ok((outcome, next)) => r == Ok::<StepOutcome, Fault>(outcome) && final(state)@ == next,
                Err(fault) => r == Err::<StepOutcome, Fault>(fault) && final(state)@ == old(state)@,
            },
        final(state).wf(),
{
    if state.pc > LAST_PC {
        let fault = Fault { kind: FaultKind::PcOutOfRange, opcode: 0, pc: state.pc };
        assert(run_step(state@, 0, key) == Err::<(StepOutcome, Machine), Fault>(fault));
        return Err(fault);
    }
    let opcode = fetch_instruction(state);
    let rnd = random_byte();
    let r = process_instruction(state, opcode, rnd, key);
    assert(run_step(old(state)@, rnd, key) == run_instruction(old(state)@, opcode, rnd, key));
    r
}

} // verus!
