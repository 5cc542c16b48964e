//! Architectural state of the machine and its abstract model.
use vstd::prelude::*;

verus! {

/// Size of the addressable memory, in bytes.
pub const MEMORY_SIZE: usize = 4096;

/// Address at which programs are loaded and execution starts.
pub const PROGRAM_START: u16 = 0x200;

/// Largest program counter at which a whole two-byte instruction fits in memory.
pub const LAST_PC: u16 = 4094;

/// Mathematical model of the machine state.
pub struct Machine {
    pub memory: Seq<u8>,
    pub v: Seq<u8>,
    pub i: u16,
    pub pc: u16,
    pub gfx: Seq<u8>,
    pub delay_timer: u8,
    pub sound_timer: u8,
    pub stack: Seq<u16>,
    pub sp: u16,
    pub keys: Seq<bool>,
}

impl Machine {
    /// The invariants that every reachable state keeps: sizes of the stores,
    /// a stack depth within capacity, return addresses at which an
    /// instruction can follow, and framebuffer cells holding 0 or 1.
    pub open spec fn wf(self) -> bool {
        &&& self.memory.len() == 4096
        &&& self.v.len() == 16
        &&& self.gfx.len() == 2048
        &&& self.stack.len() == 16
        &&& self.keys.len() == 16
        &&& self.sp <= 16
        &&& forall|k: int| 0 <= k < self.sp ==> #[trigger] self.stack[k] <= LAST_PC
        &&& forall|p: int| 0 <= p < 2048 ==> #[trigger] self.gfx[p] <= 1
    }

    /// The state right after power-on: everything zero, pc at the program start.
    pub open spec fn initial() -> Machine {
        Machine {
            memory: Seq::new(4096, |k: int| 0u8),
            v: Seq::new(16, |k: int| 0u8),
            i: 0,
            pc: PROGRAM_START,
            gfx: Seq::new(2048, |k: int| 0u8),
            delay_timer: 0,
            sound_timer: 0,
            stack: Seq::new(16, |k: int| 0u16),
            sp: 0,
            keys: Seq::new(16, |k: int| false),
        }
    }

    /// Both timers moved one step toward zero.
    pub open spec fn tick(self) -> Machine {
        Machine {
            delay_timer: if self.delay_timer > 0 { (self.delay_timer - 1) as u8 } else { 0 },
            sound_timer: if self.sound_timer > 0 { (self.sound_timer - 1) as u8 } else { 0 },
            ..self
        }
    }
}

/// The complete state of one machine instance.
pub struct Chip8State {
    pub memory: [u8; 4096],
    pub v: [u8; 16],
    pub i: u16,
    pub pc: u16,
    pub gfx: [u8; 2048],
    pub delay_timer: u8,
    pub sound_timer: u8,
    pub stack: [u16; 16],
    pub sp: u16,
    pub key: [bool; 16],
}

impl View for Chip8State {
    type V = Machine;

    open spec fn view(&self) -> Machine {
        Machine {
            memory: self.memory@,
            v: self.v@,
            i: self.i,
            pc: self.pc,
            gfx: self.gfx@,
            delay_timer: self.delay_timer,
            sound_timer: self.sound_timer,
            stack: self.stack@,
            sp: self.sp,
            keys: self.key@,
        }
    }
}

impl Chip8State {
    pub open spec fn wf(&self) -> bool {
        self@.wf()
    }

    /// A powered-on machine with empty memory and pc at the program start.
    pub fn new() -> (s: Self)
        ensures
            s@ == Machine::initial(),
            s.wf(),
    {
        let s = Chip8State {
            memory: [0u8; 4096],
            v: [0u8; 16],
            i: 0,
            pc: PROGRAM_START,
            gfx: [0u8; 2048],
            delay_timer: 0,
            sound_timer: 0,
            stack: [0u16; 16],
            sp: 0,
            key: [false; 16],
        };
        assert(s.memory@ =~= Machine::initial().memory);
        assert(s.v@ =~= Machine::initial().v);
        assert(s.gfx@ =~= Machine::initial().gfx);
        assert(s.stack@ =~= Machine::initial().stack);
        assert(s.key@ =~= Machine::initial().keys);
        s
    }

    /// Copies a program verbatim into memory starting at the program start.
    pub fn load_rom(&mut self, rom: &[u8])
        requires
            rom@.len() <= MEMORY_SIZE - PROGRAM_START as usize,
        ensures
            final(self)@ == (Machine {
                memory: Seq::new(
                    4096,
                    |k: int|
                        if PROGRAM_START <= k < PROGRAM_START + rom@.len() {
                            rom@[k - PROGRAM_START]
                        } else {
                            old(self)@.memory[k]
                        },
                ),
                ..old(self)@
            }),
            old(self).wf() ==> final(self).wf(),
    {
        let start = PROGRAM_START as usize;
        let mut k: usize = 0;
        while k < rom.len()
            invariant
                k <= rom@.len(),
                rom@.len() <= 4096 - 0x200,
                start == 0x200,
                self.v == old(self).v,
                self.i == old(self).i,
                self.pc == old(self).pc,
                self.gfx == old(self).gfx,
                self.delay_timer == old(self).delay_timer,
                self.sound_timer == old(self).sound_timer,
                self.stack == old(self).stack,
                self.sp == old(self).sp,
                self.key == old(self).key,
                forall|q: int|
                    0 <= q < 4096 ==> #[trigger] self.memory@[q] == if 0x200 <= q < 0x200 + k {
                        rom@[q - 0x200]
                    } else {
                        old(self).memory@[q]
                    },
            decreases rom@.len() - k,
        {
            self.memory[start + k] = rom[k];
            k = k + 1;
        }
        assert(self.memory@ =~= Seq::new(
            4096,
            |q: int|
                if PROGRAM_START <= q < PROGRAM_START + rom@.len() {
                    rom@[q - PROGRAM_START]
                } else {
                    old(self)@.memory[q]
                },
        ));
    }

    /// Records whether the key with the given hex code is held down.
    pub fn set_key(&mut self, code: u8, pressed: bool)
        requires
            code < 16,
        ensures
            final(self)@ == (Machine { keys: old(self)@.keys.update(code as int, pressed), ..old(self)@ }),
            old(self).wf() ==> final(self).wf(),
    {
        self.key[code as usize] = pressed;
    }

    /// Moves each nonzero timer one step toward zero.
    pub fn tick_timers(&mut self)
        ensures
            final(self)@ == old(self)@.tick(),
    {
        if self.delay_timer > 0 {
            self.delay_timer = self.delay_timer - 1;
        }
        if self.sound_timer > 0 {
            self.sound_timer = self.sound_timer - 1;
        }
    }
}

} // verus!
