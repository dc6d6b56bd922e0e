//! The mathematical model of the machine: its state as plain sequences,
//! and what one instruction, one timer tick and one key event do to it.

use vstd::prelude::*;

verus! {

pub const SCREEN_WIDTH: usize = 64;
pub const SCREEN_HEIGHT: usize = 32;
pub const RAM_SIZE: usize = 4096;
pub const NUM_REGS: usize = 16;
pub const STACK_SIZE: usize = 16;
pub const NUM_KEYS: usize = 16;
pub const PROGRAM_START: u16 = 0x200;
pub const FONT_START: u16 = 0x50;

/// Behaviours on which historical interpreters disagree.
#[derive(Clone, Copy, Debug, PartialEq, Eq, Structural)]
pub struct Quirks {
    /// `8XY6` / `8XYE` shift Vy into Vx instead of shifting Vx in place.
    pub shift_uses_vy: bool,
    /// `BNNN` adds Vx (X being the second nibble) instead of V0.
    pub jump_uses_vx: bool,
    /// `FX55` / `FX65` leave I pointing past the last register moved.
    pub load_store_increments_i: bool,
    /// `FX1E` sets VF to 1 when I goes past 0xFFF, else to 0.
    pub add_index_sets_vf: bool,
}

impl Quirks {
    pub open spec fn conventional() -> Quirks {
        Quirks {
            shift_uses_vy: false,
            jump_uses_vx: false,
            load_store_increments_i: false,
            add_index_sets_vf: false,
        }
    }

    /// The conventional behaviours: every quirk off.
    pub fn new() -> (r: Quirks)
        ensures
            r == Quirks::conventional(),
    {
        Quirks {
            shift_uses_vy: false,
            jump_uses_vx: false,
            load_store_increments_i: false,
            add_index_sets_vf: false,
        }
    }
}

/// Where the machine stands with respect to the key-wait instruction `FX0A`.
#[derive(Clone, Copy, Debug, PartialEq, Eq, Structural)]
pub enum KeyWait {
    /// Executing instructions normally.
    Running,
    /// Suspended until a key goes down; the key's index goes to `V[reg]`.
    Awaiting { reg: u8 },
    /// A key went down while suspended; the next cycle completes `FX0A`.
    Pressed { reg: u8, key: u8 },
}

#[derive(Clone, Copy, Debug, PartialEq, Eq, Structural)]
pub enum EmuError {
    /// The program does not fit between 0x200 and the end of memory.
    RomTooLarge,
    /// A call with sixteen return addresses already on the stack.
    StackOverflow,
    /// A return with an empty stack.
    StackUnderflow,
    /// The fetched word is no instruction.
    InvalidOpcode { opcode: u16 },
    /// An address or key index derived from PC, I or a register is out of range.
    OutOfBounds,
}

/// The whole machine as plain values.
pub struct EmuState {
    pub pc: u16,
    pub ram: Seq<u8>,
    pub screen: Seq<bool>,
    pub v: Seq<u8>,
    pub i: u16,
    pub stack: Seq<u16>,
    pub keys: Seq<bool>,
    pub dt: u8,
    pub st: u8,
    pub wait: KeyWait,
    pub quirks: Quirks,
    pub rng: u32,
}

/// The sixteen hexadecimal glyphs, five rows of four pixels each.
pub open spec fn font_spec() -> Seq<u8> {
    seq![
        0xF0u8, 0x90, 0x90, 0x90, 0xF0, // 0
        0x20, 0x60, 0x20, 0x20, 0x70, // 1
        0xF0, 0x10, 0xF0, 0x80, 0xF0, // 2
        0xF0, 0x10, 0xF0, 0x10, 0xF0, // 3
        0x90, 0x90, 0xF0, 0x10, 0x10, // 4
        0xF0, 0x80, 0xF0, 0x10, 0xF0, // 5
        0xF0, 0x80, 0xF0, 0x90, 0xF0, // 6
        0xF0, 0x10, 0x20, 0x40, 0x40, // 7
        0xF0, 0x90, 0xF0, 0x90, 0xF0, // 8
        0xF0, 0x90, 0xF0, 0x10, 0xF0, // 9
        0xF0, 0x90, 0xF0, 0x90, 0x90, // A
        0xE0, 0x90, 0xE0, 0x90, 0xE0, // B
        0xF0, 0x80, 0x80, 0x80, 0xF0, // C
        0xE0, 0x90, 0x90, 0x90, 0xE0, // D
        0xF0, 0x80, 0xF0, 0x80, 0xF0, // E
        0xF0, 0x80, 0xF0, 0x80, 0x80, // F
    ]
}

impl EmuState {
    pub open spec fn wf(self) -> bool {
        &&& self.ram.len() == RAM_SIZE
        &&& self.screen.len() == SCREEN_WIDTH * SCREEN_HEIGHT
        &&& self.v.len() == NUM_REGS
        &&& self.stack.len() <= STACK_SIZE
        &&& self.keys.len() == NUM_KEYS
        &&& match self.wait {
            KeyWait::Running => true,
            KeyWait::Awaiting { reg } => reg < 16 && self.pc + 1 < RAM_SIZE,
            KeyWait::Pressed { reg, key } => reg < 16 && key < 16 && self.pc + 1 < RAM_SIZE,
        }
    }

    /// A freshly built machine: font at 0x050, every other byte zero, PC at 0x200.
    pub open spec fn initial(quirks: Quirks, seed: u32) -> EmuState {
        EmuState {
            pc: PROGRAM_START,
            ram: Seq::new(
                RAM_SIZE as nat,
                |a: int|
                    if FONT_START <= a < FONT_START + 80 {
                        font_spec()[a - FONT_START]
                    } else {
                        0u8
                    },
            ),
            screen: Seq::new((SCREEN_WIDTH * SCREEN_HEIGHT) as nat, |p: int| false),
            v: Seq::new(NUM_REGS as nat, |r: int| 0u8),
            i: 0,
            stack: Seq::empty(),
            keys: Seq::new(NUM_KEYS as nat, |k: int| false),
            dt: 0,
            st: 0,
            wait: KeyWait::Running,
            quirks,
            rng: seed,
        }
    }
}

/// The outcome of one step: the new state and what the step reported.
pub type Step = (EmuState, Result<(), EmuError>);

pub open spec fn nib_x(op: u16) -> int {
    (op / 256 % 16) as int
}

pub open spec fn nib_y(op: u16) -> int {
    (op / 16 % 16) as int
}

pub open spec fn nib_n(op: u16) -> int {
    (op % 16) as int
}

pub open spec fn byte_nn(op: u16) -> u8 {
    (op % 256) as u8
}

pub open spec fn addr_nnn(op: u16) -> u16 {
    (op % 4096) as u16
}

/// The big-endian instruction word at `pc`.
pub open spec fn word_at(ram: Seq<u8>, pc: int) -> u16 {
    (ram[pc] as int * 256 + ram[pc + 1] as int) as u16
}

/// One step of the linear congruential generator behind `CXNN`.
pub open spec fn rng_next(r: u32) -> u32 {
    ((r as int * 1103515245 + 12345) % 0x1_0000_0000) as u32
}

/// The byte that `CXNN` draws from a generator state.
pub open spec fn rng_byte(r: u32) -> u8 {
    (r / 65536 % 256) as u8
}

/// Sprite column of screen column `px` for a sprite drawn at horizontal position `x`.
pub open spec fn col_offset(px: int, x: int) -> int {
    (px + SCREEN_WIDTH - x % (SCREEN_WIDTH as int)) % (SCREEN_WIDTH as int)
}

/// Sprite row of screen row `py` for a sprite drawn at vertical position `y`.
pub open spec fn row_offset(py: int, y: int) -> int {
    (py + SCREEN_HEIGHT - y % (SCREEN_HEIGHT as int)) % (SCREEN_HEIGHT as int)
}

/// Bit `col` of a sprite byte, counted from the most significant bit.
pub open spec fn sprite_bit(b: u8, col: int) -> bool {
    (b >> ((7 - col) as u8)) & 1u8 == 1u8
}

/// Whether the `n`-row sprite at memory `addr`, drawn at `(x, y)`, has a set bit
/// over the pixel with row-major index `p`.
pub open spec fn sprite_covers(ram: Seq<u8>, addr: int, n: int, x: int, y: int, p: int) -> bool {
    let row = row_offset(p / (SCREEN_WIDTH as int), y);
    let col = col_offset(p % (SCREEN_WIDTH as int), x);
    row < n && col < 8 && sprite_bit(ram[addr + row], col)
}

/// The screen after XOR-ing in the sprite.
pub open spec fn blit_screen(screen: Seq<bool>, ram: Seq<u8>, addr: int, n: int, x: int, y: int) -> Seq<bool> {
    Seq::new(screen.len(), |p: int| screen[p] != sprite_covers(ram, addr, n, x, y, p))
}

/// Whether the sprite hits a pixel that was already set.
pub open spec fn blit_collides(screen: Seq<bool>, ram: Seq<u8>, addr: int, n: int, x: int, y: int) -> bool {
    exists|p: int| 0 <= p < screen.len() && #[trigger] screen[p] && sprite_covers(ram, addr, n, x, y, p)
}

pub open spec fn flag(b: bool) -> u8 {
    if b { 1 } else { 0 }
}

impl EmuState {
    pub open spec fn ok(self) -> Step {
        (self, Ok(()))
    }

    pub open spec fn fail(self, e: EmuError) -> Step {
        (self, Err(e))
    }

    pub open spec fn invalid(self, op: u16) -> Step {
        (self, Err(EmuError::InvalidOpcode { opcode: op }))
    }

    pub open spec fn set_v(self, x: int, val: u8) -> EmuState {
        EmuState { v: self.v.update(x, val), ..self }
    }

    /// Register `x` gets `val`, then VF gets `f` (the flag wins when `x` is VF).
    pub open spec fn set_v_flag(self, x: int, val: u8, f: u8) -> EmuState {
        EmuState { v: self.v.update(x, val).update(15, f), ..self }
    }

    /// Skip the next instruction when `cond` holds.
    pub open spec fn skip_if(self, cond: bool) -> Step {
        if cond {
            EmuState { pc: (self.pc + 2) as u16, ..self }.ok()
        } else {
            self.ok()
        }
    }

    pub open spec fn tick_timers(self) -> EmuState {
        EmuState {
            dt: if self.dt > 0 { (self.dt - 1) as u8 } else { 0 },
            st: if self.st > 0 { (self.st - 1) as u8 } else { 0 },
            ..self
        }
    }

    /// Key `k` goes down (`pressed`) or up; a key going down ends a pending `FX0A`.
    pub open spec fn set_key(self, k: int, pressed: bool) -> EmuState {
        EmuState {
            keys: self.keys.update(k, pressed),
            wait: match self.wait {
                KeyWait::Awaiting { reg } => if pressed && !self.keys[k] {
                    KeyWait::Pressed { reg, key: k as u8 }
                } else {
                    self.wait
                },
                _ => self.wait,
            },
            ..self
        }
    }

    /// Write `rom` at 0x200 when it fits.
    pub open spec fn load(self, rom: Seq<u8>) -> Step {
        if rom.len() > RAM_SIZE - PROGRAM_START {
            self.fail(EmuError::RomTooLarge)
        } else {
            EmuState {
                ram: Seq::new(
                    self.ram.len(),
                    |a: int|
                        if PROGRAM_START <= a < PROGRAM_START + rom.len() {
                            rom[a - PROGRAM_START]
                        } else {
                            self.ram[a]
                        },
                ),
                ..self
            }.ok()
        }
    }

    /// One cycle: finish or hold a key wait, or fetch, advance PC by 2, and execute.
    pub open spec fn cycle(self) -> Step {
        match self.wait {
            KeyWait::Awaiting { .. } => self.ok(),
            KeyWait::Pressed { reg, key } => EmuState {
                pc: (self.pc + 2) as u16,
                wait: KeyWait::Running,
                ..self.set_v(reg as int, key)
            }.ok(),
            KeyWait::Running => if self.pc + 1 >= RAM_SIZE {
                self.fail(EmuError::OutOfBounds)
            } else {
                EmuState { pc: (self.pc + 2) as u16, ..self }.execute(word_at(self.ram, self.pc as int))
            },
        }
    }

    /// The effect of instruction `op`, PC having already moved past it.
    pub open spec fn execute(self, op: u16) -> Step {
        let x = nib_x(op);
        let y = nib_y(op);
        let nn = byte_nn(op);
        let nnn = addr_nnn(op);
        let vx = self.v[x];
        let vy = self.v[y];
        let group = op / 4096;
        if group == 0 {
            if op == 0x00E0 {
                EmuState { screen: Seq::new(self.screen.len(), |p: int| false), ..self }.ok()
            } else if op == 0x00EE {
                if self.stack.len() == 0 {
                    self.fail(EmuError::StackUnderflow)
                } else {
                    EmuState { pc: self.stack.last(), stack: self.stack.drop_last(), ..self }.ok()
                }
            } else {
                self.invalid(op)
            }
        } else if group == 1 {
            EmuState { pc: nnn, ..self }.ok()
        } else if group == 2 {
            if self.stack.len() >= STACK_SIZE {
                self.fail(EmuError::StackOverflow)
            } else {
                EmuState { pc: nnn, stack: self.stack.push(self.pc), ..self }.ok()
            }
        } else if group == 3 {
            self.skip_if(vx == nn)
        } else if group == 4 {
            self.skip_if(vx != nn)
        } else if group == 5 {
            if nib_n(op) == 0 { self.skip_if(vx == vy) } else { self.invalid(op) }
        } else if group == 6 {
            self.set_v(x, nn).ok()
        } else if group == 7 {
            self.set_v(x, ((vx + nn) % 256) as u8).ok()
        } else if group == 8 {
            self.alu(op)
        } else if group == 9 {
            if nib_n(op) == 0 { self.skip_if(vx != vy) } else { self.invalid(op) }
        } else if group == 0xA {
            EmuState { i: nnn, ..self }.ok()
        } else if group == 0xB {
            let base = if self.quirks.jump_uses_vx { vx } else { self.v[0] };
            EmuState { pc: (nnn + base) as u16, ..self }.ok()
        } else if group == 0xC {
            let r = rng_next(self.rng);
            EmuState { rng: r, ..self.set_v(x, rng_byte(r) & nn) }.ok()
        } else if group == 0xD {
            self.draw(vx as int, vy as int, nib_n(op))
        } else if group == 0xE {
            if nn == 0x9E || nn == 0xA1 {
                if vx >= NUM_KEYS {
                    self.fail(EmuError::OutOfBounds)
                } else {
                    self.skip_if(self.keys[vx as int] == (nn == 0x9E))
                }
            } else {
                self.invalid(op)
            }
        } else {
            self.misc(op)
        }
    }

    /// `8XYN`: register-to-register arithmetic and logic.
    pub open spec fn alu(self, op: u16) -> Step {
        let x = nib_x(op);
        let vx = self.v[x];
        let vy = self.v[nib_y(op)];
        let src = if self.quirks.shift_uses_vy { vy } else { vx };
        let n = nib_n(op);
        if n == 0 {
            self.set_v(x, vy).ok()
        } else if n == 1 {
            self.set_v(x, vx | vy).ok()
        } else if n == 2 {
            self.set_v(x, vx & vy).ok()
        } else if n == 3 {
            self.set_v(x, vx ^ vy).ok()
        } else if n == 4 {
            self.set_v_flag(x, ((vx + vy) % 256) as u8, flag(vx + vy > 255)).ok()
        } else if n == 5 {
            self.set_v_flag(x, ((vx - vy + 256) % 256) as u8, flag(vx >= vy)).ok()
        } else if n == 6 {
            self.set_v_flag(x, src / 2, src % 2).ok()
        } else if n == 7 {
            self.set_v_flag(x, ((vy - vx + 256) % 256) as u8, flag(vy >= vx)).ok()
        } else if n == 0xE {
            self.set_v_flag(x, ((src * 2) % 256) as u8, src / 128).ok()
        } else {
            self.invalid(op)
        }
    }

    /// `DXYN`: XOR the `n`-byte sprite at I onto the screen at `(x, y)`;
    /// VF tells whether a set pixel was hit.
    pub open spec fn draw(self, x: int, y: int, n: int) -> Step {
        if self.i + n > RAM_SIZE {
            self.fail(EmuError::OutOfBounds)
        } else {
            EmuState {
                screen: blit_screen(self.screen, self.ram, self.i as int, n, x, y),
                ..self.set_v(15, flag(blit_collides(self.screen, self.ram, self.i as int, n, x, y)))
            }.ok()
        }
    }

    /// `FXNN`: timers, key wait, index register and memory transfers.
    pub open spec fn misc(self, op: u16) -> Step {
        let x = nib_x(op);
        let vx = self.v[x];
        let nn = byte_nn(op);
        let i = self.i as int;
        let next_i = if self.quirks.load_store_increments_i { (i + x + 1) as u16 } else { self.i };
        if nn == 0x07 {
            self.set_v(x, self.dt).ok()
        } else if nn == 0x0A {
            EmuState { pc: (self.pc - 2) as u16, wait: KeyWait::Awaiting { reg: x as u8 }, ..self }.ok()
        } else if nn == 0x15 {
            EmuState { dt: vx, ..self }.ok()
        } else if nn == 0x18 {
            EmuState { st: vx, ..self }.ok()
        } else if nn == 0x1E {
            let sum = i + vx;
            let moved = EmuState { i: (sum % 0x10000) as u16, ..self };
            if self.quirks.add_index_sets_vf {
                moved.set_v(15, flag(sum > 0xFFF)).ok()
            } else {
                moved.ok()
            }
        } else if nn == 0x29 {
            EmuState { i: (FONT_START + 5 * (vx % 16)) as u16, ..self }.ok()
        } else if nn == 0x33 {
            if i + 3 > RAM_SIZE {
                self.fail(EmuError::OutOfBounds)
            } else {
                EmuState {
                    ram: self.ram.update(i, vx / 100).update(i + 1, vx / 10 % 10).update(i + 2, vx % 10),
                    ..self
                }.ok()
            }
        } else if nn == 0x55 {
            if i + x + 1 > RAM_SIZE {
                self.fail(EmuError::OutOfBounds)
            } else {
                EmuState {
                    ram: Seq::new(self.ram.len(), |a: int| if i <= a <= i + x { self.v[a - i] } else { self.ram[a] }),
                    i: next_i,
                    ..self
                }.ok()
            }
        } else if nn == 0x65 {
            if i + x + 1 > RAM_SIZE {
                self.fail(EmuError::OutOfBounds)
            } else {
                EmuState {
                    v: Seq::new(self.v.len(), |r: int| if r <= x { self.ram[i + r] } else { self.v[r] }),
                    i: next_i,
                    ..self
                }.ok()
            }
        } else {
            self.invalid(op)
        }
    }
}

} // verus!
