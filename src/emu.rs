//! The executable machine.

use vstd::prelude::*;
use crate::machine::{
    font_spec, sprite_covers, blit_screen, EmuError, EmuState, KeyWait, Quirks, FONT_START, NUM_KEYS, NUM_REGS, PROGRAM_START,
    RAM_SIZE, SCREEN_HEIGHT, SCREEN_WIDTH, STACK_SIZE,
};

verus! {

pub struct Emu {
    pc: u16,
    ram: Vec<u8>,
    screen: Vec<bool>,
    v: Vec<u8>,
    i: u16,
    stack: Vec<u16>,
    keys: Vec<bool>,
    dt: u8,
    st: u8,
    wait: KeyWait,
    quirks: Quirks,
    rng: u32,
}

impl View for Emu {
    type V = EmuState;

    closed spec fn view(&self) -> EmuState {
        EmuState {
            pc: self.pc,
            ram: self.ram@,
            screen: self.screen@,
            v: self.v@,
            i: self.i,
            stack: self.stack@,
            keys: self.keys@,
            dt: self.dt,
            st: self.st,
            wait: self.wait,
            quirks: self.quirks,
            rng: self.rng,
        }
    }
}

fn font() -> (r: Vec<u8>)
    ensures
        r@ == font_spec(),
{
    let r: Vec<u8> = vec![
        0xF0u8, 0x90, 0x90, 0x90, 0xF0, 0x20, 0x60, 0x20, 0x20, 0x70, 0xF0, 0x10, 0xF0, 0x80, 0xF0,
        0xF0, 0x10, 0xF0, 0x10, 0xF0, 0x90, 0x90, 0xF0, 0x10, 0x10, 0xF0, 0x80, 0xF0, 0x10, 0xF0,
        0xF0, 0x80, 0xF0, 0x90, 0xF0, 0xF0, 0x10, 0x20, 0x40, 0x40, 0xF0, 0x90, 0xF0, 0x90, 0xF0,
        0xF0, 0x90, 0xF0, 0x10, 0xF0, 0xF0, 0x90, 0xF0, 0x90, 0x90, 0xE0, 0x90, 0xE0, 0x90, 0xE0,
        0xF0, 0x80, 0x80, 0x80, 0xF0, 0xE0, 0x90, 0x90, 0x90, 0xE0, 0xF0, 0x80, 0xF0, 0x80, 0xF0,
        0xF0, 0x80, 0xF0, 0x80, 0x80,
    ];
    assert(r@ =~= font_spec());
    r
}

impl Default for Emu {
    fn default() -> (r: Emu)
        ensures
            r.wf(),
            r@ == EmuState::initial(Quirks::conventional(), DEFAULT_SEED),
    {
        Emu::new()
    }
}

pub const DEFAULT_SEED: u32 = 0x2545F491;

impl Emu {
    pub closed spec fn wf(&self) -> bool {
        self@.wf()
    }

    /// A machine with the font loaded, empty memory elsewhere, and the
    /// conventional behaviours (in-place shifts, `BNNN` through V0, I kept).
    pub fn new() -> (r: Emu)
        ensures
            r.wf(),
            r@ == EmuState::initial(Quirks::conventional(), DEFAULT_SEED),
    {
        Emu::with_config(Quirks::new(), DEFAULT_SEED)
    }

    /// A fresh machine with the given behaviours and random seed.
    pub fn with_config(quirks: Quirks, seed: u32) -> (r: Emu)
        ensures
            r.wf(),
            r@ == EmuState::initial(quirks, seed),
    {
        let mut ram: Vec<u8> = vec![0u8; RAM_SIZE];
        let glyphs = font();
        let mut k: usize = 0;
        while k < 80
            invariant
                0 <= k <= 80,
                glyphs@ == font_spec(),
                ram.len() == RAM_SIZE,
                forall|a: int|
                    0 <= a < RAM_SIZE ==> #[trigger] ram@[a] == (if FONT_START <= a < FONT_START + k {
                        font_spec()[a - FONT_START]
                    } else {
                        0u8
                    }),
            decreases 80 - k,
        {
            ram[FONT_START as usize + k] = glyphs[k];
            k += 1;
        }
        let r = Emu {
            pc: PROGRAM_START,
            ram,
            screen: vec![false; SCREEN_WIDTH * SCREEN_HEIGHT],
            v: vec![0u8; NUM_REGS],
            i: 0,
            stack: Vec::new(),
            keys: vec![false; NUM_KEYS],
            dt: 0,
            st: 0,
            wait: KeyWait::Running,
            quirks,
            rng: seed,
        };
        assert(r@.ram =~= EmuState::initial(quirks, seed).ram);
        assert(r@.screen =~= EmuState::initial(quirks, seed).screen);
        assert(r@.v =~= EmuState::initial(quirks, seed).v);
        assert(r@.keys =~= EmuState::initial(quirks, seed).keys);
        r
    }

    pub fn pc(&self) -> (r: u16)
        ensures
            r == self@.pc,
    {
        self.pc
    }

    /// Register `V[x]`.
    pub fn v_reg(&self, x: usize) -> (r: u8)
        requires
            self.wf(),
            x < NUM_REGS,
        ensures
            r == self@.v[x as int],
    {
        self.v[x]
    }

    /// The index register I.
    pub fn index(&self) -> (r: u16)
        ensures
            r == self@.i,
    {
        self.i
    }

    pub fn delay_timer(&self) -> (r: u8)
        ensures
            r == self@.dt,
    {
        self.dt
    }

    pub fn sound_timer(&self) -> (r: u8)
        ensures
            r == self@.st,
    {
        self.st
    }

    /// Whether the host should sound its tone.
    pub fn sound_active(&self) -> (r: bool)
        ensures
            r == (self@.st > 0),
    {
        self.st > 0
    }

    /// How many return addresses the call stack holds.
    pub fn stack_depth(&self) -> (r: usize)
        ensures
            r == self@.stack.len(),
    {
        self.stack.len()
    }

    pub fn quirks(&self) -> (r: Quirks)
        ensures
            r == self@.quirks,
    {
        self.quirks
    }

    /// Whether an `FX0A` is waiting for a key to go down.
    pub fn is_waiting_for_key(&self) -> (r: bool)
        ensures
            r == (self@.wait is Awaiting),
    {
        matches!(self.wait, KeyWait::Awaiting { .. })
    }

    /// The byte at `addr`, or `OutOfBounds` past the end of memory.
    pub fn read_byte(&self, addr: usize) -> (r: Result<u8, EmuError>)
        requires
            self.wf(),
        ensures
            addr < RAM_SIZE ==> r == Ok::<u8, EmuError>(self@.ram[addr as int]),
            addr >= RAM_SIZE ==> r == Err::<u8, EmuError>(EmuError::OutOfBounds),
    {
        if addr < RAM_SIZE {
            Ok(self.ram[addr])
        } else {
            Err(EmuError::OutOfBounds)
        }
    }

    pub fn is_pressed(&self, k: usize) -> (r: bool)
        requires
            self.wf(),
            k < NUM_KEYS,
        ensures
            r == self@.keys[k as int],
    {
        self.keys[k]
    }

    /// Whether the pixel in column `x`, row `y` is set.
    pub fn pixel(&self, x: usize, y: usize) -> (r: bool)
        requires
            self.wf(),
            x < SCREEN_WIDTH,
            y < SCREEN_HEIGHT,
        ensures
            r == self@.screen[y * SCREEN_WIDTH + x],
    {
        self.screen[y * SCREEN_WIDTH + x]
    }

    /// A copy of the 64x32 framebuffer, row by row.
    pub fn framebuffer_snapshot(&self) -> (r: Vec<bool>)
        requires
            self.wf(),
        ensures
            r@ == self@.screen,
    {
        let mut r: Vec<bool> = Vec::new();
        let mut p: usize = 0;
        while p < SCREEN_WIDTH * SCREEN_HEIGHT
            invariant
                self.wf(),
                0 <= p <= SCREEN_WIDTH * SCREEN_HEIGHT,
                r@ == self@.screen.take(p as int),
            decreases SCREEN_WIDTH * SCREEN_HEIGHT - p,
        {
            r.push(self.screen[p]);
            p += 1;
            assert(r@ =~= self@.screen.take(p as int));
        }
        assert(r@ =~= self@.screen);
        r
    }

    /// Write `rom` into memory from 0x200 on; refuse it, changing nothing,
    /// when it is longer than the 3584 bytes there.
    pub fn load(&mut self, rom: &[u8]) -> (r: Result<(), EmuError>)
        requires
            old(self).wf(),
        ensures
            final(self).wf(),
            (final(self)@, r) == old(self)@.load(rom@),
            r is Ok <==> rom@.len() <= RAM_SIZE - PROGRAM_START,
    {
        if rom.len() > RAM_SIZE - PROGRAM_START as usize {
            return Err(EmuError::RomTooLarge);
        }
        let ghost before = self@;
        let mut k: usize = 0;
        while k < rom.len()
            invariant
                self.wf(),
                rom@.len() <= RAM_SIZE - PROGRAM_START,
                0 <= k <= rom@.len(),
                self@ == (EmuState { ram: self@.ram, ..before }),
                forall|a: int|
                    0 <= a < RAM_SIZE ==> #[trigger] self@.ram[a] == (if PROGRAM_START <= a < PROGRAM_START + k {
                        rom@[a - PROGRAM_START]
                    } else {
                        before.ram[a]
                    }),
            decreases rom@.len() - k,
        {
            self.ram[PROGRAM_START as usize + k] = rom[k];
            k += 1;
        }
        assert(self@.ram =~= before.load(rom@).0.ram);
        Ok(())
    }

    /// One timer tick: each non-zero timer goes down by one.
    pub fn tick_timers(&mut self)
        requires
            old(self).wf(),
        ensures
            final(self).wf(),
            final(self)@ == old(self)@.tick_timers(),
    {
        if self.dt > 0 {
            self.dt = self.dt - 1;
        }
        if self.st > 0 {
            self.st = self.st - 1;
        }
    }

    /// Key `k` goes down or up, as the host reports it.
    pub fn set_key(&mut self, k: usize, pressed: bool)
        requires
            old(self).wf(),
            k < NUM_KEYS,
        ensures
            final(self).wf(),
            final(self)@ == old(self)@.set_key(k as int, pressed),
    {
        if let KeyWait::Awaiting { reg } = self.wait {
            if pressed && !self.keys[k] {
                self.wait = KeyWait::Pressed { reg, key: k as u8 };
            }
        }
        self.keys[k] = pressed;
    }

    /// Run one instruction, or hold or finish a pending key wait.
    pub fn cycle(&mut self) -> (r: Result<(), EmuError>)
        requires
            old(self).wf(),
        ensures
            final(self).wf(),
            (final(self)@, r) == old(self)@.cycle(),
    {
        match self.wait {
            KeyWait::Awaiting { .. } => Ok(()),
            KeyWait::Pressed { reg, key } => {
                self.v[reg as usize] = key;
                self.pc = self.pc + 2;
                self.wait = KeyWait::Running;
                Ok(())
            },
            KeyWait::Running => {
                let pc = self.pc as usize;
                if pc + 1 >= RAM_SIZE {
                    return Err(EmuError::OutOfBounds);
                }
                let op: u16 = self.ram[pc] as u16 * 256 + self.ram[pc + 1] as u16;
                self.pc = self.pc + 2;
                self.execute(op)
            },
        }
    }

    fn execute(&mut self, op: u16) -> (r: Result<(), EmuError>)
        requires
            old(self).wf(),
            old(self).wait == KeyWait::Running,
            2 <= old(self)@.pc <= RAM_SIZE,
        ensures
            final(self).wf(),
            (final(self)@, r) == old(self)@.execute(op),
    {
        let x = (op / 256 % 16) as usize;
        let y = (op / 16 % 16) as usize;
        let nn = (op % 256) as u8;
        let nnn = op % 4096;
        let vx = self.v[x];
        let vy = self.v[y];
        let group = op / 4096;
        if group == 0 {
            if op == 0x00E0 {
                let mut p: usize = 0;
                let ghost before = self@;
                while p < SCREEN_WIDTH * SCREEN_HEIGHT
                    invariant
                        0 <= p <= SCREEN_WIDTH * SCREEN_HEIGHT,
                        self.screen.len() == SCREEN_WIDTH * SCREEN_HEIGHT,
                        self@ == (EmuState { screen: self@.screen, ..before }),
                        forall|q: int| 0 <= q < p ==> !#[trigger] self@.screen[q],
                    decreases SCREEN_WIDTH * SCREEN_HEIGHT - p,
                {
                    self.screen[p] = false;
                    p += 1;
                }
                assert(self@.screen =~= Seq::new(before.screen.len(), |p: int| false));
                Ok(())
            } else if op == 0x00EE {
                match self.stack.pop() {
                    Some(ret) => {
                        self.pc = ret;
                        Ok(())
                    },
                    None => Err(EmuError::StackUnderflow),
                }
            } else {
                Err(EmuError::InvalidOpcode { opcode: op })
            }
        } else if group == 1 {
            self.pc = nnn;
            Ok(())
        } else if group == 2 {
            if self.stack.len() >= STACK_SIZE {
                Err(EmuError::StackOverflow)
            } else {
                self.stack.push(self.pc);
                self.pc = nnn;
                Ok(())
            }
        } else if group == 3 {
            self.skip_if(vx == nn);
            Ok(())
        } else if group == 4 {
            self.skip_if(vx != nn);
            Ok(())
        } else if group == 5 {
            if op % 16 == 0 {
                self.skip_if(vx == vy);
                Ok(())
            } else {
                Err(EmuError::InvalidOpcode { opcode: op })
            }
        } else if group == 6 {
            self.v[x] = nn;
            Ok(())
        } else if group == 7 {
            self.v[x] = ((vx as u16 + nn as u16) % 256) as u8;
            Ok(())
        } else if group == 8 {
            self.alu(op)
        } else if group == 9 {
            if op % 16 == 0 {
                self.skip_if(vx != vy);
                Ok(())
            } else {
                Err(EmuError::InvalidOpcode { opcode: op })
            }
        } else if group == 0xA {
            self.i = nnn;
            Ok(())
        } else if group == 0xB {
            let base = if self.quirks.jump_uses_vx { vx } else { self.v[0] };
            self.pc = nnn + base as u16;
            Ok(())
        } else if group == 0xC {
            let r = ((self.rng as u64 * 1103515245 + 12345) % 0x1_0000_0000) as u32;
            self.rng = r;
            self.v[x] = (r / 65536 % 256) as u8 & nn;
            Ok(())
        } else if group == 0xD {
            self.draw(vx, vy, (op % 16) as u8)
        } else if group == 0xE {
            if nn == 0x9E || nn == 0xA1 {
                if vx as usize >= NUM_KEYS {
                    Err(EmuError::OutOfBounds)
                } else {
                    let pressed = self.keys[vx as usize];
                    self.skip_if(pressed == (nn == 0x9E));
                    Ok(())
                }
            } else {
                Err(EmuError::InvalidOpcode { opcode: op })
            }
        } else {
            self.misc(op)
        }
    }

    fn skip_if(&mut self, cond: bool)
        requires
            old(self).wf(),
            old(self).wait == KeyWait::Running,
            old(self)@.pc <= RAM_SIZE,
        ensures
            final(self).wf(),
            (final(self)@, Ok::<(), EmuError>(())) == old(self)@.skip_if(cond),
    {
        if cond {
            self.pc = self.pc + 2;
        }
    }

    fn alu(&mut self, op: u16) -> (r: Result<(), EmuError>)
        requires
            old(self).wf(),
        ensures
            final(self).wf(),
            (final(self)@, r) == old(self)@.alu(op),
    {
        let x = (op / 256 % 16) as usize;
        let vx = self.v[x];
        let vy = self.v[(op / 16 % 16) as usize];
        let src = if self.quirks.shift_uses_vy { vy } else { vx };
        let n = op % 16;
        if n == 0 {
            self.v[x] = vy;
        } else if n == 1 {
            self.v[x] = vx | vy;
        } else if n == 2 {
            self.v[x] = vx & vy;
        } else if n == 3 {
            self.v[x] = vx ^ vy;
        } else if n == 4 {
            let sum = vx as u16 + vy as u16;
            self.v[x] = (sum % 256) as u8;
            self.v[15] = if sum > 255 { 1 } else { 0 };
        } else if n == 5 {
            self.v[x] = ((vx as u16 + 256 - vy as u16) % 256) as u8;
            self.v[15] = if vx >= vy { 1 } else { 0 };
        } else if n == 6 {
            self.v[x] = src / 2;
            self.v[15] = src % 2;
        } else if n == 7 {
            self.v[x] = ((vy as u16 + 256 - vx as u16) % 256) as u8;
            self.v[15] = if vy >= vx { 1 } else { 0 };
        } else if n == 0xE {
            self.v[x] = ((src as u16 * 2) % 256) as u8;
            self.v[15] = src / 128;
        } else {
            return Err(EmuError::InvalidOpcode { opcode: op });
        }
        Ok(())
    }

    fn draw(&mut self, x: u8, y: u8, n: u8) -> (r: Result<(), EmuError>)
        requires
            old(self).wf(),
            n < 16,
        ensures
            final(self).wf(),
            (final(self)@, r) == old(self)@.draw(x as int, y as int, n as int),
    {
        if self.i as usize + n as usize > RAM_SIZE {
            return Err(EmuError::OutOfBounds);
        }
        let addr = self.i as usize;
        let ghost before = self@;
        let mut collided = false;
        let mut p: usize = 0;
        while p < SCREEN_WIDTH * SCREEN_HEIGHT
            invariant
                0 <= p <= SCREEN_WIDTH * SCREEN_HEIGHT,
                addr == before.i,
                addr + n <= RAM_SIZE,
                before.wf(),
                self.screen.len() == SCREEN_WIDTH * SCREEN_HEIGHT,
                self@ == (EmuState { screen: self@.screen, ..before }),
                forall|q: int|
                    0 <= q < p ==> #[trigger] self@.screen[q] == (before.screen[q] != sprite_covers(
                        before.ram,
                        addr as int,
                        n as int,
                        x as int,
                        y as int,
                        q,
                    )),
                forall|q: int| p <= q < SCREEN_WIDTH * SCREEN_HEIGHT ==> #[trigger] self@.screen[q] == before.screen[q],
                collided == exists|q: int|
                    0 <= q < p && #[trigger] before.screen[q] && sprite_covers(
                        before.ram,
                        addr as int,
                        n as int,
                        x as int,
                        y as int,
                        q,
                    ),
            decreases SCREEN_WIDTH * SCREEN_HEIGHT - p,
        {
            let row = (p / SCREEN_WIDTH + SCREEN_HEIGHT - y as usize % SCREEN_HEIGHT) % SCREEN_HEIGHT;
            let col = (p % SCREEN_WIDTH + SCREEN_WIDTH - x as usize % SCREEN_WIDTH) % SCREEN_WIDTH;
            let ghost covers = sprite_covers(before.ram, addr as int, n as int, x as int, y as int, p as int);
            let mut hit = false;
            if row < n as usize && col < 8 {
                let byte = self.ram[addr + row];
                hit = (byte >> ((7 - col) as u8)) & 1u8 == 1u8;
            }
            assert(hit == covers);
            let old_pixel = self.screen[p];
            if hit {
                self.screen[p] = !old_pixel;
                if old_pixel {
                    collided = true;
                }
            }
            assert(collided == exists|q: int|
                0 <= q < p + 1 && #[trigger] before.screen[q] && sprite_covers(
                    before.ram,
                    addr as int,
                    n as int,
                    x as int,
                    y as int,
                    q,
                )) by {
                if old_pixel && hit {
                    assert(before.screen[p as int]);
                }
            }
            p += 1;
        }
        self.v[15] = if collided { 1 } else { 0 };
        assert(self@.screen =~= blit_screen(before.screen, before.ram, addr as int, n as int, x as int, y as int));
        Ok(())
    }

    fn misc(&mut self, op: u16) -> (r: Result<(), EmuError>)
        requires
            old(self).wf(),
            old(self).wait == KeyWait::Running,
            2 <= old(self)@.pc <= RAM_SIZE,
        ensures
            final(self).wf(),
            (final(self)@, r) == old(self)@.misc(op),
    {
        let x = (op / 256 % 16) as usize;
        let vx = self.v[x];
        let nn = (op % 256) as u8;
        let i = self.i as usize;
        if nn == 0x07 {
            self.v[x] = self.dt;
        } else if nn == 0x0A {
            self.pc = self.pc - 2;
            self.wait = KeyWait::Awaiting { reg: x as u8 };
        } else if nn == 0x15 {
            self.dt = vx;
        } else if nn == 0x18 {
            self.st = vx;
        } else if nn == 0x1E {
            let sum = i + vx as usize;
            self.i = (sum % 0x10000) as u16;
            if self.quirks.add_index_sets_vf {
                self.v[15] = if sum > 0xFFF { 1 } else { 0 };
            }
        } else if nn == 0x29 {
            self.i = FONT_START + 5 * (vx as u16 % 16);
        } else if nn == 0x33 {
            if i + 3 > RAM_SIZE {
                return Err(EmuError::OutOfBounds);
            }
            self.ram[i] = vx / 100;
            self.ram[i + 1] = vx / 10 % 10;
            self.ram[i + 2] = vx % 10;
        } else if nn == 0x55 {
            if i + x + 1 > RAM_SIZE {
                return Err(EmuError::OutOfBounds);
            }
            let ghost before = self@;
            let mut r: usize = 0;
            while r <= x
                invariant
                    0 <= r <= x + 1,
                    x < NUM_REGS,
                    i == before.i,
                    i + x + 1 <= RAM_SIZE,
                    before.wf(),
                    self.ram.len() == RAM_SIZE,
                    self@ == (EmuState { ram: self@.ram, ..before }),
                    forall|a: int|
                        0 <= a < RAM_SIZE ==> #[trigger] self@.ram[a] == (if i <= a < i + r {
                            before.v[a - i]
                        } else {
                            before.ram[a]
                        }),
                decreases x + 1 - r,
            {
                self.ram[i + r] = self.v[r];
                r += 1;
            }
            if self.quirks.load_store_increments_i {
                self.i = (i + x + 1) as u16;
            }
            assert(self@.ram =~= before.misc(op).0.ram);
        } else if nn == 0x65 {
            if i + x + 1 > RAM_SIZE {
                return Err(EmuError::OutOfBounds);
            }
            let ghost before = self@;
            let mut r: usize = 0;
            while r <= x
                invariant
                    0 <= r <= x + 1,
                    x < NUM_REGS,
                    i == before.i,
                    i + x + 1 <= RAM_SIZE,
                    before.wf(),
                    self.v.len() == NUM_REGS,
                    self@ == (EmuState { v: self@.v, ..before }),
                    forall|k: int|
                        0 <= k < NUM_REGS ==> #[trigger] self@.v[k] == (if k < r {
                            before.ram[i + k]
                        } else {
                            before.v[k]
                        }),
                decreases x + 1 - r,
            {
                self.v[r] = self.ram[i + r];
                r += 1;
            }
            if self.quirks.load_store_increments_i {
                self.i = (i + x + 1) as u16;
            }
            assert(self@.v =~= before.misc(op).0.v);
        } else {
            return Err(EmuError::InvalidOpcode { opcode: op });
        }
        Ok(())
    }
}

} // verus!
