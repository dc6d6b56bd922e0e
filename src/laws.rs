//! Properties of the machine model that hold for every state and input.

use vstd::prelude::*;
use crate::machine::{
    blit_collides, nib_x, nib_y, row_offset, col_offset, sprite_bit, sprite_covers, word_at, EmuError,
    EmuState, KeyWait, PROGRAM_START, RAM_SIZE, SCREEN_HEIGHT, SCREEN_WIDTH, STACK_SIZE,
};

verus! {

/// The machine is running and the word at PC is `op`.
pub open spec fn fetches(s: EmuState, op: u16) -> bool {
    &&& s.wait == KeyWait::Running
    &&& s.pc + 1 < RAM_SIZE
    &&& word_at(s.ram, s.pc as int) == op
}

/// `k` timer ticks in a row.
pub open spec fn ticks(s: EmuState, k: nat) -> EmuState
    decreases k,
{
    if k == 0 {
        s
    } else {
        ticks(s, (k - 1) as nat).tick_timers()
    }
}

/// A program of at most 3584 bytes loads, and each of its bytes can be read
/// back at 0x200 plus its offset; a longer one is refused and memory is untouched.
pub proof fn lemma_load(s: EmuState, rom: Seq<u8>)
    requires
        s.wf(),
    ensures
        rom.len() <= RAM_SIZE - PROGRAM_START ==> {
            &&& s.load(rom).1 is Ok
            &&& forall|k: int| 0 <= k < rom.len() ==> s.load(rom).0.ram[PROGRAM_START + k] == #[trigger] rom[k]
        },
        rom.len() > RAM_SIZE - PROGRAM_START ==> s.load(rom) == (s, Err::<(), EmuError>(EmuError::RomTooLarge)),
{
}

/// Every cycle keeps the machine well formed; in particular the stack never
/// holds more than sixteen return addresses.
pub proof fn lemma_cycle_wf(s: EmuState)
    requires
        s.wf(),
    ensures
        s.cycle().0.wf(),
        s.cycle().0.stack.len() <= STACK_SIZE,
{
}

/// A call with sixteen return addresses on the stack fails with a stack
/// overflow and leaves the stack as it was.
pub proof fn lemma_call_overflow(s: EmuState, op: u16)
    requires
        s.wf(),
        fetches(s, op),
        op / 4096 == 2,
        s.stack.len() == STACK_SIZE,
    ensures
        s.cycle().1 == Err::<(), EmuError>(EmuError::StackOverflow),
        s.cycle().0.stack == s.stack,
{
}

/// A return with an empty stack fails with a stack underflow.
pub proof fn lemma_return_underflow(s: EmuState)
    requires
        s.wf(),
        fetches(s, 0x00EE),
        s.stack.len() == 0,
    ensures
        s.cycle().1 == Err::<(), EmuError>(EmuError::StackUnderflow),
        s.cycle().0.stack.len() == 0,
{
}

/// `7XNN` never touches VF unless VF is its own target; `8XY4` sets VF to 1
/// exactly when the unsigned sum exceeds 255.
pub proof fn lemma_add_flags(s: EmuState, op: u16)
    requires
        s.wf(),
        fetches(s, op),
    ensures
        op / 4096 == 7 && op / 256 % 16 != 15 ==> s.cycle().0.v[15] == s.v[15],
        op / 4096 == 8 && op % 16 == 4 ==> (s.cycle().0.v[15] == 1 <==> s.v[nib_x(op)] + s.v[nib_y(op)] > 255),
{
}

/// `00E0` leaves every pixel unset, whatever the screen held.
pub proof fn lemma_clear(s: EmuState)
    requires
        s.wf(),
        fetches(s, 0x00E0),
    ensures
        s.cycle().1 is Ok,
        forall|p: int| 0 <= p < SCREEN_WIDTH * SCREEN_HEIGHT ==> !#[trigger] s.cycle().0.screen[p],
{
}

/// The four conditional skips move PC by 4 when their condition holds and by 2 otherwise.
pub proof fn lemma_skips(s: EmuState, op: u16)
    requires
        s.wf(),
        fetches(s, op),
    ensures
        ({
            let vx = s.v[nib_x(op)];
            let vy = s.v[nib_y(op)];
            let nn = (op % 256) as u8;
            let cond = if op / 4096 == 3 {
                vx == nn
            } else if op / 4096 == 4 {
                vx != nn
            } else if op / 4096 == 5 {
                vx == vy
            } else {
                vx != vy
            };
            (op / 4096 == 3 || op / 4096 == 4 || ((op / 4096 == 5 || op / 4096 == 9) && op % 16 == 0))
                ==> {
                &&& s.cycle().1 is Ok
                &&& s.cycle().0.pc == if cond { s.pc + 4 } else { s.pc + 2 }
            }
        }),
{
}

/// `DXYN` sets VF to 1 exactly when some sprite bit lands on a pixel that was
/// already set: the bit in column `col` of row `row` lands on screen column
/// `(Vx + col) mod 64` and screen row `(Vy + row) mod 32`.
pub proof fn lemma_draw_collision(s: EmuState, op: u16)
    requires
        s.wf(),
        fetches(s, op),
        op / 4096 == 0xD,
        s.i + op % 16 <= RAM_SIZE,
    ensures
        ({
            let vx = s.v[nib_x(op)] as int;
            let vy = s.v[nib_y(op)] as int;
            let n = (op % 16) as int;
            &&& s.cycle().1 is Ok
            &&& (s.cycle().0.v[15] == 1) <==> exists|row: int, col: int|
                0 <= row < n && 0 <= col < 8 && #[trigger] sprite_bit(s.ram[s.i + row], col)
                    && s.screen[#[trigger] pixel_index(vx + col, vy + row)]
        }),
{
    let vx = s.v[nib_x(op)] as int;
    let vy = s.v[nib_y(op)] as int;
    let n = (op % 16) as int;
    let i = s.i as int;
    let t = EmuState { pc: (s.pc + 2) as u16, ..s };
    assert(s.cycle() == t.execute(op));
    assert(t.execute(op) == t.draw(vx, vy, n));
    if blit_collides(s.screen, s.ram, i, n, vx, vy) {
        let p = choose|p: int| 0 <= p < s.screen.len() && #[trigger] s.screen[p] && sprite_covers(s.ram, i, n, vx, vy, p);
        let row = row_offset(p / 64, vy);
        let col = col_offset(p % 64, vx);
        lemma_pixel_of_offsets(p, vx, vy);
        assert(sprite_bit(s.ram[s.i + row], col) && s.screen[pixel_index(vx + col, vy + row)]);
    }
    if exists|row: int, col: int|
        0 <= row < n && 0 <= col < 8 && #[trigger] sprite_bit(s.ram[s.i + row], col)
            && s.screen[#[trigger] pixel_index(vx + col, vy + row)] {
        let (row, col) = choose|row: int, col: int|
            0 <= row < n && 0 <= col < 8 && #[trigger] sprite_bit(s.ram[s.i + row], col)
                && s.screen[#[trigger] pixel_index(vx + col, vy + row)];
        let p = pixel_index(vx + col, vy + row);
        lemma_offsets_of_pixel(vx, vy, row, col);
        assert(sprite_covers(s.ram, i, n, vx, vy, p));
    }
}

/// Row-major index of the pixel at column `x mod 64`, row `y mod 32`.
pub open spec fn pixel_index(x: int, y: int) -> int {
    (y % (SCREEN_HEIGHT as int)) * (SCREEN_WIDTH as int) + x % (SCREEN_WIDTH as int)
}

proof fn lemma_pixel_of_offsets(p: int, x: int, y: int)
    requires
        0 <= p < SCREEN_WIDTH * SCREEN_HEIGHT,
        0 <= x,
        0 <= y,
    ensures
        pixel_index(x + col_offset(p % 64, x), y + row_offset(p / 64, y)) == p,
{
    assert(pixel_index(x + col_offset(p % 64, x), y + row_offset(p / 64, y)) == p) by (nonlinear_arith)
        requires
            0 <= p < 2048,
            0 <= x,
            0 <= y,
    ;
}

proof fn lemma_offsets_of_pixel(x: int, y: int, row: int, col: int)
    requires
        0 <= x,
        0 <= y,
        0 <= row < 16,
        0 <= col < 8,
    ensures
        0 <= pixel_index(x + col, y + row) < SCREEN_WIDTH * SCREEN_HEIGHT,
        row_offset(pixel_index(x + col, y + row) / 64, y) == row,
        col_offset(pixel_index(x + col, y + row) % 64, x) == col,
{
    assert(0 <= pixel_index(x + col, y + row) < 2048 && row_offset(pixel_index(x + col, y + row) / 64, y) == row
        && col_offset(pixel_index(x + col, y + row) % 64, x) == col) by (nonlinear_arith)
        requires
            0 <= x,
            0 <= y,
            0 <= row < 16,
            0 <= col < 8,
    ;
}

/// A timer tick never raises a timer and lowers each non-zero one by exactly one.
pub proof fn lemma_tick(s: EmuState)
    ensures
        s.tick_timers().dt <= s.dt,
        s.tick_timers().st <= s.st,
        s.dt > 0 ==> s.tick_timers().dt == s.dt - 1,
        s.st > 0 ==> s.tick_timers().st == s.st - 1,
        s.dt == 0 ==> s.tick_timers().dt == 0,
        s.st == 0 ==> s.tick_timers().st == 0,
{
}

/// After `k` ticks each timer stands at its old value less `k`, or at zero.
pub proof fn lemma_ticks(s: EmuState, k: nat)
    ensures
        ticks(s, k).dt == if s.dt >= k { s.dt - k } else { 0 },
        ticks(s, k).st == if s.st >= k { s.st - k } else { 0 },
    decreases k,
{
    if k > 0 {
        lemma_ticks(s, (k - 1) as nat);
    }
}

/// `FX0A` holds PC where it is and suspends the machine; while suspended a
/// cycle changes nothing; once a released key goes down, the next cycle puts
/// its index in Vx and moves PC past the `FX0A`.
pub proof fn lemma_key_wait(s: EmuState, op: u16, k: int)
    requires
        s.wf(),
        fetches(s, op),
        op / 4096 == 0xF,
        op % 256 == 0x0A,
        0 <= k < 16,
        !s.keys[k],
    ensures
        ({
            let waiting = s.cycle().0;
            let pressed = waiting.set_key(k, true);
            let resumed = pressed.cycle().0;
            &&& s.cycle().1 is Ok
            &&& waiting.pc == s.pc
            &&& waiting.cycle() == (waiting, Ok::<(), EmuError>(()))
            &&& pressed.cycle().1 is Ok
            &&& resumed.v[nib_x(op)] == k
            &&& resumed.pc == s.pc + 2
            &&& resumed.wait == KeyWait::Running
        }),
{
}

/// `k` cycles in a row, each run whatever the previous one reported.
pub open spec fn cycles(s: EmuState, k: nat) -> EmuState
    decreases k,
{
    if k == 0 {
        s
    } else {
        cycles(s, (k - 1) as nat).cycle().0
    }
}

/// However many cycles run, calls and returns included, the machine stays well
/// formed and its stack depth stays between 0 and 16.
pub proof fn lemma_cycles_wf(s: EmuState, k: nat)
    requires
        s.wf(),
    ensures
        cycles(s, k).wf(),
        cycles(s, k).stack.len() <= STACK_SIZE,
    decreases k,
{
    if k > 0 {
        lemma_cycles_wf(s, (k - 1) as nat);
        lemma_cycle_wf(cycles(s, (k - 1) as nat));
    }
}

/// A cycle that fails leaves every part of the machine as it was, except that
/// PC has moved past the word it fetched (when it could fetch one).
pub proof fn lemma_failure_has_no_effect(s: EmuState)
    requires
        s.wf(),
        s.cycle().1 is Err,
    ensures
        s.pc + 1 >= RAM_SIZE ==> s.cycle().0 == s,
        s.pc + 1 < RAM_SIZE ==> s.cycle().0 == (EmuState { pc: (s.pc + 2) as u16, ..s }),
{
}

} // verus!
