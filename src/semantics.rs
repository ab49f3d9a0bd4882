use vstd::prelude::*;

use crate::font::{font_spec, FONT_START_ADDRESS};
use crate::nibble::u4;
use crate::opcode::{decodes_to, lemma_decode_unique, Opcode, OpcodeALU};
use crate::types::{Chip8Error, Chip8Result, DISPLAY_X, DISPLAY_Y, MAX_ROM_SIZE, ROM_START_ADDRESS};

verus! {

/// The machine state as mathematical values.
pub struct Chip8Model {
    /// Memory, one byte per address.
    pub memory: Seq<u8>,
    /// The framebuffer, row-major: the pixel at column `x` of row `y` is at `y * 64 + x`.
    pub display: Seq<bool>,
    /// The registers `V0` to `VF`.
    pub v: Seq<u8>,
    /// The address of the next instruction.
    pub pc: u16,
    /// The index register.
    pub i: u16,
    /// Return addresses, the most recent last.
    pub stack: Seq<u16>,
    /// Counts down at 60Hz to zero.
    pub delay_timer: u8,
    /// Counts down at 60Hz to zero; a tone sounds while it is not zero.
    pub sound_timer: u8,
    /// The key whose release a `WaitForKey` is waiting for.
    pub wait_release_key: Option<u8>,
    /// Which of the sixteen keys are held down.
    pub keypad: Seq<bool>,
}

impl Chip8Model {
    /// Sizes and ranges that every state of the machine has.
    pub open spec fn wf(self) -> bool {
        &&& self.memory.len() == 4096
        &&& self.display.len() == DISPLAY_X * DISPLAY_Y
        &&& self.v.len() == 16
        &&& self.keypad.len() == 16
        &&& self.pc < 4096
        &&& self.i < 4096
        &&& forall|k: int| 0 <= k < self.stack.len() ==> #[trigger] self.stack[k] < 4096
        &&& match self.wait_release_key {
            Some(k) => k < 16,
            None => true,
        }
    }
}

/// Addition on 12-bit addresses.
pub open spec fn add12(a: u16, b: int) -> u16 {
    ((a + b) % 4096) as u16
}

/// Subtraction on 12-bit addresses.
pub open spec fn sub12(a: u16, b: int) -> u16 {
    ((a - b) % 4096) as u16
}

/// `data` written over `s` from position `at` on.
pub open spec fn overwrite(s: Seq<u8>, at: int, data: Seq<u8>) -> Seq<u8> {
    Seq::new(s.len(), |a: int| if at <= a < at + data.len() { data[a - at] } else { s[a] })
}

/// The state just after creation: memory, registers, display and keys cleared,
/// the program counter at the load address.
pub open spec fn initial_model() -> Chip8Model {
    Chip8Model {
        memory: Seq::new(4096, |a: int| 0u8),
        display: Seq::new((DISPLAY_X * DISPLAY_Y) as nat, |k: int| false),
        v: Seq::new(16, |k: int| 0u8),
        pc: ROM_START_ADDRESS as u16,
        i: 0,
        stack: Seq::empty(),
        delay_timer: 0,
        sound_timer: 0,
        wait_release_key: None,
        keypad: Seq::new(16, |k: int| false),
    }
}

/// `m` with the font installed.
pub open spec fn with_font(m: Chip8Model) -> Chip8Model {
    Chip8Model { memory: overwrite(m.memory, FONT_START_ADDRESS as int, font_spec()), ..m }
}

/// `m` with the font installed, `rom` copied to the load address and the
/// program counter there.
pub open spec fn loaded(m: Chip8Model, rom: Seq<u8>) -> Chip8Model {
    Chip8Model {
        memory: overwrite(with_font(m).memory, ROM_START_ADDRESS as int, rom),
        pc: ROM_START_ADDRESS as u16,
        ..m
    }
}

/// The instruction word at `addr`: two bytes, big-endian, the second one
/// at the next address within the 12-bit address space.
pub open spec fn word_at(memory: Seq<u8>, addr: u16) -> u16 {
    (memory[addr as int] as int * 256 + memory[add12(addr, 1) as int] as int) as u16
}

/// The instruction word at the program counter.
pub open spec fn fetch_word(m: Chip8Model) -> u16 {
    word_at(m.memory, m.pc)
}

/// The instruction that a word means.
pub open spec fn decoded(w: u16) -> Opcode {
    choose|op: Opcode| decodes_to(w, op)
}

/// What `decode` returns is the instruction that the word means.
pub proof fn lemma_decoded(w: u16, op: Opcode)
    requires
        decodes_to(w, op),
    ensures
        decoded(w) == op,
{
    lemma_decode_unique(w, op, decoded(w));
}

/// One timer tick: both timers count down to zero and stay there.
pub open spec fn tick_timers(m: Chip8Model) -> Chip8Model {
    Chip8Model {
        delay_timer: if m.delay_timer > 0 { (m.delay_timer - 1) as u8 } else { 0 },
        sound_timer: if m.sound_timer > 0 { (m.sound_timer - 1) as u8 } else { 0 },
        ..m
    }
}

/// Register `VF`, the flag register.
pub open spec fn flag_reg() -> int {
    0xF
}

/// The registers after an ALU operation on `Vx` and `Vy`.
pub open spec fn alu_spec(v: Seq<u8>, x: int, y: int, op: OpcodeALU) -> Seq<u8> {
    let vx = v[x];
    let vy = v[y];
    match op {
        OpcodeALU::Assign => v.update(x, vy),
        OpcodeALU::Or => v.update(x, vx | vy).update(flag_reg(), 0),
        OpcodeALU::And => v.update(x, vx & vy).update(flag_reg(), 0),
        OpcodeALU::Xor => v.update(x, vx ^ vy).update(flag_reg(), 0),
        OpcodeALU::Add => v.update(x, ((vx + vy) % 256) as u8).update(
            flag_reg(),
            if vx + vy > 255 { 1 } else { 0 },
        ),
        OpcodeALU::Sub => v.update(x, ((vx - vy) % 256) as u8).update(
            flag_reg(),
            if vx >= vy { 1 } else { 0 },
        ),
        OpcodeALU::SubReverse => v.update(x, ((vy - vx) % 256) as u8).update(
            flag_reg(),
            if vy >= vx { 1 } else { 0 },
        ),
        OpcodeALU::ShiftRight => v.update(x, vy / 2).update(flag_reg(), vy % 2),
        OpcodeALU::ShiftLeft => v.update(x, ((vy * 2) % 256) as u8).update(flag_reg(), vy / 128),
    }
}

/// Whether bit `col` of a sprite row is set, counting from the most significant bit.
pub open spec fn sprite_bit(row: u8, col: int) -> bool {
    row & (0x80u8 >> (col as u8)) != 0
}

/// Column of the sprite's top-left corner: `Vx` wrapped to the display.
pub open spec fn draw_x(m: Chip8Model, x: int) -> int {
    m.v[x] as int % DISPLAY_X as int
}

/// Row of the sprite's top-left corner: `Vy` wrapped to the display.
pub open spec fn draw_y(m: Chip8Model, y: int) -> int {
    m.v[y] as int % DISPLAY_Y as int
}

/// Whether a `Dxyn` flips the pixel at column `px` and row `py`: it lies in the
/// sprite's box, clipped at the right and bottom edges, and its sprite bit is set.
pub open spec fn draw_hits(m: Chip8Model, x: int, y: int, n: int, px: int, py: int) -> bool {
    let x0 = draw_x(m, x);
    let y0 = draw_y(m, y);
    &&& x0 <= px < x0 + 8
    &&& px < DISPLAY_X
    &&& y0 <= py < y0 + n
    &&& py < DISPLAY_Y
    &&& sprite_bit(m.memory[add12(m.i, py - y0) as int], px - x0)
}

/// The state after a `Dxyn`: the sprite XORed onto the display, and `VF` set
/// to whether a lit pixel was erased.
pub open spec fn draw_spec(m: Chip8Model, x: int, y: int, n: int) -> Chip8Model {
    let display = Seq::new(
        m.display.len(),
        |k: int|
            if draw_hits(m, x, y, n, k % DISPLAY_X as int, k / DISPLAY_X as int) {
                !m.display[k]
            } else {
                m.display[k]
            },
    );
    let erased = exists|k: int|
        0 <= k < m.display.len() && #[trigger] m.display[k] && draw_hits(
            m,
            x,
            y,
            n,
            k % DISPLAY_X as int,
            k / DISPLAY_X as int,
        );
    Chip8Model { display, v: m.v.update(flag_reg(), if erased { 1 } else { 0 }), ..m }
}

/// The lowest key at or above `k` that is held down.
pub open spec fn first_pressed_from(keypad: Seq<bool>, k: int) -> Option<u8>
    decreases 16 - k,
{
    if k >= 16 || k < 0 {
        None
    } else if keypad[k] {
        Some(k as u8)
    } else {
        first_pressed_from(keypad, k + 1)
    }
}

/// A `Fx0A` on `m`, whose program counter has already moved past it.
/// Without a tracked key it tracks the lowest pressed key, if any; with one it
/// completes once that key is up, else it stays on the instruction.
pub open spec fn wait_for_key_spec(m: Chip8Model, x: int) -> (Chip8Model, Chip8Result) {
    match m.wait_release_key {
        Some(k) => if !m.keypad[k as int] {
            (
                Chip8Model { v: m.v.update(x, k), wait_release_key: None, ..m },
                Chip8Result::Continue,
            )
        } else {
            (Chip8Model { pc: sub12(m.pc, 2), ..m }, Chip8Result::WaitForNextFrame)
        },
        None => (
            Chip8Model {
                pc: sub12(m.pc, 2),
                wait_release_key: first_pressed_from(m.keypad, 0),
                ..m
            },
            Chip8Result::WaitForNextFrame,
        ),
    }
}

/// Memory after `Fx55`: `V0..=Vx` stored from the index register on, wrapping.
pub open spec fn store_regs_spec(m: Chip8Model, x: int) -> Seq<u8> {
    Seq::new(
        m.memory.len(),
        |a: int|
            if (a - m.i) % 4096 <= x {
                m.v[(a - m.i) % 4096]
            } else {
                m.memory[a]
            },
    )
}

/// Registers after `Fx65`: `V0..=Vx` read from the index register on, wrapping.
pub open spec fn load_regs_spec(m: Chip8Model, x: int) -> Seq<u8> {
    Seq::new(16, |k: int| if k <= x { m.memory[add12(m.i, k) as int] } else { m.v[k] })
}

/// `m` with the program counter skipping the next instruction when `cond` holds.
pub open spec fn skip_if(m: Chip8Model, cond: bool) -> Chip8Model {
    if cond {
        Chip8Model { pc: add12(m.pc, 2), ..m }
    } else {
        m
    }
}

/// The effect of executing `op` on `m`: the next state and the result.
/// The program counter moves past the instruction first. `rnd` is the random
/// byte that a `Cxnn` draws; no other instruction reads it.
#[verifier::opaque]
pub open spec fn execute_spec(m0: Chip8Model, op: Opcode, rnd: u8) -> (
    Chip8Model,
    Result<Chip8Result, Chip8Error>,
) {
    let m = Chip8Model { pc: add12(m0.pc, 2), ..m0 };
    let ok = Ok(Chip8Result::Continue);
    match op {
        Opcode::ClearDisplay => (
            Chip8Model { display: Seq::new(m.display.len(), |k: int| false), ..m },
            ok,
        ),
        Opcode::Jump { nnn } => (Chip8Model { pc: add12(nnn, 0), ..m }, ok),
        Opcode::JumpWithOffset { nnn } => (Chip8Model { pc: add12(nnn, m.v[0] as int), ..m }, ok),
        Opcode::Call { nnn } => (
            Chip8Model { pc: add12(nnn, 0), stack: m.stack.push(m.pc), ..m },
            ok,
        ),
        Opcode::Return => if m.stack.len() == 0 {
            (m, Err(Chip8Error::StackUnderflow))
        } else {
            (Chip8Model { pc: m.stack.last(), stack: m.stack.drop_last(), ..m }, ok)
        },
        Opcode::SkipRegEqualImm { x, nn } => (skip_if(m, m.v[x@ as int] == nn), ok),
        Opcode::SkipRegNotEqualImm { x, nn } => (skip_if(m, m.v[x@ as int] != nn), ok),
        Opcode::SkipRegEqualReg { x, y } => (skip_if(m, m.v[x@ as int] == m.v[y@ as int]), ok),
        Opcode::SkipRegNotEqualReg { x, y } => (skip_if(m, m.v[x@ as int] != m.v[y@ as int]), ok),
        Opcode::SetRegImm { x, nn } => (Chip8Model { v: m.v.update(x@ as int, nn), ..m }, ok),
        Opcode::AddRegImm { x, nn } => (
            Chip8Model { v: m.v.update(x@ as int, ((m.v[x@ as int] + nn) % 256) as u8), ..m },
            ok,
        ),
        Opcode::ALU { x, y, op } => (
            Chip8Model { v: alu_spec(m.v, x@ as int, y@ as int, op), ..m },
            ok,
        ),
        Opcode::Random { x, nn } => (Chip8Model { v: m.v.update(x@ as int, rnd & nn), ..m }, ok),
        Opcode::SetIndexImm { nnn } => (Chip8Model { i: add12(nnn, 0), ..m }, ok),
        Opcode::AddIndexReg { x } => (Chip8Model { i: add12(m.i, m.v[x@ as int] as int), ..m }, ok),
        Opcode::Draw { x, y, n } => (
            draw_spec(m, x@ as int, y@ as int, n@ as int),
            Ok(Chip8Result::WaitForNextFrame),
        ),
        Opcode::SkipIfPressed { x } => (skip_if(m, m.keypad[m.v[x@ as int] as int % 16]), ok),
        Opcode::SkipIfNotPressed { x } => (skip_if(m, !m.keypad[m.v[x@ as int] as int % 16]), ok),
        Opcode::WaitForKey { x } => {
            let (m1, r) = wait_for_key_spec(m, x@ as int);
            (m1, Ok(r))
        },
        Opcode::ReadDelayTimer { x } => (
            Chip8Model { v: m.v.update(x@ as int, m.delay_timer), ..m },
            ok,
        ),
        Opcode::SetDelayTimer { x } => (Chip8Model { delay_timer: m.v[x@ as int], ..m }, ok),
        Opcode::SetSoundTimer { x } => (Chip8Model { sound_timer: m.v[x@ as int], ..m }, ok),
        Opcode::FontChar { x } => (
            Chip8Model {
                i: (FONT_START_ADDRESS + (m.v[x@ as int] % 16) * 5) as u16,
                ..m
            },
            ok,
        ),
        Opcode::BCD { x } => {
            let value = m.v[x@ as int];
            let memory = m.memory.update(m.i as int, value / 100).update(
                add12(m.i, 1) as int,
                (value / 10) % 10,
            ).update(add12(m.i, 2) as int, value % 10);
            (Chip8Model { memory, ..m }, ok)
        },
        Opcode::StoreRegs { x } => (
            Chip8Model { memory: store_regs_spec(m, x@ as int), i: add12(m.i, x@ + 1), ..m },
            ok,
        ),
        Opcode::LoadRegs { x } => (
            Chip8Model { v: load_regs_spec(m, x@ as int), i: add12(m.i, x@ + 1), ..m },
            ok,
        ),
        Opcode::Unknown(w) => (m, Err(Chip8Error::UnknownOpcode { opcode: w })),
        Opcode::UnknownALU(w) => (m, Err(Chip8Error::UnknownALUOpcode { opcode: w })),
    }
}

/// One CPU cycle: fetch the word at the program counter, decode it, execute it.
#[verifier::opaque]
pub open spec fn cycle_spec(m: Chip8Model, rnd: u8) -> (Chip8Model, Result<Chip8Result, Chip8Error>) {
    execute_spec(m, decoded(fetch_word(m)), rnd)
}

/// Loading a program that fits and reading memory back from the load address
/// gives the program's bytes.
pub proof fn lemma_load_round_trip(m: Chip8Model, rom: Seq<u8>)
    requires
        m.wf(),
        rom.len() <= MAX_ROM_SIZE,
    ensures
        loaded(m, rom).memory.subrange(
            ROM_START_ADDRESS as int,
            ROM_START_ADDRESS + rom.len(),
        ) == rom,
        loaded(m, rom).wf(),
{
    assert(loaded(m, rom).memory.subrange(ROM_START_ADDRESS as int, ROM_START_ADDRESS + rom.len())
        =~= rom);
}

/// A draw changes only pixels inside the sprite's box, clipped at the right
/// and bottom edges: nothing wraps to the left column or the top row.
pub proof fn lemma_draw_clipped(m: Chip8Model, x: int, y: int, n: int, k: int)
    requires
        m.wf(),
        0 <= x < 16,
        0 <= y < 16,
        0 <= k < m.display.len(),
        draw_spec(m, x, y, n).display[k] != m.display[k],
    ensures
        draw_x(m, x) <= k % (DISPLAY_X as int) < draw_x(m, x) + 8,
        draw_y(m, y) <= k / (DISPLAY_X as int) < draw_y(m, y) + n,
{
}

/// A `Fx0A` with no key pressed and none tracked leaves the machine as it was,
/// program counter included, and asks to wait for the next frame.
pub proof fn lemma_wait_for_key_idle(m: Chip8Model, x: u4, rnd: u8)
    requires
        m.wf(),
        m.wait_release_key is None,
        forall|k: int| 0 <= k < 16 ==> !#[trigger] m.keypad[k],
    ensures
        execute_spec(m, Opcode::WaitForKey { x }, rnd) == (m, Ok::<Chip8Result, Chip8Error>(
            Chip8Result::WaitForNextFrame,
        )),
{
    lemma_no_key_pressed(m.keypad, 0);
    lemma_execute_wait_for_key(m, x, rnd);
}

/// `Fx0A` moves past the instruction, then waits for a key.
proof fn lemma_execute_wait_for_key(m: Chip8Model, x: u4, rnd: u8)
    ensures
        ({
            let (m1, r) = wait_for_key_spec(Chip8Model { pc: add12(m.pc, 2), ..m }, x@ as int);
            execute_spec(m, Opcode::WaitForKey { x }, rnd) == (m1, Ok::<Chip8Result, Chip8Error>(r))
        }),
{
    reveal(execute_spec);
}

/// With no key pressed at or above `k`, no key is found from `k` on.
proof fn lemma_no_key_pressed(keypad: Seq<bool>, k: int)
    requires
        forall|j: int| 0 <= j < 16 ==> !#[trigger] keypad[j],
    ensures
        first_pressed_from(keypad, k) is None,
    decreases 16 - k,
{
    if 0 <= k < 16 {
        lemma_no_key_pressed(keypad, k + 1);
    }
}

/// The two phases of `Fx0A`: a press of the lowest pressed key `key` only arms
/// the wait, and so does a later cycle while the key is held; the cycle after
/// its release stores `key` in `Vx`, moves past the instruction and continues.
pub proof fn lemma_wait_for_key_press_release(m: Chip8Model, x: u4, key: u8, rnd: u8)
    requires
        m.wf(),
        m.wait_release_key is None,
        first_pressed_from(m.keypad, 0) == Some(key),
    ensures
        ({
            let op = Opcode::WaitForKey { x };
            let (held, r1) = execute_spec(m, op, rnd);
            let (again, r2) = execute_spec(held, op, rnd);
            let released = Chip8Model { keypad: held.keypad.update(key as int, false), ..held };
            let (done, r3) = execute_spec(released, op, rnd);
            &&& r1 == Ok::<Chip8Result, Chip8Error>(Chip8Result::WaitForNextFrame)
            &&& held.pc == m.pc
            &&& held.wait_release_key == Some(key)
            &&& r2 == Ok::<Chip8Result, Chip8Error>(Chip8Result::WaitForNextFrame)
            &&& again == held
            &&& r3 == Ok::<Chip8Result, Chip8Error>(Chip8Result::Continue)
            &&& done.v == m.v.update(x@ as int, key)
            &&& done.pc == add12(m.pc, 2)
            &&& done.wait_release_key is None
        }),
{
    lemma_first_pressed_is_pressed(m.keypad, 0);
    let op = Opcode::WaitForKey { x };
    lemma_execute_wait_for_key(m, x, rnd);
    let held = execute_spec(m, op, rnd).0;
    assert(held.pc == m.pc);
    lemma_execute_wait_for_key(held, x, rnd);
    let released = Chip8Model { keypad: held.keypad.update(key as int, false), ..held };
    lemma_execute_wait_for_key(released, x, rnd);
}

/// The key that `first_pressed_from` finds is one of the sixteen, and pressed.
proof fn lemma_first_pressed_is_pressed(keypad: Seq<bool>, k: int)
    ensures
        first_pressed_from(keypad, k) matches Some(j) ==> j < 16 && keypad[j as int],
    decreases 16 - k,
{
    if 0 <= k < 16 && !keypad[k] {
        lemma_first_pressed_is_pressed(keypad, k + 1);
    }
}

} // verus!
