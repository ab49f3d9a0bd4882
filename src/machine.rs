use vstd::prelude::*;

use crate::font::{font, FONT_START_ADDRESS};
use crate::nibble::{u12, u4};
use crate::opcode::{Opcode, OpcodeALU};
use crate::semantics::{
    add12, alu_spec, cycle_spec, draw_hits, draw_spec, draw_x, draw_y, execute_spec, fetch_word,
    first_pressed_from, flag_reg, initial_model, lemma_decoded, load_regs_spec, loaded, overwrite,
    skip_if, sprite_bit, store_regs_spec, tick_timers, wait_for_key_spec, with_font, word_at,
    Chip8Model,
};
use crate::types::{
    Chip8Error, Chip8Result, DISPLAY_X, DISPLAY_Y, MAX_ROM_SIZE, MEMORY_SIZE, ROM_START_ADDRESS,
};

verus! {

/// CHIP-8 virtual machine state.
pub struct Chip8 {
    /// 4KB memory.
    memory: Vec<u8>,
    /// Display buffer: 64x32 monochrome pixels, row-major.
    display: Vec<bool>,
    /// General-purpose registers V0-VF (VF is used as a flag register).
    v: [u8; 16],
    /// Program counter: address of the next instruction to execute.
    pc: u12,
    /// Index register: used for memory operations.
    i: u12,
    /// Call stack for subroutine returns.
    stack: Vec<u12>,
    /// Delay timer: decrements at 60Hz until it reaches 0.
    delay_timer: u8,
    /// Sound timer: decrements at 60Hz, beeps while non-zero.
    sound_timer: u8,
    /// The key whose release an `Fx0A` instruction is waiting for.
    wait_release_key: Option<u4>,
    /// Keypad state: 16 keys (true = pressed).
    keypad: [bool; 16],
}

impl View for Chip8 {
    type V = Chip8Model;

    closed spec fn view(&self) -> Chip8Model {
        Chip8Model {
            memory: self.memory@,
            display: self.display@,
            v: self.v@,
            pc: self.pc@,
            i: self.i@,
            stack: self.stack@.map_values(|a: u12| a@),
            delay_timer: self.delay_timer,
            sound_timer: self.sound_timer,
            wait_release_key: match self.wait_release_key {
                Some(k) => Some(k@),
                None => None,
            },
            keypad: self.keypad@,
        }
    }
}

impl Chip8 {
    /// The machine's own invariant: memory and display sizes, addresses in
    /// range, and a tracked key that is one of the sixteen.
    pub closed spec fn wf(&self) -> bool {
        &&& self.memory@.len() == MEMORY_SIZE
        &&& self.display@.len() == DISPLAY_X * DISPLAY_Y
        &&& self.pc@ < 4096
        &&& self.i@ < 4096
        &&& forall|k: int| 0 <= k < self.stack@.len() ==> #[trigger] self.stack@[k]@ < 4096
        &&& match self.wait_release_key {
            Some(k) => k@ < 16,
            None => true,
        }
    }

    /// A well-formed machine has a well-formed model.
    pub proof fn lemma_view_wf(&self)
        requires
            self.wf(),
        ensures
            self@.wf(),
    {
        let m = self@;
        assert forall|k: int| 0 <= k < m.stack.len() implies #[trigger] m.stack[k] < 4096 by {
            assert(m.stack[k] == self.stack@[k]@);
        }
    }

    /// A machine with memory, registers, display and keys cleared, and the
    /// program counter at the load address.
    pub fn new() -> (r: Chip8)
        ensures
            r.wf(),
            r@ == initial_model(),
    {
        let r = Chip8 {
            memory: vec![0u8; MEMORY_SIZE],
            display: vec![false; DISPLAY_X * DISPLAY_Y],
            v: [0u8; 16],
            pc: u12::new(ROM_START_ADDRESS as u16),
            i: u12::new(0),
            stack: Vec::new(),
            delay_timer: 0,
            sound_timer: 0,
            wait_release_key: None,
            keypad: [false; 16],
        };
        proof {
            assert(r@.memory =~= initial_model().memory);
            assert(r@.display =~= initial_model().display);
            assert(r@.v =~= initial_model().v);
            assert(r@.stack =~= initial_model().stack);
            assert(r@.keypad =~= initial_model().keypad);
        }
        r
    }

    /// Copies `data` into memory from address `at` on.
    fn write_memory(&mut self, at: usize, data: &[u8])
        requires
            old(self).wf(),
            at + data@.len() <= MEMORY_SIZE,
        ensures
            final(self).wf(),
            final(self)@ == (Chip8Model {
                memory: overwrite(old(self)@.memory, at as int, data@),
                ..old(self)@
            }),
    {
        let ghost m0 = self@;
        let mut k: usize = 0;
        proof {
            assert(overwrite(m0.memory, at as int, data@.subrange(0, 0)) =~= m0.memory);
        }
        while k < data.len()
            invariant
                k <= data@.len(),
                at + data@.len() <= MEMORY_SIZE,
                self.wf(),
                self@ == (Chip8Model {
                    memory: overwrite(m0.memory, at as int, data@.subrange(0, k as int)),
                    ..m0
                }),
            decreases data@.len() - k,
        {
            self.memory.set(at + k, data[k]);
            k = k + 1;
            proof {
                assert(self@.memory =~= overwrite(
                    m0.memory,
                    at as int,
                    data@.subrange(0, k as int),
                ));
                assert(self@.stack =~= m0.stack);
            }
        }
        proof {
            assert(data@.subrange(0, k as int) =~= data@);
        }
    }

    /// Installs the font and loads a program at the load address, moving the
    /// program counter there. A program longer than the memory above the load
    /// address leaves memory as it was but for the font, and is refused.
    pub fn load(&mut self, rom: &[u8]) -> (r: Result<(), Chip8Error>)
        requires
            old(self).wf(),
        ensures
            final(self).wf(),
            rom@.len() <= MAX_ROM_SIZE ==> r is Ok && final(self)@ == loaded(old(self)@, rom@),
            rom@.len() > MAX_ROM_SIZE ==> r == Err::<(), Chip8Error>(
                Chip8Error::RomLoadError { size: rom@.len() as usize, max_size: MAX_ROM_SIZE },
            ) && final(self)@ == with_font(old(self)@),
    {
        let f = font();
        self.write_memory(FONT_START_ADDRESS, f.as_slice());
        if rom.len() > MEMORY_SIZE - ROM_START_ADDRESS {
            return Err(
                Chip8Error::RomLoadError {
                    size: rom.len(),
                    max_size: MEMORY_SIZE - ROM_START_ADDRESS,
                },
            );
        }
        self.write_memory(ROM_START_ADDRESS, rom);
        self.pc = u12::new(ROM_START_ADDRESS as u16);
        Ok(())
    }

    /// Fetches the instruction word at the program counter.
    fn fetch(&self) -> (r: u16)
        requires
            self.wf(),
        ensures
            r == fetch_word(self@),
    {
        self.word_at(self.pc)
    }

    /// The instruction word at `addr`, big-endian.
    pub fn word_at(&self, addr: u12) -> (r: u16)
        requires
            self.wf(),
        ensures
            r == word_at(self@.memory, addr@),
    {
        let high = self.memory[addr.index()];
        let low = self.memory[addr.wrapping_add(1).index()];
        (high as u16) * 256 + low as u16
    }

    /// Counts both timers down by one, stopping at zero. Called at 60Hz.
    pub fn timers_cycle(&mut self)
        requires
            old(self).wf(),
        ensures
            final(self).wf(),
            final(self)@ == tick_timers(old(self)@),
    {
        self.delay_timer = self.delay_timer.saturating_sub(1);
        self.sound_timer = self.sound_timer.saturating_sub(1);
    }

    /// Whether the sound timer is running, so that a beep should be played.
    pub fn should_beep(&self) -> (r: bool)
        ensures
            r == (self@.sound_timer > 0),
    {
        self.sound_timer > 0
    }

    /// Sets the state of a key on the keypad.
    pub fn set_key(&mut self, key: u4, pressed: bool)
        requires
            old(self).wf(),
        ensures
            final(self).wf(),
            final(self)@ == (Chip8Model {
                keypad: old(self)@.keypad.update(key@ as int, pressed),
                ..old(self)@
            }),
    {
        self.keypad[key.index()] = pressed;
    }

    /// The state of the pixel at row `y`, column `x` (true = on).
    pub fn get_display_pixel(&self, y: usize, x: usize) -> (r: bool)
        requires
            self.wf(),
            y < DISPLAY_Y,
            x < DISPLAY_X,
        ensures
            r == self@.display[y * DISPLAY_X + x],
    {
        self.display[y * DISPLAY_X + x]
    }
}

/// Whether the pixel at `k` has been handled once a draw has gone through
/// rows `0..row` of the sprite and columns `0..col` of row `row`.
spec fn draw_done(m: Chip8Model, x: int, y: int, n: int, row: int, col: int, k: int) -> bool {
    let px = k % DISPLAY_X as int;
    let py = k / DISPLAY_X as int;
    let r = py - draw_y(m, y);
    &&& draw_hits(m, x, y, n, px, py)
    &&& (r < row || (r == row && px - draw_x(m, x) < col))
}

/// Row and column of a pixel index.
proof fn lemma_pixel_coords(px: int, py: int)
    requires
        0 <= px < DISPLAY_X,
        0 <= py < DISPLAY_Y,
    ensures
        (py * DISPLAY_X + px) % DISPLAY_X as int == px,
        (py * DISPLAY_X + px) / DISPLAY_X as int == py,
        0 <= py * DISPLAY_X + px < DISPLAY_X * DISPLAY_Y,
{
    assert((py * 64 + px) % 64 == px && (py * 64 + px) / 64 == py) by (nonlinear_arith)
        requires
            0 <= px < 64,
    ;
    assert(py * 64 + px < 2048) by (nonlinear_arith)
        requires
            0 <= px < 64,
            0 <= py < 32,
    ;
}

/// Offsets from a 12-bit base address, wrapping: `base + off` is the only
/// address whose offset from `base` is `off`.
proof fn lemma_offset(base: int, off: int, a: int)
    requires
        0 <= base < 4096,
        0 <= off < 4096,
        0 <= a < 4096,
    ensures
        (a - base) % 4096 == off <==> a == (base + off) % 4096,
        0 <= (a - base) % 4096 < 4096,
{
}

impl Chip8 {
    /// Executes an ALU operation on `Vx` and `Vy`.
    fn execute_alu(&mut self, x: u4, y: u4, op: OpcodeALU)
        requires
            old(self).wf(),
        ensures
            final(self).wf(),
            final(self)@ == (Chip8Model {
                v: alu_spec(old(self)@.v, x@ as int, y@ as int, op),
                ..old(self)@
            }),
    {
        let ghost m = self@;
        let xi = x.index();
        let vx = self.v[xi];
        let vy = self.v[y.index()];
        let (value, flag): (u8, Option<u8>) = match op {
            OpcodeALU::Assign => (vy, None),
            // The logic operations reset the flag.
            OpcodeALU::Or => (vx | vy, Some(0)),
            OpcodeALU::And => (vx & vy, Some(0)),
            OpcodeALU::Xor => (vx ^ vy, Some(0)),
            OpcodeALU::Add => {
                let sum = vx as u16 + vy as u16;
                ((sum % 256) as u8, Some(if sum > 255 { 1 } else { 0 }))
            },
            // The subtractions set the flag when there is no borrow.
            OpcodeALU::Sub => (
                ((vx as u16 + 256 - vy as u16) % 256) as u8,
                Some(if vx >= vy { 1 } else { 0 }),
            ),
            OpcodeALU::SubReverse => (
                ((vy as u16 + 256 - vx as u16) % 256) as u8,
                Some(if vy >= vx { 1 } else { 0 }),
            ),
            // The shifts read `Vy`, and set the flag to the bit shifted out.
            OpcodeALU::ShiftRight => (vy / 2, Some(vy % 2)),
            OpcodeALU::ShiftLeft => (((vy as u16 * 2) % 256) as u8, Some(vy / 128)),
        };
        proof {
            let w = m.v.update(x@ as int, value);
            let expected = match flag {
                Some(f) => w.update(flag_reg(), f),
                None => w,
            };
            assert(expected =~= alu_spec(m.v, x@ as int, y@ as int, op));
        }
        self.v[xi] = value;
        if let Some(f) = flag {
            self.v[15] = f;
        }
        proof {
            assert(self@.stack =~= m.stack);
            let w = m.v.update(x@ as int, value);
            match flag {
                Some(f) => assert(self@.v =~= w.update(flag_reg(), f)),
                None => assert(self@.v =~= w),
            }
        }
    }

    /// XORs an `n`-byte sprite from the index register onto the display at
    /// (`Vx`, `Vy`), clipped at the edges, and sets `VF` to whether a lit pixel
    /// was erased.
    fn execute_draw(&mut self, x: u4, y: u4, n: u4)
        requires
            old(self).wf(),
        ensures
            final(self).wf(),
            final(self)@ == draw_spec(old(self)@, x@ as int, y@ as int, n@ as int),
    {
        let ghost m = self@;
        let ghost (xs, ys, ns) = (x@ as int, y@ as int, n@ as int);
        let x_pos = self.v[x.index()] as usize % DISPLAY_X;
        let y_pos = self.v[y.index()] as usize % DISPLAY_Y;
        // Rows and columns past the edges are clipped, not wrapped.
        let row_count = if n.index() < DISPLAY_Y - y_pos {
            n.index()
        } else {
            DISPLAY_Y - y_pos
        };
        let col_count = if 8 < DISPLAY_X - x_pos {
            8
        } else {
            DISPLAY_X - x_pos
        };
        let mut any_erased = false;
        let mut row: usize = 0;
        while row < row_count
            invariant
                self.wf(),
                x_pos == draw_x(m, xs),
                y_pos == draw_y(m, ys),
                row_count <= ns,
                y_pos + row_count <= DISPLAY_Y,
                row_count == ns || y_pos + row_count == DISPLAY_Y,
                col_count <= 8,
                x_pos + col_count <= DISPLAY_X,
                col_count == 8 || x_pos + col_count == DISPLAY_X,
                row <= row_count,
                self@ == (Chip8Model { display: self@.display, ..m }),
                self@.display.len() == m.display.len(),
                forall|k: int|
                    0 <= k < m.display.len() ==> #[trigger] self@.display[k] == if draw_done(
                        m,
                        xs,
                        ys,
                        ns,
                        row as int,
                        0,
                        k,
                    ) {
                        !m.display[k]
                    } else {
                        m.display[k]
                    },
                any_erased == exists|k: int|
                    0 <= k < m.display.len() && #[trigger] m.display[k] && draw_done(
                        m,
                        xs,
                        ys,
                        ns,
                        row as int,
                        0,
                        k,
                    ),
            decreases row_count - row,
        {
            let sprite_byte = self.memory[self.i.wrapping_add(row as u16).index()];
            let mut col: usize = 0;
            while col < col_count
                invariant
                    self.wf(),
                    x_pos == draw_x(m, xs),
                    y_pos == draw_y(m, ys),
                    row < row_count,
                    row_count <= ns,
                    y_pos + row_count <= DISPLAY_Y,
                    col_count <= 8,
                    x_pos + col_count <= DISPLAY_X,
                    col_count == 8 || x_pos + col_count == DISPLAY_X,
                    col <= col_count,
                    sprite_byte == m.memory[add12(m.i, row as int) as int],
                    self@ == (Chip8Model { display: self@.display, ..m }),
                    self@.display.len() == m.display.len(),
                    forall|k: int|
                        0 <= k < m.display.len() ==> #[trigger] self@.display[k] == if draw_done(
                            m,
                            xs,
                            ys,
                            ns,
                            row as int,
                            col as int,
                            k,
                        ) {
                            !m.display[k]
                        } else {
                            m.display[k]
                        },
                    any_erased == exists|k: int|
                        0 <= k < m.display.len() && #[trigger] m.display[k] && draw_done(
                            m,
                            xs,
                            ys,
                            ns,
                            row as int,
                            col as int,
                            k,
                        ),
                decreases col_count - col,
            {
                let ghost px = (x_pos + col) as int;
                let ghost py = (y_pos + row) as int;
                let index = (y_pos + row) * DISPLAY_X + (x_pos + col);
                proof {
                    lemma_pixel_coords(px, py);
                    assert(index == py * 64 + px);
                }
                let ghost before = self@.display;
                let ghost erased_before = any_erased;
                proof {
                    assert forall|k: int| 0 <= k < m.display.len() implies (draw_done(
                        m,
                        xs,
                        ys,
                        ns,
                        row as int,
                        col + 1,
                        k,
                    ) <==> (draw_done(m, xs, ys, ns, row as int, col as int, k) || (k == index
                        && draw_hits(m, xs, ys, ns, px, py)))) by {
                        let qx = k % 64;
                        let qy = k / 64;
                        assert(k == qy * 64 + qx);
                    }
                    assert(draw_hits(m, xs, ys, ns, px, py) == sprite_bit(sprite_byte, col as int));
                    assert(!draw_done(m, xs, ys, ns, row as int, col as int, index as int));
                }
                if sprite_byte & (0x80u8 >> (col as u8)) != 0 {
                    let pixel = self.display[index];
                    self.display.set(index, !pixel);
                    if pixel {
                        any_erased = true;
                    }
                }
                proof {
                    assert forall|k: int| 0 <= k < m.display.len() implies #[trigger] self@.display[k]
                        == if draw_done(m, xs, ys, ns, row as int, col + 1, k) {
                        !m.display[k]
                    } else {
                        m.display[k]
                    } by {
                        if k != index {
                            assert(self@.display[k] == before[k]);
                        }
                    }
                    if any_erased && !erased_before {
                        assert(m.display[index as int] && draw_done(
                            m,
                            xs,
                            ys,
                            ns,
                            row as int,
                            col + 1,
                            index as int,
                        ));
                    }
                }
                col = col + 1;
            }
            row = row + 1;
        }
        self.v[15] = if any_erased { 1 } else { 0 };
        proof {
            assert(self@.display =~= draw_spec(m, xs, ys, ns).display);
            assert(self@.v =~= draw_spec(m, xs, ys, ns).v);
        }
    }
}

impl Chip8 {
    /// The two-phase `Fx0A`: arm on the lowest pressed key, complete on its release.
    /// The program counter has already moved past the instruction; while waiting
    /// it is moved back so that the instruction runs again.
    fn execute_wait_for_key(&mut self, x: u4) -> (r: Chip8Result)
        requires
            old(self).wf(),
        ensures
            final(self).wf(),
            (final(self)@, r) == wait_for_key_spec(old(self)@, x@ as int),
    {
        let ghost m = self@;
        if let Some(key) = self.wait_release_key {
            if !self.keypad[key.index()] {
                // The key we were waiting for has been released.
                self.v[x.index()] = key.value();
                self.wait_release_key = None;
                proof {
                    assert(self@.v =~= m.v.update(x@ as int, key@));
                    assert(self@.stack =~= m.stack);
                }
                return Chip8Result::Continue;
            }
        } else {
            let mut k: usize = 0;
            while k < 16 && !self.keypad[k]
                invariant
                    k <= 16,
                    self.wf(),
                    self@ == m,
                    first_pressed_from(m.keypad, 0) == first_pressed_from(m.keypad, k as int),
                decreases 16 - k,
            {
                k = k + 1;
            }
            if k < 16 {
                self.wait_release_key = Some(u4::new(k as u8));
            }
        }
        // Repeat this instruction until a key is released.
        self.pc = self.pc.wrapping_sub(2);
        proof {
            assert(self@.stack =~= m.stack);
        }
        Chip8Result::WaitForNextFrame
    }

    /// Stores `V0..=Vx` in memory from the index register on, advancing it past them.
    fn execute_store_regs(&mut self, x: u4)
        requires
            old(self).wf(),
        ensures
            final(self).wf(),
            final(self)@ == (Chip8Model {
                memory: store_regs_spec(old(self)@, x@ as int),
                i: add12(old(self)@.i, x@ + 1),
                ..old(self)@
            }),
    {
        let ghost m = self@;
        proof {
            self.lemma_view_wf();
        }
        let last = x.index();
        let mut r: usize = 0;
        while r <= last
            invariant
                self.wf(),
                m.wf(),
                last < 16,
                r <= last + 1,
                self@ == (Chip8Model { memory: self@.memory, i: add12(m.i, r as int), ..m }),
                forall|a: int|
                    0 <= a < 4096 ==> #[trigger] self@.memory[a] == if (a - m.i) % 4096 < r {
                        m.v[(a - m.i) % 4096]
                    } else {
                        m.memory[a]
                    },
            decreases last + 1 - r,
        {
            let ghost before = self@.memory;
            let addr = self.i.index();
            self.memory.set(addr, self.v[r]);
            self.i = self.i.wrapping_add(1);
            proof {
                assert forall|a: int| 0 <= a < 4096 implies #[trigger] self@.memory[a] == if (a
                    - m.i) % 4096 < r + 1 {
                    m.v[(a - m.i) % 4096]
                } else {
                    m.memory[a]
                } by {
                    lemma_offset(m.i as int, r as int, a);
                    if a != addr {
                        assert(self@.memory[a] == before[a]);
                    }
                }
                assert(self@.stack =~= m.stack);
            }
            r = r + 1;
        }
        proof {
            assert(self@.memory =~= store_regs_spec(m, x@ as int));
        }
    }

    /// Loads `V0..=Vx` from memory from the index register on, advancing it past them.
    fn execute_load_regs(&mut self, x: u4)
        requires
            old(self).wf(),
        ensures
            final(self).wf(),
            final(self)@ == (Chip8Model {
                v: load_regs_spec(old(self)@, x@ as int),
                i: add12(old(self)@.i, x@ + 1),
                ..old(self)@
            }),
    {
        let ghost m = self@;
        proof {
            self.lemma_view_wf();
        }
        let last = x.index();
        let mut r: usize = 0;
        while r <= last
            invariant
                self.wf(),
                m.wf(),
                last < 16,
                r <= last + 1,
                self@ == (Chip8Model { v: self@.v, i: add12(m.i, r as int), ..m }),
                self@.v.len() == 16,
                forall|k: int|
                    0 <= k < 16 ==> #[trigger] self@.v[k] == if k < r {
                        m.memory[add12(m.i, k) as int]
                    } else {
                        m.v[k]
                    },
            decreases last + 1 - r,
        {
            self.v[r] = self.memory[self.i.index()];
            self.i = self.i.wrapping_add(1);
            proof {
                assert(self@.stack =~= m.stack);
            }
            r = r + 1;
        }
        proof {
            assert(self@.v =~= load_regs_spec(m, x@ as int));
        }
    }
}

impl Chip8 {
    /// Skips the next instruction when `cond` holds.
    fn skip_next_if(&mut self, cond: bool)
        requires
            old(self).wf(),
        ensures
            final(self).wf(),
            final(self)@ == skip_if(old(self)@, cond),
    {
        if cond {
            self.pc = self.pc.wrapping_add(2);
            proof {
                assert(self@.stack =~= old(self)@.stack);
            }
        }
    }

    /// Executes one decoded instruction. The program counter moves past the
    /// instruction before its body runs; `random_byte` is the byte that a
    /// `Cxnn` uses, and no other instruction reads it.
    pub fn execute(&mut self, opcode: Opcode, random_byte: u8) -> (r: Result<
        Chip8Result,
        Chip8Error,
    >)
        requires
            old(self).wf(),
        ensures
            final(self).wf(),
            (final(self)@, r) == execute_spec(old(self)@, opcode, random_byte),
    {
        let ghost m0 = self@;
        proof {
            reveal(execute_spec);
        }
        self.pc = self.pc.wrapping_add(2);
        let ghost m = self@;
        proof {
            assert(m.stack =~= m0.stack);
            assert(m == Chip8Model { pc: add12(m0.pc, 2), ..m0 });
        }
        match opcode {
            Opcode::ClearDisplay => {
                let mut k: usize = 0;
                while k < DISPLAY_X * DISPLAY_Y
                    invariant
                        self.wf(),
                        k <= DISPLAY_X * DISPLAY_Y,
                        self@ == (Chip8Model { display: self@.display, ..m }),
                        self@.display.len() == DISPLAY_X * DISPLAY_Y,
                        forall|j: int| 0 <= j < k ==> !#[trigger] self@.display[j],
                    decreases DISPLAY_X * DISPLAY_Y - k,
                {
                    self.display.set(k, false);
                    k = k + 1;
                    proof {
                        assert(self@.stack =~= m.stack);
                    }
                }
                proof {
                    self.lemma_view_wf();
                    assert(self@.display =~= Seq::new(m.display.len(), |j: int| false));
                }
            },
            Opcode::Jump { nnn } => {
                self.pc = u12::new(nnn % 4096);
            },
            Opcode::JumpWithOffset { nnn } => {
                self.pc = u12::new(((nnn as u32 + self.v[0] as u32) % 4096) as u16);
            },
            Opcode::Call { nnn } => {
                self.stack.push(self.pc);
                self.pc = u12::new(nnn % 4096);
                proof {
                    assert(self@.stack =~= m.stack.push(m.pc));
                }
            },
            Opcode::Return => {
                match self.stack.pop() {
                    Some(addr) => {
                        self.pc = addr;
                        proof {
                            assert(self@.stack =~= m.stack.drop_last());
                        }
                    },
                    None => {
                        return Err(Chip8Error::StackUnderflow);
                    },
                }
            },
            Opcode::SkipRegEqualImm { x, nn } => {
                self.skip_next_if(self.v[x.index()] == nn);
            },
            Opcode::SkipRegNotEqualImm { x, nn } => {
                self.skip_next_if(self.v[x.index()] != nn);
            },
            Opcode::SkipRegEqualReg { x, y } => {
                self.skip_next_if(self.v[x.index()] == self.v[y.index()]);
            },
            Opcode::SkipRegNotEqualReg { x, y } => {
                self.skip_next_if(self.v[x.index()] != self.v[y.index()]);
            },
            Opcode::SetRegImm { x, nn } => {
                self.v[x.index()] = nn;
            },
            Opcode::AddRegImm { x, nn } => {
                let xi = x.index();
                self.v[xi] = ((self.v[xi] as u16 + nn as u16) % 256) as u8;
            },
            Opcode::ALU { x, y, op } => {
                self.execute_alu(x, y, op);
            },
            Opcode::Random { x, nn } => {
                self.v[x.index()] = random_byte & nn;
            },
            Opcode::SetIndexImm { nnn } => {
                self.i = u12::new(nnn % 4096);
            },
            Opcode::AddIndexReg { x } => {
                self.i = self.i.wrapping_add(self.v[x.index()] as u16);
            },
            Opcode::Draw { x, y, n } => {
                self.execute_draw(x, y, n);
                return Ok(Chip8Result::WaitForNextFrame);
            },
            Opcode::SkipIfPressed { x } => {
                self.skip_next_if(self.keypad[(self.v[x.index()] % 16) as usize]);
            },
            Opcode::SkipIfNotPressed { x } => {
                self.skip_next_if(!self.keypad[(self.v[x.index()] % 16) as usize]);
            },
            Opcode::WaitForKey { x } => {
                return Ok(self.execute_wait_for_key(x));
            },
            Opcode::ReadDelayTimer { x } => {
                self.v[x.index()] = self.delay_timer;
            },
            Opcode::SetDelayTimer { x } => {
                self.delay_timer = self.v[x.index()];
            },
            Opcode::SetSoundTimer { x } => {
                self.sound_timer = self.v[x.index()];
            },
            Opcode::FontChar { x } => {
                let digit = self.v[x.index()] % 16;
                self.i = u12::new(FONT_START_ADDRESS as u16 + digit as u16 * 5);
            },
            Opcode::BCD { x } => {
                let value = self.v[x.index()];
                self.memory.set(self.i.index(), value / 100);
                self.memory.set(self.i.wrapping_add(1).index(), (value / 10) % 10);
                self.memory.set(self.i.wrapping_add(2).index(), value % 10);
            },
            Opcode::StoreRegs { x } => {
                self.execute_store_regs(x);
            },
            Opcode::LoadRegs { x } => {
                self.execute_load_regs(x);
            },
            Opcode::Unknown(word) => {
                return Err(Chip8Error::UnknownOpcode { opcode: word });
            },
            Opcode::UnknownALU(word) => {
                return Err(Chip8Error::UnknownALUOpcode { opcode: word });
            },
        }
        proof {
            assert(self@.stack =~= execute_spec(m0, opcode, random_byte).0.stack);
            assert(self@.v =~= execute_spec(m0, opcode, random_byte).0.v);
            assert(self@.memory =~= execute_spec(m0, opcode, random_byte).0.memory);
        }
        Ok(Chip8Result::Continue)
    }
}

/// Relies on `rand::random`: a byte from the thread-local generator. Nothing
/// is known of its value.
#[verifier::external_body]
fn random_byte() -> u8 {
    rand::random::<u8>()
}

impl Chip8 {
    /// Executes a single CPU cycle: fetch, decode, execute. A `Cxnn` draws
    /// its byte at random: the new state is the one that some byte gives.
    pub fn cpu_cycle(&mut self) -> (r: Result<Chip8Result, Chip8Error>)
        requires
            old(self).wf(),
        ensures
            final(self).wf(),
            exists|b: u8| (final(self)@, r) == cycle_spec(old(self)@, b),
    {
        let word = self.fetch();
        let opcode = Opcode::decode(word);
        proof {
            lemma_decoded(word, opcode);
        }
        let b = match opcode {
            Opcode::Random { .. } => random_byte(),
            _ => 0,
        };
        let r = self.execute(opcode, b);
        proof {
            reveal(cycle_spec);
        }
        assert((self@, r) == cycle_spec(old(self)@, b));
        r
    }
}

impl Chip8 {
    /// The program counter.
    pub fn pc(&self) -> (r: u16)
        ensures
            r == self@.pc,
    {
        self.pc.value()
    }

    /// The index register.
    pub fn i(&self) -> (r: u16)
        ensures
            r == self@.i,
    {
        self.i.value()
    }

    /// The registers `V0` to `VF`.
    pub fn v(&self) -> (r: &[u8; 16])
        ensures
            r@ == self@.v,
    {
        &self.v
    }

    /// The keypad: which keys are held down.
    pub fn keypad(&self) -> (r: &[bool; 16])
        ensures
            r@ == self@.keypad,
    {
        &self.keypad
    }

    /// The framebuffer, row-major.
    pub fn display(&self) -> (r: &[bool])
        ensures
            r@ == self@.display,
    {
        self.display.as_slice()
    }

    /// The return addresses, the most recent last.
    pub fn stack(&self) -> (r: Vec<u16>)
        ensures
            r@ == self@.stack,
    {
        let mut r: Vec<u16> = Vec::new();
        let mut k: usize = 0;
        while k < self.stack.len()
            invariant
                k <= self.stack@.len(),
                r@ == self@.stack.subrange(0, k as int),
            decreases self.stack@.len() - k,
        {
            r.push(self.stack[k].value());
            k = k + 1;
            assert(r@ =~= self@.stack.subrange(0, k as int));
        }
        assert(self@.stack.subrange(0, k as int) =~= self@.stack);
        r
    }

    /// The byte at `addr`.
    pub fn memory_at(&self, addr: usize) -> (r: u8)
        requires
            self.wf(),
            addr < MEMORY_SIZE,
        ensures
            r == self@.memory[addr as int],
    {
        self.memory[addr]
    }

    /// Sets register `Vidx`.
    pub fn set_v(&mut self, idx: u4, value: u8)
        requires
            old(self).wf(),
        ensures
            final(self).wf(),
            final(self)@ == (Chip8Model { v: old(self)@.v.update(idx@ as int, value), ..old(self)@ }),
    {
        self.v[idx.index()] = value;
    }

    /// Sets the index register.
    pub fn set_i(&mut self, value: u12)
        requires
            old(self).wf(),
        ensures
            final(self).wf(),
            final(self)@ == (Chip8Model { i: value@, ..old(self)@ }),
    {
        self.i = u12::new(value.value());
    }

    /// Sets the program counter.
    pub fn set_pc(&mut self, value: u12)
        requires
            old(self).wf(),
        ensures
            final(self).wf(),
            final(self)@ == (Chip8Model { pc: value@, ..old(self)@ }),
    {
        self.pc = u12::new(value.value());
    }

    /// Sets the delay timer.
    pub fn set_delay_timer(&mut self, value: u8)
        requires
            old(self).wf(),
        ensures
            final(self).wf(),
            final(self)@ == (Chip8Model { delay_timer: value, ..old(self)@ }),
    {
        self.delay_timer = value;
    }

    /// Sets the sound timer.
    pub fn set_sound_timer(&mut self, value: u8)
        requires
            old(self).wf(),
        ensures
            final(self).wf(),
            final(self)@ == (Chip8Model { sound_timer: value, ..old(self)@ }),
    {
        self.sound_timer = value;
    }

    /// Pushes a return address.
    pub fn push_stack(&mut self, value: u12)
        requires
            old(self).wf(),
        ensures
            final(self).wf(),
            final(self)@ == (Chip8Model { stack: old(self)@.stack.push(value@), ..old(self)@ }),
    {
        self.stack.push(u12::new(value.value()));
        assert(self@.stack =~= old(self)@.stack.push(value@));
    }

    /// Pops the most recent return address, if any.
    pub fn pop_stack(&mut self) -> (r: Option<u16>)
        requires
            old(self).wf(),
        ensures
            final(self).wf(),
            old(self)@.stack.len() == 0 ==> r is None && final(self)@ == old(self)@,
            old(self)@.stack.len() > 0 ==> r == Some(old(self)@.stack.last()) && final(self)@ == (
            Chip8Model { stack: old(self)@.stack.drop_last(), ..old(self)@ }),
    {
        match self.stack.pop() {
            Some(a) => {
                assert(self@.stack =~= old(self)@.stack.drop_last());
                Some(a.value())
            },
            None => None,
        }
    }

    /// The delay timer.
    pub fn delay_timer(&self) -> (r: u8)
        ensures
            r == self@.delay_timer,
    {
        self.delay_timer
    }

    /// The sound timer.
    pub fn sound_timer(&self) -> (r: u8)
        ensures
            r == self@.sound_timer,
    {
        self.sound_timer
    }
}

impl Default for Chip8 {
    fn default() -> (r: Chip8)
        ensures
            r.wf(),
            r@ == initial_model(),
    {
        Chip8::new()
    }
}

} // verus!
