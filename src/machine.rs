//! The execution engine: machine state and the fetch-decode-execute cycle.
use vstd::prelude::*;
use crate::model::{
    age_spec, alu_result, bcd_spec, done, draw_spec, execute_spec, faulted, font_glyphs,
    initial_memory, initial_model, is_lowest_pressed, misc_spec, resolve_spec, restore_spec,
    step_spec, store_spec, cell_flips, row_clipped, sprite_bit, elapsed_ms, Chip8Error,
    MachineModel, StepOutcome, DEFAULT_STACK_CAPACITY, DISPLAY_HEIGHT, DISPLAY_SIZE, DISPLAY_WIDTH,
    FLAG_REGISTER, FONT_BASE_ADDR, FONT_HEIGHT, FONT_SIZE, KEY_COUNT, MEMORY_SIZE,
    PROGRAM_BASE_ADDR, REGISTER_COUNT, TIMER_CADENCE_MS,
};
use crate::opcode::{build_opcode, extract_address, extract_lower, extract_upper, next};

verus! {

/// The complete state of one machine, owned by its host for the whole run.
pub struct Machine {
    registers: Vec<u8>,
    index_register: u16,
    program_counter: usize,
    call_stack: Vec<usize>,
    stack_capacity: usize,
    delay_timer: u8,
    delay_timer_time: u64,
    sound_timer: u8,
    inputs: Vec<bool>,
    memory: Vec<u8>,
    display: Vec<bool>,
    blocking: bool,
    target_register: u8,
}

impl View for Machine {
    type V = MachineModel;

    closed spec fn view(&self) -> MachineModel {
        MachineModel {
            registers: self.registers@,
            index_register: self.index_register,
            program_counter: self.program_counter,
            call_stack: self.call_stack@,
            stack_capacity: self.stack_capacity,
            delay_timer: self.delay_timer,
            delay_timer_time: self.delay_timer_time,
            sound_timer: self.sound_timer,
            inputs: self.inputs@,
            memory: self.memory@,
            display: self.display@,
            blocking: self.blocking,
            target_register: self.target_register,
        }
    }
}

fn font() -> (r: Vec<u8>)
    ensures
        r@ == font_glyphs(),
{
    let r: Vec<u8> = vec![
        0xF0, 0x90, 0x90, 0x90, 0xF0,
        0x20, 0x60, 0x20, 0x20, 0x70,
        0xF0, 0x10, 0xF0, 0x80, 0xF0,
        0xF0, 0x10, 0xF0, 0x10, 0xF0,
        0x90, 0x90, 0xF0, 0x10, 0x10,
        0xF0, 0x80, 0xF0, 0x10, 0xF0,
        0xF0, 0x80, 0xF0, 0x90, 0xF0,
        0xF0, 0x10, 0x20, 0x40, 0x40,
        0xF0, 0x90, 0xF0, 0x90, 0xF0,
        0xF0, 0x90, 0xF0, 0x10, 0xF0,
        0xF0, 0x90, 0xF0, 0x90, 0x90,
        0xE0, 0x90, 0xE0, 0x90, 0xE0,
        0xF0, 0x80, 0x80, 0x80, 0xF0,
        0xE0, 0x90, 0x90, 0x90, 0xE0,
        0xF0, 0x80, 0xF0, 0x80, 0xF0,
        0xF0, 0x80, 0xF0, 0x80, 0x80,
    ];
    assert(r@ =~= font_glyphs());
    r
}

fn filled<T: Copy>(v: T, len: usize) -> (r: Vec<T>)
    ensures
        r@ == Seq::new(len as nat, |k: int| v),
{
    let mut r: Vec<T> = Vec::new();
    let mut k: usize = 0;
    while k < len
        invariant
            k <= len,
            r@ == Seq::new(k as nat, |j: int| v),
        decreases len - k,
    {
        r.push(v);
        k = k + 1;
        assert(r@ =~= Seq::new(k as nat, |j: int| v));
    }
    r
}

impl Machine {
    /// A machine with the font and `program` in memory and a call stack of
    /// `DEFAULT_STACK_CAPACITY` return addresses.
    pub fn load(program: &Vec<u8>) -> (r: Result<Machine, Chip8Error>)
        ensures
            program@.len() % 2 == 1 ==> r == Err::<Machine, Chip8Error>(Chip8Error::InvalidProgram),
            program@.len() % 2 == 0 && program@.len() > MEMORY_SIZE - PROGRAM_BASE_ADDR ==> (r
                == Err::<Machine, Chip8Error>(Chip8Error::OutOfBoundsAccess)),
            program@.len() % 2 == 0 && program@.len() <= MEMORY_SIZE - PROGRAM_BASE_ADDR ==> (r
                matches Ok(m) && m@ == initial_model(program@, DEFAULT_STACK_CAPACITY)),
            r matches Ok(m) ==> m@.wf(),
    {
        Machine::load_with_stack_capacity(program, DEFAULT_STACK_CAPACITY)
    }

    /// As `load`, with a call stack of `stack_capacity` return addresses.
    /// An odd-length program is refused, as is one that does not fit in memory.
    pub fn load_with_stack_capacity(program: &Vec<u8>, stack_capacity: usize) -> (r: Result<
        Machine,
        Chip8Error,
    >)
        ensures
            program@.len() % 2 == 1 ==> r == Err::<Machine, Chip8Error>(Chip8Error::InvalidProgram),
            program@.len() % 2 == 0 && program@.len() > MEMORY_SIZE - PROGRAM_BASE_ADDR ==> (r
                == Err::<Machine, Chip8Error>(Chip8Error::OutOfBoundsAccess)),
            program@.len() % 2 == 0 && program@.len() <= MEMORY_SIZE - PROGRAM_BASE_ADDR ==> (r
                matches Ok(m) && m@ == initial_model(program@, stack_capacity)),
            r matches Ok(m) ==> m@.wf(),
    {
        let len = program.len();
        if len % 2 == 1 {
            return Err(Chip8Error::InvalidProgram);
        }
        if len > MEMORY_SIZE - PROGRAM_BASE_ADDR {
            return Err(Chip8Error::OutOfBoundsAccess);
        }
        let glyphs = font();
        let mut memory: Vec<u8> = filled(0u8, MEMORY_SIZE);
        let mut a: usize = 0;
        while a < FONT_SIZE
            invariant
                a <= FONT_SIZE,
                glyphs@ == font_glyphs(),
                memory@.len() == MEMORY_SIZE,
                forall|b: int| 0 <= b < MEMORY_SIZE ==> #[trigger] memory@[b] == if b < a {
                    font_glyphs()[b]
                } else {
                    0u8
                },
            decreases FONT_SIZE - a,
        {
            memory.set(a, glyphs[a]);
            a = a + 1;
        }
        let mut k: usize = 0;
        while k < len
            invariant
                k <= len,
                len == program@.len(),
                len <= MEMORY_SIZE - PROGRAM_BASE_ADDR,
                memory@.len() == MEMORY_SIZE,
                forall|b: int| 0 <= b < MEMORY_SIZE ==> #[trigger] memory@[b] == if b < FONT_SIZE {
                    font_glyphs()[b]
                } else if PROGRAM_BASE_ADDR <= b < PROGRAM_BASE_ADDR + k {
                    program@[b - PROGRAM_BASE_ADDR]
                } else {
                    0u8
                },
            decreases len - k,
        {
            memory.set(PROGRAM_BASE_ADDR + k, program[k]);
            k = k + 1;
        }
        assert(memory@ =~= initial_memory(program@));
        let m = Machine {
            registers: filled(0u8, REGISTER_COUNT),
            index_register: 0,
            program_counter: PROGRAM_BASE_ADDR,
            call_stack: Vec::new(),
            stack_capacity,
            delay_timer: 0,
            delay_timer_time: 0,
            sound_timer: 0,
            inputs: filled(false, KEY_COUNT),
            memory,
            display: filled(false, DISPLAY_SIZE),
            blocking: false,
            target_register: 0,
        };
        assert(m@.call_stack =~= Seq::<usize>::empty());
        Ok(m)
    }

    pub fn registers(&self) -> (r: &Vec<u8>)
        ensures
            r@ == self@.registers,
    {
        &self.registers
    }

    pub fn memory(&self) -> (r: &Vec<u8>)
        ensures
            r@ == self@.memory,
    {
        &self.memory
    }

    /// The display grid, row-major, `DISPLAY_WIDTH` cells per row.
    pub fn display(&self) -> (r: &Vec<bool>)
        ensures
            r@ == self@.display,
    {
        &self.display
    }

    pub fn inputs(&self) -> (r: &Vec<bool>)
        ensures
            r@ == self@.inputs,
    {
        &self.inputs
    }

    pub fn index_register(&self) -> (r: u16)
        ensures
            r == self@.index_register,
    {
        self.index_register
    }

    pub fn program_counter(&self) -> (r: usize)
        ensures
            r == self@.program_counter,
    {
        self.program_counter
    }

    /// The number of occupied call-stack slots.
    pub fn stack_pointer(&self) -> (r: usize)
        ensures
            r == self@.call_stack.len(),
    {
        self.call_stack.len()
    }

    pub fn delay_timer(&self) -> (r: u8)
        ensures
            r == self@.delay_timer,
    {
        self.delay_timer
    }

    pub fn sound_timer(&self) -> (r: u8)
        ensures
            r == self@.sound_timer,
    {
        self.sound_timer
    }

    pub fn is_blocking(&self) -> (r: bool)
        ensures
            r == self@.blocking,
    {
        self.blocking
    }

    /// Replaces the whole input latch.
    pub fn set_inputs(&mut self, keys: [bool; 16])
        requires
            old(self)@.wf(),
        ensures
            final(self)@.wf(),
            final(self)@ == (MachineModel { inputs: keys@, ..old(self)@ }),
    {
        let mut k: usize = 0;
        while k < KEY_COUNT
            invariant
                k <= KEY_COUNT,
                self@.wf(),
                self@ == (MachineModel { inputs: self@.inputs, ..old(self)@ }),
                forall|j: int| 0 <= j < k ==> self@.inputs[j] == keys@[j],
            decreases KEY_COUNT - k,
        {
            self.inputs.set(k, keys[k]);
            k = k + 1;
        }
        assert(self@.inputs =~= keys@);
    }

    /// Ends a wait for a key when one is pressed: the lowest pressed key index
    /// goes to the target register.
    pub fn resolve_blocking_wait(&mut self)
        requires
            old(self)@.wf(),
            old(self)@.blocking,
        ensures
            final(self)@.wf(),
            final(self)@ == resolve_spec(old(self)@),
    {
        let mut k: usize = 0;
        while k < KEY_COUNT
            invariant
                k <= KEY_COUNT,
                self@ == old(self)@,
                self@.wf(),
                forall|j: int| 0 <= j < k ==> !self@.inputs[j],
            decreases KEY_COUNT - k,
        {
            if self.inputs[k] {
                assert(is_lowest_pressed(self@.inputs, k as int));
                let ghost c = choose|c: int| is_lowest_pressed(old(self)@.inputs, c);
                assert(c == k as int) by {
                    if c < k {
                    } else if c > k {
                        assert(!old(self)@.inputs[k as int]);
                    }
                }
                let t = self.target_register as usize;
                self.registers.set(t, k as u8);
                self.blocking = false;
                assert(self@ == resolve_spec(old(self)@));
                return;
            }
            k = k + 1;
        }
    }

    /// Ages the delay timer against the instant `now_ms`: once at least one
    /// cadence interval has passed since it was last set or decremented, a
    /// running timer goes down by exactly one, however many intervals passed.
    pub fn age_timers(&mut self, now_ms: u64)
        requires
            old(self)@.wf(),
        ensures
            final(self)@.wf(),
            final(self)@ == age_spec(old(self)@, now_ms),
            elapsed_ms(old(self)@, now_ms) < TIMER_CADENCE_MS ==> final(self)@.delay_timer
                == old(self)@.delay_timer,
            elapsed_ms(old(self)@, now_ms) >= TIMER_CADENCE_MS && old(self)@.delay_timer > 0
                ==> final(self)@.delay_timer == old(self)@.delay_timer - 1,
    {
        if self.delay_timer > 0 && now_ms >= self.delay_timer_time
            && now_ms - self.delay_timer_time >= TIMER_CADENCE_MS {
            self.delay_timer = self.delay_timer - 1;
            self.delay_timer_time = now_ms;
        }
    }

    /// `dxyn`: XORs `n` sprite rows from memory at the index register onto the
    /// display at (`vx`, `vy`), clipping what falls outside.
    fn draw_sprite(&mut self, vx: u8, vy: u8, n: u8) -> (r: StepOutcome)
        requires
            old(self)@.wf(),
            n < 16,
        ensures
            final(self)@.wf(),
            (final(self)@, r) == draw_spec(old(self)@, vx as int, vy as int, n as int),
    {
        let ghost m0 = self@;
        let ghost gx = vx as int;
        let ghost gy = vy as int;
        let ghost gn = n as int;
        let i = self.index_register as usize;
        let mut collided = false;
        let mut clipped = false;
        let mut h: usize = 0;
        while h < n as usize
            invariant
                h <= n,
                i == m0.index_register,
                gx == vx as int && gy == vy as int && gn == n as int,
                m0.wf(),
                self@ == (MachineModel { display: self@.display, ..m0 }),
                self@.display.len() == DISPLAY_SIZE,
                forall|p: int|
                    0 <= p < DISPLAY_SIZE ==> #[trigger] self@.display[p] == (m0.display[p] != (
                    cell_flips(m0, gx, gy, gn, p) && p / 64 < gy + h)),
                collided == exists|p: int|
                    0 <= p < DISPLAY_SIZE && #[trigger] cell_flips(m0, gx, gy, gn, p) && p / 64 < gy
                        + h && m0.display[p],
                clipped == exists|hh: int| 0 <= hh < h && #[trigger] row_clipped(m0, gx, gy, hh),
            decreases n - h,
        {
            if i + h >= MEMORY_SIZE {
                clipped = true;
                assert(row_clipped(m0, gx, gy, h as int));
            } else {
                let byte = self.memory[i + h];
                let mut row_clip = false;
                let mut w: usize = 0;
                while w < 8
                    invariant
                        h < n,
                        w <= 8,
                        i + h < MEMORY_SIZE,
                        byte == m0.memory[i + h],
                        i == m0.index_register,
                        gx == vx as int && gy == vy as int && gn == n as int,
                        m0.wf(),
                        self@ == (MachineModel { display: self@.display, ..m0 }),
                        self@.display.len() == DISPLAY_SIZE,
                        forall|p: int|
                            0 <= p < DISPLAY_SIZE ==> #[trigger] self@.display[p] == (m0.display[p]
                                != (cell_flips(m0, gx, gy, gn, p) && (p / 64 < gy + h || (p / 64
                                == gy + h && p % 64 < gx + w)))),
                        collided == exists|p: int|
                            0 <= p < DISPLAY_SIZE && #[trigger] cell_flips(m0, gx, gy, gn, p) && (p
                                / 64 < gy + h || (p / 64 == gy + h && p % 64 < gx + w))
                                && m0.display[p],
                        row_clip == exists|ww: int|
                            0 <= ww < w && sprite_bit(byte, ww) && (gx + ww >= DISPLAY_WIDTH || gy
                                + h >= DISPLAY_HEIGHT),
                    decreases 8 - w,
                {
                    let ghost c = gx + w;
                    let ghost rw = gy + h;
                    let ghost old_clip = row_clip;
                    if byte & (0x80u8 >> (w as u8)) != 0 {
                        let col = vx as usize + w;
                        let row = vy as usize + h;
                        if col < DISPLAY_WIDTH && row < DISPLAY_HEIGHT {
                            let p = col + DISPLAY_WIDTH * row;
                            proof {
                                lemma_cell(p as int, col as int, row as int);
                            }
                            assert(cell_flips(m0, gx, gy, gn, p as int));
                            let old_px = self.display[p];
                            if old_px {
                                collided = true;
                            }
                            self.display.set(p, !old_px);
                        } else {
                            row_clip = true;
                        }
                    }
                    proof {
                        assert forall|q: int|
                            0 <= q < DISPLAY_SIZE && q / 64 == rw && q % 64 == c implies
                            #[trigger] cell_flips(m0, gx, gy, gn, q) == sprite_bit(byte, w as int) by {
                            lemma_cell(q, q % 64, q / 64);
                        }
                    }
                    assert(row_clip == (old_clip || (sprite_bit(byte, w as int) && (c >= DISPLAY_WIDTH
                        || rw >= DISPLAY_HEIGHT))));
                    w = w + 1;
                }
                if row_clip {
                    clipped = true;
                    assert(row_clipped(m0, gx, gy, h as int));
                } else {
                    assert(!row_clipped(m0, gx, gy, h as int));
                }
            }
            h = h + 1;
        }
        let flag: u8 = if collided { 1 } else { 0 };
        self.registers.set(FLAG_REGISTER, flag);
        let ghost expected = draw_spec(m0, gx, gy, gn);
        assert(self@.display =~= expected.0.display);
        assert(self@.registers =~= expected.0.registers);
        StepOutcome {
            display_changed: true,
            fault: if clipped { Some(Chip8Error::OutOfBoundsAccess) } else { None },
        }
    }

    /// `8xyN`: register-register arithmetic.
    fn alu(&mut self, x: usize, y: usize, op: u8, opcode: u16) -> (r: StepOutcome)
        requires
            old(self)@.wf(),
            x < 16,
            y < 16,
        ensures
            final(self)@.wf(),
            (final(self)@, r) == (match alu_result(old(self)@.registers, x as int, y as int, op) {
                Some(regs) => (MachineModel { registers: regs, ..old(self)@ }, done(false)),
                None => (old(self)@, faulted(Chip8Error::UnsupportedOpcode(opcode))),
            }),
    {
        let vx = self.registers[x];
        let vy = self.registers[y];
        if op == 0x0 {
            self.registers.set(x, vy);
        } else if op == 0x1 {
            self.registers.set(x, vx | vy);
        } else if op == 0x2 {
            self.registers.set(x, vx & vy);
        } else if op == 0x3 {
            self.registers.set(x, vx ^ vy);
        } else if op == 0x4 {
            let sum: u16 = vx as u16 + vy as u16;
            self.registers.set(FLAG_REGISTER, if sum > 255 { 1 } else { 0 });
            self.registers.set(x, (sum % 256) as u8);
        } else if op == 0x5 {
            let diff: u16 = vx as u16 + 256 - vy as u16;
            self.registers.set(FLAG_REGISTER, if vx < vy { 0 } else { 1 });
            self.registers.set(x, (diff % 256) as u8);
        } else if op == 0x6 {
            assert(vx & 1u8 == vx % 2 && vx >> 1u8 == vx / 2) by (bit_vector);
            self.registers.set(FLAG_REGISTER, vx & 1);
            self.registers.set(x, vx >> 1);
        } else if op == 0x7 {
            let diff: u16 = vy as u16 + 256 - vx as u16;
            self.registers.set(FLAG_REGISTER, if vy < vx { 0 } else { 1 });
            self.registers.set(x, (diff % 256) as u8);
        } else if op == 0xE {
            let doubled: u16 = vx as u16 * 2;
            assert(vx >> 7u8 == vx / 128) by (bit_vector);
            self.registers.set(FLAG_REGISTER, vx >> 7);
            self.registers.set(x, (doubled % 256) as u8);
        } else {
            return StepOutcome { display_changed: false, fault: Some(Chip8Error::UnsupportedOpcode(opcode)) };
        }
        StepOutcome { display_changed: false, fault: None }
    }

    /// `fx33`: hundreds, tens and units of `registers[x]` at the index register.
    fn store_bcd(&mut self, x: usize) -> (r: StepOutcome)
        requires
            old(self)@.wf(),
            x < 16,
        ensures
            final(self)@.wf(),
            (final(self)@, r) == bcd_spec(old(self)@, x as int),
    {
        let v = self.registers[x];
        let i = self.index_register as usize;
        if i < MEMORY_SIZE {
            self.memory.set(i, v / 100);
        }
        if i + 1 < MEMORY_SIZE {
            self.memory.set(i + 1, (v % 100) / 10);
        }
        if i + 2 < MEMORY_SIZE {
            self.memory.set(i + 2, v % 10);
            StepOutcome { display_changed: false, fault: None }
        } else {
            StepOutcome { display_changed: false, fault: Some(Chip8Error::OutOfBoundsAccess) }
        }
    }

    /// `fx55`: `registers[0..=x]` to memory at the index register.
    fn store_registers(&mut self, x: usize) -> (r: StepOutcome)
        requires
            old(self)@.wf(),
            x < 16,
        ensures
            final(self)@.wf(),
            (final(self)@, r) == store_spec(old(self)@, x as int),
    {
        let ghost m0 = self@;
        let i = self.index_register as usize;
        let mut v: usize = 0;
        while v <= x
            invariant
                v <= x + 1,
                x < 16,
                i == m0.index_register,
                m0.wf(),
                self@ == (MachineModel { memory: self@.memory, ..m0 }),
                self@.memory.len() == MEMORY_SIZE,
                forall|a: int|
                    0 <= a < MEMORY_SIZE ==> #[trigger] self@.memory[a] == if i <= a < i + v {
                        m0.registers[a - i]
                    } else {
                        m0.memory[a]
                    },
            decreases x + 1 - v,
        {
            if i + v < MEMORY_SIZE {
                let b = self.registers[v];
                self.memory.set(i + v, b);
            }
            v = v + 1;
        }
        assert(self@.memory =~= store_spec(m0, x as int).0.memory);
        if i + x < MEMORY_SIZE {
            StepOutcome { display_changed: false, fault: None }
        } else {
            StepOutcome { display_changed: false, fault: Some(Chip8Error::OutOfBoundsAccess) }
        }
    }

    /// `fx65`: memory at the index register to `registers[0..=x]`.
    fn restore_registers(&mut self, x: usize) -> (r: StepOutcome)
        requires
            old(self)@.wf(),
            x < 16,
        ensures
            final(self)@.wf(),
            (final(self)@, r) == restore_spec(old(self)@, x as int),
    {
        let ghost m0 = self@;
        let i = self.index_register as usize;
        let mut v: usize = 0;
        while v <= x
            invariant
                v <= x + 1,
                x < 16,
                i == m0.index_register,
                m0.wf(),
                self@ == (MachineModel { registers: self@.registers, ..m0 }),
                self@.registers.len() == REGISTER_COUNT,
                forall|k: int|
                    0 <= k < REGISTER_COUNT ==> #[trigger] self@.registers[k] == if k < v && i + k
                        < MEMORY_SIZE {
                        m0.memory[i + k]
                    } else {
                        m0.registers[k]
                    },
            decreases x + 1 - v,
        {
            if i + v < MEMORY_SIZE {
                let b = self.memory[i + v];
                self.registers.set(v, b);
            }
            v = v + 1;
        }
        assert(self@.registers =~= restore_spec(m0, x as int).0.registers);
        if i + x < MEMORY_SIZE {
            StepOutcome { display_changed: false, fault: None }
        } else {
            StepOutcome { display_changed: false, fault: Some(Chip8Error::OutOfBoundsAccess) }
        }
    }

    /// The `fxNN` family: timers, key wait, index arithmetic, BCD and block copies.
    fn execute_misc(&mut self, x: usize, lower: u8, now_ms: u64, opcode: u16) -> (r: StepOutcome)
        requires
            old(self)@.wf(),
            x < 16,
        ensures
            final(self)@.wf(),
            (final(self)@, r) == misc_spec(old(self)@, x as int, lower, now_ms, opcode),
    {
        let vx = self.registers[x];
        if lower == 0x07 {
            let d = self.delay_timer;
            self.registers.set(x, d);
        } else if lower == 0x0A {
            self.blocking = true;
            self.target_register = x as u8;
        } else if lower == 0x15 {
            self.delay_timer = vx;
            self.delay_timer_time = now_ms;
        } else if lower == 0x18 {
            self.sound_timer = vx;
        } else if lower == 0x1E {
            let sum: usize = self.index_register as usize + vx as usize;
            if sum < MEMORY_SIZE {
                self.index_register = sum as u16;
            } else {
                return StepOutcome { display_changed: false, fault: Some(Chip8Error::OutOfBoundsAccess) };
            }
        } else if lower == 0x29 {
            let glyph = (vx & 0xF) as usize;
            assert(vx & 0xFu8 == vx % 16) by (bit_vector);
            self.index_register = (FONT_BASE_ADDR + glyph * FONT_HEIGHT) as u16;
        } else if lower == 0x33 {
            return self.store_bcd(x);
        } else if lower == 0x55 {
            return self.store_registers(x);
        } else if lower == 0x65 {
            return self.restore_registers(x);
        } else {
            return StepOutcome { display_changed: false, fault: Some(Chip8Error::UnsupportedOpcode(opcode)) };
        }
        StepOutcome { display_changed: false, fault: None }
    }

    /// Decodes and executes the instruction `upper lower`; the program counter
    /// already points past it. `random_byte` feeds `cxnn`; `now_ms` is the
    /// instant that `fx15` records for the delay timer.
    pub fn decode_instruction(&mut self, upper: u8, lower: u8, random_byte: u8, now_ms: u64) -> (r: StepOutcome)
        requires
            old(self)@.wf(),
            old(self)@.program_counter + 2 <= usize::MAX,
        ensures
            final(self)@.wf(),
            (final(self)@, r) == execute_spec(old(self)@, upper, lower, random_byte, now_ms),
    {
        let hi = extract_upper(upper);
        let top = hi >> 4;
        assert(hi >> 4u8 == hi / 16) by (bit_vector);
        let x = extract_lower(upper) as usize;
        let lo = extract_upper(lower);
        let y = (lo >> 4) as usize;
        assert(lo >> 4u8 == lo / 16) by (bit_vector);
        let n = extract_lower(lower);
        let opcode = build_opcode(upper, lower);
        let unsupported = StepOutcome { display_changed: false, fault: Some(Chip8Error::UnsupportedOpcode(opcode)) };
        let ok = StepOutcome { display_changed: false, fault: None };
        if top == 0x0 {
            if upper == 0 && lower == 0xE0 {
                let mut p: usize = 0;
                while p < DISPLAY_SIZE
                    invariant
                        p <= DISPLAY_SIZE,
                        self@ == (MachineModel { display: self@.display, ..old(self)@ }),
                        self@.display.len() == DISPLAY_SIZE,
                        forall|q: int| 0 <= q < p ==> !#[trigger] self@.display[q],
                    decreases DISPLAY_SIZE - p,
                {
                    self.display.set(p, false);
                    p = p + 1;
                }
                assert(self@.display =~= Seq::new(DISPLAY_SIZE as nat, |q: int| false));
                StepOutcome { display_changed: true, fault: None }
            } else if upper == 0 && lower == 0xEE {
                match self.call_stack.pop() {
                    Some(ret) => {
                        self.program_counter = ret;
                        ok
                    },
                    None => StepOutcome { display_changed: false, fault: Some(Chip8Error::StackUnderflow) },
                }
            } else {
                unsupported
            }
        } else if top == 0x1 {
            self.program_counter = extract_address(upper, lower);
            ok
        } else if top == 0x2 {
            if self.call_stack.len() >= self.stack_capacity {
                StepOutcome { display_changed: false, fault: Some(Chip8Error::StackOverflow) }
            } else {
                let pc = self.program_counter;
                self.call_stack.push(pc);
                self.program_counter = extract_address(upper, lower);
                ok
            }
        } else if top == 0x3 {
            if self.registers[x] == lower {
                self.program_counter = next(self.program_counter);
            }
            ok
        } else if top == 0x4 {
            if self.registers[x] != lower {
                self.program_counter = next(self.program_counter);
            }
            ok
        } else if top == 0x5 {
            if n == 0 {
                if self.registers[x] == self.registers[y] {
                    self.program_counter = next(self.program_counter);
                }
                ok
            } else {
                unsupported
            }
        } else if top == 0x6 {
            self.registers.set(x, lower);
            ok
        } else if top == 0x7 {
            let sum: u16 = self.registers[x] as u16 + lower as u16;
            self.registers.set(x, (sum % 256) as u8);
            ok
        } else if top == 0x8 {
            self.alu(x, y, n, opcode)
        } else if top == 0x9 {
            if n == 0 {
                if self.registers[x] != self.registers[y] {
                    self.program_counter = next(self.program_counter);
                }
                ok
            } else {
                unsupported
            }
        } else if top == 0xA {
            self.index_register = extract_address(upper, lower) as u16;
            ok
        } else if top == 0xB {
            self.program_counter = self.registers[0] as usize + extract_address(upper, lower);
            ok
        } else if top == 0xC {
            self.registers.set(x, random_byte & lower);
            ok
        } else if top == 0xD {
            let vx = self.registers[x];
            let vy = self.registers[y];
            self.draw_sprite(vx, vy, n)
        } else if top == 0xE {
            if lower == 0x9E || lower == 0xA1 {
                let key = self.registers[x] as usize;
                if key >= KEY_COUNT {
                    StepOutcome { display_changed: false, fault: Some(Chip8Error::OutOfBoundsAccess) }
                } else {
                    if self.inputs[key] == (lower == 0x9E) {
                        self.program_counter = next(self.program_counter);
                    }
                    ok
                }
            } else {
                unsupported
            }
        } else {
            self.execute_misc(x, lower, now_ms, opcode)
        }
    }

    /// One cycle. While waiting for a key it polls the input latch (see
    /// `resolve_blocking_wait`) and reports no display change; otherwise it
    /// fetches the instruction at the program counter, moves the counter past
    /// it and executes it. A counter whose instruction would reach past memory
    /// is reported as `OutOfBoundsAccess` and nothing changes.
    pub fn step(&mut self, random_byte: u8, now_ms: u64) -> (r: StepOutcome)
        requires
            old(self)@.wf(),
        ensures
            final(self)@.wf(),
            (final(self)@, r) == step_spec(old(self)@, random_byte, now_ms),
    {
        if self.blocking {
            self.resolve_blocking_wait();
            return StepOutcome { display_changed: false, fault: None };
        }
        let pc = self.program_counter;
        if pc >= MEMORY_SIZE - 1 {
            return StepOutcome { display_changed: false, fault: Some(Chip8Error::OutOfBoundsAccess) };
        }
        let upper = self.memory[pc];
        let lower = self.memory[pc + 1];
        self.program_counter = next(pc);
        self.decode_instruction(upper, lower, random_byte, now_ms)
    }
}

proof fn lemma_cell(p: int, col: int, row: int)
    requires
        0 <= col < 64,
        0 <= row,
    ensures
        (p == col + 64 * row) <==> (p % 64 == col && p / 64 == row),
{
    if p == col + 64 * row {
        vstd::arithmetic::div_mod::lemma_fundamental_div_mod_converse(p, 64, row, col);
    }
    if p % 64 == col && p / 64 == row {
        vstd::arithmetic::div_mod::lemma_fundamental_div_mod(p, 64);
    }
}

} // verus!
