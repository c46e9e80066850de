//! The mathematical model of the machine and the meaning of every instruction.
use vstd::prelude::*;

verus! {

pub const MEMORY_SIZE: usize = 4096;
pub const REGISTER_COUNT: usize = 16;
pub const KEY_COUNT: usize = 16;
pub const DISPLAY_WIDTH: usize = 64;
pub const DISPLAY_HEIGHT: usize = 32;
pub const DISPLAY_SIZE: usize = 2048;
/// Register written by carry, borrow, shift and collision results.
pub const FLAG_REGISTER: usize = 0xF;
pub const FONT_BASE_ADDR: usize = 0x0;
pub const FONT_SIZE: usize = 80;
/// Bytes per glyph of the built-in font.
pub const FONT_HEIGHT: usize = 5;
pub const PROGRAM_BASE_ADDR: usize = 0x200;
pub const DEFAULT_STACK_CAPACITY: usize = 24;
/// Milliseconds between two decrements of the delay timer.
pub const TIMER_CADENCE_MS: u64 = 17;

/// Faults the machine reports. `InvalidProgram` stops a load; the others are
/// reported by a step, which then carries on.
///
/// Out-of-range accesses are clipped: a write or read outside memory, or a
/// pixel outside the display, is skipped, and the step reports
/// `OutOfBoundsAccess`.
#[derive(Clone, Copy, Debug, PartialEq, Eq, Structural)]
pub enum Chip8Error {
    InvalidProgram,
    UnsupportedOpcode(u16),
    StackOverflow,
    StackUnderflow,
    OutOfBoundsAccess,
}

/// What one step reports to the host.
#[derive(Clone, Copy, Debug, PartialEq, Eq)]
pub struct StepOutcome {
    pub display_changed: bool,
    pub fault: Option<Chip8Error>,
}

/// The abstract state of a machine.
pub struct MachineModel {
    pub registers: Seq<u8>,
    pub index_register: u16,
    pub program_counter: usize,
    pub call_stack: Seq<usize>,
    pub stack_capacity: usize,
    pub delay_timer: u8,
    /// Instant (in milliseconds) at which the delay timer was last set or decremented.
    pub delay_timer_time: u64,
    pub sound_timer: u8,
    pub inputs: Seq<bool>,
    pub memory: Seq<u8>,
    /// Row-major, `DISPLAY_WIDTH` cells per row.
    pub display: Seq<bool>,
    pub blocking: bool,
    pub target_register: u8,
}

impl MachineModel {
    pub open spec fn wf(self) -> bool {
        &&& self.registers.len() == REGISTER_COUNT
        &&& self.inputs.len() == KEY_COUNT
        &&& self.memory.len() == MEMORY_SIZE
        &&& self.display.len() == DISPLAY_SIZE
        &&& self.index_register < MEMORY_SIZE
        &&& self.call_stack.len() <= self.stack_capacity
        &&& self.target_register < REGISTER_COUNT
    }
}

pub open spec fn font_glyphs() -> Seq<u8> {
    seq![
        0xF0u8, 0x90, 0x90, 0x90, 0xF0,
        0x20, 0x60, 0x20, 0x20, 0x70,
        0xF0, 0x10, 0xF0, 0x80, 0xF0,
        0xF0, 0x10, 0xF0, 0x10, 0xF0,
        0x90, 0x90, 0xF0, 0x10, 0x10,
        0xF0, 0x80, 0xF0, 0x10, 0xF0,
        0xF0, 0x80, 0xF0, 0x90, 0xF0,
        0xF0, 0x10, 0x20, 0x40, 0x40,
        0xF0, 0x90, 0xF0, 0x90, 0xF0,
        0xF0, 0x90, 0xF0, 0x10, 0xF0,
        0xF0, 0x90, 0xF0, 0x90, 0x90,
        0xE0, 0x90, 0xE0, 0x90, 0xE0,
        0xF0, 0x80, 0x80, 0x80, 0xF0,
        0xE0, 0x90, 0x90, 0x90, 0xE0,
        0xF0, 0x80, 0xF0, 0x80, 0xF0,
        0xF0, 0x80, 0xF0, 0x80, 0x80,
    ]
}

/// Memory right after loading `program`: the font at the bottom, the program at
/// `PROGRAM_BASE_ADDR`, zero elsewhere.
pub open spec fn initial_memory(program: Seq<u8>) -> Seq<u8> {
    Seq::new(
        MEMORY_SIZE as nat,
        |a: int|
            if a < FONT_SIZE {
                font_glyphs()[a]
            } else if PROGRAM_BASE_ADDR <= a < PROGRAM_BASE_ADDR + program.len() {
                program[a - PROGRAM_BASE_ADDR]
            } else {
                0u8
            },
    )
}

pub open spec fn initial_model(program: Seq<u8>, stack_capacity: usize) -> MachineModel {
    MachineModel {
        registers: Seq::new(REGISTER_COUNT as nat, |k: int| 0u8),
        index_register: 0,
        program_counter: PROGRAM_BASE_ADDR,
        call_stack: Seq::empty(),
        stack_capacity,
        delay_timer: 0,
        delay_timer_time: 0,
        sound_timer: 0,
        inputs: Seq::new(KEY_COUNT as nat, |k: int| false),
        memory: initial_memory(program),
        display: Seq::new(DISPLAY_SIZE as nat, |p: int| false),
        blocking: false,
        target_register: 0,
    }
}

pub open spec fn done(display_changed: bool) -> StepOutcome {
    StepOutcome { display_changed, fault: None }
}

pub open spec fn faulted(e: Chip8Error) -> StepOutcome {
    StepOutcome { display_changed: false, fault: Some(e) }
}

/// Skips the next instruction when `cond` holds.
pub open spec fn skip_if(m: MachineModel, cond: bool) -> MachineModel {
    if cond {
        MachineModel { program_counter: (m.program_counter + 2) as usize, ..m }
    } else {
        m
    }
}

pub open spec fn with_register(m: MachineModel, x: int, v: u8) -> MachineModel {
    MachineModel { registers: m.registers.update(x, v), ..m }
}

/// `v` modulo 256.
pub open spec fn wrap(v: int) -> u8 {
    (v % 256) as u8
}

/// Register-register arithmetic `8xyN`; `None` for an undefined `N`.
pub open spec fn alu_result(regs: Seq<u8>, x: int, y: int, op: u8) -> Option<Seq<u8>> {
    let vx = regs[x];
    let vy = regs[y];
    let f = FLAG_REGISTER as int;
    if op == 0x0 {
        Some(regs.update(x, vy))
    } else if op == 0x1 {
        Some(regs.update(x, vx | vy))
    } else if op == 0x2 {
        Some(regs.update(x, vx & vy))
    } else if op == 0x3 {
        Some(regs.update(x, vx ^ vy))
    } else if op == 0x4 {
        Some(regs.update(f, if vx + vy > 255 { 1u8 } else { 0u8 }).update(x, wrap(vx + vy)))
    } else if op == 0x5 {
        Some(regs.update(f, if vx < vy { 0u8 } else { 1u8 }).update(x, wrap(vx - vy + 256)))
    } else if op == 0x6 {
        Some(regs.update(f, vx % 2).update(x, vx / 2))
    } else if op == 0x7 {
        Some(regs.update(f, if vy < vx { 0u8 } else { 1u8 }).update(x, wrap(vy - vx + 256)))
    } else if op == 0xE {
        Some(regs.update(f, vx / 128).update(x, wrap(vx * 2)))
    } else {
        None
    }
}

/// Whether column `col` (0 at the left) of a sprite row is set.
pub open spec fn sprite_bit(row: u8, col: int) -> bool {
    row & (0x80u8 >> (col as u8)) != 0u8
}

/// Whether drawing `n` rows at (`vx`, `vy`) flips the cell at (`col`, `row`).
pub open spec fn flips(m: MachineModel, vx: int, vy: int, n: int, col: int, row: int) -> bool {
    &&& vx <= col < vx + 8
    &&& vy <= row < vy + n
    &&& m.index_register + (row - vy) < MEMORY_SIZE
    &&& sprite_bit(m.memory[m.index_register + (row - vy)], col - vx)
}

pub open spec fn cell_flips(m: MachineModel, vx: int, vy: int, n: int, p: int) -> bool {
    flips(m, vx, vy, n, p % (DISPLAY_WIDTH as int), p / (DISPLAY_WIDTH as int))
}

/// Whether sprite row `h` reaches outside memory or sets a pixel outside the display.
pub open spec fn row_clipped(m: MachineModel, vx: int, vy: int, h: int) -> bool {
    let a = m.index_register + h;
    a >= MEMORY_SIZE || exists|w: int|
        0 <= w < 8 && sprite_bit(#[trigger] m.memory[a], w) && (vx + w >= DISPLAY_WIDTH
            || vy + h >= DISPLAY_HEIGHT)
}

pub open spec fn draw_clipped(m: MachineModel, vx: int, vy: int, n: int) -> bool {
    exists|h: int| 0 <= h < n && #[trigger] row_clipped(m, vx, vy, h)
}

pub open spec fn draw_collides(m: MachineModel, vx: int, vy: int, n: int) -> bool {
    exists|p: int| 0 <= p < DISPLAY_SIZE && #[trigger] cell_flips(m, vx, vy, n, p) && m.display[p]
}

/// `dxyn`: XOR an `n`-row sprite from memory at the index register onto the display.
pub open spec fn draw_spec(m: MachineModel, vx: int, vy: int, n: int) -> (MachineModel, StepOutcome) {
    let display = Seq::new(
        DISPLAY_SIZE as nat,
        |p: int| m.display[p] != cell_flips(m, vx, vy, n, p),
    );
    let flag: u8 = if draw_collides(m, vx, vy, n) { 1 } else { 0 };
    let m2 = MachineModel {
        display,
        registers: m.registers.update(FLAG_REGISTER as int, flag),
        ..m
    };
    let fault = if draw_clipped(m, vx, vy, n) { Some(Chip8Error::OutOfBoundsAccess) } else { None };
    (m2, StepOutcome { display_changed: true, fault })
}

pub open spec fn write_clipped(mem: Seq<u8>, a: int, v: u8) -> Seq<u8> {
    if a < MEMORY_SIZE { mem.update(a, v) } else { mem }
}

/// `fx33`: hundreds, tens and units of `registers[x]` at the index register.
pub open spec fn bcd_spec(m: MachineModel, x: int) -> (MachineModel, StepOutcome) {
    let v = m.registers[x];
    let i = m.index_register as int;
    let mem = write_clipped(
        write_clipped(write_clipped(m.memory, i, v / 100), i + 1, (v % 100) / 10),
        i + 2,
        v % 10,
    );
    (
        MachineModel { memory: mem, ..m },
        if i + 2 >= MEMORY_SIZE { faulted(Chip8Error::OutOfBoundsAccess) } else { done(false) },
    )
}

/// `fx55`: `registers[0..=x]` to memory at the index register.
pub open spec fn store_spec(m: MachineModel, x: int) -> (MachineModel, StepOutcome) {
    let i = m.index_register as int;
    let mem = Seq::new(
        MEMORY_SIZE as nat,
        |a: int| if i <= a <= i + x { m.registers[a - i] } else { m.memory[a] },
    );
    (
        MachineModel { memory: mem, ..m },
        if i + x >= MEMORY_SIZE { faulted(Chip8Error::OutOfBoundsAccess) } else { done(false) },
    )
}

/// `fx65`: memory at the index register to `registers[0..=x]`.
pub open spec fn restore_spec(m: MachineModel, x: int) -> (MachineModel, StepOutcome) {
    let i = m.index_register as int;
    let regs = Seq::new(
        REGISTER_COUNT as nat,
        |k: int| if k <= x && i + k < MEMORY_SIZE { m.memory[i + k] } else { m.registers[k] },
    );
    (
        MachineModel { registers: regs, ..m },
        if i + x >= MEMORY_SIZE { faulted(Chip8Error::OutOfBoundsAccess) } else { done(false) },
    )
}

/// The `fxNN` family.
pub open spec fn misc_spec(m: MachineModel, x: int, lower: u8, now: u64, opcode: u16) -> (MachineModel, StepOutcome) {
    let vx = m.registers[x];
    if lower == 0x07 {
        (with_register(m, x, m.delay_timer), done(false))
    } else if lower == 0x0A {
        (MachineModel { blocking: true, target_register: x as u8, ..m }, done(false))
    } else if lower == 0x15 {
        (MachineModel { delay_timer: vx, delay_timer_time: now, ..m }, done(false))
    } else if lower == 0x18 {
        (MachineModel { sound_timer: vx, ..m }, done(false))
    } else if lower == 0x1E {
        if m.index_register + vx < MEMORY_SIZE {
            (MachineModel { index_register: (m.index_register + vx) as u16, ..m }, done(false))
        } else {
            (m, faulted(Chip8Error::OutOfBoundsAccess))
        }
    } else if lower == 0x29 {
        (MachineModel { index_register: (FONT_BASE_ADDR + (vx % 16) * FONT_HEIGHT) as u16, ..m }, done(false))
    } else if lower == 0x33 {
        bcd_spec(m, x)
    } else if lower == 0x55 {
        store_spec(m, x)
    } else if lower == 0x65 {
        restore_spec(m, x)
    } else {
        (m, faulted(Chip8Error::UnsupportedOpcode(opcode)))
    }
}

/// The effect of the instruction `upper lower`, once the program counter has
/// moved past it. `rnd` is the random byte for `cxnn`, `now` the current instant.
pub open spec fn execute_spec(m: MachineModel, upper: u8, lower: u8, rnd: u8, now: u64) -> (MachineModel, StepOutcome) {
    let top = upper / 16;
    let x = (upper % 16) as int;
    let y = (lower / 16) as int;
    let n = lower % 16;
    let addr = (upper % 16) as int * 256 + lower as int;
    let opcode = (upper as int * 256 + lower as int) as u16;
    let vx = m.registers[x];
    let vy = m.registers[y];
    let unsupported = (m, faulted(Chip8Error::UnsupportedOpcode(opcode)));
    if top == 0x0 {
        if upper == 0 && lower == 0xE0 {
            (MachineModel { display: Seq::new(DISPLAY_SIZE as nat, |p: int| false), ..m }, done(true))
        } else if upper == 0 && lower == 0xEE {
            if m.call_stack.len() == 0 {
                (m, faulted(Chip8Error::StackUnderflow))
            } else {
                (
                    MachineModel {
                        program_counter: m.call_stack.last(),
                        call_stack: m.call_stack.drop_last(),
                        ..m
                    },
                    done(false),
                )
            }
        } else {
            unsupported
        }
    } else if top == 0x1 {
        (MachineModel { program_counter: addr as usize, ..m }, done(false))
    } else if top == 0x2 {
        if m.call_stack.len() >= m.stack_capacity {
            (m, faulted(Chip8Error::StackOverflow))
        } else {
            (
                MachineModel {
                    call_stack: m.call_stack.push(m.program_counter),
                    program_counter: addr as usize,
                    ..m
                },
                done(false),
            )
        }
    } else if top == 0x3 {
        (skip_if(m, vx == lower), done(false))
    } else if top == 0x4 {
        (skip_if(m, vx != lower), done(false))
    } else if top == 0x5 {
        if n == 0 { (skip_if(m, vx == vy), done(false)) } else { unsupported }
    } else if top == 0x6 {
        (with_register(m, x, lower), done(false))
    } else if top == 0x7 {
        (with_register(m, x, wrap(vx + lower)), done(false))
    } else if top == 0x8 {
        match alu_result(m.registers, x, y, n) {
            Some(regs) => (MachineModel { registers: regs, ..m }, done(false)),
            None => unsupported,
        }
    } else if top == 0x9 {
        if n == 0 { (skip_if(m, vx != vy), done(false)) } else { unsupported }
    } else if top == 0xA {
        (MachineModel { index_register: addr as u16, ..m }, done(false))
    } else if top == 0xB {
        (MachineModel { program_counter: (m.registers[0] + addr) as usize, ..m }, done(false))
    } else if top == 0xC {
        (with_register(m, x, rnd & lower), done(false))
    } else if top == 0xD {
        draw_spec(m, vx as int, vy as int, n as int)
    } else if top == 0xE {
        if lower == 0x9E || lower == 0xA1 {
            if vx >= KEY_COUNT {
                (m, faulted(Chip8Error::OutOfBoundsAccess))
            } else {
                (skip_if(m, m.inputs[vx as int] == (lower == 0x9E)), done(false))
            }
        } else {
            unsupported
        }
    } else {
        misc_spec(m, x, lower, now, opcode)
    }
}

/// `k` is the lowest index of a pressed key.
pub open spec fn is_lowest_pressed(keys: Seq<bool>, k: int) -> bool {
    &&& 0 <= k < keys.len()
    &&& keys[k]
    &&& forall|j: int| 0 <= j < k ==> !keys[j]
}

/// Ends a wait for a key: the lowest pressed key goes to the target register.
/// With no key pressed nothing changes.
pub open spec fn resolve_spec(m: MachineModel) -> MachineModel {
    if exists|k: int| m.inputs.len() > k >= 0 && #[trigger] m.inputs[k] {
        let k = choose|k: int| is_lowest_pressed(m.inputs, k);
        MachineModel {
            registers: m.registers.update(m.target_register as int, k as u8),
            blocking: false,
            ..m
        }
    } else {
        m
    }
}

/// One cycle: a poll while waiting for a key, else fetch, advance and execute.
pub open spec fn step_spec(m: MachineModel, rnd: u8, now: u64) -> (MachineModel, StepOutcome) {
    if m.blocking {
        (resolve_spec(m), done(false))
    } else if m.program_counter + 1 >= MEMORY_SIZE {
        (m, faulted(Chip8Error::OutOfBoundsAccess))
    } else {
        let pc = m.program_counter as int;
        execute_spec(
            MachineModel { program_counter: (pc + 2) as usize, ..m },
            m.memory[pc],
            m.memory[pc + 1],
            rnd,
            now,
        )
    }
}

/// Time elapsed since the delay timer was last set or decremented; a clock that
/// went backwards counts as none.
pub open spec fn elapsed_ms(m: MachineModel, now: u64) -> int {
    if now >= m.delay_timer_time { now - m.delay_timer_time } else { 0 }
}

/// Decrements a running delay timer by one once a cadence interval has passed,
/// and takes `now` as the new reference instant.
pub open spec fn age_spec(m: MachineModel, now: u64) -> MachineModel {
    if m.delay_timer > 0 && elapsed_ms(m, now) >= TIMER_CADENCE_MS {
        MachineModel { delay_timer: (m.delay_timer - 1) as u8, delay_timer_time: now, ..m }
    } else {
        m
    }
}

} // verus!
