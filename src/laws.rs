//! Properties of the instruction set that span several instructions or all inputs.
use vstd::prelude::*;
use crate::model::{
    cell_flips, done, draw_collides, execute_spec, is_lowest_pressed, step_spec, sprite_bit,
    wrap, MachineModel, DISPLAY_SIZE, DISPLAY_WIDTH, MEMORY_SIZE, REGISTER_COUNT,
};

verus! {

/// `6xnn` puts `nn` in register `x` and changes no other register.
pub proof fn lemma_load_immediate(m: MachineModel, x: u8, nn: u8, rnd: u8, now: u64)
    requires
        m.wf(),
        x < 16,
    ensures
        execute_spec(m, (0x60 + x) as u8, nn, rnd, now).0.registers[x as int] == nn,
        execute_spec(m, (0x60 + x) as u8, nn, rnd, now).0 == (MachineModel {
            registers: m.registers.update(x as int, nn),
            ..m
        }),
{
}

/// `7xnn` adds modulo 256 and leaves every other register, the flag register
/// included, as it was.
pub proof fn lemma_add_immediate_wraps(m: MachineModel, x: u8, nn: u8, rnd: u8, now: u64)
    requires
        m.wf(),
        x < 16,
    ensures
        execute_spec(m, (0x70 + x) as u8, nn, rnd, now).0.registers == m.registers.update(
            x as int,
            wrap(m.registers[x as int] + nn),
        ),
        x != 0xF ==> execute_spec(m, (0x70 + x) as u8, nn, rnd, now).0.registers[0xF]
            == m.registers[0xF],
{
}

/// `00E0` clears every cell of the display, whatever it held.
pub proof fn lemma_clear_screen(m: MachineModel, rnd: u8, now: u64)
    requires
        m.wf(),
    ensures
        execute_spec(m, 0x00, 0xE0, rnd, now).0.display.len() == DISPLAY_SIZE,
        forall|p: int|
            0 <= p < DISPLAY_SIZE ==> !#[trigger] execute_spec(m, 0x00, 0xE0, rnd, now).0.display[p],
        execute_spec(m, 0x00, 0xE0, rnd, now).1.display_changed,
{
}

/// `fx55` at the index register, then `fx65` from there into a zeroed register
/// file, gives back `registers[0..=x]` and leaves the registers above `x` zero.
pub proof fn lemma_store_restore_round_trip(m: MachineModel, x: u8, rnd: u8, now: u64)
    requires
        m.wf(),
        x < 16,
        m.index_register + x < MEMORY_SIZE,
    ensures
        ({
            let stored = execute_spec(m, (0xF0 + x) as u8, 0x55, rnd, now).0;
            let zeroed = MachineModel { registers: Seq::new(REGISTER_COUNT as nat, |k: int| 0u8), ..stored };
            let loaded = execute_spec(zeroed, (0xF0 + x) as u8, 0x65, rnd, now).0;
            &&& forall|k: int| 0 <= k <= x ==> #[trigger] loaded.registers[k] == m.registers[k]
            &&& forall|k: int| x < k < REGISTER_COUNT ==> #[trigger] loaded.registers[k] == 0
        }),
{
}

/// Drawing the same one-row sprite twice at the same place gives the display
/// back. For a full row (`0xFF`) on a clear display, the first draw reports no
/// collision and the second reports one, as long as the sprite starts on screen.
/// The coordinate registers are not the flag register, which the first draw overwrites.
pub proof fn lemma_draw_twice(m: MachineModel, x: u8, y: u8, rnd: u8, now: u64)
    requires
        m.wf(),
        x < 15,
        y < 15,
    ensures
        ({
            let upper = (0xD0 + x) as u8;
            let lower = (y * 16 + 1) as u8;
            let (once, r1) = execute_spec(m, upper, lower, rnd, now);
            let (twice, r2) = execute_spec(once, upper, lower, rnd, now);
            &&& twice.display == m.display
            &&& r1.display_changed && r2.display_changed
            &&& (forall|p: int| 0 <= p < DISPLAY_SIZE ==> !#[trigger] m.display[p]) ==> once.registers[0xF] == 0
            &&& ((forall|p: int| 0 <= p < DISPLAY_SIZE ==> !#[trigger] m.display[p])
                && m.memory[m.index_register as int] == 0xFF && m.registers[x as int] < 64
                && m.registers[y as int] < 32) ==> twice.registers[0xF] == 1
        }),
{
    let upper = (0xD0 + x) as u8;
    let lower = (y * 16 + 1) as u8;
    assert(upper / 16 == 0xD && upper % 16 == x && lower / 16 == y && lower % 16 == 1);
    let vx = m.registers[x as int] as int;
    let vy = m.registers[y as int] as int;
    let (once, r1) = execute_spec(m, upper, lower, rnd, now);
    let (twice, r2) = execute_spec(once, upper, lower, rnd, now);
    assert(once.registers[x as int] == vx && once.registers[y as int] == vy);
    assert(forall|p: int| 0 <= p < DISPLAY_SIZE ==> #[trigger] cell_flips(once, vx, vy, 1, p) == cell_flips(m, vx, vy, 1, p));
    assert(twice.display =~= m.display);
    if forall|p: int| 0 <= p < DISPLAY_SIZE ==> !#[trigger] m.display[p] {
        assert(!draw_collides(m, vx, vy, 1));
        if m.memory[m.index_register as int] == 0xFF && vx < 64 && vy < 32 {
            let p = vx + DISPLAY_WIDTH * vy;
            assert(0xFFu8 & (0x80u8 >> 0u8) != 0u8) by (bit_vector);
            vstd::arithmetic::div_mod::lemma_fundamental_div_mod_converse(p, 64, vy, vx);
            assert(sprite_bit(0xFFu8, 0));
            assert(cell_flips(m, vx, vy, 1, p));
            assert(cell_flips(once, vx, vy, 1, p) && once.display[p]);
            assert(draw_collides(once, vx, vy, 1));
        }
    }
}

/// `2nnn` followed by the `00EE` at `nnn` returns to the instruction after the
/// call and leaves the call stack as it was.
pub proof fn lemma_call_return(m: MachineModel, rnd1: u8, now1: u64, rnd2: u8, now2: u64)
    requires
        m.wf(),
        !m.blocking,
        m.program_counter + 1 < MEMORY_SIZE,
        m.memory[m.program_counter as int] / 16 == 2,
        m.call_stack.len() < m.stack_capacity,
        ({
            let target = (m.memory[m.program_counter as int] % 16) * 256 + m.memory[m.program_counter + 1];
            &&& target + 1 < MEMORY_SIZE
            &&& m.memory[target] == 0x00
            &&& m.memory[target + 1] == 0xEE
        }),
    ensures
        ({
            let (called, r1) = step_spec(m, rnd1, now1);
            let (back, r2) = step_spec(called, rnd2, now2);
            &&& back.program_counter == m.program_counter + 2
            &&& back.call_stack == m.call_stack
            &&& r1.fault is None && r2.fault is None
        }),
{
    let (called, r1) = step_spec(m, rnd1, now1);
    assert(called.call_stack == m.call_stack.push((m.program_counter + 2) as usize));
    assert(called.call_stack.drop_last() =~= m.call_stack);
}

/// After `fx0a` the machine waits: a step with no key pressed changes nothing,
/// and once the input latch holds a pressed key, a step puts the lowest pressed
/// key index in register `x` without moving the program counter.
pub proof fn lemma_key_wait(m: MachineModel, x: u8, keys: Seq<bool>, rnd: u8, now: u64)
    requires
        m.wf(),
        x < 16,
        keys.len() == 16,
    ensures
        ({
            let waiting = execute_spec(m, (0xF0 + x) as u8, 0x0A, rnd, now).0;
            let latched = MachineModel { inputs: keys, ..waiting };
            let (after, r) = step_spec(latched, rnd, now);
            &&& waiting.blocking
            &&& (forall|k: int| 0 <= k < 16 ==> !#[trigger] keys[k]) ==> after == latched
            &&& forall|k: int| #[trigger] is_lowest_pressed(keys, k) ==> {
                &&& after.registers[x as int] == k
                &&& !after.blocking
                &&& after.program_counter == waiting.program_counter
            }
            &&& r == done(false)
        }),
{
    let waiting = execute_spec(m, (0xF0 + x) as u8, 0x0A, rnd, now).0;
    let latched = MachineModel { inputs: keys, ..waiting };
    assert forall|k: int| #[trigger] is_lowest_pressed(keys, k) implies step_spec(latched, rnd, now).0.registers[x as int] == k by {
        let c = choose|c: int| is_lowest_pressed(keys, c);
        assert(keys.len() > k >= 0 && keys[k]);
        if c < k {
            assert(!keys[c]);
        } else if c > k {
            assert(!keys[k]);
        }
    }
}

} // verus!
