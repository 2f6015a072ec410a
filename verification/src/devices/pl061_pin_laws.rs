//! What a guest and the buttons see of a PL061, pin by pin and register by register.

use vstd::prelude::*;

use crate::devices::pl061::{
    kill_position, le_byte, le_value, readable_tokens, worker_batch, worker_run, worker_step,
    Button, Token, TriggeredEvent, WorkerAction,
};
use crate::devices::pl061_laws::{
    law_edge_on_rise, law_kill_position, law_pin_pending, RegisterOp,
};
use crate::devices::pl061_regs::{Pl061Regs, PL061_AMBA_ID};

verus! {

/// Recomputing the interrupt state leaves the levels and the configuration alone.
pub proof fn law_update_keeps_configuration(regs: Pl061Regs)
    ensures
        ({
            let after = regs.updated();
            &&& after.data == regs.data
            &&& after.dir == regs.dir
            &&& after.isense == regs.isense
            &&& after.ibe == regs.ibe
            &&& after.iev == regs.iev
            &&& after.im == regs.im
            &&& after.afsel == regs.afsel
        }),
{
}

/// After the interrupt state is recomputed it is asserted exactly while an unmasked pin is
/// pending, and an edge is injected exactly if it was not asserted before.
pub proof fn law_update_asserts(regs: Pl061Regs)
    ensures
        regs.updated().asserted == (regs.updated().istate & regs.im != 0),
        regs.raises() == (!regs.asserted && regs.updated().asserted),
{
}

/// An input whose level differs from the one last seen makes all levels seen.
pub proof fn law_change_is_seen(regs: Pl061Regs, pin: u32)
    requires
        pin < 8,
        regs.dir & (1u8 << pin) == 0,
        (regs.data & (1u8 << pin) != 0) != (regs.old_in_data & (1u8 << pin) != 0),
    ensures
        regs.updated().old_in_data == regs.data,
{
    lemma_changed(regs.data, regs.old_in_data, regs.dir, pin);
}

/// While every input is at the level last seen, the levels last seen stay as they are.
pub proof fn law_no_change_is_seen(regs: Pl061Regs)
    requires
        forall|pin: u32|
            pin < 8 && regs.dir & (#[trigger] (1u8 << pin)) == 0 ==> (regs.data & (1u8 << pin) != 0)
                == (regs.old_in_data & (1u8 << pin) != 0),
    ensures
        regs.updated().old_in_data == regs.old_in_data,
{
    let changed = (regs.old_in_data ^ regs.data) & !regs.dir;
    if changed != 0 {
        lemma_some_bit(changed);
        let pin = choose|pin: u32| pin < 8 && changed & (#[trigger] (1u8 << pin)) != 0;
        lemma_changed(regs.data, regs.old_in_data, regs.dir, pin);
    }
}

proof fn lemma_changed(data: u8, old_in_data: u8, dir: u8, pin: u32)
    by (bit_vector)
    requires
        pin < 8,
    ensures
        ({
            let bit = 1u8 << pin;
            let changed = (old_in_data ^ data) & !dir;
            (changed & bit != 0) == (dir & bit == 0 && (data & bit != 0) != (old_in_data & bit
                != 0)) && (changed & bit != 0 ==> changed != 0)
        }),
{
}

/// A nonzero byte has a bit set.
proof fn lemma_some_bit(byte: u8)
    requires
        byte != 0,
    ensures
        exists|pin: u32| pin < 8 && byte & (#[trigger] (1u8 << pin)) != 0,
{
    assert(byte & (1u8 << 0u32) != 0 || byte & (1u8 << 1u32) != 0 || byte & (1u8 << 2u32) != 0
        || byte & (1u8 << 3u32) != 0 || byte & (1u8 << 4u32) != 0 || byte & (1u8 << 5u32) != 0
        || byte & (1u8 << 6u32) != 0 || byte & (1u8 << 7u32) != 0) by (bit_vector)
        requires
            byte != 0,
    ;
}

/// A guest's write sets the register at its offset to the low byte of the value, and no
/// other.
pub proof fn law_write_sets_one_register(regs: Pl061Regs, offset: u64, value: u32)
    ensures
        ({
            let after = regs.after_write(offset, value);
            let byte = value % 256;
            &&& after.dir == if offset == 0x400 { byte } else { regs.dir as u32 }
            &&& after.isense == if offset == 0x404 { byte } else { regs.isense as u32 }
            &&& after.ibe == if offset == 0x408 { byte } else { regs.ibe as u32 }
            &&& after.iev == if offset == 0x40c { byte } else { regs.iev as u32 }
            &&& after.im == if offset == 0x410 { byte } else { regs.im as u32 }
            &&& after.afsel == if offset == 0x420 { byte } else { regs.afsel as u32 }
            &&& offset >= 0x400 ==> after.data == regs.data
        }),
{
}

/// A write to the data register sets the output pins that its address selects, and leaves
/// all other pins as they were.
pub proof fn law_write_sets_selected_outputs(regs: Pl061Regs, offset: u64, value: u32, pin: u32)
    requires
        offset < 0x400,
        pin < 8,
    ensures
        ({
            let bit = 1u8 << pin;
            let selected = (offset / 4) as u8 & bit != 0;
            let output = regs.dir & bit != 0;
            (regs.after_write(offset, value).data & bit != 0) == if selected && output {
                (value % 256) as u8 & bit != 0
            } else {
                regs.data & bit != 0
            }
        }),
{
    lemma_data_stored(regs.data, (value % 256) as u8, (offset / 4) as u8, regs.dir, pin);
}

proof fn lemma_data_stored(data: u8, byte: u8, mask: u8, dir: u8, pin: u32)
    by (bit_vector)
    requires
        pin < 8,
    ensures
        ({
            let bit = 1u8 << pin;
            let stored = (data & !(mask & dir)) | (byte & (mask & dir));
            (stored & bit != 0) == if mask & bit != 0 && dir & bit != 0 {
                byte & bit != 0
            } else {
                data & bit != 0
            }
        }),
{
}

/// Where there is nothing to write, a write changes nothing and injects nothing.
pub proof fn law_other_writes_ignored(regs: Pl061Regs, offset: u64, value: u32)
    requires
        offset >= 0x400,
        offset % 4 != 0 || offset == 0x414 || offset == 0x418 || offset > 0x420,
    ensures
        regs.after_write(offset, value) == regs,
        !regs.write_raises(offset, value),
{
}

/// After a write a pin is pending if it was and the write did not clear it, if the write
/// uncovers a selected edge on it, or if it is level-sensitive and at the selected level;
/// otherwise it is not.
pub proof fn law_pending_after_write(regs: Pl061Regs, offset: u64, value: u32, pin: u32)
    requires
        offset < 0x400 || (offset % 4 == 0 && offset <= 0x420 && offset != 0x414 && offset
            != 0x418),
        pin < 8,
    ensures
        ({
            let bit = 1u8 << pin;
            let after = regs.after_write(offset, value);
            let cleared = offset == 0x41c && (value % 256) as u8 & bit != 0;
            let level = after.data & bit != 0;
            let selected = level == (after.iev & bit != 0);
            after.istate & bit != 0 <==> {
                ||| regs.istate & bit != 0 && !cleared
                ||| {
                    &&& after.dir & bit == 0
                    &&& after.isense & bit == 0
                    &&& level != (regs.old_in_data & bit != 0)
                    &&& selected || after.ibe & bit != 0
                }
                ||| after.isense & bit != 0 && selected
            }
        }),
{
    let stored = regs.stored(offset, (value % 256) as u8)->0;
    law_pin_pending(stored, pin);
    lemma_cleared(regs.istate, (value % 256) as u8, pin);
}

proof fn lemma_cleared(istate: u8, byte: u8, pin: u32)
    by (bit_vector)
    ensures
        ((istate & !byte) & (1u8 << pin) != 0) == (istate & (1u8 << pin) != 0 && byte & (1u8 << pin)
            == 0),
{
}

/// A write keeps the interrupt asserted exactly while the masked status is nonzero, and it
/// injects an edge exactly if the masked status register reads zero before it and nonzero
/// after it.
pub proof fn law_write_injects_on_rise(regs: Pl061Regs, offset: u64, value: u32)
    requires
        regs.asserted == (regs.istate & regs.im != 0),
    ensures
        ({
            let after = regs.after_write(offset, value);
            &&& after.asserted == (after.istate & after.im != 0)
            &&& regs.write_raises(offset, value) <==> regs.istate & regs.im == 0 && after.istate
                & after.im != 0
            &&& regs.write_raises(offset, value) <==> regs.read_value(0x418) == 0
                && after.read_value(0x418) != 0
        }),
{
    law_edge_on_rise(regs, RegisterOp::Write { offset, value });
}

/// Whatever state the registers were put into, a write that reaches one and a driven input
/// leave the interrupt asserted exactly while the masked status is nonzero, and inject an
/// edge exactly if the interrupt becomes asserted.
pub proof fn law_edge_on_assertion(regs: Pl061Regs, op: RegisterOp)
    requires
        match op {
            RegisterOp::Write { offset, .. } => offset < 0x400 || (offset % 4 == 0 && offset <= 0x420
                && offset != 0x414 && offset != 0x418),
            RegisterOp::Drive { pin, .. } => pin < 8 && regs.dir & (1u8 << pin) == 0,
        },
    ensures
        op.apply(regs).asserted == (op.apply(regs).istate & op.apply(regs).im != 0),
        op.raises(regs) == (!regs.asserted && op.apply(regs).asserted),
{
}

/// Driving an input gives it the level and leaves all other levels and the configuration
/// as they were. Driving an output does nothing.
pub proof fn law_drive_sets_one_input(regs: Pl061Regs, pin: u32, level: bool, other: u32)
    requires
        pin < 8,
        other < 8,
    ensures
        ({
            let after = regs.after_drive(pin, level);
            &&& regs.dir & (1u8 << pin) == 0 ==> (after.data & (1u8 << pin) != 0) == level
            &&& other != pin ==> (after.data & (1u8 << other) != 0) == (regs.data & (1u8 << other)
                != 0)
            &&& regs.dir & (1u8 << pin) != 0 ==> after == regs && !regs.drive_raises(pin, level)
            &&& after.dir == regs.dir
            &&& after.isense == regs.isense
            &&& after.ibe == regs.ibe
            &&& after.iev == regs.iev
            &&& after.im == regs.im
            &&& after.afsel == regs.afsel
        }),
{
    lemma_driven(regs.data, pin, other);
}

proof fn lemma_driven(data: u8, pin: u32, other: u32)
    by (bit_vector)
    requires
        pin < 8,
        other < 8,
    ensures
        (data | (1u8 << pin)) & (1u8 << pin) != 0,
        (data & !(1u8 << pin)) & (1u8 << pin) == 0,
        other != pin ==> (data | (1u8 << pin)) & (1u8 << other) == data & (1u8 << other),
        other != pin ==> (data & !(1u8 << pin)) & (1u8 << other) == data & (1u8 << other),
        (data | (1u8 << pin)) & !(1u8 << pin) == data & !(1u8 << pin),
        (data & !(1u8 << pin)) | (1u8 << pin) == data | (1u8 << pin),
{
}

/// After an input is driven a pin is pending if it was, if a selected edge occurred on it,
/// or if it is level-sensitive and at the selected level; otherwise it is not.
pub proof fn law_pending_after_drive(regs: Pl061Regs, driven: u32, level: bool, pin: u32)
    requires
        driven < 8,
        regs.dir & (1u8 << driven) == 0,
        pin < 8,
    ensures
        ({
            let bit = 1u8 << pin;
            let after = regs.after_drive(driven, level);
            let high = after.data & bit != 0;
            let selected = high == (regs.iev & bit != 0);
            after.istate & bit != 0 <==> {
                ||| regs.istate & bit != 0
                ||| {
                    &&& regs.dir & bit == 0
                    &&& regs.isense & bit == 0
                    &&& high != (regs.old_in_data & bit != 0)
                    &&& selected || regs.ibe & bit != 0
                }
                ||| regs.isense & bit != 0 && selected
            }
        }),
{
    law_pin_pending(regs.with_level(driven, level), pin);
}

/// Driving a pin keeps the interrupt asserted exactly while the masked status is nonzero,
/// and it injects an edge exactly if the masked status register reads zero before it and
/// nonzero after it.
pub proof fn law_drive_injects_on_rise(regs: Pl061Regs, pin: u32, level: bool)
    requires
        pin < 8,
        regs.asserted == (regs.istate & regs.im != 0),
    ensures
        ({
            let after = regs.after_drive(pin, level);
            &&& after.asserted == (after.istate & after.im != 0)
            &&& regs.drive_raises(pin, level) <==> regs.istate & regs.im == 0 && after.istate
                & after.im != 0
            &&& regs.drive_raises(pin, level) <==> regs.read_value(0x418) == 0 && after.read_value(
                0x418,
            ) != 0
        }),
{
    law_edge_on_rise(regs, RegisterOp::Drive { pin, level });
}

/// After a write or a driven pin every input is at the level last seen. If some input's
/// level changed, the levels last seen are the current ones of all pins, and if none did
/// they stay as they were.
pub proof fn law_inputs_are_seen(regs: Pl061Regs, op: RegisterOp, pin: u32)
    requires
        match op {
            RegisterOp::Write { offset, .. } => offset < 0x400 || (offset % 4 == 0 && offset <= 0x420
                && offset != 0x414 && offset != 0x418),
            RegisterOp::Drive { pin, .. } => pin < 8 && regs.dir & (1u8 << pin) == 0,
        },
        pin < 8,
    ensures
        ({
            let bit = 1u8 << pin;
            let after = op.apply(regs);
            &&& after.dir & bit == 0 ==> (after.old_in_data & bit != 0) == (after.data & bit != 0)
            &&& (regs.old_in_data ^ after.data) & !after.dir == 0 ==> after.old_in_data
                == regs.old_in_data
            &&& after.dir & bit == 0 && (after.data & bit != 0) != (regs.old_in_data & bit != 0)
                ==> after.old_in_data == after.data
        }),
{
    let after = op.apply(regs);
    lemma_changed(after.data, regs.old_in_data, after.dir, pin);
    lemma_changed(after.data, after.old_in_data, after.dir, pin);
    let changed = (regs.old_in_data ^ after.data) & !after.dir;
    if changed == 0 {
        lemma_zero_bit(pin);
    }
    lemma_changed(after.data, after.data, after.dir, pin);
}

/// Zero has no bit set.
proof fn lemma_zero_bit(pin: u32)
    by (bit_vector)
    ensures
        0u8 & (1u8 << pin) == 0,
{
}

/// Every configuration and status register is read at its own offset, and there is nothing
/// else to read below the identification bytes and above them.
pub proof fn law_registers_read(regs: Pl061Regs, offset: u64)
    requires
        offset >= 0x400,
        offset < 0xfd0 || offset > 0xfff,
    ensures
        regs.read_value(offset) == if offset == 0x400 {
            regs.dir
        } else if offset == 0x404 {
            regs.isense
        } else if offset == 0x408 {
            regs.ibe
        } else if offset == 0x40c {
            regs.iev
        } else if offset == 0x410 {
            regs.im
        } else if offset == 0x414 {
            regs.istate
        } else if offset == 0x418 {
            regs.istate & regs.im
        } else if offset == 0x420 {
            regs.afsel
        } else {
            0u8
        },
{
}

/// The data register reads the level of each pin that the address selects, and zero for
/// the others.
pub proof fn law_data_reads_selected(regs: Pl061Regs, offset: u64, pin: u32)
    requires
        offset < 0x400,
        pin < 8,
    ensures
        ({
            let bit = 1u8 << pin;
            let read = regs.read_value(offset);
            &&& read <= 0xff
            &&& read as u8 & bit != 0 <==> regs.data & bit != 0 && (offset / 4) as u8 & bit != 0
        }),
{
    lemma_both_bits(regs.data, (offset / 4) as u8, pin);
}

proof fn lemma_both_bits(first: u8, second: u8, pin: u32)
    by (bit_vector)
    ensures
        ((first & second) & (1u8 << pin) != 0) == (first & (1u8 << pin) != 0 && second & (1u8
            << pin) != 0),
{
}

/// The identification registers spell the peripheral id 0x00041061 and the cell id
/// 0xb105f00d, one byte per word and the lowest byte first, after four zero bytes.
pub proof fn law_identification(regs: Pl061Regs, offset: u64)
    requires
        0xfd0 <= offset <= 0xfff,
    ensures
        ({
            let id: u32 = if offset < 0xfe0 {
                0
            } else if offset < 0xff0 {
                0x0004_1061
            } else {
                0xb105_f00d
            };
            regs.read_value(offset) == le_byte(id, (offset % 16 / 4) as int)
        }),
        0xfe0 <= offset < 0xff0 ==> regs.read_value(offset) == le_byte(
            PL061_AMBA_ID,
            (offset % 16 / 4) as int,
        ),
{
    let index = (offset - 0xfd0) / 4;
    assert(0 <= index < 12);
}

/// A device out of reset reads zero everywhere but in its identification, has seen no
/// level, and asserts nothing.
pub proof fn law_reset_reads_zero(offset: u64)
    requires
        offset < 0xfd0,
    ensures
        Pl061Regs::reset().read_value(offset) == 0,
        Pl061Regs::reset().old_in_data == 0,
        !Pl061Regs::reset().asserted,
{
    let mask = (offset / 4) as u8;
    assert(0u8 & mask == 0) by (bit_vector);
    assert(0u8 & 0u8 == 0u8) by (bit_vector);
}

/// The bytes of a register on the bus are its base-256 digits, the lowest first, and a
/// value written is made of the bytes written in the same order.
pub proof fn law_bus_is_little_endian(value: u32, bytes: Seq<u8>, i: int)
    requires
        i >= 0,
    ensures
        le_byte(value, 0) + 0x100 * le_byte(value, 1) + 0x1_0000 * le_byte(value, 2) + 0x100_0000
            * le_byte(value, 3) == value,
        i >= 4 ==> le_byte(value, i) == 0,
        le_byte(le_value(bytes), i) == if i < 4 && i < bytes.len() {
            bytes[i]
        } else {
            0
        },
{
    let byte = |j: int|
        if j < bytes.len() {
            bytes[j]
        } else {
            0u8
        };
    lemma_digits(value);
    lemma_value_of_digits(byte(0), byte(1), byte(2), byte(3));
}

proof fn lemma_digits(value: u32)
    ensures
        value % 0x100 + 0x100 * (value / 0x100 % 0x100) + 0x1_0000 * (value / 0x1_0000 % 0x100)
            + 0x100_0000 * (value / 0x100_0000) == value,
        value / 0x100_0000 < 0x100,
{
    let high = value / 0x100;
    let higher = high / 0x100;
    assert(high / 0x100 == value / 0x1_0000);
    assert(higher / 0x100 == value / 0x100_0000);
    assert(higher == 0x100 * (higher / 0x100) + higher % 0x100);
    assert(high == 0x100 * higher + high % 0x100);
}

proof fn lemma_value_of_digits(b0: u8, b1: u8, b2: u8, b3: u8)
    ensures
        ({
            let value: u32 = (b0 + 0x100 * b1 + 0x1_0000 * b2 + 0x100_0000 * b3) as u32;
            &&& value % 0x100 == b0
            &&& value / 0x100 % 0x100 == b1
            &&& value / 0x1_0000 % 0x100 == b2
            &&& value / 0x100_0000 == b3
        }),
{
    let value = b0 + 0x100 * b1 + 0x1_0000 * b2 + 0x100_0000 * b3;
    assert(value / 0x100 == b1 + 0x100 * b2 + 0x1_0000 * b3);
    assert(value / 0x1_0000 == b2 + 0x100 * b3);
    assert(value / 0x100_0000 == b3);
}

/// A button's press drives its line high, and the end of its window drives it low,
/// whatever the interrupt configuration. The power button is on line 3 and the sleep
/// button on line 4. No other level changes, nor does any configuration, and an edge is
/// injected exactly if the masked status register reads zero before and nonzero after. A
/// press starts a window of 100 milliseconds.
pub proof fn law_button_drives_its_line(regs: Pl061Regs, token: Token, other: u32)
    requires
        token != Token::Kill,
        other < 8,
        regs.asserted == (regs.istate & regs.im != 0),
    ensures
        ({
            let power = token == Token::PowerPress || token == Token::PowerRelease;
            let press = token == Token::PowerPress || token == Token::SleepPress;
            let button = if power { Button::Power } else { Button::Sleep };
            let line: u32 = if power { 3 } else { 4 };
            let (after, action) = worker_step(regs, token);
            let edge = regs.read_value(0x418) == 0 && after.read_value(0x418) != 0;
            &&& regs.dir & (1u8 << line) == 0 ==> (after.data & (1u8 << line) != 0) == press
            &&& regs.dir & (1u8 << line) != 0 ==> after == regs
            &&& other != line ==> (after.data & (1u8 << other) != 0) == (regs.data & (1u8 << other)
                != 0)
            &&& after.dir == regs.dir
            &&& after.isense == regs.isense
            &&& after.ibe == regs.ibe
            &&& after.iev == regs.iev
            &&& after.im == regs.im
            &&& after.afsel == regs.afsel
            &&& after.asserted == (after.istate & after.im != 0)
            &&& press ==> action == (WorkerAction::Press { button, edge, hold_ms: 100 })
            &&& !press ==> action == (WorkerAction::Release { button, edge })
        }),
{
    let line: u32 = if token == Token::PowerPress || token == Token::PowerRelease { 3 } else { 4 };
    let press = token == Token::PowerPress || token == Token::SleepPress;
    law_drive_sets_one_input(regs, line, press, other);
    law_drive_injects_on_rise(regs, line, press);
}

/// A button's event is nothing but its line being driven: high by a press, and low at the
/// end of its window.
pub proof fn law_button_is_its_line(regs: Pl061Regs, token: Token)
    requires
        token != Token::Kill,
    ensures
        ({
            let line: u32 = if token == Token::PowerPress || token == Token::PowerRelease {
                3
            } else {
                4
            };
            let press = token == Token::PowerPress || token == Token::SleepPress;
            let (after, action) = worker_step(regs, token);
            &&& after == regs.after_drive(line, press)
            &&& press ==> action is Press && action->Press_edge == regs.drive_raises(line, press)
            &&& !press ==> action is Release && action->Release_edge == regs.drive_raises(
                line,
                press,
            )
        }),
{
}

/// A button's event leaves a pin pending if it was, if a selected edge occurred on it, or
/// if it is level-sensitive and at the selected level, and only then.
pub proof fn law_pending_after_button(regs: Pl061Regs, token: Token, pin: u32)
    requires
        token != Token::Kill,
        regs.dir & (1u8 << (if token == Token::PowerPress || token == Token::PowerRelease {
            3u32
        } else {
            4u32
        })) == 0,
        pin < 8,
    ensures
        ({
            let bit = 1u8 << pin;
            let after = worker_step(regs, token).0;
            let high = after.data & bit != 0;
            let selected = high == (regs.iev & bit != 0);
            after.istate & bit != 0 <==> {
                ||| regs.istate & bit != 0
                ||| {
                    &&& regs.dir & bit == 0
                    &&& regs.isense & bit == 0
                    &&& high != (regs.old_in_data & bit != 0)
                    &&& selected || regs.ibe & bit != 0
                }
                ||| regs.isense & bit != 0 && selected
            }
        }),
{
    let line: u32 = if token == Token::PowerPress || token == Token::PowerRelease { 3 } else { 4 };
    let press = token == Token::PowerPress || token == Token::SleepPress;
    law_pending_after_drive(regs, line, press, pin);
}

/// A press and the end of its window leave the levels as they were, the button's line
/// being low, so that the next press is an edge again.
pub proof fn law_window_ends_low(regs: Pl061Regs, button: Button)
    requires
        regs.dir & (1u8 << (if button == Button::Power {
            3u32
        } else {
            4u32
        })) == 0,
    ensures
        ({
            let (press, release, line) = match button {
                Button::Power => (Token::PowerPress, Token::PowerRelease, 3u32),
                Button::Sleep => (Token::SleepPress, Token::SleepRelease, 4u32),
            };
            let down = worker_step(regs, press).0;
            let up = worker_step(down, release).0;
            &&& down.data == regs.data | (1u8 << line)
            &&& up.data == regs.data & !(1u8 << line)
        }),
{
    lemma_driven(regs.data, 3, 3);
    lemma_driven(regs.data, 4, 4);
}

/// The worker stops exactly when told to, and then leaves the registers alone.
pub proof fn law_kill_stops(regs: Pl061Regs, token: Token)
    ensures
        worker_step(regs, token).1 == WorkerAction::Stop <==> token == Token::Kill,
        worker_step(regs, Token::Kill).0 == regs,
{
}

/// Handling tokens one after the other is handling each in the state that the ones before
/// it left, with one action per token and in their order.
pub proof fn law_tokens_in_order(regs: Pl061Regs, first: Token, rest: Seq<Token>)
    ensures
        worker_run(regs, Seq::empty()) == (regs, Seq::<WorkerAction>::empty()),
        ({
            let step = worker_step(regs, first);
            let tail = worker_run(step.0, rest);
            worker_run(regs, seq![first] + rest) == (tail.0, seq![step.1] + tail.1)
        }),
    decreases rest.len(),
{
    let all = seq![first] + rest;
    let step = worker_step(regs, first);
    if rest.len() == 0 {
        assert(all.drop_last() =~= Seq::empty());
        assert(all.last() == first);
        assert(worker_run(regs, Seq::<Token>::empty()).1.push(step.1) =~= seq![step.1]
            + Seq::<WorkerAction>::empty());
    } else {
        law_tokens_in_order(regs, first, rest.drop_last());
        assert(all.drop_last() =~= seq![first] + rest.drop_last());
        assert(all.last() == rest.last());
        let tail = worker_run(step.0, rest.drop_last());
        let last = worker_step(tail.0, rest.last());
        assert((seq![step.1] + tail.1).push(last.1) =~= seq![step.1] + tail.1.push(last.1));
    }
}

/// What waiting reported is handled event by event: one with nothing to read is passed
/// over, a readable `Kill` stops the worker there and then, and any other is handled
/// before the rest.
pub proof fn law_events_in_order(
    regs: Pl061Regs,
    first: TriggeredEvent,
    rest: Seq<TriggeredEvent>,
)
    ensures
        worker_batch(regs, Seq::empty()) == (regs, Seq::<WorkerAction>::empty()),
        ({
            let step = worker_step(regs, first.token);
            let tail = worker_batch(step.0, rest);
            worker_batch(regs, seq![first] + rest) == if !first.is_readable {
                worker_batch(regs, rest)
            } else if first.token == Token::Kill {
                (regs, seq![WorkerAction::Stop])
            } else {
                (tail.0, seq![step.1] + tail.1)
            }
        }),
{
    let all = seq![first] + rest;
    let nothing = Seq::<TriggeredEvent>::empty();
    assert(nothing.take(0) =~= nothing);
    law_kill_position(all);
    law_kill_position(rest);
    assert(forall|i: int| 0 <= i < rest.len() ==> all[i + 1] == rest[i]);
    assert(all[0] == first);
    let end = kill_position(all);
    let rest_end = kill_position(rest);
    if first.is_readable && first.token == Token::Kill {
        assert(end == 0);
        assert(all.take(0) =~= nothing);
        assert(Seq::<WorkerAction>::empty().push(WorkerAction::Stop) =~= seq![WorkerAction::Stop]);
    } else {
        assert(end == rest_end + 1) by {
            if end < rest_end + 1 {
                assert(all[end] == rest[end - 1]);
            } else if end > rest_end + 1 {
                assert(all[rest_end + 1] == rest[rest_end]);
            }
        }
        assert(all.take(end) =~= seq![first] + rest.take(rest_end));
        lemma_readable_first(first, rest.take(rest_end));
        let tokens = readable_tokens(rest.take(rest_end));
        if first.is_readable {
            let step = worker_step(regs, first.token);
            law_tokens_in_order(regs, first.token, tokens);
            let tail = worker_run(step.0, tokens);
            assert((seq![step.1] + tail.1).push(WorkerAction::Stop) =~= seq![step.1] + tail.1.push(
                WorkerAction::Stop,
            ));
        }
    }
}

proof fn lemma_readable_first(first: TriggeredEvent, rest: Seq<TriggeredEvent>)
    ensures
        readable_tokens(seq![first] + rest) == if first.is_readable {
            seq![first.token] + readable_tokens(rest)
        } else {
            readable_tokens(rest)
        },
    decreases rest.len(),
{
    let all = seq![first] + rest;
    if rest.len() == 0 {
        assert(all.drop_last() =~= Seq::empty());
        assert(all.last() == first);
        let none = readable_tokens(Seq::empty());
        assert(none =~= Seq::empty());
        assert(none.push(first.token) =~= seq![first.token] + none);
    } else {
        lemma_readable_first(first, rest.drop_last());
        assert(all.drop_last() =~= seq![first] + rest.drop_last());
        assert(all.last() == rest.last());
        let tokens = readable_tokens(rest.drop_last());
        assert((seq![first.token] + tokens).push(rest.last().token) =~= seq![first.token]
            + tokens.push(rest.last().token));
    }
}

} // verus!
