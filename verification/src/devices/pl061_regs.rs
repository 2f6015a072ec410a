//! Register file and interrupt logic of the ARM PrimeCell PL061 GPIO controller.
//!
//! Only what a `gpio-keys` power or sleep button needs is modelled: the
//! registers, the banked data register, and interrupt generation of the
//! non-Luminary part. No GPIO output is wired to anything.
//!
//! The aggregate interrupt is delivered as an *edge*: every operation that may
//! change the interrupt status returns whether one edge has to be injected.

use vstd::prelude::*;

verus! {

/// Number of GPIO lines provided by a single PL061.
pub const N_GPIOS: u32 = 8;

/// AMBA peripheral id, also advertised via the `arm,primecell-periphid` FDT property.
pub const PL061_AMBA_ID: u32 = 0x00041061;

/// Last offset of the banked data register, which starts at offset 0.
pub const GPIODATA_END: u64 = 0x3ff;

/// Direction.
pub const GPIODIR: u64 = 0x400;

/// Interrupt sense.
pub const GPIOIS: u64 = 0x404;

/// Interrupt both edges.
pub const GPIOIBE: u64 = 0x408;

/// Interrupt event.
pub const GPIOIEV: u64 = 0x40c;

/// Interrupt mask.
pub const GPIOIE: u64 = 0x410;

/// Raw interrupt status.
pub const GPIORIS: u64 = 0x414;

/// Masked interrupt status.
pub const GPIOMIS: u64 = 0x418;

/// Interrupt clear.
pub const GPIOIC: u64 = 0x41c;

/// Alternate function select.
pub const GPIOAFSEL: u64 = 0x420;

/// First ID register.
pub const GPIO_ID_LOW: u64 = 0xfd0;

/// Last ID register.
pub const GPIO_ID_HIGH: u64 = 0xfff;

/// AMBA peripheral and PrimeCell ID bytes, one per four bytes from `GPIO_ID_LOW`
/// (peripheral id 0x00041061, cell id 0xb105f00d).
pub const PL061_ID: [u8; 12] = [
    0x00,
    0x00,
    0x00,
    0x00,
    0x61,
    0x10,
    0x04,
    0x00,
    0x0d,
    0xf0,
    0x05,
    0xb1,
];

/// Whether GPIO line `pin` is set in `byte`.
pub open spec fn pin_set(byte: u8, pin: u32) -> bool {
    byte & (1u8 << pin) != 0
}

/// What an MMIO offset selects.
pub enum Register {
    /// The data register, with the pins that the address selects.
    Data { mask: u8 },
    Dir,
    Sense,
    BothEdges,
    Event,
    Mask,
    RawStatus,
    MaskedStatus,
    Clear,
    AltFunction,
    /// Identification byte `index`.
    Id { index: int },
    /// No register.
    Reserved,
}

/// The register at `offset`. Bits \[9:2\] of an offset into the data register are
/// its pin mask.
pub open spec fn register_at(offset: u64) -> Register {
    if offset <= GPIODATA_END {
        Register::Data { mask: (offset / 4) as u8 }
    } else if offset == GPIODIR {
        Register::Dir
    } else if offset == GPIOIS {
        Register::Sense
    } else if offset == GPIOIBE {
        Register::BothEdges
    } else if offset == GPIOIEV {
        Register::Event
    } else if offset == GPIOIE {
        Register::Mask
    } else if offset == GPIORIS {
        Register::RawStatus
    } else if offset == GPIOMIS {
        Register::MaskedStatus
    } else if offset == GPIOIC {
        Register::Clear
    } else if offset == GPIOAFSEL {
        Register::AltFunction
    } else if GPIO_ID_LOW <= offset <= GPIO_ID_HIGH {
        Register::Id { index: (offset - GPIO_ID_LOW) / 4 }
    } else {
        Register::Reserved
    }
}

/// The registers of a PL061, one bit per GPIO line.
#[derive(Clone, Copy, Debug, PartialEq, Eq, Structural)]
pub struct Pl061Regs {
    /// Pin levels.
    pub data: u8,
    /// Input levels that edge detection last compared against.
    pub old_in_data: u8,
    /// Direction: a set bit is an output.
    pub dir: u8,
    /// Interrupt sense: a set bit is level-sensitive.
    pub isense: u8,
    /// Interrupt both edges.
    pub ibe: u8,
    /// Interrupt event: the level, or the edge towards it, that interrupts.
    pub iev: u8,
    /// Interrupt mask: a set bit lets the pin interrupt.
    pub im: u8,
    /// Raw interrupt status.
    pub istate: u8,
    /// Alternate function select.
    pub afsel: u8,
    /// Whether the aggregate interrupt is considered asserted. One edge is
    /// injected per rising transition of `istate & im`.
    pub asserted: bool,
}

impl Pl061Regs {
    /// The registers out of reset: all zero, the interrupt deasserted.
    pub open spec fn reset() -> Pl061Regs {
        Pl061Regs {
            data: 0,
            old_in_data: 0,
            dir: 0,
            isense: 0,
            ibe: 0,
            iev: 0,
            im: 0,
            istate: 0,
            afsel: 0,
            asserted: false,
        }
    }

    /// Input pins whose level differs from the one last seen.
    pub open spec fn changed(self) -> u8 {
        (self.old_in_data ^ self.data) & !self.dir
    }

    /// Pins whose level is the one that IEV selects.
    pub open spec fn at_event_level(self) -> u8 {
        !(self.data ^ self.iev)
    }

    /// Edge-sensitive input pins on which an interrupting edge has just occurred.
    pub open spec fn edges(self) -> u8 {
        self.changed() & !self.isense & (self.ibe | self.at_event_level())
    }

    /// Level-sensitive pins that are at the interrupting level.
    pub open spec fn levels(self) -> u8 {
        self.at_event_level() & self.isense
    }

    /// The masked interrupt status.
    pub open spec fn masked(self) -> u8 {
        self.istate & self.im
    }

    /// Whether some unmasked interrupt is pending.
    pub open spec fn active(self) -> bool {
        self.masked() != 0
    }

    /// The raw interrupt status once new edges and levels are latched.
    pub open spec fn latched(self) -> u8 {
        self.istate | self.edges() | self.levels()
    }

    /// The registers with the interrupt state recomputed.
    pub open spec fn updated(self) -> Pl061Regs {
        Pl061Regs {
            old_in_data: if self.changed() != 0 {
                self.data
            } else {
                self.old_in_data
            },
            istate: self.latched(),
            asserted: self.latched() & self.im != 0,
            ..self
        }
    }

    /// Whether recomputing the interrupt state injects an edge.
    pub open spec fn raises(self) -> bool {
        !self.asserted && self.updated().active()
    }

    /// The interrupt state agrees with the other registers: no input change is
    /// left undetected, every interrupting level is latched, and the aggregate
    /// interrupt is asserted exactly while an unmasked interrupt is pending.
    pub open spec fn settled(self) -> bool {
        &&& (self.old_in_data ^ self.data) & !self.dir == 0
        &&& (!(self.data ^ self.iev) & self.isense) & !self.istate == 0
        &&& self.asserted == (self.istate & self.im != 0)
    }

    /// The value that a guest reads at `offset`.
    pub open spec fn read_value(self, offset: u64) -> u32 {
        match register_at(offset) {
            Register::Data { mask } => (self.data & mask) as u32,
            Register::Dir => self.dir as u32,
            Register::Sense => self.isense as u32,
            Register::BothEdges => self.ibe as u32,
            Register::Event => self.iev as u32,
            Register::Mask => self.im as u32,
            Register::RawStatus => self.istate as u32,
            Register::MaskedStatus => self.masked() as u32,
            Register::AltFunction => self.afsel as u32,
            Register::Id { index } => PL061_ID@[index] as u32,
            Register::Clear | Register::Reserved => 0,
        }
    }

    /// The registers after `byte` is stored at `offset`, before the interrupt
    /// state is recomputed, or `None` where `offset` cannot be written. Of the
    /// data register only output pins that the address selects are stored.
    pub open spec fn stored(self, offset: u64, byte: u8) -> Option<Pl061Regs> {
        match register_at(offset) {
            Register::Data { mask } => Some(
                Pl061Regs {
                    data: (self.data & !(mask & self.dir)) | (byte & (mask & self.dir)),
                    ..self
                },
            ),
            Register::Dir => Some(Pl061Regs { dir: byte, ..self }),
            Register::Sense => Some(Pl061Regs { isense: byte, ..self }),
            Register::BothEdges => Some(Pl061Regs { ibe: byte, ..self }),
            Register::Event => Some(Pl061Regs { iev: byte, ..self }),
            Register::Mask => Some(Pl061Regs { im: byte, ..self }),
            Register::Clear => Some(Pl061Regs { istate: self.istate & !byte, ..self }),
            Register::AltFunction => Some(Pl061Regs { afsel: byte, ..self }),
            Register::RawStatus | Register::MaskedStatus | Register::Id { .. }
            | Register::Reserved => None,
        }
    }

    /// The registers after a guest writes `value` at `offset`. Only the low byte
    /// of `value` counts.
    pub open spec fn after_write(self, offset: u64, value: u32) -> Pl061Regs {
        match self.stored(offset, (value % 256) as u8) {
            Some(regs) => regs.updated(),
            None => self,
        }
    }

    /// Whether a guest's write of `value` at `offset` injects an edge.
    pub open spec fn write_raises(self, offset: u64, value: u32) -> bool {
        match self.stored(offset, (value % 256) as u8) {
            Some(regs) => regs.raises(),
            None => false,
        }
    }

    /// The registers with the level of `pin` set to `level`, before the interrupt
    /// state is recomputed.
    pub open spec fn with_level(self, pin: u32, level: bool) -> Pl061Regs {
        Pl061Regs {
            data: if level {
                self.data | (1u8 << pin)
            } else {
                self.data & !(1u8 << pin)
            },
            ..self
        }
    }

    /// The registers after `pin` is driven from outside. Only an input can be.
    pub open spec fn after_drive(self, pin: u32, level: bool) -> Pl061Regs {
        if pin_set(self.dir, pin) {
            self
        } else {
            self.with_level(pin, level).updated()
        }
    }

    /// Whether driving `pin` from outside injects an edge.
    pub open spec fn drive_raises(self, pin: u32, level: bool) -> bool {
        !pin_set(self.dir, pin) && self.with_level(pin, level).raises()
    }

    /// Recomputes the interrupt state. Returns whether the masked interrupt
    /// status rose, in which case the caller injects one edge.
    pub fn update(&mut self) -> (edge: bool)
        ensures
            *final(self) == old(self).updated(),
            edge == old(self).raises(),
            final(self).asserted == (final(self).istate & final(self).im != 0),
            edge == (!old(self).asserted && final(self).istate & final(self).im != 0),
    {
        // Latch edge interrupts for input pins whose level changed.
        let changed: u8 = (self.old_in_data ^ self.data) & !self.dir;
        let ghost start = *self;
        let ghost edges = self.edges();
        if changed != 0 {
            self.old_in_data = self.data;
            let mut i: u32 = 0;
            proof {
                lemma_no_pins_visited(self.istate, edges);
            }
            while i < N_GPIOS
                invariant
                    i <= N_GPIOS,
                    changed == start.changed(),
                    edges == start.edges(),
                    *self == (Pl061Regs {
                        old_in_data: start.data,
                        istate: start.istate | (edges & !(0xffu8 << i)),
                        ..start
                    }),
                decreases N_GPIOS - i,
            {
                let mask: u8 = 1u8 << i;
                proof {
                    lemma_pin_visited(
                        start.istate,
                        changed,
                        start.isense,
                        start.ibe,
                        start.at_event_level(),
                        i,
                    );
                }
                if changed & mask != 0 && self.isense & mask == 0 {
                    if self.ibe & mask != 0 {
                        // Any edge triggers the interrupt.
                        self.istate = self.istate | mask;
                    } else {
                        // Edge selected by IEV.
                        self.istate = self.istate | (!(self.data ^ self.iev) & mask);
                    }
                }
                i = i + 1;
            }
            proof {
                lemma_all_pins_visited(start.istate, edges);
            }
        } else {
            proof {
                lemma_no_edges(start.isense, start.ibe | start.at_event_level());
                lemma_nothing_latched(start.istate);
            }
        }
        // Level-sensitive interrupts.
        self.istate = self.istate | (!(self.data ^ self.iev) & self.isense);

        let active: bool = self.istate & self.im != 0;
        let edge: bool = active && !self.asserted;
        self.asserted = active;
        edge
    }

    /// Drives an input pin high or low and refreshes the interrupt state. Returns
    /// whether one edge has to be injected.
    pub fn set_pin(&mut self, pin: u32, level: bool) -> (edge: bool)
        requires
            pin < N_GPIOS,
        ensures
            *final(self) == old(self).after_drive(pin, level),
            edge == old(self).drive_raises(pin, level),
    {
        let mask: u8 = 1u8 << pin;
        // Only pins configured as inputs can be driven externally.
        if self.dir & mask == 0 {
            if level {
                self.data = self.data | mask;
            } else {
                self.data = self.data & !mask;
            }
            self.update()
        } else {
            false
        }
    }

    /// Reads the register at `offset`. An offset without one reads as zero.
    pub fn read_reg(&self, offset: u64) -> (value: u32)
        ensures
            value == self.read_value(offset),
    {
        proof {
            lemma_word_index(offset);
        }
        if offset <= GPIODATA_END {
            // Bits [9:2] of the offset mask the returned pins.
            (self.data & ((offset >> 2) as u8)) as u32
        } else if offset == GPIODIR {
            self.dir as u32
        } else if offset == GPIOIS {
            self.isense as u32
        } else if offset == GPIOIBE {
            self.ibe as u32
        } else if offset == GPIOIEV {
            self.iev as u32
        } else if offset == GPIOIE {
            self.im as u32
        } else if offset == GPIORIS {
            self.istate as u32
        } else if offset == GPIOMIS {
            (self.istate & self.im) as u32
        } else if offset == GPIOAFSEL {
            self.afsel as u32
        } else if GPIO_ID_LOW <= offset && offset <= GPIO_ID_HIGH {
            proof {
                lemma_word_index((offset - GPIO_ID_LOW) as u64);
            }
            PL061_ID[((offset - GPIO_ID_LOW) >> 2) as usize] as u32
        } else {
            0
        }
    }

    /// Writes the register at `offset` and refreshes the interrupt state. Returns
    /// whether one edge has to be injected. An offset that cannot be written is
    /// ignored.
    pub fn write_reg(&mut self, offset: u64, value: u32) -> (edge: bool)
        ensures
            *final(self) == old(self).after_write(offset, value),
            edge == old(self).write_raises(offset, value),
    {
        proof {
            lemma_word_index(offset);
            lemma_low_byte(value);
        }
        let byte: u8 = value as u8;
        if offset <= GPIODATA_END {
            // Only pins configured as outputs and selected by the address mask
            // are updated.
            let mask: u8 = ((offset >> 2) as u8) & self.dir;
            self.data = (self.data & !mask) | (byte & mask);
        } else if offset == GPIODIR {
            self.dir = byte;
        } else if offset == GPIOIS {
            self.isense = byte;
        } else if offset == GPIOIBE {
            self.ibe = byte;
        } else if offset == GPIOIEV {
            self.iev = byte;
        } else if offset == GPIOIE {
            self.im = byte;
        } else if offset == GPIOIC {
            self.istate = self.istate & !byte;
        } else if offset == GPIOAFSEL {
            self.afsel = byte;
        } else {
            return false;
        }
        self.update()
    }
}

/// Whether a register can be read at `offset`. Where none can, a read is answered with
/// zero.
pub fn is_readable(offset: u64) -> (readable: bool)
    ensures
        readable == !(register_at(offset) is Clear || register_at(offset) is Reserved),
        readable == (offset < 0x400 || (offset <= 0x420 && offset % 4 == 0 && offset != 0x41c) || (
        0xfd0 <= offset <= 0xfff)),
{
    offset <= GPIODATA_END || offset == GPIODIR || offset == GPIOIS || offset == GPIOIBE || offset
        == GPIOIEV || offset == GPIOIE || offset == GPIORIS || offset == GPIOMIS || offset
        == GPIOAFSEL || (GPIO_ID_LOW <= offset && offset <= GPIO_ID_HIGH)
}

/// Whether a register can be written at `offset`. Where none can, a write is ignored.
pub fn is_writable(offset: u64) -> (writable: bool)
    ensures
        forall|regs: Pl061Regs, byte: u8|
            #![trigger regs.stored(offset, byte)]
            writable == regs.stored(offset, byte) is Some,
        writable == !(register_at(offset) is RawStatus || register_at(offset) is MaskedStatus
            || register_at(offset) is Id || register_at(offset) is Reserved),
        writable == (offset < 0x400 || (offset <= 0x420 && offset % 4 == 0 && offset != 0x414
            && offset != 0x418)),
{
    offset <= GPIODATA_END || offset == GPIODIR || offset == GPIOIS || offset == GPIOIBE || offset
        == GPIOIEV || offset == GPIOIE || offset == GPIOIC || offset == GPIOAFSEL
}

impl Default for Pl061Regs {
    fn default() -> (regs: Pl061Regs)
        ensures
            regs == Pl061Regs::reset(),
    {
        Pl061Regs {
            data: 0,
            old_in_data: 0,
            dir: 0,
            isense: 0,
            ibe: 0,
            iev: 0,
            im: 0,
            istate: 0,
            afsel: 0,
            asserted: false,
        }
    }
}

/// A word offset shifted right by two is its word index.
proof fn lemma_word_index(offset: u64)
    by (bit_vector)
    ensures
        offset >> 2 == offset / 4,
{
}

/// Truncation keeps the low byte.
pub(crate) proof fn lemma_low_byte(value: u32)
    by (bit_vector)
    ensures
        value as u8 == (value % 256) as u8,
{
}

/// Before the first pin is visited no edge is latched.
proof fn lemma_no_pins_visited(istate: u8, edges: u8)
    by (bit_vector)
    ensures
        istate == istate | (edges & !(0xffu8 << 0u32)),
{
}

/// Once all pins are visited every edge is latched.
proof fn lemma_all_pins_visited(istate: u8, edges: u8)
    by (bit_vector)
    ensures
        istate | (edges & !(0xffu8 << 8u32)) == istate | edges,
{
}

/// Without a change there is no edge.
pub(crate) proof fn lemma_no_edges(isense: u8, selected: u8)
    by (bit_vector)
    ensures
        0u8 & !isense & selected == 0,
{
}

/// Latching no edge changes nothing.
proof fn lemma_nothing_latched(istate: u8)
    by (bit_vector)
    ensures
        istate | 0u8 == istate,
{
}

/// Visiting pin `i` adds its edge to those of the pins below it.
proof fn lemma_pin_visited(istate: u8, changed: u8, isense: u8, ibe: u8, at_level: u8, i: u32)
    by (bit_vector)
    requires
        i < 8,
    ensures
        ({
            let edges = changed & !isense & (ibe | at_level);
            let before = istate | (edges & !(0xffu8 << i));
            let after = istate | (edges & !(0xffu8 << ((i + 1) as u32)));
            let mask = 1u8 << i;
            after == if changed & mask != 0 && isense & mask == 0 {
                if ibe & mask != 0 {
                    before | mask
                } else {
                    before | (at_level & mask)
                }
            } else {
                before
            }
        }),
{
}

} // verus!
