//! Display backends.

use vstd::prelude::*;

pub mod anland;
pub mod text;
pub mod text_laws;
pub mod vnc;
pub mod vnc_laws;

verus! {

/// Why a display operation failed.
#[derive(Clone, Copy, Debug, PartialEq, Eq, Structural)]
pub enum GpuDisplayError {
    /// A server or a buffer could not be had.
    Allocate,
    /// The connection to the display is gone.
    ConnectionBroken,
    /// An event could not be created.
    CreateEvent,
    /// A surface could not be created.
    CreateSurface,
    /// A path is no C string.
    InvalidPath,
    /// Input or output failed, `would_block` if only for the moment.
    IoError { would_block: bool },
    /// The backend cannot do what was asked.
    Unsupported,
    /// Anything else.
    Other,
}

/// The kind of input device that events are routed to.
#[derive(Clone, Copy, Debug, PartialEq, Eq, Structural)]
pub enum EventDeviceKind {
    Keyboard,
    Touchscreen,
}

/// An input event for the guest.
#[derive(Clone, Copy, Debug, PartialEq, Eq, Structural)]
pub enum InputEvent {
    /// A key was pressed or released.
    Key { code: u16, pressed: bool, repeat: bool },
    /// The slot that the following events describe.
    MultitouchSlot(i32),
    /// The contact in the slot, or -1 once it is lifted.
    MultitouchTrackingId(i32),
    MultitouchAbsoluteX(i32),
    MultitouchAbsoluteY(i32),
    /// Whether the screen is touched.
    Touch(bool),
}

/// The contents of a batch of events.
pub struct EventBatch {
    pub events: Seq<InputEvent>,
    pub device_type: EventDeviceKind,
}

/// Events to be routed together to one input device.
#[derive(Debug)]
pub struct GpuDisplayEvents {
    pub events: Vec<InputEvent>,
    pub device_type: EventDeviceKind,
}

impl View for GpuDisplayEvents {
    type V = EventBatch;

    open spec fn view(&self) -> EventBatch {
        EventBatch { events: self.events@, device_type: self.device_type }
    }
}

/// The contents of an optional batch of events.
pub open spec fn batch(events: Option<GpuDisplayEvents>) -> Option<EventBatch> {
    match events {
        Some(events) => Some(events@),
        None => None,
    }
}

/// The bytes of a frame of `width` by `height` pixels.
pub open spec fn frame_bytes(width: u32, height: u32) -> int {
    width * height * 4
}

/// The prefix of `source` that fits into `target`, in front of the rest of `target`.
pub open spec fn overlaid(target: Seq<u8>, source: Seq<u8>) -> Seq<u8> {
    if source.len() < target.len() {
        source + target.skip(source.len() as int)
    } else {
        source.take(target.len() as int)
    }
}

/// Copies as much of `source` as fits into `target`, and returns how much that is.
pub fn copy_prefix(target: &mut [u8], source: &[u8]) -> (copied: usize)
    ensures
        final(target)@ == overlaid(old(target)@, source@),
        final(target)@.len() == old(target)@.len(),
        forall|i: int|
            0 <= i < old(target)@.len() ==> #[trigger] final(target)@[i] == if i < source@.len() {
                source@[i]
            } else {
                old(target)@[i]
            },
        copied == if source@.len() < old(target)@.len() {
            source@.len()
        } else {
            old(target)@.len()
        },
{
    let len: usize = if source.len() < target.len() {
        source.len()
    } else {
        target.len()
    };
    let mut i: usize = 0;
    while i < len
        invariant
            i <= len <= source@.len(),
            len <= target@.len() == old(target)@.len(),
            target@ == source@.take(i as int) + old(target)@.skip(i as int),
        decreases len - i,
    {
        target[i] = source[i];
        i = i + 1;
    }
    assert(target@ =~= overlaid(old(target)@, source@));
    len
}

/// A buffer of `len` zero bytes.
pub(crate) fn zeroed(len: usize) -> (buffer: Vec<u8>)
    requires
        len <= isize::MAX,
    ensures
        buffer@ == Seq::new(len as nat, |i: int| 0u8),
{
    let buffer: Vec<u8> = vec![0u8; len];
    assert(buffer@ =~= Seq::new(len as nat, |i: int| 0u8));
    buffer
}

} // verus!
