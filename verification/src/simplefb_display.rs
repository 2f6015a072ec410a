//! Bridge from a guest's simple framebuffer to a remote display.
//!
//! The bridge repeats one cycle per frame: dispatch the viewer's input, read the
//! guest's framebuffer, present it, and wait until the frame's time is over. The
//! caller performs each step and reports how it went; the bridge says what to do
//! next.

use vstd::prelude::*;

use crate::gpu_display::{copy_prefix, frame_bytes, overlaid, zeroed, GpuDisplayError};

verus! {

/// Frames per second.
pub const DEFAULT_FPS: u32 = 30;

/// The time that a frame takes, in nanoseconds.
pub const FRAME_NANOS: u64 = 1_000_000_000 / DEFAULT_FPS as u64;

/// Where a guest's simple framebuffer lies, and its shape.
pub struct SimplefbDisplayParams {
    /// Guest physical address of the first byte.
    pub addr: u64,
    pub width: u32,
    pub height: u32,
    /// Bytes per line.
    pub stride: u32,
    /// Bits per pixel.
    pub bpp: u32,
    pub size: u64,
}

impl SimplefbDisplayParams {
    /// The bytes of the guest's framebuffer.
    pub open spec fn frame_len(self) -> int {
        self.stride * self.height
    }
}

/// The address that a display server listens on, and its password.
pub struct VncDisplayTarget {
    pub addr: String,
    pub password: Option<String>,
}

/// How a step of the cycle went.
#[derive(Clone, Copy, Debug, PartialEq, Eq, Structural)]
pub enum FrameEvent {
    /// A cycle begins.
    Begin,
    /// The viewer's input was dispatched, or that failed.
    Dispatched { failed: Option<GpuDisplayError> },
    /// The guest's framebuffer was read, or could not be.
    GuestRead { readable: bool },
    /// The frame was presented, this long after the cycle began.
    Presented { elapsed_nanos: u128 },
}

/// The next step of the cycle.
#[derive(Clone, Copy, Debug, PartialEq, Eq, Structural)]
pub enum FrameAction {
    /// Dispatch the viewer's input.
    DispatchEvents,
    /// Fill the frame buffer from guest memory at `addr`.
    ReadGuest { addr: u64 },
    /// Copy the frame to the surface, and flip it.
    Present,
    /// Begin the next cycle after a pause.
    Pause { nanos: u64 },
    /// Release the surface and stop.
    Stop,
}

/// Whether a failed dispatch ends the cycle. A socket that would block is tried again
/// with the next frame.
pub open spec fn is_fatal(error: GpuDisplayError) -> bool {
    error != GpuDisplayError::IoError { would_block: true }
}

/// The pause that fills up a frame's time.
pub open spec fn pause_after(elapsed_nanos: u128) -> u64 {
    if elapsed_nanos < FRAME_NANOS {
        (FRAME_NANOS - elapsed_nanos) as u64
    } else {
        0
    }
}

/// The step after `event`, for a framebuffer at `addr`.
pub open spec fn action_after(addr: u64, event: FrameEvent) -> FrameAction {
    match event {
        FrameEvent::Begin => FrameAction::DispatchEvents,
        FrameEvent::Dispatched { failed } => match failed {
            Some(error) if is_fatal(error) => FrameAction::Stop,
            _ => FrameAction::ReadGuest { addr },
        },
        FrameEvent::GuestRead { readable } => if readable {
            FrameAction::Present
        } else {
            FrameAction::Stop
        },
        FrameEvent::Presented { elapsed_nanos } => FrameAction::Pause {
            nanos: pause_after(elapsed_nanos),
        },
    }
}

/// The frames of a guest's simple framebuffer on their way to a display.
pub struct SimplefbBridge {
    addr: u64,
    read_buf: Vec<u8>,
}

/// The state of a bridge.
pub struct BridgeState {
    pub addr: u64,
    /// The last frame read.
    pub frame: Seq<u8>,
}

impl View for SimplefbBridge {
    type V = BridgeState;

    closed spec fn view(&self) -> BridgeState {
        BridgeState { addr: self.addr, frame: self.read_buf@ }
    }
}

impl SimplefbBridge {
    /// A bridge from the framebuffer that `params` describe, with a blank frame.
    pub fn new(params: &SimplefbDisplayParams) -> (bridge: SimplefbBridge)
        requires
            params.frame_len() <= isize::MAX,
        ensures
            bridge@ == (BridgeState {
                addr: params.addr,
                frame: Seq::new(params.frame_len() as nat, |i: int| 0u8),
            }),
    {
        let fb_size: usize = (params.stride as usize) * (params.height as usize);
        SimplefbBridge { addr: params.addr, read_buf: zeroed(fb_size) }
    }

    /// The buffer that guest memory is read into.
    pub fn frame_buffer(&mut self) -> (buffer: &mut [u8])
        ensures
            buffer@ == old(self)@.frame,
            final(self)@ == (BridgeState { frame: final(buffer)@, ..old(self)@ }),
    {
        self.read_buf.as_mut_slice()
    }

    /// What to do after `event`.
    pub fn next(&self, event: FrameEvent) -> (action: FrameAction)
        ensures
            action == action_after(self@.addr, event),
            event == (FrameEvent::Dispatched { failed: None }) ==> action
                == (FrameAction::ReadGuest { addr: self@.addr }),
    {
        match event {
            FrameEvent::Begin => FrameAction::DispatchEvents,
            FrameEvent::Dispatched { failed } => match failed {
                None => FrameAction::ReadGuest { addr: self.addr },
                Some(GpuDisplayError::IoError { would_block: true }) => FrameAction::ReadGuest {
                    addr: self.addr,
                },
                Some(_) => FrameAction::Stop,
            },
            FrameEvent::GuestRead { readable } => {
                if readable {
                    FrameAction::Present
                } else {
                    FrameAction::Stop
                }
            },
            FrameEvent::Presented { elapsed_nanos } => {
                if elapsed_nanos < FRAME_NANOS as u128 {
                    FrameAction::Pause { nanos: FRAME_NANOS - elapsed_nanos as u64 }
                } else {
                    FrameAction::Pause { nanos: 0 }
                }
            },
        }
    }

    /// Copies as much of the frame as fits onto a surface's pixels, and returns how much
    /// that is.
    pub fn present(&self, pixels: &mut [u8]) -> (copied: usize)
        ensures
            final(pixels)@ == overlaid(old(pixels)@, self@.frame),
            copied == if self@.frame.len() < old(pixels)@.len() {
                self@.frame.len()
            } else {
                old(pixels)@.len()
            },
    {
        copy_prefix(pixels, self.read_buf.as_slice())
    }
}

/// A guest frame whose lines are packed reaches the server unchanged: presented on a
/// surface of the same size and flipped, it replaces what the server had.
pub proof fn law_frame_reaches_server(
    params: SimplefbDisplayParams,
    frame: Seq<u8>,
    pixels: Seq<u8>,
    shared: Seq<u8>,
)
    requires
        params.stride == params.width * 4,
        frame.len() == params.frame_len(),
        pixels.len() == frame_bytes(params.width, params.height),
        shared.len() == frame_bytes(params.width, params.height),
    ensures
        overlaid(shared, overlaid(pixels, frame)) == frame,
{
    let width = params.width as int;
    let height = params.height as int;
    assert(width * 4 * height == width * height * 4) by (nonlinear_arith);
    assert(overlaid(pixels, frame) =~= frame);
    assert(overlaid(shared, frame) =~= frame);
}

/// With its pause a cycle takes exactly a frame's time, or as long as it took to present
/// the frame if that is longer.
pub proof fn law_frame_pace(addr: u64, elapsed_nanos: u128)
    ensures
        ({
            let action = action_after(addr, FrameEvent::Presented { elapsed_nanos });
            &&& action is Pause
            &&& elapsed_nanos + action->nanos == if elapsed_nanos < FRAME_NANOS {
                FRAME_NANOS as int
            } else {
                elapsed_nanos as int
            }
        }),
{
}

/// Once the viewer's input is dispatched, or there is none for the moment, the guest is
/// read at the address of its framebuffer.
pub proof fn law_guest_read_at_its_address(addr: u64, failed: Option<GpuDisplayError>)
    requires
        failed is None || failed == Some(GpuDisplayError::IoError { would_block: true }),
    ensures
        action_after(addr, FrameEvent::Dispatched { failed }) is ReadGuest,
        action_after(addr, FrameEvent::Dispatched { failed })->addr == addr,
{
}

/// A cycle dispatches the viewer's input, reads the guest, presents what was read and
/// pauses, in this order.
pub proof fn law_cycle_order(addr: u64, elapsed_nanos: u128)
    ensures
        action_after(addr, FrameEvent::Begin) == FrameAction::DispatchEvents,
        action_after(addr, FrameEvent::Dispatched { failed: None }) is ReadGuest,
        action_after(addr, FrameEvent::GuestRead { readable: true }) == FrameAction::Present,
        action_after(addr, FrameEvent::Presented { elapsed_nanos }) is Pause,
{
}

/// The pause lasts until a thirtieth of a second has passed since the cycle began, and
/// there is none if it has.
pub proof fn law_thirty_frames_a_second(addr: u64, elapsed_nanos: u128)
    ensures
        ({
            let nanos = action_after(addr, FrameEvent::Presented { elapsed_nanos })->nanos;
            &&& elapsed_nanos <= 33_333_333 ==> elapsed_nanos + nanos == 33_333_333
            &&& elapsed_nanos > 33_333_333 ==> nanos == 0
            &&& elapsed_nanos <= 33_333_333 ==> 1_000_000_000 - 30 < 30 * (elapsed_nanos + nanos)
                <= 1_000_000_000
        }),
{
    assert(FRAME_NANOS == 33_333_333);
}

/// A frame has `stride` bytes for each of its lines.
pub proof fn law_frame_has_lines(params: SimplefbDisplayParams)
    ensures
        params.frame_len() == params.height * params.stride,
{
    let stride = params.stride as int;
    let height = params.height as int;
    assert(stride * height == height * stride) by (nonlinear_arith);
}

/// The cycle ends exactly if the guest's memory cannot be read or dispatching fails for
/// good. In every other case the next step follows.
pub proof fn law_stops_only_on_failure(addr: u64, event: FrameEvent)
    ensures
        action_after(addr, event) is Stop <==> {
            ||| event == FrameEvent::GuestRead { readable: false }
            ||| event matches FrameEvent::Dispatched { failed } && failed matches Some(error)
                && error != GpuDisplayError::IoError { would_block: true }
        },
{
}

} // verus!
