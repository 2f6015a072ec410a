//! Display backend that serves a framebuffer to a remote viewer and turns the
//! viewer's input into guest input events.

use std::collections::VecDeque;

use vstd::prelude::*;
use vstd::utf8::*;

use crate::gpu_display::text::{bytes_of, c_string, c_string_of, parse_port, port_of};
use crate::gpu_display::{
    batch, copy_prefix, frame_bytes, overlaid, zeroed, EventBatch, EventDeviceKind,
    GpuDisplayError, GpuDisplayEvents, InputEvent,
};

verus! {

/// What polling the server returns when it has no event.
pub const VNC_INPUT_NONE: i32 = 0;

/// Type of a key event.
pub const VNC_INPUT_KEY: u8 = 1;

/// Type of a pointer event.
pub const VNC_INPUT_POINTER: u8 = 2;

/// Tracking id that says a contact is lifted.
pub const LIFTED: i32 = -1;

/// Bytes per pixel of every frame.
pub const BYTES_PER_PIXEL: u32 = 4;

/// An input event from the remote viewer.
#[derive(Clone, Copy, Debug, PartialEq, Eq, Structural)]
pub struct VncInputEvent {
    /// `VNC_INPUT_KEY` or `VNC_INPUT_POINTER`.
    pub event_type: u8,
    /// Nonzero if the key is down.
    pub down: u8,
    pub linux_keycode: u16,
    pub x: i32,
    pub y: i32,
    /// The pointer buttons that are down, button 1 in the lowest bit.
    pub button_mask: u8,
}

/// What the conversion of pointer events remembers.
pub struct TouchState {
    /// The tracking id that the next contact gets.
    pub next_tracking_id: i32,
    /// The buttons that were down at the last pointer event.
    pub prev_button_mask: u8,
}

/// Whether button 1 is down.
pub open spec fn button1(mask: u8) -> bool {
    mask % 2 == 1
}

/// The events of a contact `tracking_id` at a position.
pub open spec fn contact(tracking_id: i32, x: i32, y: i32) -> EventBatch {
    EventBatch {
        events: seq![
            InputEvent::MultitouchSlot(0),
            InputEvent::MultitouchTrackingId(tracking_id),
            InputEvent::MultitouchAbsoluteX(x),
            InputEvent::MultitouchAbsoluteY(y),
            InputEvent::Touch(true),
        ],
        device_type: EventDeviceKind::Touchscreen,
    }
}

/// The events of a contact that is lifted.
pub open spec fn lift() -> EventBatch {
    EventBatch {
        events: seq![
            InputEvent::MultitouchSlot(0),
            InputEvent::MultitouchTrackingId(LIFTED),
            InputEvent::Touch(false),
        ],
        device_type: EventDeviceKind::Touchscreen,
    }
}

/// The event of a key.
pub open spec fn key(code: u16, pressed: bool) -> EventBatch {
    EventBatch {
        events: seq![InputEvent::Key { code, pressed, repeat: false }],
        device_type: EventDeviceKind::Keyboard,
    }
}

impl TouchState {
    /// Whether `event` puts a contact down.
    pub open spec fn is_press(self, event: VncInputEvent) -> bool {
        event.event_type == VNC_INPUT_POINTER && button1(event.button_mask) && !button1(
            self.prev_button_mask,
        )
    }

    /// Whether `event` moves a contact.
    pub open spec fn is_drag(self, event: VncInputEvent) -> bool {
        event.event_type == VNC_INPUT_POINTER && button1(event.button_mask) && button1(
            self.prev_button_mask,
        )
    }

    /// Whether `event` lifts a contact.
    pub open spec fn is_lift(self, event: VncInputEvent) -> bool {
        event.event_type == VNC_INPUT_POINTER && !button1(event.button_mask) && button1(
            self.prev_button_mask,
        )
    }

    /// The state after `event`.
    pub open spec fn after(self, event: VncInputEvent) -> TouchState {
        TouchState {
            next_tracking_id: if self.is_press(event) {
                self.next_tracking_id.wrapping_add(1)
            } else {
                self.next_tracking_id
            },
            prev_button_mask: if event.event_type == VNC_INPUT_POINTER {
                event.button_mask
            } else {
                self.prev_button_mask
            },
        }
    }

    /// What `event` means for the guest, if anything.
    pub open spec fn converted(self, event: VncInputEvent) -> Option<EventBatch> {
        if event.event_type == VNC_INPUT_KEY {
            Some(key(event.linux_keycode, event.down != 0))
        } else if self.is_press(event) {
            Some(contact(self.next_tracking_id, event.x, event.y))
        } else if self.is_drag(event) {
            Some(contact(self.next_tracking_id.wrapping_sub(1), event.x, event.y))
        } else if self.is_lift(event) {
            Some(lift())
        } else {
            None
        }
    }
}

/// The state of a display.
pub struct DisplayState {
    pub width: u32,
    pub height: u32,
    /// Viewer events that wait for conversion, oldest first.
    pub queue: Seq<VncInputEvent>,
    pub touch: TouchState,
}

/// A display served to a remote viewer.
pub struct DisplayVnc {
    width: u32,
    height: u32,
    input_queue: VecDeque<VncInputEvent>,
    next_tracking_id: i32,
    prev_button_mask: u8,
}

impl View for DisplayVnc {
    type V = DisplayState;

    closed spec fn view(&self) -> DisplayState {
        DisplayState {
            width: self.width,
            height: self.height,
            queue: self.input_queue@,
            touch: TouchState {
                next_tracking_id: self.next_tracking_id,
                prev_button_mask: self.prev_button_mask,
            },
        }
    }
}

/// `value` as a C `int`, which wraps around.
pub open spec fn c_int(value: u32) -> i32 {
    if value <= i32::MAX {
        value as i32
    } else {
        (value - 0x1_0000_0000) as i32
    }
}

/// What a display server is started with.
#[derive(Debug)]
pub struct VncServerConfig {
    pub width: i32,
    pub height: i32,
    pub port: i32,
    /// The password as a C string, with its final zero byte.
    pub password: Option<Vec<u8>>,
}

/// A display whose server has yet to be started.
pub struct VncStartup {
    pub config: VncServerConfig,
    pub display: DisplayVnc,
}

impl VncStartup {
    /// The display, if `created` says that its server was.
    pub fn finish(self, created: bool) -> (display: Result<DisplayVnc, GpuDisplayError>)
        ensures
            match display {
                Ok(display) => created && display == self.display,
                Err(error) => !created && error == GpuDisplayError::Allocate,
            },
    {
        if created {
            Ok(self.display)
        } else {
            Err(GpuDisplayError::Allocate)
        }
    }
}

/// Where surfaces leave their frames for the server.
#[derive(Debug)]
pub struct SharedFramebuffer {
    pub width: u32,
    pub height: u32,
    pub data: Vec<u8>,
}

/// A blank frame.
pub open spec fn blank(width: u32, height: u32) -> Seq<u8> {
    Seq::new(frame_bytes(width, height) as nat, |i: int| 0u8)
}

/// The state of a surface.
pub struct SurfaceState {
    pub width: u32,
    pub height: u32,
    pub pixels: Seq<u8>,
}

/// A surface that the guest's frames are drawn on.
pub struct VncSurface {
    width: u32,
    height: u32,
    local_buffer: Vec<u8>,
}

impl View for VncSurface {
    type V = SurfaceState;

    closed spec fn view(&self) -> SurfaceState {
        SurfaceState { width: self.width, height: self.height, pixels: self.local_buffer@ }
    }
}

/// The writable pixels of a surface, and their layout.
pub struct GpuDisplayFramebuffer<'a> {
    pub slice: &'a mut [u8],
    /// Bytes per line.
    pub stride: u32,
    pub bytes_per_pixel: u32,
}

impl VncSurface {
    /// A blank surface.
    pub fn new(width: u32, height: u32) -> (surface: VncSurface)
        requires
            frame_bytes(width, height) <= isize::MAX,
        ensures
            surface@ == (SurfaceState { width, height, pixels: blank(width, height) }),
    {
        VncSurface { width, height, local_buffer: blank_frame(width, height) }
    }

    /// The bytes of the surface's pixels.
    pub fn buffer_len(&self) -> (len: usize)
        ensures
            len == self@.pixels.len(),
    {
        self.local_buffer.len()
    }

    /// The surface's pixels, to be drawn on.
    pub fn framebuffer(&mut self) -> (framebuffer: Option<GpuDisplayFramebuffer<'_>>)
        requires
            old(self)@.width * 4 <= u32::MAX,
        ensures
            framebuffer is Some,
            framebuffer->0.slice@ == old(self)@.pixels,
            framebuffer->0.stride == old(self)@.width * 4,
            framebuffer->0.bytes_per_pixel == BYTES_PER_PIXEL == 4,
            final(self)@ == (SurfaceState { pixels: final(framebuffer->0.slice)@, ..old(self)@ }),
    {
        let stride: u32 = self.width * 4;
        Some(
            GpuDisplayFramebuffer {
                slice: self.local_buffer.as_mut_slice(),
                stride,
                bytes_per_pixel: BYTES_PER_PIXEL,
            },
        )
    }

    /// Hands the surface's frame over to the server. Returns how many bytes the server
    /// has to take, as a C `uint32_t`.
    pub fn flip(&self, shared: &mut SharedFramebuffer) -> (submitted: u32)
        ensures
            final(shared).data@ == overlaid(old(shared).data@, self@.pixels),
            final(shared).width == old(shared).width,
            final(shared).height == old(shared).height,
            submitted == if self@.pixels.len() < old(shared).data@.len() {
                self@.pixels.len() % 0x1_0000_0000
            } else {
                old(shared).data@.len() % 0x1_0000_0000
            },
    {
        let copied: usize = copy_prefix(
            shared.data.as_mut_slice(),
            self.local_buffer.as_slice(),
        );
        proof {
            lemma_low_word(copied);
        }
        copied as u32
    }
}

/// A blank frame.
fn blank_frame(width: u32, height: u32) -> (frame: Vec<u8>)
    requires
        frame_bytes(width, height) <= isize::MAX,
    ensures
        frame@ == blank(width, height),
{
    proof {
        lemma_frame_fits(width, height);
    }
    let len: usize = (width as usize) * (height as usize) * 4;
    zeroed(len)
}

proof fn lemma_frame_fits(width: u32, height: u32)
    by (nonlinear_arith)
    ensures
        0 <= width * height,
        width * height <= width * height * 4,
{
}

proof fn lemma_low_word(len: usize)
    by (bit_vector)
    ensures
        len as u32 == len as u64 % 0x1_0000_0000,
{
}

/// The size that a surface gets: what is asked for, or where that is zero the
/// display's own.
pub open spec fn chosen(requested: u32, current: u32) -> u32 {
    if requested != 0 {
        requested
    } else {
        current
    }
}

impl DisplayState {
    /// The size of a surface for which `width` by `height` is asked.
    pub open spec fn size_for(self, width: u32, height: u32) -> (u32, u32) {
        (chosen(width, self.width), chosen(height, self.height))
    }

    /// Whether the server has to be resized for such a surface.
    pub open spec fn must_resize(self, parent: Option<u32>, width: u32, height: u32) -> bool {
        parent is None && self.size_for(width, height) != (self.width, self.height)
    }

    /// The size of the surface that is created, where `resize_status` is what resizing the
    /// server returned if it had to be, or why there is none.
    pub open spec fn creates(
        self,
        parent: Option<u32>,
        width: u32,
        height: u32,
        resize_status: i32,
    ) -> Result<(u32, u32), GpuDisplayError> {
        if parent is Some {
            Err(GpuDisplayError::Unsupported)
        } else if self.must_resize(parent, width, height) && resize_status != 0 {
            Err(GpuDisplayError::Allocate)
        } else {
            Ok(self.size_for(width, height))
        }
    }

    /// The display after a surface of `size` is created, or none is.
    pub open spec fn after_create(self, size: Result<(u32, u32), GpuDisplayError>) -> DisplayState {
        match size {
            Ok(size) => DisplayState { width: size.0, height: size.1, ..self },
            Err(_) => self,
        }
    }
}

/// A new surface, and the framebuffer that it shares with the server.
pub struct CreatedSurface {
    pub surface: VncSurface,
    pub shared_fb: SharedFramebuffer,
}

impl DisplayVnc {
    /// Prepares a display at `addr`, where `event_created` says whether its event could
    /// be created. The server is started with the returned configuration.
    pub fn new_tcp(
        addr: &str,
        width: u32,
        height: u32,
        password: Option<String>,
        event_created: bool,
    ) -> (startup: Result<VncStartup, GpuDisplayError>)
        ensures
            startup == Err::<VncStartup, _>(GpuDisplayError::CreateEvent) <==> !event_created,
            startup == Err::<VncStartup, _>(GpuDisplayError::Allocate) <==> event_created && (
            password matches Some(password) && c_string_of(password@) is None),
            startup matches Err(error) ==> error == GpuDisplayError::CreateEvent || error
                == GpuDisplayError::Allocate,
            startup matches Ok(startup) ==> {
                &&& startup.config.width == c_int(width)
                &&& startup.config.height == c_int(height)
                &&& startup.config.port == port_of(addr@)
                &&& bytes_of(startup.config.password) == match password {
                    Some(password) => c_string_of(password@),
                    None => None,
                }
                &&& startup.display@ == (DisplayState {
                    width,
                    height,
                    queue: Seq::empty(),
                    touch: TouchState { next_tracking_id: 0, prev_button_mask: 0 },
                })
                &&& match (password, startup.config.password) {
                    (Some(password), Some(bytes)) => bytes@ == encode_utf8(password@).push(0),
                    (None, None) => true,
                    _ => false,
                }
            },
    {
        if !event_created {
            return Err(GpuDisplayError::CreateEvent);
        }
        let port: i32 = parse_port(addr);
        let c_password: Option<Vec<u8>> = match password {
            Some(pwd) => match c_string(pwd.as_str()) {
                Some(bytes) => Some(bytes),
                None => {
                    return Err(GpuDisplayError::Allocate);
                },
            },
            None => None,
        };
        proof {
            lemma_c_int(width);
            lemma_c_int(height);
        }
        Ok(
            VncStartup {
                config: VncServerConfig {
                    width: width as i32,
                    height: height as i32,
                    port,
                    password: c_password,
                },
                display: DisplayVnc {
                    width,
                    height,
                    input_queue: VecDeque::new(),
                    next_tracking_id: 0,
                    prev_button_mask: 0,
                },
            },
        )
    }

    /// Takes in what polling the server returned: its status, and the event that it
    /// filled in. Returns whether to poll again.
    pub fn drain_c_event(&mut self, status: i32, event: VncInputEvent) -> (again: bool)
        ensures
            again == (status != VNC_INPUT_NONE),
            again == (status != 0),
            final(self)@ == if again {
                DisplayState { queue: old(self)@.queue.push(event), ..old(self)@ }
            } else {
                old(self)@
            },
    {
        if status == VNC_INPUT_NONE {
            return false;
        }
        self.input_queue.push_back(event);
        true
    }

    /// Whether events wait, here or, by the status that it returned, at the server.
    pub fn pending_events(&self, server_status: i32) -> (pending: bool)
        ensures
            pending == (self@.queue.len() > 0 || server_status != 0),
    {
        self.input_queue.len() > 0 || server_status != 0
    }

    /// The size that a surface gets: what is asked for, or where that is zero the
    /// display's own.
    pub fn surface_size(&self, requested_width: u32, requested_height: u32) -> (size: (u32, u32))
        ensures
            size == self@.size_for(requested_width, requested_height),
    {
        let width: u32 = if requested_width != 0 {
            requested_width
        } else {
            self.width
        };
        let height: u32 = if requested_height != 0 {
            requested_height
        } else {
            self.height
        };
        (width, height)
    }

    /// The size to resize the server to before a surface can be created, if it differs
    /// from the server's.
    pub fn resize_request(
        &self,
        parent_surface_id: Option<u32>,
        requested_width: u32,
        requested_height: u32,
    ) -> (request: Option<(i32, i32)>)
        ensures
            ({
                let size = self@.size_for(requested_width, requested_height);
                request == if self@.must_resize(
                    parent_surface_id,
                    requested_width,
                    requested_height,
                ) {
                    Some((c_int(size.0), c_int(size.1)))
                } else {
                    None
                }
            }),
    {
        let (width, height): (u32, u32) = self.surface_size(requested_width, requested_height);
        proof {
            lemma_c_int(width);
            lemma_c_int(height);
        }
        if parent_surface_id.is_none() && (width != self.width || height != self.height) {
            Some((width as i32, height as i32))
        } else {
            None
        }
    }

    /// Creates a blank surface. `resize_status` is what resizing the server returned,
    /// where `resize_request` asked for that.
    pub fn create_surface(
        &mut self,
        parent_surface_id: Option<u32>,
        requested_width: u32,
        requested_height: u32,
        resize_status: i32,
    ) -> (created: Result<CreatedSurface, GpuDisplayError>)
        requires
            old(self)@.creates(
                parent_surface_id,
                requested_width,
                requested_height,
                resize_status,
            ) matches Ok(size) ==> frame_bytes(size.0, size.1) <= isize::MAX,
        ensures
            ({
                let expected = old(self)@.creates(
                    parent_surface_id,
                    requested_width,
                    requested_height,
                    resize_status,
                );
                &&& final(self)@ == old(self)@.after_create(expected)
                &&& match created {
                    Ok(created) => expected matches Ok(size) && created.surface@ == (SurfaceState {
                        width: size.0,
                        height: size.1,
                        pixels: blank(size.0, size.1),
                    }) && created.shared_fb.width == size.0 && created.shared_fb.height == size.1
                        && created.shared_fb.data@ == blank(size.0, size.1),
                    Err(error) => expected == Err::<(u32, u32), _>(error),
                }
            }),
    {
        if parent_surface_id.is_some() {
            return Err(GpuDisplayError::Unsupported);
        }
        let (width, height): (u32, u32) = self.surface_size(requested_width, requested_height);
        if width != self.width || height != self.height {
            if resize_status != 0 {
                return Err(GpuDisplayError::Allocate);
            }
            self.width = width;
            self.height = height;
        }
        let shared_fb: SharedFramebuffer = SharedFramebuffer {
            width,
            height,
            data: blank_frame(width, height),
        };
        Ok(CreatedSurface { surface: VncSurface::new(width, height), shared_fb })
    }

    fn next_touch_tracking_id(&mut self) -> (id: i32)
        ensures
            id == old(self).next_tracking_id,
            *final(self) == (DisplayVnc {
                next_tracking_id: old(self).next_tracking_id.wrapping_add(1),
                ..*old(self)
            }),
    {
        let id: i32 = self.next_tracking_id;
        self.next_tracking_id = self.next_tracking_id.wrapping_add(1);
        id
    }

    fn current_tracking_id(&self) -> (id: i32)
        ensures
            id == self.next_tracking_id.wrapping_sub(1),
    {
        self.next_tracking_id.wrapping_sub(1)
    }

    /// Takes the oldest waiting viewer event and converts it for the guest.
    pub fn convert_next_event(&mut self) -> (events: Option<GpuDisplayEvents>)
        ensures
            old(self)@.queue.len() == 0 ==> events is None && final(self)@ == old(self)@,
            old(self)@.queue.len() > 0 ==> {
                let event = old(self)@.queue[0];
                &&& batch(events) == old(self)@.touch.converted(event)
                &&& final(self)@ == (DisplayState {
                    queue: old(self)@.queue.drop_first(),
                    touch: old(self)@.touch.after(event),
                    ..old(self)@
                })
                &&& event.event_type == 1 ==> {
                    &&& events is Some
                    &&& events->0.device_type == EventDeviceKind::Keyboard
                    &&& events->0.events@.len() == 1
                    &&& events->0.events@[0] == (InputEvent::Key {
                        code: event.linux_keycode,
                        pressed: event.down != 0,
                        repeat: false,
                    })
                }
                &&& event.event_type == 2 && event.button_mask % 2 == 1 ==> {
                    &&& events is Some
                    &&& events->0.device_type == EventDeviceKind::Touchscreen
                    &&& events->0.events@.len() == 5
                    &&& events->0.events@[2] == InputEvent::MultitouchAbsoluteX(event.x)
                    &&& events->0.events@[3] == InputEvent::MultitouchAbsoluteY(event.y)
                    &&& events->0.events@[4] == InputEvent::Touch(true)
                }
            },
    {
        let ev: VncInputEvent = match self.input_queue.pop_front() {
            Some(ev) => ev,
            None => {
                return None;
            },
        };
        if ev.event_type == VNC_INPUT_KEY {
            let pressed: bool = ev.down != 0;
            let events: Vec<InputEvent> = vec![
                InputEvent::Key { code: ev.linux_keycode, pressed, repeat: false },
            ];
            assert(events@ =~= key(ev.linux_keycode, pressed).events);
            Some(GpuDisplayEvents { events, device_type: EventDeviceKind::Keyboard })
        } else if ev.event_type == VNC_INPUT_POINTER {
            let cur_mask: u8 = ev.button_mask;
            let prev_mask: u8 = self.prev_button_mask;
            self.prev_button_mask = cur_mask;

            let btn1_now: u8 = cur_mask & 1;
            let btn1_prev: u8 = prev_mask & 1;
            proof {
                lemma_low_bit(cur_mask);
                lemma_low_bit(prev_mask);
            }

            if btn1_now != 0 && btn1_prev == 0 {
                let tid: i32 = self.next_touch_tracking_id();
                Some(contact_events(tid, ev.x, ev.y))
            } else if btn1_now != 0 && btn1_prev != 0 {
                let tid: i32 = self.current_tracking_id();
                Some(contact_events(tid, ev.x, ev.y))
            } else if btn1_now == 0 && btn1_prev != 0 {
                let events: Vec<InputEvent> = vec![
                    InputEvent::MultitouchSlot(0),
                    InputEvent::MultitouchTrackingId(LIFTED),
                    InputEvent::Touch(false),
                ];
                assert(events@ =~= lift().events);
                Some(GpuDisplayEvents { events, device_type: EventDeviceKind::Touchscreen })
            } else {
                None
            }
        } else {
            None
        }
    }
}

fn contact_events(tracking_id: i32, x: i32, y: i32) -> (events: GpuDisplayEvents)
    ensures
        events@ == contact(tracking_id, x, y),
{
    let events: Vec<InputEvent> = vec![
        InputEvent::MultitouchSlot(0),
        InputEvent::MultitouchTrackingId(tracking_id),
        InputEvent::MultitouchAbsoluteX(x),
        InputEvent::MultitouchAbsoluteY(y),
        InputEvent::Touch(true),
    ];
    assert(events@ =~= contact(tracking_id, x, y).events);
    GpuDisplayEvents { events, device_type: EventDeviceKind::Touchscreen }
}

proof fn lemma_c_int(value: u32)
    by (bit_vector)
    ensures
        value <= 0x7fff_ffff ==> value as i32 == value,
        value > 0x7fff_ffff ==> value as i32 == value - 0x1_0000_0000,
{
}

proof fn lemma_low_bit(mask: u8)
    by (bit_vector)
    ensures
        mask & 1 == mask % 2,
{
}

} // verus!
