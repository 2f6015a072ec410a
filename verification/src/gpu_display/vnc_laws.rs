//! What the remote display guarantees across events and frames.

use vstd::prelude::*;

use crate::gpu_display::vnc::{
    blank, c_int, contact, key, DisplayState, SurfaceState, TouchState, VncInputEvent, LIFTED,
    VNC_INPUT_KEY, VNC_INPUT_POINTER,
};
use crate::gpu_display::{
    batch, frame_bytes, overlaid, EventBatch, EventDeviceKind, GpuDisplayError, GpuDisplayEvents,
    InputEvent,
};

verus! {

/// The state after `events`, in order.
pub open spec fn run(start: TouchState, events: Seq<VncInputEvent>) -> TouchState
    decreases events.len(),
{
    if events.len() == 0 {
        start
    } else {
        run(start, events.drop_last()).after(events.last())
    }
}

/// What each of `events`, in order, means for the guest.
pub open spec fn outputs(start: TouchState, events: Seq<VncInputEvent>) -> Seq<Option<EventBatch>>
    decreases events.len(),
{
    if events.len() == 0 {
        Seq::empty()
    } else {
        outputs(start, events.drop_last()).push(
            run(start, events.drop_last()).converted(events.last()),
        )
    }
}

/// How many of `events` put a contact down.
pub open spec fn press_count(start: TouchState, events: Seq<VncInputEvent>) -> nat
    decreases events.len(),
{
    if events.len() == 0 {
        0
    } else {
        press_count(start, events.drop_last()) + if run(start, events.drop_last()).is_press(
            events.last(),
        ) {
            1nat
        } else {
            0nat
        }
    }
}

/// How many of `events` lift a contact.
pub open spec fn lift_count(start: TouchState, events: Seq<VncInputEvent>) -> nat
    decreases events.len(),
{
    if events.len() == 0 {
        0
    } else {
        lift_count(start, events.drop_last()) + if run(start, events.drop_last()).is_lift(
            events.last(),
        ) {
            1nat
        } else {
            0nat
        }
    }
}

/// The touch state of a new display.
pub open spec fn untouched() -> TouchState {
    TouchState { next_tracking_id: 0, prev_button_mask: 0 }
}

/// The tracking id of the contact that is put down after `n` others. Ids count up from
/// zero and wrap around.
pub open spec fn tracking_id(n: int) -> i32 {
    ((n + 0x8000_0000) % 0x1_0000_0000 - 0x8000_0000) as i32
}

/// Contacts get their tracking ids in order, from zero on.
pub proof fn law_contacts_numbered(events: Seq<VncInputEvent>)
    ensures
        run(untouched(), events).next_tracking_id == tracking_id(
            press_count(untouched(), events) as int,
        ),
    decreases events.len(),
{
    if events.len() > 0 {
        law_contacts_numbered(events.drop_last());
    }
}

/// Contacts are put down and lifted in turn: at any time at most one is down, and it is
/// down exactly while button 1 is.
pub proof fn law_contacts_alternate(events: Seq<VncInputEvent>)
    ensures
        press_count(untouched(), events) == lift_count(untouched(), events) + if run(
            untouched(),
            events,
        ).prev_button_mask % 2 == 1 {
            1nat
        } else {
            0nat
        },
    decreases events.len(),
{
    if events.len() > 0 {
        law_contacts_alternate(events.drop_last());
    }
}

/// A contact keeps its tracking id while it is dragged: dragging reports the id of the
/// contact that was put down last.
pub proof fn law_drag_keeps_contact(events: Seq<VncInputEvent>, event: VncInputEvent)
    requires
        run(untouched(), events).is_drag(event),
    ensures
        press_count(untouched(), events) > 0,
        run(untouched(), events).converted(event) == Some(
            contact(tracking_id(press_count(untouched(), events) - 1), event.x, event.y),
        ),
{
    law_contacts_numbered(events);
    law_contacts_alternate(events);
}

/// Putting a contact down reports the next tracking id.
pub proof fn law_press_reports_next_contact(events: Seq<VncInputEvent>, event: VncInputEvent)
    requires
        run(untouched(), events).is_press(event),
    ensures
        run(untouched(), events).converted(event) == Some(
            contact(tracking_id(press_count(untouched(), events) as int), event.x, event.y),
        ),
{
    law_contacts_numbered(events);
}

/// No contact is mistaken for a lifted one, until so many have been put down that the
/// tracking ids wrap around to -1.
pub proof fn law_contact_is_not_lifted(n: int)
    requires
        0 <= n < 0xffff_ffff,
    ensures
        tracking_id(n) != LIFTED,
{
}

/// Only button 1 of the pointer matters.
pub proof fn law_other_buttons_ignored(
    first: TouchState,
    second: TouchState,
    event: VncInputEvent,
    mask: u8,
)
    requires
        first.next_tracking_id == second.next_tracking_id,
        first.prev_button_mask % 2 == second.prev_button_mask % 2,
        mask % 2 == event.button_mask % 2,
    ensures
        ({
            let other = VncInputEvent { button_mask: mask, ..event };
            &&& first.converted(event) == second.converted(other)
            &&& first.after(event).next_tracking_id == second.after(other).next_tracking_id
            &&& first.after(event).prev_button_mask % 2 == second.after(other).prev_button_mask % 2
        }),
{
}

/// A key is reported whatever the touch state, and does not change it.
pub proof fn law_keys_leave_touch(state: TouchState, event: VncInputEvent)
    requires
        event.event_type == VNC_INPUT_KEY,
    ensures
        state.converted(event) == Some(key(event.linux_keycode, event.down != 0)),
        state.after(event) == state,
{
}

/// A key event becomes one event of the keyboard, with the viewer's key code, whether the
/// key is down, and no repetition.
pub proof fn law_key_reported(state: TouchState, event: VncInputEvent)
    requires
        event.event_type == 1,
    ensures
        ({
            let reported = state.converted(event);
            &&& reported is Some
            &&& reported->0.device_type == EventDeviceKind::Keyboard
            &&& reported->0.events.len() == 1
            &&& reported->0.events[0] is Key
            &&& reported->0.events[0]->code == event.linux_keycode
            &&& reported->0.events[0]->pressed == (event.down != 0)
            &&& !reported->0.events[0]->repeat
        }),
{
}

/// A pointer event with button 1 down is a contact in slot 0 of the touchscreen at the
/// pointer's position. Its tracking id is the next one if the button was up before, and
/// else the one before that.
pub proof fn law_contact_reported(state: TouchState, event: VncInputEvent)
    requires
        event.event_type == 2,
        event.button_mask % 2 == 1,
    ensures
        ({
            let reported = state.converted(event);
            let next = state.next_tracking_id as int;
            &&& reported is Some
            &&& reported->0.device_type == EventDeviceKind::Touchscreen
            &&& reported->0.events.len() == 5
            &&& reported->0.events[0] == InputEvent::MultitouchSlot(0)
            &&& reported->0.events[1] is MultitouchTrackingId
            &&& reported->0.events[1]->MultitouchTrackingId_0 == if state.prev_button_mask % 2 == 0 {
                next
            } else if next == -0x8000_0000 {
                0x7fff_ffff
            } else {
                next - 1
            }
            &&& reported->0.events[2] == InputEvent::MultitouchAbsoluteX(event.x)
            &&& reported->0.events[3] == InputEvent::MultitouchAbsoluteY(event.y)
            &&& reported->0.events[4] == InputEvent::Touch(true)
        }),
{
}

/// A pointer event with button 1 up lifts the contact in slot 0 if the button was down
/// before, and else means nothing.
pub proof fn law_lift_reported(state: TouchState, event: VncInputEvent)
    requires
        event.event_type == 2,
        event.button_mask % 2 == 0,
    ensures
        ({
            let reported = state.converted(event);
            &&& reported is Some <==> state.prev_button_mask % 2 == 1
            &&& reported is Some ==> {
                &&& reported->0.device_type == EventDeviceKind::Touchscreen
                &&& reported->0.events.len() == 3
                &&& reported->0.events[0] == InputEvent::MultitouchSlot(0)
                &&& reported->0.events[1] is MultitouchTrackingId
                &&& reported->0.events[1]->MultitouchTrackingId_0 == -1
                &&& reported->0.events[2] == InputEvent::Touch(false)
            }
        }),
{
}

/// The buttons of every pointer event, and of no other, are remembered as they are. The
/// next tracking id counts up by one, wrapping around, with every contact that is put
/// down, and otherwise stays.
pub proof fn law_touch_remembered(state: TouchState, event: VncInputEvent)
    ensures
        ({
            let after = state.after(event);
            let next = state.next_tracking_id as int;
            let down = event.event_type == 2 && event.button_mask % 2 == 1 && state.prev_button_mask
                % 2 == 0;
            &&& after.prev_button_mask == if event.event_type == 2 {
                event.button_mask
            } else {
                state.prev_button_mask
            }
            &&& after.next_tracking_id == if !down {
                next
            } else if next == 0x7fff_ffff {
                -0x8000_0000
            } else {
                next + 1
            }
        }),
{
}

/// From the event that puts a contact down until button 1 is released, every pointer event
/// reports the same tracking id, whatever keys come in between.
pub proof fn law_contact_keeps_id(
    state: TouchState,
    press: VncInputEvent,
    between: Seq<VncInputEvent>,
    drag: VncInputEvent,
)
    requires
        state.prev_button_mask % 2 == 0,
        press.event_type == 2 && press.button_mask % 2 == 1,
        drag.event_type == 2 && drag.button_mask % 2 == 1,
        forall|i: int|
            0 <= i < between.len() ==> (#[trigger] between[i]).event_type != 2
                || between[i].button_mask % 2 == 1,
    ensures
        run(state.after(press), between).converted(drag)->0.events[1] == state.converted(
            press,
        )->0.events[1],
        run(state.after(press), between).prev_button_mask % 2 == 1,
        run(state.after(press), between).next_tracking_id == state.after(press).next_tracking_id,
    decreases between.len(),
{
    if between.len() > 0 {
        let earlier = between.drop_last();
        assert forall|i: int| 0 <= i < earlier.len() implies (#[trigger] earlier[i]).event_type != 2
            || earlier[i].button_mask % 2 == 1 by {
            assert(earlier[i] == between[i]);
        }
        law_contact_keeps_id(state, press, earlier, drag);
        assert(between.last() == between[between.len() - 1]);
    }
}

/// Events other than keys and pointer movements mean nothing and are not remembered.
pub proof fn law_other_events_mean_nothing(state: TouchState, event: VncInputEvent)
    requires
        event.event_type != 1,
        event.event_type != 2,
    ensures
        state.converted(event) is None,
        state.after(event).next_tracking_id == state.next_tracking_id,
        state.after(event).prev_button_mask == state.prev_button_mask,
{
}

/// The contents of a batch are the events and the device that it holds, and an absent
/// batch has none.
pub proof fn law_batch_contents(events: GpuDisplayEvents)
    ensures
        batch(None) is None,
        batch(Some(events)) is Some,
        batch(Some(events))->0.events == events.events@,
        batch(Some(events))->0.device_type == events.device_type,
{
}

/// A size handed to C keeps its 32 bits: it is the same number if that fits, and else it
/// differs by two to the power of 32.
pub proof fn law_c_int(value: u32)
    ensures
        value < 0x8000_0000 ==> c_int(value) == value,
        value >= 0x8000_0000 ==> c_int(value) + 0x1_0000_0000 == value,
{
}

/// A surface gets the size asked for, in each direction the display's own where zero is
/// asked for. Asking for a child surface is refused. The server has to be resized exactly
/// if the size differs from the display's, and no surface is created exactly if that
/// fails.
pub proof fn law_surface_request(
    display: DisplayState,
    parent: Option<u32>,
    width: u32,
    height: u32,
    resize_status: i32,
)
    ensures
        ({
            let size = display.size_for(width, height);
            let resize = display.must_resize(parent, width, height);
            let created = display.creates(parent, width, height, resize_status);
            &&& width != 0 ==> size.0 == width
            &&& width == 0 ==> size.0 == display.width
            &&& height != 0 ==> size.1 == height
            &&& height == 0 ==> size.1 == display.height
            &&& resize <==> {
                &&& parent is None
                &&& (width != 0 && width != display.width) || (height != 0 && height
                    != display.height)
            }
            &&& parent is Some ==> created == Err::<(u32, u32), _>(GpuDisplayError::Unsupported)
            &&& parent is None && resize && resize_status != 0 ==> created == Err::<(u32, u32), _>(
                GpuDisplayError::Allocate,
            )
            &&& parent is None && !(resize && resize_status != 0) ==> created == Ok::<
                (u32, u32),
                GpuDisplayError,
            >(size)
        }),
{
}

/// A display takes on the size of each surface that is created on it, and nothing else
/// of it changes. Where none is created nothing changes at all.
pub proof fn law_display_takes_surface_size(
    display: DisplayState,
    parent: Option<u32>,
    width: u32,
    height: u32,
    resize_status: i32,
)
    ensures
        ({
            let created = display.creates(parent, width, height, resize_status);
            let after = display.after_create(created);
            &&& after.queue == display.queue
            &&& after.touch == display.touch
            &&& created is Ok ==> after.width == (if width != 0 {
                width
            } else {
                display.width
            }) && after.height == (if height != 0 {
                height
            } else {
                display.height
            })
            &&& created is Err ==> after.width == display.width && after.height == display.height
        }),
{
}

/// A frame has four bytes for each of its pixels, and a blank one holds zeros only.
pub proof fn law_blank_frame(width: u32, height: u32)
    ensures
        frame_bytes(width, height) == 4 * (width * height),
        blank(width, height).len() == 4 * (width * height),
        forall|i: int| 0 <= i < blank(width, height).len() ==> #[trigger] blank(width, height)[i] == 0,
{
    assert(width * height * 4 == 4 * (width * height) && width * height >= 0) by (nonlinear_arith);
}

/// Copying a frame puts each of its bytes that fits at the same place, and leaves the rest
/// of the framebuffer as it was.
pub proof fn law_frame_copied(target: Seq<u8>, frame: Seq<u8>, i: int)
    requires
        0 <= i < target.len(),
    ensures
        overlaid(target, frame).len() == target.len(),
        overlaid(target, frame)[i] == if i < frame.len() {
            frame[i]
        } else {
            target[i]
        },
{
}

/// An event of an unknown type is dropped and changes nothing.
pub proof fn law_unknown_events_dropped(state: TouchState, event: VncInputEvent)
    requires
        event.event_type != VNC_INPUT_KEY,
        event.event_type != VNC_INPUT_POINTER,
    ensures
        state.converted(event) is None,
        state.after(event) == state,
{
}

/// Events are converted in the order of their arrival, one at a time: those that arrive
/// later do not change what earlier ones mean.
pub proof fn law_events_in_order(
    start: TouchState,
    earlier: Seq<VncInputEvent>,
    later: Seq<VncInputEvent>,
)
    ensures
        run(start, earlier + later) == run(run(start, earlier), later),
        outputs(start, earlier + later) == outputs(start, earlier) + outputs(
            run(start, earlier),
            later,
        ),
        outputs(start, later).len() == later.len(),
    decreases later.len(),
{
    if later.len() == 0 {
        assert(earlier + later =~= earlier);
    } else {
        law_events_in_order(start, earlier, later.drop_last());
        assert((earlier + later).drop_last() =~= earlier + later.drop_last());
        assert((earlier + later).last() == later.last());
    }
}

/// A frame as large as the framebuffer that it is copied to replaces it, whatever was
/// there.
pub proof fn law_frame_replaces(target: Seq<u8>, frame: Seq<u8>)
    requires
        frame.len() == target.len(),
    ensures
        overlaid(target, frame) == frame,
{
    assert(frame.take(target.len() as int) =~= frame);
}

/// Copying a frame never changes the size of the framebuffer, and copying it again
/// changes nothing.
pub proof fn law_copy_idempotent(target: Seq<u8>, frame: Seq<u8>)
    ensures
        overlaid(target, frame).len() == target.len(),
        overlaid(overlaid(target, frame), frame) == overlaid(target, frame),
{
    let once = overlaid(target, frame);
    assert(overlaid(once, frame) =~= once);
}

/// A surface and the framebuffer that it shares with the server start out blank and of
/// the same size, that of the frame: a frame drawn on the whole surface reaches the
/// server whole.
pub proof fn law_new_surface_shows_whole_frame(width: u32, height: u32, drawn: Seq<u8>)
    requires
        drawn.len() == blank(width, height).len(),
    ensures
        blank(width, height).len() == frame_bytes(width, height),
        overlaid(blank(width, height), drawn) == drawn,
{
    assert(width * height * 4 >= 0) by (nonlinear_arith);
    law_frame_replaces(blank(width, height), drawn);
}

/// A surface, and the framebuffer that it shares with the server.
pub struct ShownSurface {
    pub surface: SurfaceState,
    pub shared: Seq<u8>,
}

/// A display, and the surfaces that were created on it, oldest first.
pub struct Screen {
    pub display: DisplayState,
    pub surfaces: Seq<ShownSurface>,
}

impl Screen {
    /// The screen after a surface is asked for. If one is created it is blank, and so is
    /// the framebuffer that it shares.
    pub open spec fn after_create(
        self,
        parent: Option<u32>,
        width: u32,
        height: u32,
        resize_status: i32,
    ) -> Screen {
        let created = self.display.creates(parent, width, height, resize_status);
        Screen {
            display: self.display.after_create(created),
            surfaces: match created {
                Ok(size) => self.surfaces.push(
                    ShownSurface {
                        surface: SurfaceState {
                            width: size.0,
                            height: size.1,
                            pixels: blank(size.0, size.1),
                        },
                        shared: blank(size.0, size.1),
                    },
                ),
                Err(_) => self.surfaces,
            },
        }
    }
}

/// Where a surface could be created, another one for which the same size is asked can be
/// too. The server need not be resized for it, so that no resize can fail. It is blank,
/// its pixels and its framebuffer have exactly the bytes of a frame, so that flipping it
/// copies all of them, and the surfaces created before are unchanged.
pub proof fn law_surface_created_again(
    screen: Screen,
    width: u32,
    height: u32,
    resize_status: i32,
    second_status: i32,
)
    requires
        screen.display.creates(None, width, height, resize_status) is Ok,
    ensures
        ({
            let size = screen.display.size_for(width, height);
            let once = screen.after_create(None, width, height, resize_status);
            let twice = once.after_create(None, width, height, second_status);
            let latest = twice.surfaces.last();
            &&& once.display.creates(None, width, height, second_status) == Ok::<
                (u32, u32),
                GpuDisplayError,
            >(size)
            &&& !once.display.must_resize(None, width, height)
            &&& twice.display == once.display
            &&& twice.surfaces.len() == screen.surfaces.len() + 2
            &&& latest.surface == (SurfaceState {
                width: size.0,
                height: size.1,
                pixels: blank(size.0, size.1),
            })
            &&& latest.shared == blank(size.0, size.1)
            &&& blank(size.0, size.1).len() == frame_bytes(size.0, size.1)
            &&& forall|i: int| 0 <= i < frame_bytes(size.0, size.1) ==> blank(size.0, size.1)[i] == 0
            &&& forall|drawn: Seq<u8>|
                drawn.len() == latest.surface.pixels.len() ==> #[trigger] overlaid(
                    latest.shared,
                    drawn,
                ) == drawn
            &&& forall|i: int|
                0 <= i < once.surfaces.len() ==> #[trigger] twice.surfaces[i] == once.surfaces[i]
        }),
{
    let size = screen.display.size_for(width, height);
    assert(size.0 * size.1 * 4 >= 0) by (nonlinear_arith);
    assert forall|drawn: Seq<u8>| drawn.len() == blank(size.0, size.1).len() implies #[trigger] overlaid(
        blank(size.0, size.1),
        drawn,
    ) == drawn by {
        law_frame_replaces(blank(size.0, size.1), drawn);
    }
}

} // verus!
