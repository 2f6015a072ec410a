# vmm_devices

Device models for a virtual machine monitor, verified with Verus.

- `devices::pl061_regs`: registers and interrupt logic of the PL061 GPIO controller.
- `devices::pl061`: the controller on the bus, as a power and a sleep button.
- `devices::pl061_laws`: what holds across register and button operations.
- `gpu_display::vnc`: a display served to a remote viewer, with touch and key input.
- `gpu_display::vnc_laws`: what holds across viewer events and frames.
- `gpu_display::anland`: a display on a native window, fed with dmabufs.
- `gpu_display::text`: server addresses and C strings.
- `simplefb_display`: the frame cycle of a guest's simple framebuffer.

The library performs no input or output. A step that does is a pair: the library says
what to do, and takes what came of it. `app/` holds the threads, the locks and the C
bindings that close this loop; the primitives of the hosting monitor enter it through
the traits in `app/host.rs`.
