# graphics

The core of a canvas rendering engine: which EGL contexts and surfaces exist and which is
current, where the onscreen canvas draws and how a frame reaches the window, what is uploaded
when, and how a session comes back when the driver loses it.

Everything under `src/` is verified with Verus. The drivers are not part of it: a session is
given three functions that make its calls, on GL, on EGL and on 2D contexts, and keeps a ghost
account of them (`gl_device`, `egl_device`, `painters`). Contracts speak of that account, and
nothing is assumed of the answers; where a statement needs a driver that answers its queries
by what the calls have made of its state, it says so (`truthful`). Where the order of calls on
two devices matters, the account of one notes how far the calls on the other had come
(`Moment`, `Inventory`).

- `manager`, `binding`: the session, and what is current
- `canvases`, `install`, `onscreen`, `recovery`, `shutdown`, `startup`: the life of canvases,
  of the window and of the session
- `drawing_buffer`, `default_framebuffer`, `damage`, `present`, `presenting`, `draw_damage`:
  how a frame is drawn and shown
- `snapshots`, `captures`, `images`, `uploads`, `pbo_upload`, `fences`: pixels that move
- `shadows`, `dedup`, `gl_state`, `vertex_arrays`, `objects`: what content has made of GL
- `device_caps`, `device_profile`, `pixel_ratio`, `text`: what a device can do
- `handler`, `canvas2d`: commands

`app/` holds the drivers on glow and khronos-egl, and the arithmetic on floating-point
transforms. `tests/` runs the library on drivers that keep a log.
