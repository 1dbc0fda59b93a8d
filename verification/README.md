# tauri_runtime_cef

Windowing logic of a CEF runtime on Linux, verified with Verus.

The library decides and computes on plain values; the program around it makes the
calls into X11, Wayland, GTK and CEF. Where such calls and decisions alternate, a
function of the library takes what has happened so far and answers what to do next.

| module         | what it holds                                                        |
|----------------|----------------------------------------------------------------------|
| `osr`          | the frame that a software-rendered browser paints into               |
| `blit`         | nearest-neighbour scaling of a frame onto a window buffer            |
| `argb_surface` | the buffers of an alpha-capable Wayland surface, and presenting      |
| `geometry`     | logical units to device pixels, and the geometry of the browser host |
| `single`       | single-precision numbers held as bit patterns                        |
| `style`        | the style sheet that carries a window's background color             |
| `x11_host`     | the X11 window that hosts browsers: creation, layout, disposal       |
| `window`       | requests to the window manager, background color, painting decisions |

`app/` is the program around it, as a library of its own. Laws that
relate several functions stand at the end of the module that they speak of, as public
proof functions.
