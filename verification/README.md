# redfog

Streams desktop sessions of a headless machine: a broker signs users in and
starts a compositor for each of them, and a server captures, encodes and
forwards what the compositor shows.

`src/` is the library, verified with Verus. It holds what the programs decide
and compute: the messages on the wire and how they are framed, the login screen,
the order of the steps that start and end a session, the systemd units and
scripts, the choice of a GPU and of buffer layouts, the GStreamer pipelines, and
the state machines that capture, encode and show frames. Every function has a
contract, and the `law_` functions state what holds across several of them.

`app/` is the programs around it: sockets, processes, D-Bus, PAM, Wayland,
PipeWire, GStreamer, EGL, Vulkan, CUDA and NVENC, and what is drawn in floating
point. It performs what the library decides and hands back what came of it.

`tests/` runs the library.
