# cosmic-comp

The decisions of a Wayland compositor's KMS backend, as a verified library: which
CRTC drives which connector, when an output is redrawn and on which planes, when
HDR becomes visible to clients, which buffers clients are asked to use, how
shadows and clipped windows are laid out, and how a session starts and ends.

- `src/` is the library. Its functions take plain values and return what is to be
  done; their contracts are proved with Verus.
- `app/` is ordinary Rust around it: it reads the environment, talks to the kernel
  and to other threads, and does what floating point needs.
- `tests/` runs the library on concrete values.

| Modules | What they decide |
| --- | --- |
| `policy`, `overrides`, `device`, `text` | configuration values and device names |
| `hdr_output`, `color`, `fullscreen`, `output` | HDR state, color descriptions, scanout plans |
| `drm_helpers`, `connector`, `kms_thread`, `vulkan_backend`, `dmabuf` | devices, connectors, events and formats |
| `queue`, `surface_thread`, `frame`, `frame_flags`, `redraw`, `surface` | the render thread of an output |
| `vblank_manager` | wakeups ahead of vertical blanks |
| `screencopy` | captures of outputs and windows |
| `geometry`, `shadow`, `shadow_cache`, `clip`, `elements` | what is drawn where |
| `pointer`, `session` | pointer constraints; command line, start and end |
