//! The decisions of a Wayland compositor's KMS backend.
pub mod clip;
pub mod color;
pub mod connector;
pub mod device;
pub mod dmabuf;
pub mod drm_helpers;
pub mod elements;
pub mod frame;
pub mod frame_flags;
pub mod fullscreen;
pub mod geometry;
pub mod hdr_output;
pub mod kms_thread;
pub mod output;
pub mod overrides;
pub mod pointer;
pub mod policy;
pub mod queue;
pub mod redraw;
pub mod screencopy;
pub mod session;
pub mod shadow;
pub mod shadow_cache;
pub mod surface;
pub mod surface_thread;
pub mod text;
pub mod vblank_manager;
pub mod vulkan_backend;
