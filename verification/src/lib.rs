//! Core of a real-time rendering subsystem.
//!
//! The library owns every decision the renderer makes: adapter selection,
//! surface format negotiation, swapchain/depth-attachment sizing, the
//! acquire-and-retry policy on surface loss, per-frame draw planning, the
//! bounded render command queue with resize coalescing, resource id
//! allocation, geometry import, network snapshot validation, and the
//! persisted key-value state with its two serialization backends.
//!
//! Everything that talks to the platform (window system, GPU driver, disk,
//! network) lives outside the library and hands plain values in and out.

pub mod asset;
pub mod device;
pub mod engine;
pub mod error;
pub mod frame;
pub mod graphics;
pub mod mesh;
pub mod pipeline;
pub mod state;
pub mod surface;
