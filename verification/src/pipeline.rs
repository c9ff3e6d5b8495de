use crate::surface::{DepthFormat, SurfaceFormat};
use vstd::prelude::*;

verus! {

/// Primitive assembly topologies.
#[derive(Clone, Copy, Debug, PartialEq, Eq, Structural)]
pub enum Topology {
    PointList,
    LineList,
    TriangleList,
}

/// Winding order that counts as front-facing.
#[derive(Clone, Copy, Debug, PartialEq, Eq, Structural)]
pub enum FrontFace {
    Ccw,
    Cw,
}

/// Depth test comparison functions.
#[derive(Clone, Copy, Debug, PartialEq, Eq, Structural)]
pub enum DepthCompare {
    Never,
    Less,
    LessEqual,
    Greater,
    GreaterEqual,
    Always,
}

/// Per-draw data pushed directly to the vertex stage without a bound buffer:
/// one 4x4 model-view-projection matrix, held as the bit patterns of its 16
/// single-precision entries in column-major order.
#[derive(Clone, Copy, Debug)]
pub struct PushConstants {
    pub mvp: [u32; 16],
}

/// One vertex buffer slot: a single three-component single-precision float
/// attribute, so a 12-byte stride.
#[derive(Clone, Copy, Debug, PartialEq, Eq, Structural)]
pub struct VertexBufferDesc {
    pub shader_location: u32,
    pub components: u32,
    pub stride_bytes: u32,
}

/// A compiled render pipeline, reduced to the fixed-function state the draw
/// technique is contractually tied to. Immutable after creation; keyed by the
/// target surface format.
#[derive(Debug)]
pub struct PipelineDesc {
    pub surface_format: SurfaceFormat,
    pub depth_format: DepthFormat,
    pub depth_compare: DepthCompare,
    pub depth_write: bool,
    pub topology: Topology,
    pub front_face: FrontFace,
    pub cull_enabled: bool,
    pub vertex_buffers: Vec<VertexBufferDesc>,
    pub push_constant_bytes: u32,
    pub push_constant_vertex_only: bool,
}

impl PipelineDesc {
    /// The fixed-function state of the textured/colored mesh technique:
    /// separate position and color buffers (each one 3-float attribute),
    /// triangle-list topology, counter-clockwise front face, no culling, and
    /// a greater-or-equal depth test matching the camera's reversed-Z
    /// infinite projection. The push-constant block carries exactly one 4x4
    /// matrix (64 bytes), visible to the vertex stage only.
    pub open spec fn is_model_pipeline_for(self, surface_format: SurfaceFormat) -> bool {
        &&& self.surface_format == surface_format
        &&& self.depth_format == DepthFormat::Depth32Float
        &&& self.depth_compare == DepthCompare::GreaterEqual
        &&& self.depth_write
        &&& self.topology == Topology::TriangleList
        &&& self.front_face == FrontFace::Ccw
        &&& !self.cull_enabled
        &&& self.vertex_buffers@.len() == 2
        &&& self.vertex_buffers@[0] == (VertexBufferDesc {
            shader_location: 0,
            components: 3,
            stride_bytes: 12,
        })
        &&& self.vertex_buffers@[1] == (VertexBufferDesc {
            shader_location: 1,
            components: 3,
            stride_bytes: 12,
        })
        &&& self.push_constant_bytes == 64
        &&& self.push_constant_vertex_only
    }

    /// A pipeline is compiled against one surface format and must be rebuilt
    /// exactly when the negotiated format changes.
    pub fn needs_rebuild(&self, surface_format: SurfaceFormat) -> (b: bool)
        ensures
            b == (self.surface_format != surface_format),
    {
        self.surface_format != surface_format
    }
}

/// Builds the mesh render pipeline for the given surface format.
pub fn model_pipeline(surface_format: SurfaceFormat) -> (p: PipelineDesc)
    ensures
        p.is_model_pipeline_for(surface_format),
{
    let mut vertex_buffers: Vec<VertexBufferDesc> = Vec::new();
    vertex_buffers.push(VertexBufferDesc { shader_location: 0, components: 3, stride_bytes: 12 });
    vertex_buffers.push(VertexBufferDesc { shader_location: 1, components: 3, stride_bytes: 12 });
    PipelineDesc {
        surface_format,
        depth_format: DepthFormat::Depth32Float,
        depth_compare: DepthCompare::GreaterEqual,
        depth_write: true,
        topology: Topology::TriangleList,
        front_face: FrontFace::Ccw,
        cull_enabled: false,
        vertex_buffers,
        push_constant_bytes: 64,
        push_constant_vertex_only: true,
    }
}

} // verus!
