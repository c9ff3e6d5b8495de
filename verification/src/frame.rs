use crate::error::GraphicsError;
use crate::pipeline::{PipelineDesc, PushConstants};
use crate::surface::{AcquireOutcome, FrameTicket, PresentationSurface};
use vstd::prelude::*;

verus! {

/// One indexed draw, recorded in submission order.
#[derive(Clone, Copy, Debug)]
pub struct DrawCall {
    pub push_constants: PushConstants,
    pub first_index: u32,
    pub index_count: u32,
}

/// The recorded command plan for one frame: clear the acquired image to
/// black and the depth attachment to the reversed-Z far value, then draw,
/// then present. Draws execute in plan order; there is no reordering within
/// a frame.
#[derive(Debug)]
pub struct FramePlan {
    pub ticket: FrameTicket,
    /// Bit pattern of the depth clear value. Under the reversed-Z infinite
    /// projection the far plane maps to 0.0, whose bits are all zero.
    pub depth_clear_bits: u32,
    pub draws: Vec<DrawCall>,
}

impl FramePlan {
    /// The plan a frame over `instance_mvps` must record: one indexed draw
    /// per instance, in instance order, each covering the whole index range
    /// and pushing that instance's matrix.
    pub open spec fn matches_draw_list(self, index_count: u32, instance_mvps: Seq<[u32; 16]>) -> bool {
        &&& self.depth_clear_bits == 0
        &&& self.draws@.len() == instance_mvps.len()
        &&& forall|i: int|
            0 <= i < instance_mvps.len() ==> #[trigger] self.draws@[i] == (DrawCall {
                push_constants: PushConstants { mvp: instance_mvps[i] },
                first_index: 0,
                index_count: index_count,
            })
    }
}

/// Plans one frame.
///
/// Acquires a ticket under the bounded-retry policy, then records the draw
/// list: clear to black, one indexed draw per instance in instance order
/// with that instance's model-view-projection matrix as the push-constant
/// payload, then present. A zero-area surface skips the frame: no ticket is
/// taken and no GPU work of any kind is planned. A surface loss that
/// survives the one permitted retry is fatal.
pub fn plan_frame(
    surface: &PresentationSurface,
    pipeline: &PipelineDesc,
    index_count: u32,
    instance_mvps: &Vec<[u32; 16]>,
    first: AcquireOutcome,
    retry: AcquireOutcome,
) -> (r: Result<Option<FramePlan>, GraphicsError>)
    requires
        pipeline.surface_format == surface.format,
    ensures
        surface.zero_area() ==> (r matches Ok(p) && p is None),
        !surface.zero_area() && r is Ok ==> (r matches Ok(p) && p is Some),
        !surface.zero_area() && (first is Ready || retry is Ready) ==> (r matches Ok(p)
            && p matches Some(plan) && plan.ticket == surface.spec_ticket()
            && plan.matches_draw_list(index_count, instance_mvps@)),
        r is Err <==> !surface.zero_area() && first is Lost && retry is Lost,
        r matches Err(e) ==> e == GraphicsError::SurfaceUnrecoverable,
{
    let ticket = match surface.acquire(first, retry)? {
        Some(ticket) => ticket,
        None => {
            return Ok(None);
        },
    };
    let mut draws: Vec<DrawCall> = Vec::new();
    for i in 0..instance_mvps.len()
        invariant
            draws@.len() == i,
            forall|j: int|
                0 <= j < i ==> #[trigger] draws@[j] == (DrawCall {
                    push_constants: PushConstants { mvp: instance_mvps@[j] },
                    first_index: 0,
                    index_count: index_count,
                }),
    {
        draws.push(
            DrawCall {
                push_constants: PushConstants { mvp: instance_mvps[i] },
                first_index: 0,
                index_count,
            },
        );
    }
    Ok(Some(FramePlan { ticket, depth_clear_bits: 0, draws }))
}

} // verus!
