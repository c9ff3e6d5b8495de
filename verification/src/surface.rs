use crate::error::GraphicsError;
use vstd::prelude::*;

verus! {

/// Pixel layouts a presentable surface can negotiate.
#[derive(Clone, Copy, Debug, PartialEq, Eq, Structural)]
pub enum SurfaceFormat {
    Bgra8UnormSrgb,
    Rgba8UnormSrgb,
    Bgra8Unorm,
    Rgba8Unorm,
}

/// Pixel layouts of a depth attachment.
#[derive(Clone, Copy, Debug, PartialEq, Eq, Structural)]
pub enum DepthFormat {
    Depth32Float,
}

/// The depth attachment backing a surface. It is rebuilt in lockstep with
/// the swapchain, so its dimensions always equal the surface dimensions.
#[derive(Clone, Copy, Debug, PartialEq, Eq, Structural)]
pub struct DepthAttachment {
    pub width: u32,
    pub height: u32,
    pub format: DepthFormat,
}

/// One acquired-but-not-yet-presented swapchain image together with the
/// properties its view was created with. Valid only for the current frame.
#[derive(Clone, Copy, Debug, PartialEq, Eq, Structural)]
pub struct FrameTicket {
    pub width: u32,
    pub height: u32,
    pub format: SurfaceFormat,
}

/// What the platform reports for one acquisition attempt: either a
/// presentable image is ready, or the surface is lost/outdated.
#[derive(Clone, Copy, Debug, PartialEq, Eq, Structural)]
pub enum AcquireOutcome {
    Ready,
    Lost,
}

/// The decision taken after one acquisition attempt.
#[derive(Clone, Copy, Debug, PartialEq, Eq, Structural)]
pub enum AcquireDecision {
    /// Use the acquired image for this frame.
    Frame(FrameTicket),
    /// Reconfigure the swapchain once at the current dimensions, then retry.
    Reconfigure,
    /// A second consecutive loss: escalate, do not spin.
    Fail(GraphicsError),
}

/// A presentable surface bound to one window: negotiated format, current
/// dimensions, and the depth attachment kept dimensionally in lockstep.
#[derive(Clone, Copy, Debug, PartialEq, Eq, Structural)]
pub struct PresentationSurface {
    pub width: u32,
    pub height: u32,
    pub format: SurfaceFormat,
    /// Swapchain image count, clamped to at least 2 for fullscreen headroom.
    pub min_image_count: u32,
    /// Upper bound on frames in flight.
    pub frame_latency: u32,
    pub depth: DepthAttachment,
}

impl PresentationSurface {
    /// The surface invariant: the depth attachment matches the surface
    /// dimensions and the image count keeps fullscreen headroom.
    pub open spec fn wf(self) -> bool {
        &&& self.depth.width == self.width
        &&& self.depth.height == self.height
        &&& self.min_image_count >= 2
    }

    /// A minimized window: no frame may be acquired in this state.
    pub open spec fn zero_area(self) -> bool {
        self.width as int * self.height as int == 0
    }

    /// The surface after `recreate(width, height)`: swapchain and depth
    /// attachment take the new dimensions together; everything else is kept.
    pub open spec fn spec_recreate(self, width: u32, height: u32) -> PresentationSurface {
        PresentationSurface {
            width,
            height,
            depth: DepthAttachment { width, height, format: self.depth.format },
            ..self
        }
    }

    /// The ticket an acquisition on this surface yields.
    pub open spec fn spec_ticket(self) -> FrameTicket {
        FrameTicket { width: self.width, height: self.height, format: self.format }
    }

    /// Binds a surface: negotiates the format from the adapter-reported list,
    /// clamps the image count, and builds the depth attachment at the same
    /// dimensions. Fails exactly when the required format is absent.
    pub fn bind(
        width: u32,
        height: u32,
        available_formats: &Vec<SurfaceFormat>,
        reported_min_image_count: u32,
        frame_latency: u32,
    ) -> (r: Result<PresentationSurface, GraphicsError>)
        ensures
            r is Ok <==> available_formats@.contains(SurfaceFormat::Bgra8UnormSrgb),
            match r {
                Ok(s) => {
                    &&& s.wf()
                    &&& s.width == width
                    &&& s.height == height
                    &&& s.format == SurfaceFormat::Bgra8UnormSrgb
                    &&& s.min_image_count == clamp_min_image_count_spec(reported_min_image_count)
                    &&& s.frame_latency == frame_latency
                    &&& s.depth.format == DepthFormat::Depth32Float
                },
                Err(e) => e == GraphicsError::UnsupportedSurfaceFormat,
            },
    {
        let format = negotiate_format(available_formats)?;
        let min_image_count = clamp_min_image_count(reported_min_image_count);
        Ok(
            PresentationSurface {
                width,
                height,
                format,
                min_image_count,
                frame_latency,
                depth: DepthAttachment { width, height, format: DepthFormat::Depth32Float },
            },
        )
    }

    /// Rebuilds the swapchain and the depth attachment at the new dimensions,
    /// atomically in the model: the two are never dimensionally mismatched.
    pub fn recreate(&mut self, width: u32, height: u32)
        ensures
            *final(self) == old(self).spec_recreate(width, height),
            final(self).depth.width == width,
            final(self).depth.height == height,
            old(self).wf() ==> final(self).wf(),
    {
        self.width = width;
        self.height = height;
        self.depth = DepthAttachment { width, height, format: self.depth.format };
    }

    /// Decides what to do with the platform's report for one acquisition
    /// attempt: use the frame, reconfigure once, or give up after the retry.
    pub fn acquire_step(&self, already_retried: bool, outcome: AcquireOutcome) -> (d:
        AcquireDecision)
        ensures
            outcome is Ready ==> d == AcquireDecision::Frame(self.spec_ticket()),
            outcome is Lost && !already_retried ==> d == AcquireDecision::Reconfigure,
            outcome is Lost && already_retried ==> d == AcquireDecision::Fail(
                GraphicsError::SurfaceUnrecoverable,
            ),
    {
        match outcome {
            AcquireOutcome::Ready => AcquireDecision::Frame(
                FrameTicket { width: self.width, height: self.height, format: self.format },
            ),
            AcquireOutcome::Lost => {
                if already_retried {
                    AcquireDecision::Fail(GraphicsError::SurfaceUnrecoverable)
                } else {
                    AcquireDecision::Reconfigure
                }
            },
        }
    }

    /// The full acquisition policy for one frame, with the platform's report
    /// for the first attempt and for the (at most one) retry handed in.
    ///
    /// A zero-area surface yields no ticket and consults the platform not at
    /// all; a loss is recovered by exactly one reconfigure-and-retry; a second
    /// consecutive loss is fatal.
    pub fn acquire(&self, first: AcquireOutcome, retry: AcquireOutcome) -> (r: Result<
        Option<FrameTicket>,
        GraphicsError,
    >)
        ensures
            self.zero_area() ==> r == Ok::<Option<FrameTicket>, GraphicsError>(None),
            !self.zero_area() && first is Ready ==> r == Ok::<Option<FrameTicket>, GraphicsError>(Some(self.spec_ticket())),
            !self.zero_area() && first is Lost && retry is Ready ==> r == Ok::<
                Option<FrameTicket>,
                GraphicsError,
            >(Some(self.spec_ticket())),
            !self.zero_area() && first is Lost && retry is Lost ==> r == Err::<Option<FrameTicket>, GraphicsError>(GraphicsError::SurfaceUnrecoverable),
            r is Err <==> !self.zero_area() && first is Lost && retry is Lost,
    {
        if self.width == 0 || self.height == 0 {
            return Ok(None);
        }
        proof {
            assert(self.width as int * self.height as int != 0) by (nonlinear_arith)
                requires
                    self.width != 0,
                    self.height != 0,
            ;
        }
        match self.acquire_step(false, first) {
            AcquireDecision::Frame(ticket) => Ok(Some(ticket)),
            AcquireDecision::Fail(e) => Err(e),
            AcquireDecision::Reconfigure => {
                match self.acquire_step(true, retry) {
                    AcquireDecision::Frame(ticket) => Ok(Some(ticket)),
                    AcquireDecision::Fail(e) => Err(e),
                    AcquireDecision::Reconfigure => {
                        proof {
                            assert(false);
                        }
                        Err(GraphicsError::SurfaceUnrecoverable)
                    },
                }
            },
        }
    }
}

/// Spec-level clamp of the platform-reported minimum image count.
pub open spec fn clamp_min_image_count_spec(reported: u32) -> u32 {
    if reported < 2 {
        2u32
    } else {
        reported
    }
}

/// Some drivers report a minimum image count of 1, but fullscreen transitions
/// need at least 2 images: clamp regardless of what the platform reports.
pub fn clamp_min_image_count(reported: u32) -> (c: u32)
    ensures
        c == clamp_min_image_count_spec(reported),
        c >= 2,
{
    if reported < 2 {
        2
    } else {
        reported
    }
}

/// Picks the required 8-bit-per-channel sRGB format from the adapter-reported
/// capability list; fails exactly when it is absent.
pub fn negotiate_format(available: &Vec<SurfaceFormat>) -> (r: Result<
    SurfaceFormat,
    GraphicsError,
>)
    ensures
        match r {
            Ok(f) => f == SurfaceFormat::Bgra8UnormSrgb && available@.contains(f),
            Err(e) => {
                &&& e == GraphicsError::UnsupportedSurfaceFormat
                &&& !available@.contains(SurfaceFormat::Bgra8UnormSrgb)
            },
        },
{
    for i in 0..available.len()
        invariant
            forall|j: int| 0 <= j < i ==> available@[j] != SurfaceFormat::Bgra8UnormSrgb,
    {
        if available[i] == SurfaceFormat::Bgra8UnormSrgb {
            return Ok(SurfaceFormat::Bgra8UnormSrgb);
        }
    }
    Err(GraphicsError::UnsupportedSurfaceFormat)
}

/// The surface after a whole sequence of resize notifications, applied in
/// order of arrival.
pub open spec fn spec_apply_resizes(s: PresentationSurface, dims: Seq<(u32, u32)>) -> PresentationSurface
    decreases dims.len(),
{
    if dims.len() == 0 {
        s
    } else {
        spec_apply_resizes(s.spec_recreate(dims[0].0, dims[0].1), dims.drop_first())
    }
}

/// After the final `recreate` of any resize sequence, the surface and its
/// depth attachment both report exactly the last dimensions.
pub proof fn lemma_resize_sequence_depth_matches(s: PresentationSurface, dims: Seq<(u32, u32)>)
    requires
        dims.len() > 0,
    ensures
        spec_apply_resizes(s, dims).width == dims.last().0,
        spec_apply_resizes(s, dims).height == dims.last().1,
        spec_apply_resizes(s, dims).depth.width == dims.last().0,
        spec_apply_resizes(s, dims).depth.height == dims.last().1,
    decreases dims.len(),
{
    let stepped = s.spec_recreate(dims[0].0, dims[0].1);
    assert(spec_apply_resizes(s, dims) == spec_apply_resizes(stepped, dims.drop_first()));
    if dims.len() == 1 {
        assert(dims.drop_first().len() == 0);
        assert(spec_apply_resizes(stepped, dims.drop_first()) == stepped);
        assert(dims.last() == dims[0]);
    } else {
        lemma_resize_sequence_depth_matches(stepped, dims.drop_first());
        assert(dims.drop_first().last() == dims.last());
    }
}

/// Recreating twice with the same dimensions produces a surface/depth pair
/// equal to the pair one call produces.
pub proof fn lemma_recreate_idempotent(s: PresentationSurface, width: u32, height: u32)
    ensures
        s.spec_recreate(width, height).spec_recreate(width, height) == s.spec_recreate(
            width,
            height,
        ),
{
}

/// Recreating at the surface's current dimensions is a no-op aside from
/// resource churn: the model state is unchanged.
pub proof fn lemma_recreate_current_size_noop(s: PresentationSurface)
    requires
        s.wf(),
    ensures
        s.spec_recreate(s.width, s.height) == s,
{
}

} // verus!
