use crate::error::GraphicsError;
use vstd::prelude::*;

verus! {

/// Handle to a model whose geometry the render thread was asked to load.
/// Id zero is reserved as the "no resource" sentinel and never issued.
#[derive(Clone, Copy, Debug, PartialEq, Eq, Structural)]
pub struct Model(pub usize);

/// Handle to a texture whose pixels the render thread was asked to load.
/// Id zero is reserved as the "no resource" sentinel and never issued.
#[derive(Clone, Copy, Debug, PartialEq, Eq, Structural)]
pub struct Texture(pub usize);

/// An out-of-band command carried from the event thread into the render
/// thread.
#[derive(Debug)]
pub enum RenderCommand {
    ResizeSwapchain(u32, u32),
    LoadModel(usize, Vec<u8>),
    LoadTexture(usize, Vec<u8>),
}

/// What one poll of the command queue yields.
#[derive(Debug)]
pub enum Polled {
    Command(RenderCommand),
    Empty,
    Disconnected,
}

/// The bounded, non-blocking command queue between the event thread and the
/// render thread.
///
/// Load commands queue in arrival order up to `capacity`; a full queue
/// surfaces as the non-fatal `Busy` condition. Resize requests never queue:
/// the latest supersedes any pending one, so the swapchain is rebuilt at most
/// once per redraw and always at the freshest dimensions.
pub struct CommandQueue {
    pub capacity: usize,
    pub loads: Vec<RenderCommand>,
    pub pending_resize: Option<(u32, u32)>,
    /// The sender side has been dropped; polling reports disconnection once
    /// everything pending is drained.
    pub closed: bool,
}

impl CommandQueue {
    /// Queue invariant: only load commands wait in the FIFO, and the bound
    /// holds.
    pub open spec fn wf(self) -> bool {
        &&& self.loads@.len() <= self.capacity
        &&& forall|i: int|
            0 <= i < self.loads@.len() ==> !(#[trigger] self.loads@[i] is ResizeSwapchain)
    }

    /// The queue after a resize request: latest dimensions win.
    pub open spec fn spec_send_resize(self, width: u32, height: u32) -> CommandQueue {
        CommandQueue { pending_resize: Some((width, height)), ..self }
    }

    pub fn new(capacity: usize) -> (q: CommandQueue)
        ensures
            q.wf(),
            q.capacity == capacity,
            q.loads@.len() == 0,
            q.pending_resize is None,
            !q.closed,
    {
        CommandQueue { capacity, loads: Vec::new(), pending_resize: None, closed: false }
    }

    /// Non-blocking send. A resize coalesces into the single pending slot and
    /// always succeeds; a load enters the FIFO or reports `Busy` when the
    /// queue is full. Nothing else changes either way.
    pub fn try_send(&mut self, command: RenderCommand) -> (r: Result<(), GraphicsError>)
        requires
            old(self).wf(),
        ensures
            final(self).wf(),
            final(self).capacity == old(self).capacity,
            final(self).closed == old(self).closed,
            command matches RenderCommand::ResizeSwapchain(w, h) ==> {
                &&& r is Ok
                &&& *final(self) == old(self).spec_send_resize(w, h)
            },
            !(command is ResizeSwapchain) && old(self).loads@.len() < old(self).capacity ==> {
                &&& r is Ok
                &&& final(self).loads@ == old(self).loads@.push(command)
                &&& final(self).pending_resize == old(self).pending_resize
            },
            !(command is ResizeSwapchain) && old(self).loads@.len() >= old(self).capacity ==> {
                &&& r == Err::<(), GraphicsError>(GraphicsError::Busy)
                &&& *final(self) == *old(self)
            },
    {
        match command {
            RenderCommand::ResizeSwapchain(w, h) => {
                self.pending_resize = Some((w, h));
                Ok(())
            },
            _ => {
                if self.loads.len() < self.capacity {
                    self.loads.push(command);
                    Ok(())
                } else {
                    Err(GraphicsError::Busy)
                }
            },
        }
    }

    /// Non-blocking poll, called once per render-loop iteration. A pending
    /// resize is handed out first (the freshest dimensions should apply
    /// before the next redraw), then loads in arrival order; an empty queue
    /// reports `Empty`, or `Disconnected` once the sender side is gone.
    pub fn poll(&mut self) -> (r: Polled)
        requires
            old(self).wf(),
        ensures
            final(self).wf(),
            final(self).capacity == old(self).capacity,
            final(self).closed == old(self).closed,
            old(self).pending_resize matches Some(d) ==> {
                &&& r matches Polled::Command(c) && c == RenderCommand::ResizeSwapchain(d.0, d.1)
                &&& final(self).pending_resize is None
                &&& final(self).loads@ == old(self).loads@
            },
            old(self).pending_resize is None && old(self).loads@.len() > 0 ==> {
                &&& r matches Polled::Command(c) && c == old(self).loads@[0]
                &&& final(self).loads@ == old(self).loads@.drop_first()
                &&& final(self).pending_resize is None
            },
            old(self).pending_resize is None && old(self).loads@.len() == 0 ==> {
                &&& *final(self) == *old(self)
                &&& if old(self).closed {
                    r is Disconnected
                } else {
                    r is Empty
                }
            },
    {
        match self.pending_resize {
            Some((w, h)) => {
                self.pending_resize = None;
                Polled::Command(RenderCommand::ResizeSwapchain(w, h))
            },
            None => {
                if self.loads.len() > 0 {
                    let command = self.loads.remove(0);
                    Polled::Command(command)
                } else if self.closed {
                    Polled::Disconnected
                } else {
                    Polled::Empty
                }
            },
        }
    }

    /// Records that the sender side was dropped: the render loop exits
    /// cleanly after draining what is pending.
    pub fn close(&mut self)
        ensures
            *final(self) == (CommandQueue { closed: true, ..*old(self) }),
    {
        self.closed = true;
    }
}

/// Sending any sequence of resize requests leaves exactly the last one
/// pending: stale resizes are superseded, never queued.
pub proof fn lemma_resize_requests_coalesce(q: CommandQueue, dims: Seq<(u32, u32)>)
    requires
        dims.len() > 0,
    ensures
        spec_send_resizes(q, dims).pending_resize == Some(dims.last()),
        spec_send_resizes(q, dims).loads == q.loads,
    decreases dims.len(),
{
    let stepped = q.spec_send_resize(dims[0].0, dims[0].1);
    if dims.len() == 1 {
        assert(dims.last() == dims[0]);
    } else {
        lemma_resize_requests_coalesce(stepped, dims.drop_first());
        assert(dims.drop_first().last() == dims.last());
    }
}

/// The queue after a whole sequence of resize requests, sent in order.
pub open spec fn spec_send_resizes(q: CommandQueue, dims: Seq<(u32, u32)>) -> CommandQueue
    decreases dims.len(),
{
    if dims.len() == 0 {
        q
    } else {
        spec_send_resizes(q.spec_send_resize(dims[0].0, dims[0].1), dims.drop_first())
    }
}

/// Well-formedness of an id history: ids are nonzero, bounded by the counter
/// that issued them, and strictly increasing in issue order.
pub open spec fn ids_wf(ids: Seq<usize>, counter: usize) -> bool {
    &&& forall|i: int| 0 <= i < ids.len() ==> 0 < #[trigger] ids[i] <= counter
    &&& forall|i: int, j: int| 0 <= i < j < ids.len() ==> ids[i] < ids[j]
}

/// The front half of the graphics subsystem, owned by the event thread: it
/// allocates resource ids and feeds the render thread through the bounded
/// command queue.
pub struct GraphicsSubsystem {
    pub model_index: usize,
    pub texture_index: usize,
    pub queue: CommandQueue,
    /// Every model id handed out so far, in issue order.
    pub issued_model_ids: Ghost<Seq<usize>>,
    /// Every texture id handed out so far, in issue order.
    pub issued_texture_ids: Ghost<Seq<usize>>,
}

impl GraphicsSubsystem {
    pub open spec fn wf(self) -> bool {
        &&& self.queue.wf()
        &&& ids_wf(self.issued_model_ids@, self.model_index)
        &&& ids_wf(self.issued_texture_ids@, self.texture_index)
    }

    pub fn new(queue_capacity: usize) -> (s: GraphicsSubsystem)
        ensures
            s.wf(),
            s.model_index == 0,
            s.texture_index == 0,
            s.queue.capacity == queue_capacity,
            s.queue.loads@.len() == 0,
            s.queue.pending_resize is None,
            s.issued_model_ids@ == Seq::<usize>::empty(),
            s.issued_texture_ids@ == Seq::<usize>::empty(),
    {
        GraphicsSubsystem {
            model_index: 0,
            texture_index: 0,
            queue: CommandQueue::new(queue_capacity),
            issued_model_ids: Ghost(Seq::empty()),
            issued_texture_ids: Ghost(Seq::empty()),
        }
    }

    /// Allocates the next model id — monotonically increasing, skipping the
    /// zero sentinel — and asks the render thread to load the geometry. A
    /// full queue burns the id and reports `Busy`; the caller decides whether
    /// to retry with the bytes it still owns.
    pub fn load_model(&mut self, model: Vec<u8>) -> (r: Result<Model, GraphicsError>)
        requires
            old(self).wf(),
            old(self).model_index < usize::MAX,
        ensures
            final(self).wf(),
            final(self).model_index == old(self).model_index + 1,
            final(self).texture_index == old(self).texture_index,
            final(self).issued_texture_ids == old(self).issued_texture_ids,
            old(self).queue.loads@.len() < old(self).queue.capacity ==> {
                &&& r == Ok::<Model, GraphicsError>(Model((old(self).model_index + 1) as usize))
                &&& final(self).issued_model_ids@ == old(self).issued_model_ids@.push(
                    (old(self).model_index + 1) as usize,
                )
                &&& final(self).queue.loads@ == old(self).queue.loads@.push(
                    RenderCommand::LoadModel((old(self).model_index + 1) as usize, model),
                )
                &&& final(self).queue.pending_resize == old(self).queue.pending_resize
            },
            old(self).queue.loads@.len() >= old(self).queue.capacity ==> {
                &&& r == Err::<Model, GraphicsError>(GraphicsError::Busy)
                &&& final(self).issued_model_ids == old(self).issued_model_ids
                &&& final(self).queue == old(self).queue
            },
            r matches Ok(m) ==> m.0 != 0,
    {
        // Incrementing before use skips zero, which is reserved.
        self.model_index = self.model_index + 1;
        let id = self.model_index;
        self.queue.try_send(RenderCommand::LoadModel(id, model))?;
        proof {
            self.issued_model_ids@ = self.issued_model_ids@.push(id);
        }
        Ok(Model(id))
    }

    /// Allocates the next texture id — monotonically increasing, skipping the
    /// zero sentinel — and asks the render thread to load the pixels.
    pub fn load_texture(&mut self, texture: Vec<u8>) -> (r: Result<Texture, GraphicsError>)
        requires
            old(self).wf(),
            old(self).texture_index < usize::MAX,
        ensures
            final(self).wf(),
            final(self).texture_index == old(self).texture_index + 1,
            final(self).model_index == old(self).model_index,
            final(self).issued_model_ids == old(self).issued_model_ids,
            old(self).queue.loads@.len() < old(self).queue.capacity ==> {
                &&& r == Ok::<Texture, GraphicsError>(
                    Texture((old(self).texture_index + 1) as usize),
                )
                &&& final(self).issued_texture_ids@ == old(self).issued_texture_ids@.push(
                    (old(self).texture_index + 1) as usize,
                )
                &&& final(self).queue.loads@ == old(self).queue.loads@.push(
                    RenderCommand::LoadTexture((old(self).texture_index + 1) as usize, texture),
                )
                &&& final(self).queue.pending_resize == old(self).queue.pending_resize
            },
            old(self).queue.loads@.len() >= old(self).queue.capacity ==> {
                &&& r == Err::<Texture, GraphicsError>(GraphicsError::Busy)
                &&& final(self).issued_texture_ids == old(self).issued_texture_ids
                &&& final(self).queue == old(self).queue
            },
            r matches Ok(t) ==> t.0 != 0,
    {
        // Incrementing before use skips zero, which is reserved.
        self.texture_index = self.texture_index + 1;
        let id = self.texture_index;
        self.queue.try_send(RenderCommand::LoadTexture(id, texture))?;
        proof {
            self.issued_texture_ids@ = self.issued_texture_ids@.push(id);
        }
        Ok(Texture(id))
    }

    /// Forwards a window size change to the render thread. Coalescing makes
    /// this infallible: the latest dimensions replace any pending request.
    pub fn resize_window(&mut self, width: u32, height: u32) -> (r: Result<(), GraphicsError>)
        requires
            old(self).wf(),
        ensures
            final(self).wf(),
            r is Ok,
            final(self).queue == old(self).queue.spec_send_resize(width, height),
            final(self).model_index == old(self).model_index,
            final(self).texture_index == old(self).texture_index,
            final(self).issued_model_ids == old(self).issued_model_ids,
            final(self).issued_texture_ids == old(self).issued_texture_ids,
    {
        self.queue.try_send(RenderCommand::ResizeSwapchain(width, height))
    }
}

/// Within one session no issued model or texture id is the zero sentinel and
/// none repeats: the histories are strictly increasing.
pub proof fn lemma_issued_ids_distinct_and_nonzero(s: GraphicsSubsystem)
    requires
        s.wf(),
    ensures
        forall|i: int| 0 <= i < s.issued_model_ids@.len() ==> #[trigger] s.issued_model_ids@[i] != 0,
        forall|i: int, j: int|
            0 <= i < j < s.issued_model_ids@.len() ==> s.issued_model_ids@[i]
                != s.issued_model_ids@[j],
        forall|i: int|
            0 <= i < s.issued_texture_ids@.len() ==> #[trigger] s.issued_texture_ids@[i] != 0,
        forall|i: int, j: int|
            0 <= i < j < s.issued_texture_ids@.len() ==> s.issued_texture_ids@[i]
                != s.issued_texture_ids@[j],
{
}

} // verus!
