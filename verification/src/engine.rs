use crate::graphics::GraphicsSubsystem;
use vstd::bytes::{spec_u32_from_le_bytes, u32_from_le_bytes};
use vstd::prelude::*;
use vstd::slice::slice_subrange;

verus! {

/// Entities a snapshot carries transforms for.
pub const PLAYER_COUNT: usize = 4;

/// Wire size of one snapshot: 4 transforms of 16 words of 4 bytes.
pub const SNAPSHOT_BYTES: usize = 256;

/// Remote simulation state delivered over a best-effort, unordered, lossy
/// transport: per-entity model transforms, each held as the bit patterns of
/// the 16 single-precision entries of a 4x4 matrix in column-major order.
#[derive(Clone, Copy, Debug)]
pub struct SynchronizedState {
    pub player_transforms: [[u32; 16]; 4],
}

/// The word at position `w` of transform `p` in a snapshot packet,
/// little-endian.
pub open spec fn spec_snapshot_word(bytes: Seq<u8>, p: int, w: int) -> u32 {
    spec_u32_from_le_bytes(bytes.subrange(64 * p + 4 * w, 64 * p + 4 * w + 4))
}

/// Reads one 16-word transform starting at `base`.
fn decode_transform(bytes: &[u8], base: usize) -> (m: [u32; 16])
    requires
        base + 64 <= bytes@.len(),
        bytes@.len() <= usize::MAX,
    ensures
        forall|w: int|
            0 <= w < 16 ==> m@[w] == spec_u32_from_le_bytes(
                #[trigger] bytes@.subrange(base + 4 * w, base + 4 * w + 4),
            ),
{
    let w0 = u32_from_le_bytes(slice_subrange(bytes, base, base + 4));
    let w1 = u32_from_le_bytes(slice_subrange(bytes, base + 4, base + 8));
    let w2 = u32_from_le_bytes(slice_subrange(bytes, base + 8, base + 12));
    let w3 = u32_from_le_bytes(slice_subrange(bytes, base + 12, base + 16));
    let w4 = u32_from_le_bytes(slice_subrange(bytes, base + 16, base + 20));
    let w5 = u32_from_le_bytes(slice_subrange(bytes, base + 20, base + 24));
    let w6 = u32_from_le_bytes(slice_subrange(bytes, base + 24, base + 28));
    let w7 = u32_from_le_bytes(slice_subrange(bytes, base + 28, base + 32));
    let w8 = u32_from_le_bytes(slice_subrange(bytes, base + 32, base + 36));
    let w9 = u32_from_le_bytes(slice_subrange(bytes, base + 36, base + 40));
    let w10 = u32_from_le_bytes(slice_subrange(bytes, base + 40, base + 44));
    let w11 = u32_from_le_bytes(slice_subrange(bytes, base + 44, base + 48));
    let w12 = u32_from_le_bytes(slice_subrange(bytes, base + 48, base + 52));
    let w13 = u32_from_le_bytes(slice_subrange(bytes, base + 52, base + 56));
    let w14 = u32_from_le_bytes(slice_subrange(bytes, base + 56, base + 60));
    let w15 = u32_from_le_bytes(slice_subrange(bytes, base + 60, base + 64));
    [w0, w1, w2, w3, w4, w5, w6, w7, w8, w9, w10, w11, w12, w13, w14, w15]
}

impl SynchronizedState {
    /// The initial snapshot: identity-free all-zero transforms, replaced by
    /// the first packet that validates.
    pub fn new() -> (s: SynchronizedState)
        ensures
            forall|p: int, w: int|
                0 <= p < 4 && 0 <= w < 16 ==> #[trigger] s.player_transforms@[p]@[w] == 0,
    {
        SynchronizedState { player_transforms: [[0u32; 16], [0u32; 16], [0u32; 16], [0u32; 16]] }
    }

    /// Length-checked decode-or-discard: a packet of exactly the wire size
    /// replaces the snapshot with its decoded transforms; a short, long, or
    /// otherwise malformed packet is discarded, never partially interpreted,
    /// and the last good snapshot stays.
    pub fn apply_packet(&mut self, packet: &Vec<u8>) -> (accepted: bool)
        ensures
            accepted <==> packet@.len() == SNAPSHOT_BYTES,
            accepted ==> forall|p: int, w: int|
                0 <= p < 4 && 0 <= w < 16 ==> #[trigger] final(self).player_transforms@[p]@[w]
                    == spec_snapshot_word(packet@, p, w),
            !accepted ==> *final(self) == *old(self),
    {
        if packet.len() != SNAPSHOT_BYTES {
            return false;
        }
        let bytes = packet.as_slice();
        let m0 = decode_transform(bytes, 0);
        let m1 = decode_transform(bytes, 64);
        let m2 = decode_transform(bytes, 128);
        let m3 = decode_transform(bytes, 192);
        self.player_transforms = [m0, m1, m2, m3];
        true
    }
}

/// A window or loop event, reduced to what the engine's policy reads. The
/// scale factor travels as the bit pattern of its double-precision value.
#[derive(Clone, Copy, Debug, PartialEq, Eq, Structural)]
pub enum EngineEvent {
    Resized(u32, u32),
    ScaleFactorChanged(u64),
    CloseRequested,
    Destroyed,
    RedrawRequested,
}

/// What the event loop should do next.
#[derive(Clone, Copy, Debug, PartialEq, Eq, Structural)]
pub enum EngineAction {
    Continue,
    Render,
    Exit,
}

/// The engine's event-thread state: the graphics front end, the window's
/// scale factor, and the last good remote snapshot.
pub struct EngineCore {
    pub graphics: GraphicsSubsystem,
    pub scale_factor_bits: u64,
    pub sync_state: SynchronizedState,
}

impl EngineCore {
    pub open spec fn wf(self) -> bool {
        self.graphics.wf()
    }

    pub fn new(queue_capacity: usize, scale_factor_bits: u64) -> (e: EngineCore)
        ensures
            e.wf(),
            e.graphics.model_index == 0,
            e.graphics.texture_index == 0,
            e.graphics.queue.capacity == queue_capacity,
            e.scale_factor_bits == scale_factor_bits,
            forall|p: int, w: int|
                0 <= p < 4 && 0 <= w < 16 ==> #[trigger] e.sync_state.player_transforms@[p]@[w]
                    == 0,
    {
        EngineCore {
            graphics: GraphicsSubsystem::new(queue_capacity),
            scale_factor_bits,
            sync_state: SynchronizedState::new(),
        }
    }

    /// The per-event policy of the run loop: a resize is forwarded to the
    /// render thread (latest wins), a scale-factor change is recorded, a
    /// close request exits, a redraw request renders, and everything else
    /// continues unchanged.
    pub fn handle_window_event(&mut self, event: EngineEvent) -> (a: EngineAction)
        requires
            old(self).wf(),
        ensures
            final(self).wf(),
            event matches EngineEvent::Resized(w, h) ==> {
                &&& a is Continue
                &&& final(self).graphics.queue == old(self).graphics.queue.spec_send_resize(w, h)
                &&& final(self).graphics.model_index == old(self).graphics.model_index
                &&& final(self).graphics.texture_index == old(self).graphics.texture_index
                &&& final(self).scale_factor_bits == old(self).scale_factor_bits
                &&& final(self).sync_state == old(self).sync_state
            },
            event matches EngineEvent::ScaleFactorChanged(bits) ==> {
                &&& a is Continue
                &&& *final(self) == (EngineCore { scale_factor_bits: bits, ..*old(self) })
            },
            event is CloseRequested ==> a is Exit && *final(self) == *old(self),
            event is Destroyed ==> a is Continue && *final(self) == *old(self),
            event is RedrawRequested ==> a is Render && *final(self) == *old(self),
    {
        match event {
            EngineEvent::Resized(width, height) => {
                match self.graphics.resize_window(width, height) {
                    Ok(()) => EngineAction::Continue,
                    Err(_) => EngineAction::Exit,
                }
            },
            EngineEvent::ScaleFactorChanged(bits) => {
                self.scale_factor_bits = bits;
                EngineAction::Continue
            },
            EngineEvent::CloseRequested => EngineAction::Exit,
            EngineEvent::Destroyed => EngineAction::Continue,
            EngineEvent::RedrawRequested => EngineAction::Render,
        }
    }

    /// Hands a received network payload to the snapshot, under the
    /// decode-or-discard policy; the rest of the engine state is untouched.
    pub fn receive_packet(&mut self, packet: &Vec<u8>) -> (accepted: bool)
        requires
            old(self).wf(),
        ensures
            final(self).wf(),
            accepted <==> packet@.len() == SNAPSHOT_BYTES,
            final(self).graphics == old(self).graphics,
            final(self).scale_factor_bits == old(self).scale_factor_bits,
            accepted ==> forall|p: int, w: int|
                0 <= p < 4 && 0 <= w < 16
                    ==> #[trigger] final(self).sync_state.player_transforms@[p]@[w]
                    == spec_snapshot_word(packet@, p, w),
            !accepted ==> final(self).sync_state == old(self).sync_state,
    {
        self.sync_state.apply_packet(packet)
    }
}

} // verus!
