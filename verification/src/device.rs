use crate::error::GraphicsError;
use vstd::prelude::*;

verus! {

/// The classes of adapter the platform can expose, in preference order:
/// discrete over integrated over virtual over software.
#[derive(Clone, Copy, Debug, PartialEq, Eq, Structural)]
pub enum AdapterKind {
    DiscreteGpu,
    IntegratedGpu,
    VirtualGpu,
    Cpu,
    Other,
}

/// One queue family of an adapter, reduced to what selection reads.
#[derive(Clone, Copy, Debug, PartialEq, Eq, Structural)]
pub struct QueueFamily {
    pub graphics: bool,
    pub present: bool,
}

/// What adapter enumeration reports about one physical adapter, reduced to
/// the facts the selection policy reads.
#[derive(Debug)]
pub struct AdapterInfo {
    pub kind: AdapterKind,
    /// The adapter can present to the bound surface.
    pub supports_presentation: bool,
    /// The adapter offers the required feature/extension set.
    pub has_required_features: bool,
    pub queue_families: Vec<QueueFamily>,
}

/// The fixed preference order over adapter classes; lower is better.
pub open spec fn adapter_rank(kind: AdapterKind) -> int {
    match kind {
        AdapterKind::DiscreteGpu => 0,
        AdapterKind::IntegratedGpu => 1,
        AdapterKind::VirtualGpu => 2,
        AdapterKind::Cpu => 3,
        AdapterKind::Other => 4,
    }
}

impl AdapterInfo {
    /// An adapter survives filtering when it can present to the surface and
    /// has the required capability set.
    pub open spec fn eligible(self) -> bool {
        self.supports_presentation && self.has_required_features
    }
}

/// A queue family usable for the render loop: graphics work and presentation
/// on the same family.
pub open spec fn family_supports_render(f: QueueFamily) -> bool {
    f.graphics && f.present
}

/// The adapter selection policy picks the first adapter of best rank among
/// the eligible ones.
pub open spec fn is_best_adapter(adapters: Seq<AdapterInfo>, i: int) -> bool {
    &&& 0 <= i < adapters.len()
    &&& adapters[i].eligible()
    &&& forall|j: int|
        0 <= j < adapters.len() && #[trigger] adapters[j].eligible() ==> adapter_rank(
            adapters[i].kind,
        ) <= adapter_rank(adapters[j].kind)
    &&& forall|j: int|
        0 <= j < i && #[trigger] adapters[j].eligible() ==> adapter_rank(adapters[j].kind)
            > adapter_rank(adapters[i].kind)
}

/// The outcome of adapter selection: which adapter to create the logical
/// device on, and which queue family to take the submission queue from.
#[derive(Clone, Copy, Debug, PartialEq, Eq, Structural)]
pub struct DeviceSelection {
    pub adapter_index: usize,
    pub queue_family_index: usize,
}

/// The preference order as an executable ranking.
pub fn rank_of(kind: AdapterKind) -> (r: u8)
    ensures
        r as int == adapter_rank(kind),
{
    match kind {
        AdapterKind::DiscreteGpu => 0,
        AdapterKind::IntegratedGpu => 1,
        AdapterKind::VirtualGpu => 2,
        AdapterKind::Cpu => 3,
        AdapterKind::Other => 4,
    }
}

/// Selects the adapter and queue family the device is created on.
///
/// Filters the enumerated adapters by presentation support and required
/// features, ranks the survivors discrete > integrated > virtual > software,
/// and takes the first of best rank. Fails with `NoSuitableAdapter` when the
/// filtered set is empty, and with `NoSuitableQueue` when the ranked adapter
/// exposes no queue family supporting both graphics and presentation.
pub fn select_adapter(adapters: &Vec<AdapterInfo>) -> (r: Result<DeviceSelection, GraphicsError>)
    ensures
        match r {
            Ok(sel) => {
                &&& is_best_adapter(adapters@, sel.adapter_index as int)
                &&& sel.queue_family_index < adapters@[sel.adapter_index as int].queue_families@.len()
                &&& family_supports_render(
                    adapters@[sel.adapter_index as int].queue_families@[sel.queue_family_index as int],
                )
                &&& forall|k: int|
                    0 <= k < sel.queue_family_index ==> !family_supports_render(
                        #[trigger] adapters@[sel.adapter_index as int].queue_families@[k],
                    )
            },
            Err(e) => match e {
                GraphicsError::NoSuitableAdapter => forall|i: int|
                    0 <= i < adapters@.len() ==> !(#[trigger] adapters@[i].eligible()),
                GraphicsError::NoSuitableQueue => exists|i: int|
                    is_best_adapter(adapters@, i) && (forall|k: int|
                        0 <= k < adapters@[i].queue_families@.len() ==> !family_supports_render(
                            #[trigger] adapters@[i].queue_families@[k],
                        )),
                _ => false,
            },
        },
{
    let mut best: usize = 0;
    let mut best_rank: u8 = 0;
    let mut found = false;
    for i in 0..adapters.len()
        invariant
            !found ==> forall|j: int| 0 <= j < i ==> !(#[trigger] adapters@[j].eligible()),
            found ==> {
                &&& best < i
                &&& adapters@[best as int].eligible()
                &&& best_rank as int == adapter_rank(adapters@[best as int].kind)
                &&& forall|j: int|
                    0 <= j < i && #[trigger] adapters@[j].eligible() ==> best_rank as int
                        <= adapter_rank(adapters@[j].kind)
                &&& forall|j: int|
                    0 <= j < best && #[trigger] adapters@[j].eligible() ==> adapter_rank(
                        adapters@[j].kind,
                    ) > best_rank as int
            },
    {
        let a = &adapters[i];
        if a.supports_presentation && a.has_required_features {
            let rank = rank_of(a.kind);
            if !found || rank < best_rank {
                best = i;
                best_rank = rank;
                found = true;
            }
        }
    }
    if !found {
        return Err(GraphicsError::NoSuitableAdapter);
    }
    let families = &adapters[best].queue_families;
    for k in 0..families.len()
        invariant
            best < adapters@.len(),
            is_best_adapter(adapters@, best as int),
            families@ == adapters@[best as int].queue_families@,
            forall|m: int|
                0 <= m < k ==> !family_supports_render(
                    #[trigger] adapters@[best as int].queue_families@[m],
                ),
    {
        if families[k].graphics && families[k].present {
            return Ok(DeviceSelection { adapter_index: best, queue_family_index: k });
        }
    }
    proof {
        assert(is_best_adapter(adapters@, best as int));
    }
    Err(GraphicsError::NoSuitableQueue)
}

} // verus!
