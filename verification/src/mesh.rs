use vstd::prelude::*;

verus! {

/// Primitive assembly mode reported by a geometry container.
#[derive(Clone, Copy, Debug, PartialEq, Eq, Structural)]
pub enum PrimitiveMode {
    Points,
    Lines,
    LineLoop,
    LineStrip,
    Triangles,
    TriangleStrip,
    TriangleFan,
}

/// Index data of one primitive, tagged with its width. Only 16-bit indices
/// are supported by the draw path.
#[derive(Debug)]
pub enum IndexData {
    U8(Vec<u8>),
    U16(Vec<u16>),
    U32(Vec<u32>),
}

/// One primitive of a decoded geometry container, reduced to plain values:
/// positions and per-vertex colors carry the bit patterns of three
/// single-precision floats each; attributes the container lacks are `None`.
#[derive(Debug)]
pub struct Primitive {
    pub mode: PrimitiveMode,
    pub positions: Option<Vec<[u32; 3]>>,
    pub colors: Option<Vec<[u32; 3]>>,
    pub indices: Option<IndexData>,
}

/// Why a primitive contributed nothing to the imported mesh. A warning, not
/// an error: the rest of the container still imports.
#[derive(Clone, Copy, Debug, PartialEq, Eq, Structural)]
pub enum ImportWarning {
    NonTriangleMode,
    MissingPositions,
    MissingColors,
    UnsupportedIndexWidth,
}

/// Geometry ready to draw: separate position and color buffers and 16-bit
/// triangle-list indices, all as plain values ready for upload.
#[derive(Debug)]
pub struct Mesh {
    pub positions: Vec<[u32; 3]>,
    pub colors: Vec<[u32; 3]>,
    pub indices: Vec<u16>,
    pub index_count: u32,
}

/// The mathematical result of an import: what the mesh holds and which
/// primitives were skipped, in container order.
pub struct MeshView {
    pub positions: Seq<[u32; 3]>,
    pub colors: Seq<[u32; 3]>,
    pub indices: Seq<u16>,
    pub warnings: Seq<ImportWarning>,
}

/// A primitive is imported exactly when it is triangle-mode and has
/// positions, colors, and 16-bit indices.
pub open spec fn accepted(p: Primitive) -> bool {
    &&& p.mode is Triangles
    &&& p.positions is Some
    &&& p.colors is Some
    &&& p.indices matches Some(IndexData::U16(_))
}

/// The first failed check names the warning, mirroring the order the import
/// examines a primitive.
pub open spec fn skip_reason(p: Primitive) -> ImportWarning {
    if !(p.mode is Triangles) {
        ImportWarning::NonTriangleMode
    } else if p.positions is None {
        ImportWarning::MissingPositions
    } else if p.colors is None {
        ImportWarning::MissingColors
    } else {
        ImportWarning::UnsupportedIndexWidth
    }
}

pub open spec fn prim_positions(p: Primitive) -> Seq<[u32; 3]> {
    match p.positions {
        Some(v) => v@,
        None => Seq::empty(),
    }
}

pub open spec fn prim_colors(p: Primitive) -> Seq<[u32; 3]> {
    match p.colors {
        Some(v) => v@,
        None => Seq::empty(),
    }
}

pub open spec fn prim_u16_indices(p: Primitive) -> Seq<u16> {
    match p.indices {
        Some(IndexData::U16(v)) => v@,
        _ => Seq::empty(),
    }
}

/// A primitive's indices, rebased past the vertices already imported.
pub open spec fn spec_offset_indices(indices: Seq<u16>, offset: int) -> Seq<u16> {
    indices.map_values(|v: u16| (v + offset) as u16)
}

/// Importing one more primitive: an accepted one appends its vertices and
/// its rebased indices; a skipped one appends only its warning.
pub open spec fn spec_import_one(m: MeshView, p: Primitive) -> MeshView {
    if accepted(p) {
        MeshView {
            positions: m.positions + prim_positions(p),
            colors: m.colors + prim_colors(p),
            indices: m.indices + spec_offset_indices(
                prim_u16_indices(p),
                m.positions.len() as int,
            ),
            warnings: m.warnings,
        }
    } else {
        MeshView {
            positions: m.positions,
            colors: m.colors,
            indices: m.indices,
            warnings: m.warnings.push(skip_reason(p)),
        }
    }
}

/// The import of a whole container, primitive by primitive in container
/// order.
pub open spec fn spec_import(prims: Seq<Primitive>) -> MeshView
    decreases prims.len(),
{
    if prims.len() == 0 {
        MeshView {
            positions: Seq::empty(),
            colors: Seq::empty(),
            indices: Seq::empty(),
            warnings: Seq::empty(),
        }
    } else {
        spec_import_one(spec_import(prims.drop_last()), prims.last())
    }
}

/// Machine limit: every rebased index of an accepted primitive must still
/// fit a 16-bit index.
pub open spec fn importable(prims: Seq<Primitive>) -> bool {
    forall|i: int, k: int|
        #![trigger prim_u16_indices(prims[i])[k]]
        (0 <= i < prims.len() && accepted(prims[i]) && 0 <= k < prim_u16_indices(
            prims[i],
        ).len()) ==> prim_u16_indices(prims[i])[k] + spec_import(prims.take(i)).positions.len()
            <= u16::MAX
}

impl Mesh {
    /// Imports a decoded geometry container.
    ///
    /// Triangle-mode primitives with positions, colors, and 16-bit indices
    /// contribute their vertices and their rebased indices, in container
    /// order; every other primitive is skipped with a warning and
    /// contributes nothing.
    pub fn load(primitives: &Vec<Primitive>) -> (r: (Mesh, Vec<ImportWarning>))
        requires
            importable(primitives@),
            spec_import(primitives@).indices.len() <= u32::MAX,
        ensures
            r.0.positions@ == spec_import(primitives@).positions,
            r.0.colors@ == spec_import(primitives@).colors,
            r.0.indices@ == spec_import(primitives@).indices,
            r.0.index_count == spec_import(primitives@).indices.len(),
            r.1@ == spec_import(primitives@).warnings,
    {
        let mut positions: Vec<[u32; 3]> = Vec::new();
        let mut colors: Vec<[u32; 3]> = Vec::new();
        let mut indices: Vec<u16> = Vec::new();
        let mut warnings: Vec<ImportWarning> = Vec::new();
        for i in 0..primitives.len()
            invariant
                importable(primitives@),
                spec_import(primitives@).indices.len() <= u32::MAX,
                positions@ == spec_import(primitives@.take(i as int)).positions,
                colors@ == spec_import(primitives@.take(i as int)).colors,
                indices@ == spec_import(primitives@.take(i as int)).indices,
                warnings@ == spec_import(primitives@.take(i as int)).warnings,
        {
            proof {
                assert(primitives@.take(i + 1).drop_last() =~= primitives@.take(i as int));
                assert(primitives@.take(i + 1).last() == primitives@[i as int]);
            }
            let p = &primitives[i];
            let is_triangles = match p.mode {
                PrimitiveMode::Triangles => true,
                _ => false,
            };
            if !is_triangles {
                warnings.push(ImportWarning::NonTriangleMode);
            } else {
                match (&p.positions, &p.colors, &p.indices) {
                    (Some(pos), Some(col), Some(IndexData::U16(idx))) => {
                        let offset = positions.len();
                        let ghost base = spec_import(primitives@.take(i as int));
                        for k in 0..pos.len()
                            invariant
                                pos@ == prim_positions(primitives@[i as int]),
                                positions@ == base.positions + pos@.take(k as int),
                        {
                            positions.push(pos[k]);
                            proof {
                                assert(pos@.take(k + 1) =~= pos@.take(k as int).push(pos@[k as int]));
                            }
                        }
                        proof {
                            assert(pos@.take(pos@.len() as int) =~= pos@);
                        }
                        for k in 0..col.len()
                            invariant
                                col@ == prim_colors(primitives@[i as int]),
                                colors@ == base.colors + col@.take(k as int),
                        {
                            colors.push(col[k]);
                            proof {
                                assert(col@.take(k + 1) =~= col@.take(k as int).push(col@[k as int]));
                            }
                        }
                        proof {
                            assert(col@.take(col@.len() as int) =~= col@);
                        }
                        for k in 0..idx.len()
                            invariant
                                importable(primitives@),
                                0 <= i < primitives@.len(),
                                accepted(primitives@[i as int]),
                                idx@ == prim_u16_indices(primitives@[i as int]),
                                offset == base.positions.len(),
                                base == spec_import(primitives@.take(i as int)),
                                indices@ == base.indices + spec_offset_indices(
                                    idx@.take(k as int),
                                    offset as int,
                                ),
                        {
                            proof {
                                assert(prim_u16_indices(primitives@[i as int])[k as int] == idx@[k
                                    as int]);
                            }
                            let value = idx[k];
                            let rebased = (value as usize + offset) as u16;
                            indices.push(rebased);
                            proof {
                                assert(spec_offset_indices(idx@.take(k + 1), offset as int)
                                    =~= spec_offset_indices(idx@.take(k as int), offset as int).push(
                                    (idx@[k as int] + offset) as u16,
                                ));
                            }
                        }
                        proof {
                            assert(idx@.take(idx@.len() as int) =~= idx@);
                        }
                    },
                    (None, _, _) => {
                        warnings.push(ImportWarning::MissingPositions);
                    },
                    (_, None, _) => {
                        warnings.push(ImportWarning::MissingColors);
                    },
                    _ => {
                        warnings.push(ImportWarning::UnsupportedIndexWidth);
                    },
                }
            }
        }
        proof {
            assert(primitives@.take(primitives@.len() as int) =~= primitives@);
        }
        let index_count = indices.len() as u32;
        (Mesh { positions, colors, indices, index_count }, warnings)
    }
}

} // verus!
