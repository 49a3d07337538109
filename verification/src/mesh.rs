//! The core generator: level split policy, depth-bounded traversal of the
//! self-similar structure, mesh assembly and instance assembly.
//!
//! The recursive structure is given by its subdivision rule: a list of child
//! transforms, each mapping the parent cell onto one child cell.  The node
//! set at depth `d` is every composition of `d` child transforms applied to
//! the root, in depth-first rule order; its accumulated transforms drive both
//! assemblers.  The vertex buffer bakes one textured quad per node at the
//! mesh depth; the instance buffer packs one letterboxed transform per node
//! at the instance depth.

use vstd::prelude::*;
use vstd::arithmetic::power::pow;

use crate::affine::{
    am_apply, am_apply_fits, am_compose, am_compose_fits, am_identity, lemma_apply_identity,
    pm_eqv, pm_wf, Affine, AffM, Pt2, Pt2M,
};
use crate::fitting::{fit_fits, letter_box, rm_fit};
use crate::rational::{Rat, RatM, rm_one, rm_zero};
use crate::rect::{rect_corners, rect_wf, Rect, RectM};

verus! {

/// Mathematical model of a baked vertex.
pub ghost struct VertexM {
    pub position: Pt2M,
    pub texture_coordinate: Pt2M,
}

/// A baked vertex: a position paired with a texture coordinate, emitted in
/// draw order with no indices and no deduplication.
#[derive(Clone, Copy, PartialEq, Eq, Structural, Debug)]
pub struct Vertex {
    pub position: Pt2,
    pub texture_coordinate: Pt2,
}

impl View for Vertex {
    type V = VertexM;

    open spec fn view(&self) -> VertexM {
        VertexM { position: self.position@, texture_coordinate: self.texture_coordinate@ }
    }
}

/// Mathematical model of a packed instance.
pub ghost struct InstanceM {
    pub r0c0: RatM,
    pub r0c1: RatM,
    pub r0c2: RatM,
    pub r0c3: RatM,
    pub r1c0: RatM,
    pub r1c1: RatM,
    pub r1c2: RatM,
    pub r1c3: RatM,
}

/// A packed per-cell transform: the first two rows of a 3×3 homogeneous
/// affine matrix (column-major entries `s[0..9]`), each padded with a
/// trailing zero to four components: `row0 = (s0, s3, s6, 0)`,
/// `row1 = (s1, s4, s7, 0)`.
#[derive(Clone, Copy, PartialEq, Eq, Structural, Debug)]
pub struct Instance {
    pub r0c0: Rat,
    pub r0c1: Rat,
    pub r0c2: Rat,
    pub r0c3: Rat,
    pub r1c0: Rat,
    pub r1c1: Rat,
    pub r1c2: Rat,
    pub r1c3: Rat,
}

impl View for Instance {
    type V = InstanceM;

    open spec fn view(&self) -> InstanceM {
        InstanceM {
            r0c0: self.r0c0@,
            r0c1: self.r0c1@,
            r0c2: self.r0c2@,
            r0c3: self.r0c3@,
            r1c0: self.r1c0@,
            r1c1: self.r1c1@,
            r1c2: self.r1c2@,
            r1c3: self.r1c3@,
        }
    }
}

/// Packing a transform `[a c e; b d f; 0 0 1]` with column-major entries
/// `s[0..9] = (a, b, 0, c, d, 0, e, f, 1)` gives `row0 = (s0, s3, s6, 0)` and
/// `row1 = (s1, s4, s7, 0)`.
pub open spec fn am_pack(t: AffM) -> InstanceM {
    InstanceM {
        r0c0: t.a,
        r0c1: t.c,
        r0c2: t.e,
        r0c3: rm_zero(),
        r1c0: t.b,
        r1c1: t.d,
        r1c2: t.f,
        r1c3: rm_zero(),
    }
}

/// Reading a transform back from a packed instance, with the implicit third
/// row `[0, 0, 1]`.
pub open spec fn am_unpack(i: InstanceM) -> AffM {
    AffM { a: i.r0c0, b: i.r1c0, c: i.r0c1, d: i.r1c1, e: i.r0c2, f: i.r1c2 }
}

/// Packs a transform into the GPU instance layout.
pub fn pack_instance(t: &Affine) -> (r: Instance)
    ensures
        r@ == am_pack(t@),
{
    Instance {
        r0c0: t.a,
        r0c1: t.c,
        r0c2: t.e,
        r0c3: Rat::zero(),
        r1c0: t.b,
        r1c1: t.d,
        r1c2: t.f,
        r1c3: Rat::zero(),
    }
}

/// Reconstructs the affine transform held by a packed instance.
pub fn unpack_instance(i: &Instance) -> (t: Affine)
    ensures
        t@ == am_unpack(i@),
{
    Affine { a: i.r0c0, b: i.r1c0, c: i.r0c1, d: i.r1c1, e: i.r0c2, f: i.r1c2 }
}

/// Packing loses nothing: unpacking restores the exact transform, and in
/// particular the restored transform acts on every point exactly as the
/// original does.
pub proof fn lemma_pack_round_trip(t: AffM, p: Pt2M)
    ensures
        am_unpack(am_pack(t)) == t,
        am_apply(am_unpack(am_pack(t)), p) == am_apply(t, p),
{
}

/// The level split: how many recursion levels are baked as unique triangles
/// (`mesh`) and how many are replayed as reused-geometry instances
/// (`instance`).  Instancing always reaches at least as deep as baking.
#[derive(Clone, Copy, PartialEq, Eq, Structural, Debug)]
pub struct LevelSplit {
    pub mesh: u32,
    pub instance: u32,
}

impl LevelSplit {
    pub open spec fn wf(self) -> bool {
        self.mesh <= self.instance
    }

    pub fn new(mesh: u32, instance: u32) -> (s: LevelSplit)
        requires
            mesh <= instance,
        ensures
            s.wf(),
            s.mesh == mesh,
            s.instance == instance,
    {
        LevelSplit { mesh, instance }
    }
}

/// The fixed split configuration: two baked levels, five instanced levels.
pub fn split_levels() -> (s: LevelSplit)
    ensures
        s.wf(),
        s.mesh == 2,
        s.instance == 5,
{
    LevelSplit { mesh: 2, instance: 5 }
}

/// Descriptor of the instanced draw pipeline.  Both backend adapters share
/// this one split policy.
#[derive(Debug, Default)]
pub struct PipelineDesc;

impl PipelineDesc {
    /// The split policy this pipeline renders with.
    pub fn split(&self) -> (s: LevelSplit)
        ensures
            s.wf(),
            s.mesh == 2,
            s.instance == 5,
    {
        split_levels()
    }
}

/// The views of a sequence of executable transforms.
pub open spec fn affine_views(s: Seq<Affine>) -> Seq<AffM> {
    Seq::new(s.len(), |i: int| s[i]@)
}

/// Every transform in the sequence is well-formed.
pub open spec fn affines_wf(s: Seq<Affine>) -> bool {
    forall|i: int| 0 <= i < s.len() ==> (#[trigger] s[i]).wf()
}

/// One parent's children: the parent's transform composed with each child
/// transform of the rule, in rule order.
pub open spec fn am_row(parent: AffM, children: Seq<AffM>) -> Seq<AffM>
    decreases children.len(),
{
    if children.len() == 0 {
        Seq::empty()
    } else {
        am_row(parent, children.drop_last()).push(am_compose(parent, children.last()))
    }
}

/// One traversal level: every parent's children, parents in order.
pub open spec fn am_cross(parents: Seq<AffM>, children: Seq<AffM>) -> Seq<AffM>
    decreases parents.len(),
{
    if parents.len() == 0 {
        Seq::empty()
    } else {
        am_cross(parents.drop_last(), children) + am_row(parents.last(), children)
    }
}

/// The accumulated transforms of every node at exactly `depth` levels below
/// the root, in the deterministic depth-first traversal order.  Depth zero
/// visits exactly the root, whose accumulated transform is the identity.
pub open spec fn nodes_at(children: Seq<AffM>, depth: nat) -> Seq<AffM>
    decreases depth,
{
    if depth == 0 {
        seq![am_identity()]
    } else {
        am_cross(nodes_at(children, (depth - 1) as nat), children)
    }
}

/// Composing `parent` with each child stays representable.
pub open spec fn row_fits(parent: AffM, children: Seq<AffM>) -> bool {
    forall|j: int| 0 <= j < children.len() ==> am_compose_fits(parent, #[trigger] children[j])
}

/// Composing each parent with each child stays representable.
pub open spec fn level_fits(parents: Seq<AffM>, children: Seq<AffM>) -> bool {
    forall|i: int| 0 <= i < parents.len() ==> row_fits(#[trigger] parents[i], children)
}

/// Every composition performed while expanding the structure to `depth`
/// stays representable in 64-bit rationals.
pub open spec fn nodes_fit(children: Seq<AffM>, depth: nat) -> bool
    decreases depth,
{
    depth == 0 || (nodes_fit(children, (depth - 1) as nat) && level_fits(
        nodes_at(children, (depth - 1) as nat),
        children,
    ))
}

/// Representability at a depth carries down to every shallower depth.
pub proof fn lemma_nodes_fit_mono(children: Seq<AffM>, d1: nat, d2: nat)
    requires
        d1 <= d2,
        nodes_fit(children, d2),
    ensures
        nodes_fit(children, d1),
    decreases d2,
{
    if d1 < d2 {
        lemma_nodes_fit_mono(children, d1, (d2 - 1) as nat);
    }
}

/// A row has one entry per child.
pub proof fn lemma_row_len(parent: AffM, children: Seq<AffM>)
    ensures
        am_row(parent, children).len() == children.len(),
    decreases children.len(),
{
    if children.len() > 0 {
        lemma_row_len(parent, children.drop_last());
    }
}

/// A level has one entry per parent-child pair.
pub proof fn lemma_cross_len(parents: Seq<AffM>, children: Seq<AffM>)
    ensures
        am_cross(parents, children).len() == parents.len() * children.len(),
    decreases parents.len(),
{
    if parents.len() > 0 {
        lemma_cross_len(parents.drop_last(), children);
        lemma_row_len(parents.last(), children);
        assert((parents.len() - 1) * children.len() + children.len() == parents.len()
            * children.len()) by (nonlinear_arith);
    }
}

/// The node count at depth `d` is the branching factor raised to `d`.
pub proof fn lemma_nodes_count(children: Seq<AffM>, depth: nat)
    ensures
        nodes_at(children, depth).len() == pow(children.len() as int, depth),
    decreases depth,
{
    reveal(pow);
    let b = children.len() as int;
    if depth == 0 {
        vstd::arithmetic::power::lemma_pow0(b);
    } else {
        lemma_nodes_count(children, (depth - 1) as nat);
        lemma_cross_len(nodes_at(children, (depth - 1) as nat), children);
        assert(pow(b, depth) == b * pow(b, (depth - 1) as nat));
        assert(pow(b, (depth - 1) as nat) * b == b * pow(b, (depth - 1) as nat))
            by (nonlinear_arith);
    }
}

/// Extending a row by one child appends the corresponding composition.
proof fn lemma_row_step(parent: AffM, children: Seq<AffM>, j: int)
    requires
        0 <= j < children.len(),
    ensures
        am_row(parent, children.take(j + 1)) == am_row(parent, children.take(j)).push(
            am_compose(parent, children[j]),
        ),
{
    assert(children.take(j + 1).drop_last() =~= children.take(j));
    assert(children.take(j + 1).last() == children[j]);
}

/// Extending a level by one parent appends that parent's whole row.
proof fn lemma_cross_step(parents: Seq<AffM>, children: Seq<AffM>, i: int)
    requires
        0 <= i < parents.len(),
    ensures
        am_cross(parents.take(i + 1), children) == am_cross(parents.take(i), children) + am_row(
            parents[i],
            children,
        ),
{
    assert(parents.take(i + 1).drop_last() =~= parents.take(i));
    assert(parents.take(i + 1).last() == parents[i]);
}

/// Expands the structure: the accumulated transforms of every node at
/// exactly `depth` levels below the root, in depth-first rule order.
pub fn nodes_at_depth(children: &Vec<Affine>, depth: u32) -> (nodes: Vec<Affine>)
    requires
        affines_wf(children@),
        nodes_fit(affine_views(children@), depth as nat),
    ensures
        affine_views(nodes@) == nodes_at(affine_views(children@), depth as nat),
        affines_wf(nodes@),
        nodes@.len() == pow(children@.len() as int, depth as nat),
{
    let ghost cv = affine_views(children@);
    let mut nodes: Vec<Affine> = Vec::new();
    nodes.push(Affine::identity());
    assert(affine_views(nodes@) =~= nodes_at(cv, 0));
    let mut level: u32 = 0;
    while level < depth
        invariant
            level <= depth,
            affines_wf(children@),
            affines_wf(nodes@),
            cv == affine_views(children@),
            nodes_fit(cv, depth as nat),
            affine_views(nodes@) == nodes_at(cv, level as nat),
        decreases depth - level,
    {
        proof {
            lemma_nodes_fit_mono(cv, (level + 1) as nat, depth as nat);
        }
        let mut next: Vec<Affine> = Vec::new();
        let mut i: usize = 0;
        assert(affine_views(next@) =~= am_cross(affine_views(nodes@).take(0), cv));
        while i < nodes.len()
            invariant
                i <= nodes@.len(),
                affines_wf(children@),
                affines_wf(nodes@),
                affines_wf(next@),
                cv == affine_views(children@),
                affine_views(nodes@) == nodes_at(cv, level as nat),
                level_fits(nodes_at(cv, level as nat), cv),
                affine_views(next@) == am_cross(affine_views(nodes@).take(i as int), cv),
            decreases nodes@.len() - i,
        {
            let mut j: usize = 0;
            assert(cv.take(0) =~= Seq::<AffM>::empty());
            assert(affine_views(next@) =~= am_cross(affine_views(nodes@).take(i as int), cv)
                + am_row(affine_views(nodes@)[i as int], cv.take(0)));
            while j < children.len()
                invariant
                    j <= children@.len(),
                    i < nodes@.len(),
                    affines_wf(children@),
                    affines_wf(nodes@),
                    affines_wf(next@),
                    cv == affine_views(children@),
                    affine_views(nodes@) == nodes_at(cv, level as nat),
                    level_fits(nodes_at(cv, level as nat), cv),
                    affine_views(next@) == am_cross(affine_views(nodes@).take(i as int), cv)
                        + am_row(affine_views(nodes@)[i as int], cv.take(j as int)),
                decreases children@.len() - j,
            {
                assert(am_compose_fits(nodes@[i as int]@, children@[j as int]@)) by {
                    assert(nodes_at(cv, level as nat)[i as int] == nodes@[i as int]@);
                    assert(cv[j as int] == children@[j as int]@);
                }
                let t: Affine = nodes[i].compose(&children[j]);
                next.push(t);
                proof {
                    let p = affine_views(nodes@)[i as int];
                    lemma_row_len(p, cv.take(j as int));
                    lemma_cross_len(affine_views(nodes@).take(i as int), cv);
                    lemma_row_step(p, cv, j as int);
                    let prev = am_cross(affine_views(nodes@).take(i as int), cv) + am_row(
                        p,
                        cv.take(j as int),
                    );
                    assert(t@ == am_compose(p, cv[j as int]));
                    assert(affine_views(next@) =~= prev.push(am_compose(p, cv[j as int])));
                    assert(prev.push(am_compose(p, cv[j as int])) =~= am_cross(
                        affine_views(nodes@).take(i as int),
                        cv,
                    ) + am_row(p, cv.take(j + 1)));
                }
                j += 1;
            }
            proof {
                assert(cv.take(children@.len() as int) =~= cv);
                lemma_cross_step(affine_views(nodes@), cv, i as int);
            }
            i += 1;
        }
        proof {
            assert(affine_views(nodes@).take(nodes@.len() as int) =~= affine_views(nodes@));
        }
        nodes = next;
        level += 1;
    }
    proof {
        lemma_nodes_count(cv, depth as nat);
    }
    nodes
}

/// Expands the structure like `nodes_at_depth`, but guarded at run time
/// instead of by precondition: `Some` exactly when every composition along
/// the way stays representable in 64-bit rationals.
pub fn try_nodes_at_depth(children: &Vec<Affine>, depth: u32) -> (r: Option<Vec<Affine>>)
    requires
        affines_wf(children@),
    ensures
        r is Some <==> nodes_fit(affine_views(children@), depth as nat),
        r is Some ==> affine_views(r->0@) == nodes_at(affine_views(children@), depth as nat)
            && affines_wf(r->0@) && r->0@.len() == pow(children@.len() as int, depth as nat),
{
    let ghost cv = affine_views(children@);
    let mut nodes: Vec<Affine> = Vec::new();
    nodes.push(Affine::identity());
    assert(affine_views(nodes@) =~= nodes_at(cv, 0));
    let mut level: u32 = 0;
    while level < depth
        invariant
            level <= depth,
            affines_wf(children@),
            affines_wf(nodes@),
            cv == affine_views(children@),
            nodes_fit(cv, level as nat),
            affine_views(nodes@) == nodes_at(cv, level as nat),
        decreases depth - level,
    {
        let mut next: Vec<Affine> = Vec::new();
        let mut i: usize = 0;
        assert(affine_views(next@) =~= am_cross(affine_views(nodes@).take(0), cv));
        while i < nodes.len()
            invariant
                i <= nodes@.len(),
                level < depth,
                affines_wf(children@),
                affines_wf(nodes@),
                affines_wf(next@),
                cv == affine_views(children@),
                nodes_fit(cv, level as nat),
                affine_views(nodes@) == nodes_at(cv, level as nat),
                forall|i2: int|
                    0 <= i2 < i ==> row_fits(#[trigger] affine_views(nodes@)[i2], cv),
                affine_views(next@) == am_cross(affine_views(nodes@).take(i as int), cv),
            decreases nodes@.len() - i,
        {
            let mut j: usize = 0;
            assert(cv.take(0) =~= Seq::<AffM>::empty());
            assert(affine_views(next@) =~= am_cross(affine_views(nodes@).take(i as int), cv)
                + am_row(affine_views(nodes@)[i as int], cv.take(0)));
            while j < children.len()
                invariant
                    j <= children@.len(),
                    i < nodes@.len(),
                    level < depth,
                    affines_wf(children@),
                    affines_wf(nodes@),
                    affines_wf(next@),
                    cv == affine_views(children@),
                    nodes_fit(cv, level as nat),
                    affine_views(nodes@) == nodes_at(cv, level as nat),
                    forall|j2: int|
                        0 <= j2 < j ==> am_compose_fits(
                            affine_views(nodes@)[i as int],
                            #[trigger] cv[j2],
                        ),
                    affine_views(next@) == am_cross(affine_views(nodes@).take(i as int), cv)
                        + am_row(affine_views(nodes@)[i as int], cv.take(j as int)),
                decreases children@.len() - j,
            {
                let composed: Option<Affine> = nodes[i].checked_compose(&children[j]);
                let t: Affine = match composed {
                    Some(v) => v,
                    None => {
                        proof {
                            assert(!am_compose_fits(
                                affine_views(nodes@)[i as int],
                                cv[j as int],
                            ));
                            if nodes_fit(cv, depth as nat) {
                                lemma_nodes_fit_mono(cv, (level + 1) as nat, depth as nat);
                                assert(level_fits(nodes_at(cv, level as nat), cv));
                                assert(row_fits(nodes_at(cv, level as nat)[i as int], cv));
                                assert(false);
                            }
                        }
                        return None;
                    },
                };
                next.push(t);
                proof {
                    let p = affine_views(nodes@)[i as int];
                    lemma_row_len(p, cv.take(j as int));
                    lemma_cross_len(affine_views(nodes@).take(i as int), cv);
                    lemma_row_step(p, cv, j as int);
                    let prev = am_cross(affine_views(nodes@).take(i as int), cv) + am_row(
                        p,
                        cv.take(j as int),
                    );
                    assert(t@ == am_compose(p, cv[j as int]));
                    assert(affine_views(next@) =~= prev.push(am_compose(p, cv[j as int])));
                    assert(prev.push(am_compose(p, cv[j as int])) =~= am_cross(
                        affine_views(nodes@).take(i as int),
                        cv,
                    ) + am_row(p, cv.take(j + 1)));
                }
                j += 1;
            }
            proof {
                assert(cv.take(children@.len() as int) =~= cv);
                lemma_cross_step(affine_views(nodes@), cv, i as int);
                assert(row_fits(affine_views(nodes@)[i as int], cv));
            }
            i += 1;
        }
        proof {
            assert(affine_views(nodes@).take(nodes@.len() as int) =~= affine_views(nodes@));
            assert(level_fits(nodes_at(cv, level as nat), cv));
            assert(nodes_fit(cv, (level + 1) as nat));
        }
        nodes = next;
        level += 1;
    }
    proof {
        lemma_nodes_count(cv, depth as nat);
    }
    Some(nodes)
}

/// The six triangle-template points of a rectangle: its corners in the fixed
/// winding, assembled into the two triangles `(0,1,2)` and `(0,2,3)`.
pub open spec fn tri_template(r: RectM) -> Seq<Pt2M> {
    let c = rect_corners(r);
    seq![c[0], c[1], c[2], c[0], c[2], c[3]]
}

/// The six texture coordinates: the same winding over the unit rectangle,
/// identical for every baked quad.
pub open spec fn uv_template() -> Seq<Pt2M> {
    let z = rm_zero();
    let o = rm_one();
    seq![
        Pt2M { x: z, y: z },
        Pt2M { x: o, y: z },
        Pt2M { x: o, y: o },
        Pt2M { x: z, y: z },
        Pt2M { x: o, y: o },
        Pt2M { x: z, y: o },
    ]
}

/// The six vertices one node contributes: the node's transform applied to
/// each template point, paired with the fixed texture coordinates.
pub open spec fn node_vertices(t: AffM, bounds: RectM) -> Seq<VertexM> {
    Seq::new(
        6,
        |j: int|
            VertexM {
                position: am_apply(t, tri_template(bounds)[j]),
                texture_coordinate: uv_template()[j],
            },
    )
}

/// Applying `t` to each template point stays representable.
pub open spec fn node_vertices_fit(t: AffM, bounds: RectM) -> bool {
    forall|j: int| 0 <= j < 6 ==> am_apply_fits(t, #[trigger] tri_template(bounds)[j])
}

/// The whole vertex buffer: six vertices per node, nodes in traversal order.
pub open spec fn mesh_vertices(bounds: RectM, nodes: Seq<AffM>) -> Seq<VertexM>
    decreases nodes.len(),
{
    if nodes.len() == 0 {
        Seq::empty()
    } else {
        mesh_vertices(bounds, nodes.drop_last()) + node_vertices(nodes.last(), bounds)
    }
}

/// Baking every node's quad stays representable.
pub open spec fn mesh_vertices_fit(bounds: RectM, nodes: Seq<AffM>) -> bool {
    forall|i: int| 0 <= i < nodes.len() ==> node_vertices_fit(#[trigger] nodes[i], bounds)
}

/// The views of a sequence of executable vertices.
pub open spec fn vertex_views(s: Seq<Vertex>) -> Seq<VertexM> {
    Seq::new(s.len(), |i: int| s[i]@)
}

/// The vertex buffer holds exactly six vertices per node.
pub proof fn lemma_mesh_vertices_len(bounds: RectM, nodes: Seq<AffM>)
    ensures
        mesh_vertices(bounds, nodes).len() == 6 * nodes.len(),
    decreases nodes.len(),
{
    if nodes.len() > 0 {
        lemma_mesh_vertices_len(bounds, nodes.drop_last());
    }
}

/// Baking one more node appends exactly that node's six vertices.
proof fn lemma_mesh_vertices_step(bounds: RectM, nodes: Seq<AffM>, i: int)
    requires
        0 <= i < nodes.len(),
    ensures
        mesh_vertices(bounds, nodes.take(i + 1)) == mesh_vertices(bounds, nodes.take(i))
            + node_vertices(nodes[i], bounds),
{
    assert(nodes.take(i + 1).drop_last() =~= nodes.take(i));
    assert(nodes.take(i + 1).last() == nodes[i]);
}

/// Bakes one textured quad per node, in traversal order: the node's
/// transform applied to the six triangle-template points of `bounds`, each
/// paired with the fixed texture coordinate of the same winding slot.
pub fn assemble_vertices(bounds: &Rect, nodes: &Vec<Affine>) -> (verts: Vec<Vertex>)
    requires
        bounds.wf(),
        affines_wf(nodes@),
        mesh_vertices_fit(bounds@, affine_views(nodes@)),
    ensures
        vertex_views(verts@) == mesh_vertices(bounds@, affine_views(nodes@)),
        verts@.len() == 6 * nodes@.len(),
{
    let c: Vec<Pt2> = bounds.corners();
    assert(c@[0]@ == rect_corners(bounds@)[0] && c@[0].wf());
    assert(c@[1]@ == rect_corners(bounds@)[1] && c@[1].wf());
    assert(c@[2]@ == rect_corners(bounds@)[2] && c@[2].wf());
    assert(c@[3]@ == rect_corners(bounds@)[3] && c@[3].wf());
    let mut tri: Vec<Pt2> = Vec::new();
    tri.push(c[0]);
    tri.push(c[1]);
    tri.push(c[2]);
    tri.push(c[0]);
    tri.push(c[2]);
    tri.push(c[3]);
    assert(tri@.len() == 6);
    assert(tri@[0]@ == tri_template(bounds@)[0] && tri@[0].wf());
    assert(tri@[1]@ == tri_template(bounds@)[1] && tri@[1].wf());
    assert(tri@[2]@ == tri_template(bounds@)[2] && tri@[2].wf());
    assert(tri@[3]@ == tri_template(bounds@)[3] && tri@[3].wf());
    assert(tri@[4]@ == tri_template(bounds@)[4] && tri@[4].wf());
    assert(tri@[5]@ == tri_template(bounds@)[5] && tri@[5].wf());
    assert(forall|j: int|
        0 <= j < 6 ==> (#[trigger] tri@[j])@ == tri_template(bounds@)[j] && tri@[j].wf());
    let mut uv: Vec<Pt2> = Vec::new();
    uv.push(Pt2 { x: Rat::zero(), y: Rat::zero() });
    uv.push(Pt2 { x: Rat::one(), y: Rat::zero() });
    uv.push(Pt2 { x: Rat::one(), y: Rat::one() });
    uv.push(Pt2 { x: Rat::zero(), y: Rat::zero() });
    uv.push(Pt2 { x: Rat::one(), y: Rat::one() });
    uv.push(Pt2 { x: Rat::zero(), y: Rat::one() });
    assert(forall|j: int| 0 <= j < 6 ==> (#[trigger] uv@[j])@ == uv_template()[j]);
    let mut verts: Vec<Vertex> = Vec::new();
    let mut i: usize = 0;
    assert(vertex_views(verts@) =~= mesh_vertices(bounds@, affine_views(nodes@).take(0)));
    while i < nodes.len()
        invariant
            i <= nodes@.len(),
            affines_wf(nodes@),
            mesh_vertices_fit(bounds@, affine_views(nodes@)),
            tri@.len() == 6,
            uv@.len() == 6,
            forall|j: int|
                0 <= j < 6 ==> (#[trigger] tri@[j])@ == tri_template(bounds@)[j] && tri@[j].wf(),
            forall|j: int| 0 <= j < 6 ==> (#[trigger] uv@[j])@ == uv_template()[j],
            vertex_views(verts@) == mesh_vertices(bounds@, affine_views(nodes@).take(i as int)),
            verts@.len() == 6 * i,
        decreases nodes@.len() - i,
    {
        let t: Affine = nodes[i];
        assert(t@ == affine_views(nodes@)[i as int]);
        assert(node_vertices_fit(t@, bounds@));
        verts.push(Vertex { position: t.apply(&tri[0]), texture_coordinate: uv[0] });
        verts.push(Vertex { position: t.apply(&tri[1]), texture_coordinate: uv[1] });
        verts.push(Vertex { position: t.apply(&tri[2]), texture_coordinate: uv[2] });
        verts.push(Vertex { position: t.apply(&tri[3]), texture_coordinate: uv[3] });
        verts.push(Vertex { position: t.apply(&tri[4]), texture_coordinate: uv[4] });
        verts.push(Vertex { position: t.apply(&tri[5]), texture_coordinate: uv[5] });
        proof {
            lemma_mesh_vertices_step(bounds@, affine_views(nodes@), i as int);
            lemma_mesh_vertices_len(bounds@, affine_views(nodes@).take(i as int));
            assert(vertex_views(verts@) =~= mesh_vertices(
                bounds@,
                affine_views(nodes@).take(i as int),
            ) + node_vertices(affine_views(nodes@)[i as int], bounds@));
        }
        i += 1;
    }
    proof {
        assert(affine_views(nodes@).take(nodes@.len() as int) =~= affine_views(nodes@));
    }
    verts
}

/// The views of a sequence of executable instances.
pub open spec fn instance_views(s: Seq<Instance>) -> Seq<InstanceM> {
    Seq::new(s.len(), |i: int| s[i]@)
}

/// The whole instance buffer: the letterbox transform composed with each
/// node's transform, packed, nodes in traversal order.
pub open spec fn instance_list(letterbox: AffM, nodes: Seq<AffM>) -> Seq<InstanceM>
    decreases nodes.len(),
{
    if nodes.len() == 0 {
        Seq::empty()
    } else {
        instance_list(letterbox, nodes.drop_last()).push(
            am_pack(am_compose(letterbox, nodes.last())),
        )
    }
}

/// The instance buffer holds exactly one entry per node.
pub proof fn lemma_instance_list_len(letterbox: AffM, nodes: Seq<AffM>)
    ensures
        instance_list(letterbox, nodes).len() == nodes.len(),
    decreases nodes.len(),
{
    if nodes.len() > 0 {
        lemma_instance_list_len(letterbox, nodes.drop_last());
    }
}

/// Packing one more node appends exactly that node's instance.
proof fn lemma_instance_list_step(letterbox: AffM, nodes: Seq<AffM>, i: int)
    requires
        0 <= i < nodes.len(),
    ensures
        instance_list(letterbox, nodes.take(i + 1)) == instance_list(
            letterbox,
            nodes.take(i),
        ).push(am_pack(am_compose(letterbox, nodes[i]))),
{
    assert(nodes.take(i + 1).drop_last() =~= nodes.take(i));
    assert(nodes.take(i + 1).last() == nodes[i]);
}

/// Packs one letterboxed transform per node, in traversal order:
/// `letterbox · node`, serialized into the GPU instance layout.
pub fn assemble_instances(letterbox: &Affine, nodes: &Vec<Affine>) -> (out: Vec<Instance>)
    requires
        letterbox.wf(),
        affines_wf(nodes@),
        row_fits(letterbox@, affine_views(nodes@)),
    ensures
        instance_views(out@) == instance_list(letterbox@, affine_views(nodes@)),
        out@.len() == nodes@.len(),
{
    let mut out: Vec<Instance> = Vec::new();
    let mut i: usize = 0;
    assert(instance_views(out@) =~= instance_list(letterbox@, affine_views(nodes@).take(0)));
    while i < nodes.len()
        invariant
            i <= nodes@.len(),
            letterbox.wf(),
            affines_wf(nodes@),
            row_fits(letterbox@, affine_views(nodes@)),
            instance_views(out@) == instance_list(letterbox@, affine_views(nodes@).take(i as int)),
            out@.len() == i,
        decreases nodes@.len() - i,
    {
        assert(am_compose_fits(letterbox@, nodes@[i as int]@)) by {
            assert(affine_views(nodes@)[i as int] == nodes@[i as int]@);
        }
        let m: Affine = letterbox.compose(&nodes[i]);
        out.push(pack_instance(&m));
        proof {
            lemma_instance_list_step(letterbox@, affine_views(nodes@), i as int);
            lemma_instance_list_len(letterbox@, affine_views(nodes@).take(i as int));
            assert(instance_views(out@) =~= instance_list(
                letterbox@,
                affine_views(nodes@).take(i as int),
            ).push(am_pack(am_compose(letterbox@, affine_views(nodes@)[i as int]))));
        }
        i += 1;
    }
    proof {
        assert(affine_views(nodes@).take(nodes@.len() as int) =~= affine_views(nodes@));
    }
    out
}

/// Builds both renderer buffers in one pass: the baked vertices of every
/// node at the mesh depth, and the packed letterboxed transform of every
/// node at the instance depth.  The letterbox transform fits `bounds` into
/// `target` once and is applied uniformly to every instance.
pub fn build_mesh(bounds: &Rect, children: &Vec<Affine>, split: &LevelSplit, target: &Rect) -> (out:
    (Vec<Vertex>, Vec<Instance>))
    requires
        bounds.wf(),
        target.wf(),
        split.wf(),
        affines_wf(children@),
        fit_fits(target@, bounds@),
        nodes_fit(affine_views(children@), split.instance as nat),
        mesh_vertices_fit(bounds@, nodes_at(affine_views(children@), split.mesh as nat)),
        row_fits(rm_fit(target@, bounds@), nodes_at(affine_views(children@), split.instance as nat)),
    ensures
        vertex_views(out.0@) == mesh_vertices(
            bounds@,
            nodes_at(affine_views(children@), split.mesh as nat),
        ),
        instance_views(out.1@) == instance_list(
            rm_fit(target@, bounds@),
            nodes_at(affine_views(children@), split.instance as nat),
        ),
        out.0@.len() == 6 * pow(children@.len() as int, split.mesh as nat),
        out.1@.len() == pow(children@.len() as int, split.instance as nat),
{
    let ghost cv = affine_views(children@);
    proof {
        lemma_nodes_fit_mono(cv, split.mesh as nat, split.instance as nat);
    }
    let letterbox: Affine = letter_box(target, bounds);
    let mesh_nodes: Vec<Affine> = nodes_at_depth(children, split.mesh);
    let verts: Vec<Vertex> = assemble_vertices(bounds, &mesh_nodes);
    let instance_nodes: Vec<Affine> = nodes_at_depth(children, split.instance);
    let instances: Vec<Instance> = assemble_instances(&letterbox, &instance_nodes);
    (verts, instances)
}

/// The standalone full-quad vertex buffer: the six triangle-template points
/// of the normalized device rectangle `[-1, 1]²` with the fixed texture
/// coordinates — the depth-zero bake of that rectangle, with no recursion.
pub open spec fn quad_vertices() -> Seq<VertexM> {
    let n1 = RatM { n: -1, d: 1 };
    let p1 = RatM { n: 1, d: 1 };
    let z = rm_zero();
    let o = rm_one();
    seq![
        VertexM { position: Pt2M { x: n1, y: n1 }, texture_coordinate: Pt2M { x: z, y: z } },
        VertexM { position: Pt2M { x: p1, y: n1 }, texture_coordinate: Pt2M { x: o, y: z } },
        VertexM { position: Pt2M { x: p1, y: p1 }, texture_coordinate: Pt2M { x: o, y: o } },
        VertexM { position: Pt2M { x: n1, y: n1 }, texture_coordinate: Pt2M { x: z, y: z } },
        VertexM { position: Pt2M { x: p1, y: p1 }, texture_coordinate: Pt2M { x: o, y: o } },
        VertexM { position: Pt2M { x: n1, y: p1 }, texture_coordinate: Pt2M { x: z, y: o } },
    ]
}

/// Builds the degenerate single-quad vertex buffer over `[-1, 1]²`, used
/// when no instancing is wanted.
pub fn build_quad() -> (verts: Vec<Vertex>)
    ensures
        vertex_views(verts@) == quad_vertices(),
        verts@.len() == 6,
{
    let nd: Rect = Rect::ndc();
    let c: Vec<Pt2> = nd.corners();
    let uvr: Rect = Rect::unit();
    let u: Vec<Pt2> = uvr.corners();
    let mut verts: Vec<Vertex> = Vec::new();
    verts.push(Vertex { position: c[0], texture_coordinate: u[0] });
    verts.push(Vertex { position: c[1], texture_coordinate: u[1] });
    verts.push(Vertex { position: c[2], texture_coordinate: u[2] });
    verts.push(Vertex { position: c[0], texture_coordinate: u[0] });
    verts.push(Vertex { position: c[2], texture_coordinate: u[2] });
    verts.push(Vertex { position: c[3], texture_coordinate: u[3] });
    assert(vertex_views(verts@) =~= quad_vertices());
    verts
}

/// The buffer sizes are pinned by the split alone: six vertices per
/// mesh-tier node and one instance per instance-tier node, with node counts
/// equal to the branching factor raised to the respective depth.
pub proof fn lemma_buffer_counts(
    bounds: RectM,
    letterbox: AffM,
    children: Seq<AffM>,
    mesh: nat,
    instance: nat,
)
    requires
        mesh <= instance,
    ensures
        mesh_vertices(bounds, nodes_at(children, mesh)).len() == 6 * pow(
            children.len() as int,
            mesh,
        ),
        instance_list(letterbox, nodes_at(children, instance)).len() == pow(
            children.len() as int,
            instance,
        ),
{
    lemma_nodes_count(children, mesh);
    lemma_nodes_count(children, instance);
    lemma_mesh_vertices_len(bounds, nodes_at(children, mesh));
    lemma_instance_list_len(letterbox, nodes_at(children, instance));
}

/// At mesh depth zero the buffer is a single quad: six vertices whose
/// positions equal the six triangle-template points of the bounding
/// rectangle in value, with the fixed texture coordinates.  The vertex
/// buffer depends only on the mesh-tier nodes, so the instance depth does
/// not enter.
pub proof fn lemma_depth_zero(children: Seq<AffM>, bounds: RectM)
    requires
        rect_wf(bounds),
    ensures
        mesh_vertices(bounds, nodes_at(children, 0)).len() == 6,
        forall|j: int|
            0 <= j < 6 ==> pm_eqv(
                #[trigger] mesh_vertices(bounds, nodes_at(children, 0))[j].position,
                tri_template(bounds)[j],
            ),
        forall|j: int|
            0 <= j < 6 ==> #[trigger] mesh_vertices(bounds, nodes_at(children, 0))[
                j
            ].texture_coordinate == uv_template()[j],
{
    let ns = nodes_at(children, 0);
    assert(ns.len() == 1);
    assert(ns.last() == am_identity());
    assert(ns.drop_last() =~= Seq::<AffM>::empty());
    assert(mesh_vertices(bounds, Seq::<AffM>::empty()) =~= Seq::<VertexM>::empty());
    assert(mesh_vertices(bounds, ns) =~= node_vertices(am_identity(), bounds));
    assert forall|j: int| 0 <= j < 6 implies pm_eqv(
        #[trigger] mesh_vertices(bounds, ns)[j].position,
        tri_template(bounds)[j],
    ) by {
        assert(pm_wf(tri_template(bounds)[j]));
        lemma_apply_identity(tri_template(bounds)[j]);
    }
}

/// Generation is deterministic: the contracts of `build_mesh` pin both
/// buffers to functions of the inputs alone, so two generation calls with
/// identical inputs produce identical buffers.
pub proof fn lemma_generation_deterministic(
    bounds: RectM,
    target: RectM,
    children: Seq<AffM>,
    mesh: nat,
    instance: nat,
    v1: Seq<VertexM>,
    i1: Seq<InstanceM>,
    v2: Seq<VertexM>,
    i2: Seq<InstanceM>,
)
    requires
        v1 == mesh_vertices(bounds, nodes_at(children, mesh)),
        i1 == instance_list(rm_fit(target, bounds), nodes_at(children, instance)),
        v2 == mesh_vertices(bounds, nodes_at(children, mesh)),
        i2 == instance_list(rm_fit(target, bounds), nodes_at(children, instance)),
    ensures
        v1 == v2,
        i1 == i2,
{
}

} // verus!
