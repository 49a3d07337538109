use flame_mesh::affine::{Affine, Pt2};
use flame_mesh::fitting::letter_box;
use flame_mesh::mesh::{
    build_mesh, build_quad, nodes_at_depth, pack_instance, split_levels, try_nodes_at_depth,
    unpack_instance, Instance, LevelSplit, PipelineDesc, Vertex,
};
use flame_mesh::rational::Rat;
use flame_mesh::rect::Rect;

fn r(num: i64, den: i64) -> Rat {
    Rat::new(num, den)
}

fn pt(x: Rat, y: Rat) -> Pt2 {
    Pt2::new(x, y)
}

/// The subdivision rule of a quadtree: four children, each scaling the parent
/// cell by one half towards one corner of `[-1, 1]²`.
fn quadrant_children() -> Vec<Affine> {
    let mut children: Vec<Affine> = Vec::new();
    let half = r(1, 2);
    let zero = Rat::zero();
    for (ex, ey) in [(-1i64, -1i64), (1, -1), (-1, 1), (1, 1)] {
        children.push(Affine::new(half, zero, zero, half, r(ex, 2), r(ey, 2)));
    }
    children
}

fn ndc() -> Rect {
    Rect::new(pt(r(-1, 1), r(-1, 1)), pt(r(1, 1), r(1, 1)))
}

#[test]
fn quad_has_six_template_vertices() {
    let verts = build_quad();
    assert_eq!(verts.len(), 6);
    let expect_pos = [(-1, -1), (1, -1), (1, 1), (-1, -1), (1, 1), (-1, 1)];
    let expect_uv = [(0, 0), (1, 0), (1, 1), (0, 0), (1, 1), (0, 1)];
    for j in 0..6 {
        assert_eq!(verts[j].position.x.num, expect_pos[j].0);
        assert_eq!(verts[j].position.x.den, 1);
        assert_eq!(verts[j].position.y.num, expect_pos[j].1);
        assert_eq!(verts[j].position.y.den, 1);
        assert_eq!(verts[j].texture_coordinate.x.num, expect_uv[j].0);
        assert_eq!(verts[j].texture_coordinate.y.num, expect_uv[j].1);
    }
}

#[test]
fn pack_round_trip_restores_transform() {
    let t = Affine::new(r(1, 2), r(-3, 4), r(5, 6), r(-7, 8), r(9, 10), r(-11, 12));
    let packed: Instance = pack_instance(&t);
    // row0 = (s0, s3, s6, 0), row1 = (s1, s4, s7, 0) of the column-major 3×3.
    assert_eq!(packed.r0c0, t.a);
    assert_eq!(packed.r0c1, t.c);
    assert_eq!(packed.r0c2, t.e);
    assert_eq!(packed.r0c3.num, 0);
    assert_eq!(packed.r1c0, t.b);
    assert_eq!(packed.r1c1, t.d);
    assert_eq!(packed.r1c2, t.f);
    assert_eq!(packed.r1c3.num, 0);
    let back = unpack_instance(&packed);
    assert_eq!(back, t);
    // The restored transform acts identically on a sample point.
    let p = pt(r(2, 3), r(-5, 7));
    assert_eq!(t.apply(&p), back.apply(&p));
}

#[test]
fn depth_zero_visits_only_the_root() {
    let children = quadrant_children();
    let nodes = nodes_at_depth(&children, 0);
    assert_eq!(nodes.len(), 1);
    let id = &nodes[0];
    assert!(id.a.eq_val(&Rat::one()));
    assert!(id.b.eq_val(&Rat::zero()));
    assert!(id.c.eq_val(&Rat::zero()));
    assert!(id.d.eq_val(&Rat::one()));
    assert!(id.e.eq_val(&Rat::zero()));
    assert!(id.f.eq_val(&Rat::zero()));
}

#[test]
fn depth_one_yields_children_in_rule_order() {
    let children = quadrant_children();
    let nodes = nodes_at_depth(&children, 1);
    assert_eq!(nodes.len(), 4);
    for (node, child) in nodes.iter().zip(children.iter()) {
        assert!(node.a.eq_val(&child.a));
        assert!(node.b.eq_val(&child.b));
        assert!(node.c.eq_val(&child.c));
        assert!(node.d.eq_val(&child.d));
        assert!(node.e.eq_val(&child.e));
        assert!(node.f.eq_val(&child.f));
    }
}

#[test]
fn node_counts_grow_with_branching() {
    let children = quadrant_children();
    assert_eq!(nodes_at_depth(&children, 2).len(), 16);
    assert_eq!(nodes_at_depth(&children, 3).len(), 64);
}

#[test]
fn guarded_traversal_matches_unguarded() {
    let children = quadrant_children();
    let guarded = try_nodes_at_depth(&children, 3).expect("small entries stay representable");
    let plain = nodes_at_depth(&children, 3);
    assert_eq!(guarded, plain);
}

#[test]
fn guarded_traversal_rejects_overflowing_depth() {
    // A single child that scales by 2^40: one level is representable, but
    // two levels square the entry past 64 bits.
    let big: i64 = 1 << 40;
    let children = vec![Affine::new(
        Rat::from_int(big),
        Rat::zero(),
        Rat::zero(),
        Rat::from_int(big),
        Rat::zero(),
        Rat::zero(),
    )];
    assert!(try_nodes_at_depth(&children, 1).is_some());
    assert!(try_nodes_at_depth(&children, 2).is_none());
}

#[test]
fn buffer_counts_follow_the_split() {
    let children = quadrant_children();
    let split = LevelSplit::new(1, 2);
    let (verts, instances) = build_mesh(&ndc(), &children, &split, &ndc());
    // 6 × 4¹ vertices and 4² instances.
    assert_eq!(verts.len(), 24);
    assert_eq!(instances.len(), 16);
}

#[test]
fn end_to_end_quadrants() {
    // Source extent [2,2] centered at the origin, destination [-1,1]²,
    // mesh depth 0 and instance depth 1 with branching factor 4: one baked
    // quad and four instances, each mapping the quad into one quadrant.
    let children = quadrant_children();
    let bounds = ndc();
    let split = LevelSplit::new(0, 1);
    let (verts, instances) = build_mesh(&bounds, &children, &split, &ndc());
    assert_eq!(verts.len(), 6);
    let expect_pos = [(-1, -1), (1, -1), (1, 1), (-1, -1), (1, 1), (-1, 1)];
    for j in 0..6 {
        assert!(verts[j].position.x.eq_val(&Rat::from_int(expect_pos[j].0)));
        assert!(verts[j].position.y.eq_val(&Rat::from_int(expect_pos[j].1)));
    }
    assert_eq!(instances.len(), 4);
    let corners = [(-1i64, -1i64), (1, -1), (-1, 1), (1, 1)];
    for (inst, (ex, ey)) in instances.iter().zip(corners.iter()) {
        let t = unpack_instance(inst);
        // Uniform half scale towards the quadrant corner.
        assert!(t.a.eq_val(&r(1, 2)));
        assert!(t.b.eq_val(&Rat::zero()));
        assert!(t.c.eq_val(&Rat::zero()));
        assert!(t.d.eq_val(&r(1, 2)));
        assert!(t.e.eq_val(&r(*ex, 2)));
        assert!(t.f.eq_val(&r(*ey, 2)));
        // The quad's corner (ex, ey) lands on the quadrant's outer corner.
        let image = t.apply(&pt(Rat::from_int(*ex), Rat::from_int(*ey)));
        assert!(image.x.eq_val(&Rat::from_int(*ex)));
        assert!(image.y.eq_val(&Rat::from_int(*ey)));
        // The quad's center lands on the quadrant's center.
        let center = t.apply(&pt(Rat::zero(), Rat::zero()));
        assert!(center.x.eq_val(&r(*ex, 2)));
        assert!(center.y.eq_val(&r(*ey, 2)));
    }
}

#[test]
fn generation_is_deterministic() {
    let children = quadrant_children();
    let split = LevelSplit::new(1, 3);
    let bounds = Rect::new(pt(r(-3, 2), r(-1, 1)), pt(r(3, 2), r(1, 1)));
    let first: (Vec<Vertex>, Vec<Instance>) = build_mesh(&bounds, &children, &split, &ndc());
    let second: (Vec<Vertex>, Vec<Instance>) = build_mesh(&bounds, &children, &split, &ndc());
    // Byte-identical output: every numerator and denominator matches.
    assert_eq!(first.0, second.0);
    assert_eq!(first.1, second.1);
}

#[test]
fn letterbox_enters_every_instance() {
    // With a non-trivial viewport the letterbox transform is composed into
    // each packed instance: bounds [0,1]² fitted into [-1,1]² scales by two.
    let children = quadrant_children();
    let bounds = Rect::new(pt(r(0, 1), r(0, 1)), pt(r(1, 1), r(1, 1)));
    let split = LevelSplit::new(0, 0);
    let (_, instances) = build_mesh(&bounds, &children, &split, &ndc());
    assert_eq!(instances.len(), 1);
    let t = unpack_instance(&instances[0]);
    let l = letter_box(&ndc(), &bounds);
    // The sole instance at depth zero is the letterbox transform itself.
    assert!(t.a.eq_val(&l.a));
    assert!(t.d.eq_val(&l.d));
    assert!(t.e.eq_val(&l.e));
    assert!(t.f.eq_val(&l.f));
    assert!(t.a.eq_val(&r(2, 1)));
}

#[test]
fn split_policy_is_fixed_and_ordered() {
    let s = split_levels();
    assert_eq!(s.mesh, 2);
    assert_eq!(s.instance, 5);
    assert!(s.mesh <= s.instance);
    let d = PipelineDesc;
    assert_eq!(d.split(), s);
}
