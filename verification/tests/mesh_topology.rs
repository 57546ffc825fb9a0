use fem_2d::elem::ElemUninit;
use fem_2d::mesh::has_duplicates;
use fem_2d::mesh::Mesh;
use fem_2d::mesh::MeshError;
use fem_2d::mesh::RawElement;
use fem_2d::refinement::Bisection;
use fem_2d::refinement::HRef;
use fem_2d::refinement::HRefError;
use fem_2d::refinement::PRef;
use fem_2d::refinement::PRefError;
use fem_2d::space::Point;

fn bits(x: f64) -> u64 {
    x.to_bits()
}

fn val(x: u64) -> f64 {
    f64::from_bits(x)
}

fn pt(x: f64, y: f64) -> Point {
    Point::new(bits(x), bits(y))
}

fn raw(n: [usize; 4]) -> RawElement {
    RawElement { node_ids: n, materials: [bits(1.0), bits(0.0), bits(1.0), bits(0.0)] }
}

/// A two-by-two block of unit squares: nine nodes, one interior.
fn grid_points() -> Vec<Point> {
    let mut points = Vec::new();
    for y in 0..3 {
        for x in 0..3 {
            points.push(pt(x as f64, y as f64));
        }
    }
    points
}

fn grid_elements() -> Vec<RawElement> {
    vec![raw([0, 1, 3, 4]), raw([1, 2, 4, 5]), raw([3, 4, 6, 7]), raw([4, 5, 7, 8])]
}

fn grid_mesh() -> Mesh {
    Mesh::from_raw(grid_points(), grid_elements()).unwrap()
}

#[test]
fn boundary_flags_follow_adjacency() {
    let mesh = grid_mesh();
    assert_eq!(mesh.nodes.len(), 9);
    assert_eq!(mesh.elems.len(), 4);
    assert_eq!(mesh.elements.len(), 4);
    assert_eq!(mesh.edges.len(), 12);

    // the center node is shared by all four elements; every other node is
    // a boundary node
    for node in &mesh.nodes {
        assert_eq!(node.boundary, node.id != 4);
    }

    // every edge has one or two adjacent elements, and is a boundary edge
    // exactly when it has one
    let mut n_interior = 0;
    for edge in &mesh.edges {
        let n_adj = edge.adjacent_elems.iter().filter(|a| a.is_some()).count();
        assert!(n_adj == 1 || n_adj == 2);
        assert_eq!(edge.boundary, n_adj == 1);
        if n_adj == 2 {
            n_interior += 1;
        }
    }
    assert_eq!(n_interior, 4);
}

#[test]
fn malformed_connectivity_is_rejected() {
    // a node id past the node list
    let r = Mesh::from_raw(grid_points(), vec![raw([0, 1, 3, 9])]);
    assert!(matches!(r, Err(MeshError::NodeIdOutOfRange(0))));

    // repeated node ids within one element
    let r = Mesh::from_raw(grid_points(), vec![raw([0, 1, 3, 3])]);
    assert!(matches!(r, Err(MeshError::ElementNodeRepeated(0))));

    // two nodes at one location
    let mut points = grid_points();
    points.push(pt(0.0, 0.0));
    let r = Mesh::from_raw(points, grid_elements());
    assert!(matches!(r, Err(MeshError::DuplicateNodeLocations)));

    // one node shared by five elements
    let mut points = Vec::new();
    points.push(pt(0.0, 0.0));
    for k in 0..15 {
        points.push(pt(1.0 + k as f64, 1.0 + (k % 4) as f64 * 0.125));
    }
    let elements = vec![
        raw([0, 1, 2, 3]),
        raw([0, 4, 5, 6]),
        raw([0, 7, 8, 9]),
        raw([0, 10, 11, 12]),
        raw([0, 13, 14, 15]),
    ];
    let r = Mesh::from_raw(points, elements);
    assert!(matches!(r, Err(MeshError::NodeSharedByTooManyElements(0))));

    // a node no element references
    let mut points = grid_points();
    points.push(pt(7.0, 7.0));
    let r = Mesh::from_raw(points, grid_elements());
    assert!(matches!(r, Err(MeshError::UnreferencedNode(9))));
}

#[test]
fn h_refine_twice_fails_with_children_condition() {
    let mut mesh = grid_mesh();
    mesh.h_refine_elems(vec![0], HRef::T).unwrap();
    assert!(mesh.elems[0].has_children());
    assert_eq!(mesh.elems[0].child_ids().unwrap(), vec![4, 5, 6, 7]);

    let second = mesh.h_refine_elems(vec![0], HRef::T);
    assert!(matches!(second, Err(HRefError::ElemHasChildren(0))));
}

#[test]
fn refinement_shares_split_nodes_and_halves_coordinates() {
    let mut mesh = grid_mesh();
    let n_nodes_before = mesh.nodes.len();
    mesh.h_refine_elems(vec![0], HRef::T).unwrap();
    // five new nodes: four edge midpoints and the center
    assert_eq!(mesh.nodes.len(), n_nodes_before + 5);
    // four new interior edges
    assert_eq!(mesh.edges.len(), 12 + 4);

    // the first child spans the lower-left quarter of element zero, whose
    // corners are (0,0) and (1,1); its far corner node sits at (0.5, 0.5)
    let child = &mesh.elems[4];
    assert_eq!(child.parent_id(), Some(0));
    let far = child.nodes[3];
    assert!((val(mesh.nodes[far].coords.x) - 0.5).abs() < 1e-15);
    assert!((val(mesh.nodes[far].coords.y) - 0.5).abs() < 1e-15);

    // refining the neighbor reuses the midpoint of the shared edge
    let before = mesh.nodes.len();
    mesh.h_refine_elems(vec![1], HRef::T).unwrap();
    assert_eq!(mesh.nodes.len(), before + 4);
}

#[test]
fn uninitialized_commit_is_rejected() {
    let mesh = grid_mesh();
    let mut counter = mesh.elems.len();
    let mut parent = mesh.elems[0].clone();
    let uninits = parent.h_refine(HRef::T, &mut counter).unwrap();
    assert_eq!(uninits.len(), 4);
    assert_eq!(counter, mesh.elems.len() + 4);

    // filling only seven of the eight slots leaves the builder uncommittable
    let mut u = uninits[0].clone();
    let id = u.id;
    u.set_node(0, 0);
    u.set_node(1, 9);
    u.set_node(2, 10);
    u.set_node(3, 11);
    u.set_edge(0, 0);
    u.set_edge(1, 12);
    u.set_edge(2, 13);
    let r = u.clone().into_elem();
    assert!(matches!(r, Err(HRefError::UninitializedElem(i)) if i == id));

    // the eighth slot completes it
    u.set_edge(3, 14);
    let elem = u.into_elem().unwrap();
    assert_eq!(elem.id, id);
    assert!(!elem.has_children());
}

#[test]
fn bisections_produce_two_children() {
    let mut mesh = grid_mesh();
    mesh.h_refine_elems(vec![0], HRef::U(None)).unwrap();
    assert_eq!(mesh.elems[0].child_ids().unwrap().len(), 2);
    mesh.h_refine_elems(vec![1], HRef::V(Some(Bisection { ratio: bits(0.25) }))).unwrap();
    assert_eq!(mesh.elems[1].child_ids().unwrap().len(), 2);
    // all four new elems are leaves
    for k in 4..8 {
        assert!(!mesh.elems[k].has_children());
    }
}

#[test]
fn children_inherit_orders_and_advance_depths() {
    let mut mesh = grid_mesh();
    mesh.set_expansion_on_elems(vec![0], [3, 2]).unwrap();
    mesh.h_refine_elems(vec![0], HRef::T).unwrap();
    for &cid in mesh.elems[0].child_ids().unwrap().iter() {
        let child = &mesh.elems[cid];
        assert_eq!(child.parent_id(), Some(0));
        assert_eq!(child.poly_orders.i, 3);
        assert_eq!(child.poly_orders.j, 2);
        assert_eq!(child.h_levels.u, 1);
        assert_eq!(child.h_levels.v, 1);
        assert_eq!(child.element_id, 0);
    }
    // a u-axis bisection advances only the u depth
    let first_child = mesh.elems[0].child_ids().unwrap()[0];
    mesh.h_refine_elems(vec![first_child], HRef::U(None)).unwrap();
    let grandchild = mesh.elems[first_child].child_ids().unwrap()[0];
    assert_eq!(mesh.elems[grandchild].h_levels.u, 2);
    assert_eq!(mesh.elems[grandchild].h_levels.v, 1);
}

#[test]
fn degenerate_bisection_ratios_are_rejected() {
    // a cut past the end of the window leaves a child of negative width
    let mut mesh = grid_mesh();
    let r = mesh.h_refine_elems(vec![0], HRef::U(Some(Bisection { ratio: bits(2.0) })));
    assert!(matches!(r, Err(HRefError::MinEdgeLength(0))));
    // a cut at a NaN ratio leaves no defined width at all
    let r = mesh.h_refine_elems(vec![0], HRef::V(Some(Bisection { ratio: bits(f64::NAN) })));
    assert!(matches!(r, Err(HRefError::MinEdgeLength(0))));
    // a lawful uneven ratio still succeeds
    mesh.h_refine_elems(vec![0], HRef::U(Some(Bisection { ratio: bits(0.25) }))).unwrap();
    assert!(mesh.elems[0].has_children());
}

#[test]
fn refinement_stops_at_minimum_edge_length() {
    let mut mesh = grid_mesh();
    let mut target = 0;
    // twenty levels succeed; the twenty-first would shrink the parametric
    // edge below the minimum length
    for _ in 0..20 {
        mesh.h_refine_elems(vec![target], HRef::T).unwrap();
        target = *mesh.elems[target].child_ids().unwrap().first().unwrap();
    }
    let r = mesh.h_refine_elems(vec![target], HRef::T);
    assert!(matches!(r, Err(HRefError::MinEdgeLength(id)) if id == target));
}

#[test]
fn p_refinement_respects_order_bounds() {
    let mut mesh = grid_mesh();
    mesh.set_expansion_on_elems(vec![0, 1], [3, 2]).unwrap();
    assert_eq!(mesh.elems[0].poly_orders.i, 3);
    assert_eq!(mesh.elems[1].poly_orders.j, 2);
    assert_eq!(mesh.max_expansion_orders(), [3, 2]);

    let r = mesh.set_expansion_on_elems(vec![0], [21, 1]);
    assert!(matches!(r, Err(PRefError::ExceededMaxExpansion(0))));

    mesh.global_p_refinement(PRef::from(1, 1)).unwrap();
    assert_eq!(mesh.elems[0].poly_orders.i, 4);
    assert_eq!(mesh.elems[2].poly_orders.i, 2);

    let r = mesh.global_p_refinement(PRef::from(-6, 0));
    assert!(matches!(r, Err(PRefError::NegativeExpansion(_))));
    let r = mesh.global_p_refinement(PRef::from(17, 0));
    assert!(matches!(r, Err(PRefError::ExceededMaxExpansion(_))));
}

#[test]
fn duplicate_detection_finds_repeats_only() {
    assert!(!has_duplicates(&[]));
    assert!(!has_duplicates(&[7]));
    assert!(!has_duplicates(&[0, 1, 3, 4]));
    assert!(has_duplicates(&[0, 1, 3, 1]));
    assert!(has_duplicates(&[5, 5]));
}

#[test]
fn parametric_projection_maps_into_unit_square() {
    let mesh = grid_mesh();
    // element 0 spans (0,0) to (1,1); its center projects to the parametric
    // origin, and a quarter point to (-0.5, -0.5)
    let elem = &mesh.elems[0];
    let element = &mesh.elements[elem.element_id];
    let center = elem.try_parametric_projection(element, pt(0.5, 0.5)).unwrap();
    assert!(val(center.x).abs() < 1e-15);
    assert!(val(center.y).abs() < 1e-15);
    let quarter = elem.try_parametric_projection(element, pt(0.25, 0.25)).unwrap();
    assert!((val(quarter.x) + 0.5).abs() < 1e-15);
    assert!((val(quarter.y) + 0.5).abs() < 1e-15);
    // a point outside the element is rejected
    assert!(elem.try_parametric_projection(element, pt(1.5, 0.5)).is_none());

    // the gradient of the unit square's map is half the unit matrix
    let g = elem.parametric_gradient(element, center);
    assert!((val(g.u.x) - 0.5).abs() < 1e-15);
    assert!(val(g.u.y).abs() < 1e-15);
    assert!(val(g.v.x).abs() < 1e-15);
    assert!((val(g.v.y) - 0.5).abs() < 1e-15);
    let inv = g.inverse();
    assert!((val(inv.u.x) - 2.0).abs() < 1e-15);
    assert!((val(inv.v.y) - 2.0).abs() < 1e-15);
    assert!((val(g.det()) - 0.25).abs() < 1e-15);
}

#[test]
fn blank_mesh_is_empty() {
    let mesh = Mesh::blank();
    assert!(mesh.elems.is_empty());
    assert!(mesh.nodes.is_empty());
    assert!(mesh.edges.is_empty());
    assert!(mesh.elements.is_empty());
    let _ = ElemUninit::new(
        0,
        0,
        HRef::T,
        0,
        0,
        &fem_2d::refinement::HLevels::default(),
        fem_2d::refinement::PolyOrders::default(),
        fem_2d::space::full_range(),
    );
}
