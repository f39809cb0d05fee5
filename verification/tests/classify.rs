use anim_to_vtk::classify::classify_2d;
use anim_to_vtk::classify::classify_3d;
use anim_to_vtk::classify::Cell;

#[test]
fn degenerate_volume_is_a_sorted_tetrahedron() {
    assert_eq!(classify_3d([1, 2, 3, 4, 4, 4, 4, 4]), Cell::Tetra(1, 2, 3, 4));
}

#[test]
fn full_volume_is_an_unchanged_hexahedron() {
    assert_eq!(
        classify_3d([1, 2, 3, 4, 5, 6, 7, 8]),
        Cell::Hexa(1, 2, 3, 4, 5, 6, 7, 8)
    );
}

#[test]
fn tetrahedron_nodes_come_out_ascending() {
    assert_eq!(classify_3d([9, 7, 7, 3, 3, 5, 9, 9]), Cell::Tetra(3, 5, 7, 9));
    assert_eq!(classify_3d([-1, 4, -1, 4, 0, 0, 2, 2]), Cell::Tetra(-1, 0, 2, 4));
}

#[test]
fn volume_with_other_counts_stays_a_hexahedron() {
    assert_eq!(
        classify_3d([5, 5, 5, 5, 5, 5, 5, 5]),
        Cell::Hexa(5, 5, 5, 5, 5, 5, 5, 5)
    );
    assert_eq!(
        classify_3d([8, 7, 6, 5, 4, 4, 4, 4]),
        Cell::Hexa(8, 7, 6, 5, 4, 4, 4, 4)
    );
    assert_eq!(
        classify_3d([1, 1, 2, 2, 3, 3, 3, 3]),
        Cell::Hexa(1, 1, 2, 2, 3, 3, 3, 3)
    );
}

#[test]
fn facet_with_three_nodes_is_a_triangle_with_code_5() {
    let cell = classify_2d([7, 3, 5, 5]);
    assert_eq!(cell, Cell::Triangle(7, 3, 5));
    assert_eq!(cell.type_code(), 5);
}

#[test]
fn triangle_keeps_the_order_of_the_slots() {
    assert_eq!(classify_2d([9, 9, 2, 4]), Cell::Triangle(9, 2, 4));
    assert_eq!(classify_2d([9, 2, 9, 4]), Cell::Triangle(9, 2, 4));
    assert_eq!(classify_2d([4, 2, 9, 4]), Cell::Triangle(4, 2, 9));
}

#[test]
fn facet_with_four_nodes_is_a_quad_with_code_9() {
    let cell = classify_2d([4, 3, 2, 1]);
    assert_eq!(cell, Cell::Quad(4, 3, 2, 1));
    assert_eq!(cell.type_code(), 9);
}

#[test]
fn facet_with_fewer_than_three_nodes_is_a_quad() {
    assert_eq!(classify_2d([1, 1, 2, 2]), Cell::Quad(1, 1, 2, 2));
    assert_eq!(classify_2d([6, 6, 6, 6]), Cell::Quad(6, 6, 6, 6));
}

#[test]
fn type_codes_of_all_shapes() {
    assert_eq!(Cell::Vertex(0).type_code(), 1);
    assert_eq!(Cell::Edge(0, 1).type_code(), 3);
    assert_eq!(Cell::Triangle(0, 1, 2).type_code(), 5);
    assert_eq!(Cell::Quad(0, 1, 2, 3).type_code(), 9);
    assert_eq!(Cell::Tetra(0, 1, 2, 3).type_code(), 10);
    assert_eq!(Cell::Hexa(0, 1, 2, 3, 4, 5, 6, 7).type_code(), 12);
}

#[test]
fn node_lists_follow_output_order() {
    assert_eq!(Cell::Vertex(4).node_list(), vec![4]);
    assert_eq!(Cell::Edge(4, 2).node_list(), vec![4, 2]);
    assert_eq!(Cell::Tetra(1, 2, 3, 4).node_list(), vec![1, 2, 3, 4]);
    assert_eq!(
        Cell::Hexa(8, 7, 6, 5, 4, 3, 2, 1).node_list(),
        vec![8, 7, 6, 5, 4, 3, 2, 1]
    );
}
