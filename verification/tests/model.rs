use vulkan_engine::renderer::model::Model;

fn midpoint(a: &(i64, i64), b: &(i64, i64)) -> (i64, i64) {
    ((a.0 + b.0) / 2, (a.1 + b.1) / 2)
}

#[test]
fn insert_visibly_hands_out_new_handles() {
    let mut m: Model<(i64, i64), u32> = Model::new(vec![], vec![]);
    let h1 = m.insert_visibly(10);
    let h2 = m.insert_visibly(20);
    assert_ne!(h1, h2);
    assert_eq!(h1, 0);
    assert_eq!(h2, 1);
    assert_eq!(m.get_mut(h1).copied(), Some(10));
    assert_eq!(m.get_mut(h2).copied(), Some(20));
    assert_eq!(m.get_mut(7), None);
}

#[test]
fn get_mut_changes_the_instance_in_place() {
    let mut m: Model<(i64, i64), u32> = Model::new(vec![], vec![]);
    let h = m.insert_visibly(1);
    *m.get_mut(h).unwrap() = 5;
    assert_eq!(m.get_mut(h).copied(), Some(5));
}

#[test]
fn refine_one_triangle() {
    let mut m: Model<(i64, i64), u32> =
        Model::new(vec![(0, 0), (4, 0), (0, 4)], vec![0, 1, 2]);
    m.refine(midpoint);
    let h = m.insert_visibly(3);
    assert_eq!(m.get_mut(h).copied(), Some(3));
    assert_eq!(m.index_list(), &vec![5, 0, 3, 3, 1, 4, 4, 2, 5, 3, 4, 5]);
    assert_eq!(m.vertex_list(), &vec![(0, 0), (4, 0), (0, 4), (2, 0), (2, 2), (0, 2)]);
}

#[test]
fn refine_shares_the_vertex_of_a_common_edge() {
    let mut m: Model<(i64, i64), u32> =
        Model::new(vec![(0, 0), (4, 0), (0, 4), (4, 4)], vec![0, 1, 2, 2, 1, 3]);
    m.refine(midpoint);
    // edges: (0,1) (1,2) (2,0) (1,3) (3,2); the edge (2,1) is (1,2) again
    assert_eq!(m.vertex_list().len(), 9);
    assert_eq!(
        m.index_list(),
        &vec![6, 0, 4, 4, 1, 5, 5, 2, 6, 4, 5, 6, 8, 2, 5, 5, 1, 7, 7, 3, 8, 5, 7, 8]
    );
    assert_eq!(m.vertex_list()[5], (2, 2));
}

#[test]
fn refine_twice_quadruples_twice() {
    let mut m: Model<(i64, i64), u32> =
        Model::new(vec![(0, 0), (8, 0), (0, 8)], vec![0, 1, 2]);
    m.refine(midpoint);
    m.refine(midpoint);
    assert_eq!(m.index_list().len(), 48);
    // 3 corners, 3 + 9 new vertices
    assert_eq!(m.vertex_list().len(), 15);
    assert!(m.index_list().iter().all(|&i| (i as usize) < m.vertex_list().len()));
}

#[test]
fn refine_of_no_triangles_changes_nothing() {
    let mut m: Model<(i64, i64), u32> = Model::new(vec![(1, 1)], vec![]);
    m.refine(midpoint);
    assert_eq!(m.vertex_list(), &vec![(1, 1)]);
    assert!(m.index_list().is_empty());
}
