use vulkan_engine::scene::model::mesh::submesh_ranges;

#[test]
fn submeshes_follow_each_other_in_the_index_buffer() {
    assert_eq!(submesh_ranges(&vec![2, 0, 5]), vec![(0, 6), (6, 0), (6, 15)]);
    assert_eq!(submesh_ranges(&vec![]), vec![]);
}
