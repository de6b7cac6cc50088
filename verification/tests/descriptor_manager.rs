use vulkan_engine::renderer::descriptor_manager::DescriptorManager;

type Manager = DescriptorManager<u64, 3>;

#[test]
fn a_cached_set_is_handed_out_again() {
    let mut m: Manager = DescriptorManager::new();
    let first = m.get_descriptor_set(7, 0xabc, || Ok::<u64, ()>(100));
    assert_eq!(first, Ok(100));
    // the second request is served from the cache: the allocator is not asked
    let second = m.get_descriptor_set(7, 0xabc, || Err::<u64, ()>(()));
    assert_eq!(second, Ok(100));
}

#[test]
fn a_failed_allocation_caches_nothing() {
    let mut m: Manager = DescriptorManager::new();
    assert_eq!(m.get_descriptor_set(1, 5, || Err::<u64, &str>("out of memory")), Err("out of memory"));
    assert_eq!(m.get_descriptor_set(1, 5, || Ok::<u64, &str>(9)), Ok(9));
}

#[test]
fn an_unused_set_is_freed_when_the_ring_comes_back() {
    let mut m: Manager = DescriptorManager::new();
    assert_eq!(m.get_descriptor_set(0, 1, || Ok::<u64, ()>(11)), Ok(11));
    assert_eq!(m.get_descriptor_set(0, 2, || Ok::<u64, ()>(22)), Ok(22));
    assert_eq!(m.next_frame(), Vec::<u64>::new());
    assert_eq!(m.next_frame(), Vec::<u64>::new());
    // back at frame 0: both sets go, in the order they were taken
    assert_eq!(m.next_frame(), vec![11, 22]);
    assert_eq!(m.get_descriptor_set(0, 1, || Ok::<u64, ()>(33)), Ok(33));
}

#[test]
fn using_a_set_again_moves_it_to_the_current_frame() {
    let mut m: Manager = DescriptorManager::new();
    assert_eq!(m.get_descriptor_set(0, 1, || Ok::<u64, ()>(11)), Ok(11));
    assert_eq!(m.next_frame(), Vec::<u64>::new());
    // frame 1 uses the set: it now belongs to frame 1
    assert_eq!(m.get_descriptor_set(0, 1, || Ok::<u64, ()>(99)), Ok(11));
    assert_eq!(m.next_frame(), Vec::<u64>::new());
    assert_eq!(m.next_frame(), Vec::<u64>::new());
    assert_eq!(m.next_frame(), vec![11]);
}

#[test]
fn a_set_is_cached_per_layout() {
    let mut m: Manager = DescriptorManager::new();
    assert_eq!(m.get_descriptor_set(7, 0xabc, || Ok::<u64, ()>(100)), Ok(100));
    // same contents, another layout: a set of its own is made
    assert_eq!(m.get_descriptor_set(8, 0xabc, || Ok::<u64, ()>(200)), Ok(200));
    // and each layout gets its own set back
    assert_eq!(m.get_descriptor_set(7, 0xabc, || Err::<u64, ()>(())), Ok(100));
    assert_eq!(m.get_descriptor_set(8, 0xabc, || Err::<u64, ()>(())), Ok(200));
    assert_eq!(m.next_frame(), Vec::<u64>::new());
    assert_eq!(m.next_frame(), Vec::<u64>::new());
    assert_eq!(m.next_frame(), vec![100, 200]);
}
