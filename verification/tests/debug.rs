use vulkan_engine::debug::has_validation_layers_support;

#[test]
fn validation_layer_found_among_others() {
    let layers = vec![
        "VK_LAYER_MESA_overlay".to_string(),
        "VK_LAYER_KHRONOS_validation".to_string(),
    ];
    assert!(has_validation_layers_support(&layers));
}

#[test]
fn validation_layer_missing() {
    let layers = vec!["VK_LAYER_MESA_overlay".to_string()];
    assert!(!has_validation_layers_support(&layers));
    assert!(!has_validation_layers_support(&Vec::new()));
}
