use vulkan_engine::spirv::TypeKind;
use vulkan_engine::ve_shader_reflect::{
    merge, reflect_shader, set_bindings_from_uniforms, BlockLayout, BlockMember, BlockMemberType,
    ImageDimension, MemberInfo, SetBinding, SetBindingData, ShaderError, ShaderInfo, UniformInfo,
};

fn block(members: Vec<(BlockMemberType, u32, u32, &str)>, total: u32) -> SetBindingData {
    SetBindingData::UniformBuffer {
        layout: BlockLayout {
            members: members
                .into_iter()
                .map(|(kind, offset, size, name)| BlockMember { kind, offset, size, name: name.to_string() })
                .collect(),
            block_name: "Block".to_string(),
            total_size: total,
        },
    }
}

fn binding(set: u32, binding: u32, data: SetBindingData, name: &str) -> SetBinding {
    SetBinding { set, binding, data, var_name: name.to_string() }
}

fn info(bindings: Vec<SetBinding>) -> ShaderInfo {
    ShaderInfo { set_bindings: bindings, push_constants: None }
}

#[test]
fn merge_appends_new_slots() {
    let a = info(vec![binding(0, 0, block(vec![(BlockMemberType::Float, 0, 4, "x")], 4), "a")]);
    let b = info(vec![
        binding(0, 0, block(vec![(BlockMemberType::Float, 0, 4, "y")], 4), "a"),
        binding(1, 0, SetBindingData::SampledImage { dim: ImageDimension::Two }, "tex"),
    ]);
    let merged = merge(a.clone(), &b, false).unwrap();
    assert_eq!(merged.set_bindings.len(), 2);
    assert_eq!(merged.set_bindings[0], a.set_bindings[0]);
    assert_eq!(merged.set_bindings[1], b.set_bindings[1]);
}

#[test]
fn merge_with_names_must_match() {
    let a = info(vec![binding(0, 0, block(vec![(BlockMemberType::Float, 0, 4, "x")], 4), "a")]);
    let b = info(vec![binding(0, 0, block(vec![(BlockMemberType::Float, 0, 4, "y")], 4), "a")]);
    match merge(a, &b, true) {
        Err(ShaderError::IncompatiblePropertyNames(new, existing)) => {
            assert_eq!((new.as_str(), existing.as_str()), ("a", "a"));
        }
        other => panic!("unexpected {:?}", other),
    }
}

#[test]
fn merge_rejects_different_layouts() {
    let a = info(vec![binding(0, 1, block(vec![(BlockMemberType::Float, 0, 4, "x")], 4), "first")]);
    let b = info(vec![binding(0, 1, block(vec![(BlockMemberType::FloatVector(2), 0, 8, "x")], 8), "second")]);
    match merge(a, &b, false) {
        Err(ShaderError::IncompatibleProperties(new, existing)) => {
            assert_eq!((new.as_str(), existing.as_str()), ("second", "first"));
        }
        other => panic!("unexpected {:?}", other),
    }
}

#[test]
fn merge_compares_only_the_common_members() {
    let a = info(vec![binding(0, 0, block(vec![(BlockMemberType::Float, 0, 4, "x")], 16), "a")]);
    let b = info(vec![binding(
        0,
        0,
        block(vec![(BlockMemberType::Float, 0, 4, "x"), (BlockMemberType::Float, 4, 4, "y")], 16),
        "a",
    )]);
    assert!(merge(a, &b, false).is_ok());
}

#[test]
fn merge_with_itself_gives_it_back() {
    let a = info(vec![
        binding(0, 0, block(vec![(BlockMemberType::Float, 0, 4, "x")], 4), "a"),
        binding(1, 2, SetBindingData::Sampler, "s"),
    ]);
    assert_eq!(merge(a.clone(), &a, true).unwrap(), a);
    assert_eq!(merge(a.clone(), &info(vec![]), true).unwrap(), a);
}

#[test]
fn reflect_rejects_what_is_not_spirv() {
    assert!(matches!(reflect_shader(&[]), Err(ShaderError::ReflectError(_))));
    assert!(matches!(reflect_shader(&[1, 2, 3, 4, 5, 6]), Err(ShaderError::ReflectError(_))));
    assert!(matches!(reflect_shader(&[0x07230203]), Err(ShaderError::ReflectError(_))));
}

fn uniform(set: Option<u32>, binding: Option<u32>, name: Option<&str>, kind: Option<TypeKind>) -> UniformInfo {
    UniformInfo { set, binding, name: name.map(|n| n.to_string()), kind, size: None, members: None }
}

fn member_info(name: Option<&str>, offset: Option<u32>, kind: Option<TypeKind>) -> MemberInfo {
    MemberInfo { name: name.map(|n| n.to_string()), offset, kind }
}

#[test]
fn bindings_from_uniforms() {
    let mut block = uniform(Some(1), Some(0), Some("u_Material"), Some(TypeKind::Struct));
    block.size = Some(80);
    block.members = Some(vec![
        member_info(Some("albedo"), Some(0), Some(TypeKind::Vec3)),
        member_info(Some("model"), Some(16), Some(TypeKind::Mat4)),
        member_info(Some("flags"), Some(76), Some(TypeKind::UInt32)),
    ]);
    let us = vec![
        uniform(Some(0), Some(1), Some("s"), Some(TypeKind::Sampler)),
        uniform(Some(0), Some(2), None, Some(TypeKind::Image2D)),
        uniform(Some(1), Some(3), Some("tex"), Some(TypeKind::SampledImage)),
        uniform(Some(2), Some(0), Some("count"), Some(TypeKind::UInt32)),
        block,
    ];
    let bs = set_bindings_from_uniforms(&us).unwrap();
    assert_eq!(bs.len(), 5);
    assert_eq!(bs[0], binding(0, 1, SetBindingData::Sampler, "s"));
    assert_eq!(bs[1], binding(0, 2, SetBindingData::Image { dim: ImageDimension::Two }, ""));
    assert_eq!(bs[2], binding(1, 3, SetBindingData::SampledImage { dim: ImageDimension::Two }, "tex"));
    // a type that is no image, sampler or block is taken for a sampler
    assert_eq!(bs[3], binding(2, 0, SetBindingData::Sampler, "count"));
    let expected = SetBindingData::UniformBuffer {
        layout: BlockLayout {
            members: vec![
                BlockMember { kind: BlockMemberType::FloatVector(3), offset: 0, size: 0, name: "albedo".to_string() },
                BlockMember { kind: BlockMemberType::FloatMatrix(4), offset: 16, size: 0, name: "model".to_string() },
                BlockMember { kind: BlockMemberType::Unsupported, offset: 76, size: 0, name: "flags".to_string() },
            ],
            block_name: String::new(),
            total_size: 80,
        },
    };
    assert_eq!(bs[4], binding(1, 0, expected, "u_Material"));
}

#[test]
fn incomplete_uniforms_are_a_reflect_error() {
    let missing_set = vec![uniform(None, Some(0), Some("s"), Some(TypeKind::Sampler))];
    assert!(matches!(set_bindings_from_uniforms(&missing_set), Err(ShaderError::ReflectError(_))));
    let missing_type = vec![uniform(Some(0), Some(0), Some("s"), None)];
    assert!(matches!(set_bindings_from_uniforms(&missing_type), Err(ShaderError::ReflectError(_))));
    let mut block = uniform(Some(0), Some(0), Some("b"), Some(TypeKind::Struct));
    block.size = Some(4);
    block.members = Some(vec![member_info(Some("x"), None, Some(TypeKind::Float32))]);
    assert!(matches!(set_bindings_from_uniforms(&vec![block]), Err(ShaderError::ReflectError(_))));
    let mut sizeless = uniform(Some(0), Some(0), Some("b"), Some(TypeKind::Struct));
    sizeless.members = Some(vec![]);
    assert!(matches!(set_bindings_from_uniforms(&vec![sizeless]), Err(ShaderError::ReflectError(_))));
    assert!(set_bindings_from_uniforms(&vec![]).unwrap().is_empty());
}

/// A small SPIR-V module: a uniform block `u` (set 0, binding 1) with a
/// float `a` at offset 0 and a vec4 `b` at offset 16, and a sampler `s`
/// (set 0, binding 2).
fn sample_module() -> Vec<u32> {
    vec![
        0x07230203, 0x00010000, 0, 20, 0,
        (3 << 16) | 22, 1, 32,
        (4 << 16) | 23, 2, 1, 4,
        (4 << 16) | 30, 3, 1, 2,
        (4 << 16) | 32, 4, 2, 3,
        (4 << 16) | 59, 4, 5, 2,
        (2 << 16) | 26, 6,
        (4 << 16) | 32, 7, 0, 6,
        (4 << 16) | 59, 7, 8, 0,
        (3 << 16) | 5, 5, 0x75,
        (3 << 16) | 5, 8, 0x73,
        (4 << 16) | 6, 3, 0, 0x61,
        (4 << 16) | 6, 3, 1, 0x62,
        (4 << 16) | 71, 5, 34, 0,
        (4 << 16) | 71, 5, 33, 1,
        (4 << 16) | 71, 8, 34, 0,
        (4 << 16) | 71, 8, 33, 2,
        (5 << 16) | 72, 3, 0, 35, 0,
        (5 << 16) | 72, 3, 1, 35, 16,
    ]
}

#[test]
fn reflect_reads_blocks_and_samplers() {
    let info = match reflect_shader(&sample_module()) {
        Ok(info) => info,
        Err(_) => panic!("the sample module is valid"),
    };
    assert!(info.push_constants.is_none());
    let mut bindings = info.set_bindings;
    bindings.sort_by_key(|b| b.binding);
    let expected = vec![
        SetBinding {
            set: 0,
            binding: 1,
            data: SetBindingData::UniformBuffer {
                layout: BlockLayout {
                    members: vec![
                        BlockMember { kind: BlockMemberType::Float, offset: 0, size: 0, name: "a".to_string() },
                        BlockMember {
                            kind: BlockMemberType::FloatVector(4),
                            offset: 16,
                            size: 0,
                            name: "b".to_string(),
                        },
                    ],
                    block_name: String::new(),
                    total_size: 32,
                },
            },
            var_name: "u".to_string(),
        },
        binding(0, 2, SetBindingData::Sampler, "s"),
    ];
    assert_eq!(bindings, expected);
}

#[test]
fn reflect_refuses_a_uniform_without_binding() {
    let mut words = sample_module();
    // drop the decoration that gives the sampler its binding
    let at = words.len() - 14;
    assert_eq!(&words[at..at + 4], &[(4 << 16) | 71, 8, 33, 2]);
    words.drain(at..at + 4);
    assert!(matches!(reflect_shader(&words), Err(ShaderError::ReflectError(_))));
}

#[test]
fn reflect_refuses_a_block_that_contains_itself() {
    let words = vec![
        0x07230203, 0x00010000, 0, 20, 0,
        (3 << 16) | 30, 3, 3,
        (4 << 16) | 32, 4, 2, 3,
        (4 << 16) | 59, 4, 5, 2,
        (3 << 16) | 5, 5, 0x75,
        (4 << 16) | 6, 3, 0, 0x61,
        (4 << 16) | 71, 5, 34, 0,
        (4 << 16) | 71, 5, 33, 0,
        (5 << 16) | 72, 3, 0, 35, 0,
    ];
    assert!(matches!(reflect_shader(&words), Err(ShaderError::ReflectError(_))));
}

#[test]
fn reflect_refuses_a_block_larger_than_u32() {
    let mut words = sample_module();
    let last = words.len() - 1;
    assert_eq!(words[last], 16);
    words[last] = 0xFFFF_FFF8;
    assert!(matches!(reflect_shader(&words), Err(ShaderError::ReflectError(_))));
}
