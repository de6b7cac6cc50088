use vulkan_engine::scene::material::{
    reflect_material, MaterialError, MaterialProperty, ResourceInfo, UniformKind,
};
use vulkan_engine::ve_shader_reflect::{
    BlockLayout, BlockMember, BlockMemberType, ImageDimension, SetBinding, SetBindingData, ShaderInfo,
};

fn member(kind: BlockMemberType, offset: u32, size: u32, name: &str) -> BlockMember {
    BlockMember { kind, offset, size, name: name.to_string() }
}

fn shader() -> ShaderInfo {
    ShaderInfo {
        set_bindings: vec![
            SetBinding {
                set: 0,
                binding: 0,
                data: SetBindingData::UniformBuffer {
                    layout: BlockLayout {
                        members: vec![member(BlockMemberType::FloatMatrix(4), 0, 64, "view")],
                        block_name: "FrameData".to_string(),
                        total_size: 64,
                    },
                },
                var_name: "u_FrameData".to_string(),
            },
            SetBinding {
                set: 1,
                binding: 0,
                data: SetBindingData::UniformBuffer {
                    layout: BlockLayout {
                        members: vec![
                            member(BlockMemberType::Float, 0, 4, "roughness"),
                            member(BlockMemberType::FloatVector(3), 16, 12, "albedo"),
                            member(BlockMemberType::FloatMatrix(4), 32, 64, "transform"),
                            member(BlockMemberType::FloatVector(5), 96, 20, "odd"),
                        ],
                        block_name: "MaterialData".to_string(),
                        total_size: 116,
                    },
                },
                var_name: "u_MaterialData".to_string(),
            },
            SetBinding {
                set: 1,
                binding: 2,
                data: SetBindingData::SampledImage { dim: ImageDimension::Two },
                var_name: "u_AlbedoTex".to_string(),
            },
            SetBinding {
                set: 1,
                binding: 3,
                data: SetBindingData::SampledImage { dim: ImageDimension::Cube },
                var_name: "u_Sky".to_string(),
            },
        ],
        push_constants: None,
    }
}

#[test]
fn material_properties_from_set_one() {
    let layout = reflect_material(&shader());
    assert_eq!(layout.property("roughness"), Some(MaterialProperty::Float { binding: 0, offset: 0 }));
    assert_eq!(layout.property("albedo"), Some(MaterialProperty::Vec3 { binding: 0, offset: 16 }));
    assert_eq!(layout.property("transform"), Some(MaterialProperty::Unsupported));
    assert_eq!(layout.property("odd"), Some(MaterialProperty::Unsupported));
    assert_eq!(layout.property("u_AlbedoTex"), Some(MaterialProperty::Sampler2D { binding: 2 }));
    assert_eq!(layout.property("u_Sky"), None);
    assert_eq!(layout.property("view"), None);
    assert_eq!(
        layout.resource_infos(),
        &vec![
            ResourceInfo::UniformBuffer { size: 116 },
            ResourceInfo::Unused,
            ResourceInfo::ImageSampler,
            ResourceInfo::Unused
        ]
    );
}

#[test]
fn setting_properties() {
    let layout = reflect_material(&shader());
    assert_eq!(layout.uniform_property("albedo", UniformKind::Vec3), Ok((0, 16)));
    assert_eq!(layout.uniform_property("roughness", UniformKind::Float), Ok((0, 0)));
    assert_eq!(
        layout.uniform_property("albedo", UniformKind::Vec4),
        Err(MaterialError::InvalidMaterialPropertyType("albedo".to_string()))
    );
    assert_eq!(
        layout.uniform_property("metallic", UniformKind::Float),
        Err(MaterialError::InvalidMaterialProperty("metallic".to_string()))
    );
    assert_eq!(layout.texture_property("u_AlbedoTex"), Ok(2));
    assert_eq!(
        layout.texture_property("roughness"),
        Err(MaterialError::InvalidMaterialPropertyType("roughness".to_string()))
    );
    assert_eq!(
        layout.texture_property("u_Sky"),
        Err(MaterialError::InvalidMaterialProperty("u_Sky".to_string()))
    );
}

#[test]
fn a_later_property_of_the_same_name_wins() {
    let mut info = shader();
    info.set_bindings.push(SetBinding {
        set: 1,
        binding: 1,
        data: SetBindingData::SampledImage { dim: ImageDimension::Two },
        var_name: "albedo".to_string(),
    });
    let layout = reflect_material(&info);
    assert_eq!(layout.property("albedo"), Some(MaterialProperty::Sampler2D { binding: 1 }));
    assert_eq!(layout.texture_property("albedo"), Ok(1));
}
