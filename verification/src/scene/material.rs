//! The properties that a material exposes, read from the reflected
//! interface of its shaders: every member of a uniform block in descriptor
//! set 1 and every 2D sampled image there, by name.
use vstd::prelude::*;

use crate::ve_shader_reflect::{
    BlockMemberType, ImageDimension, SetBindingData, SetBindingDataModel, SetBindingModel, ShaderInfo,
};

verus! {

/// What a named material property is, and where its value goes: a uniform
/// of a binding at a byte offset, or a sampler binding.
#[derive(Debug, Clone, Copy, PartialEq, Eq, Structural)]
pub enum MaterialProperty {
    Unsupported,
    Float { binding: u32, offset: u32 },
    Vec2 { binding: u32, offset: u32 },
    Vec3 { binding: u32, offset: u32 },
    Vec4 { binding: u32, offset: u32 },
    Sampler2D { binding: u32 },
}

/// What each binding of descriptor set 1 holds: nothing the material uses,
/// a uniform buffer of the given size, or a combined image sampler.
#[derive(Debug, Clone, Copy, PartialEq, Eq, Structural)]
pub enum ResourceInfo {
    Unused,
    UniformBuffer { size: u64 },
    ImageSampler,
}

/// The kinds of value that can be written to a uniform property.
#[derive(Debug, Clone, Copy, PartialEq, Eq, Structural)]
pub enum UniformKind {
    Float,
    Vec2,
    Vec3,
    Vec4,
}

/// Why a property could not be set: there is none of that name, or it is
/// of another kind.
#[derive(Debug, PartialEq, Eq)]
pub enum MaterialError {
    InvalidMaterialProperty(String),
    InvalidMaterialPropertyType(String),
}

/// The properties and resources of a material's shaders.
pub struct MaterialLayout {
    properties: Vec<(String, MaterialProperty)>,
    resource_infos: Vec<ResourceInfo>,
}

/// The property that a uniform block member becomes.
pub open spec fn member_property(kind: BlockMemberType, binding: u32, offset: u32) -> MaterialProperty {
    match kind {
        BlockMemberType::Float => MaterialProperty::Float { binding, offset },
        BlockMemberType::FloatVector(n) => if n == 2 {
            MaterialProperty::Vec2 { binding, offset }
        } else if n == 3 {
            MaterialProperty::Vec3 { binding, offset }
        } else if n == 4 {
            MaterialProperty::Vec4 { binding, offset }
        } else {
            MaterialProperty::Unsupported
        },
        _ => MaterialProperty::Unsupported,
    }
}

/// The named properties of one binding, in order: each member of a uniform
/// block, or the binding itself for a 2D sampled image.
pub open spec fn binding_properties(b: SetBindingModel) -> Seq<(Seq<char>, MaterialProperty)> {
    match b.data {
        SetBindingDataModel::UniformBuffer { layout } => layout.members.map_values(
            |m: crate::ve_shader_reflect::BlockMemberModel|
                (m.name, member_property(m.kind, b.binding, m.offset)),
        ),
        SetBindingDataModel::SampledImage { dim } => if dim == ImageDimension::Two {
            seq![(b.var_name, MaterialProperty::Sampler2D { binding: b.binding })]
        } else {
            Seq::empty()
        },
        _ => Seq::empty(),
    }
}

/// The resource that a binding needs.
pub open spec fn binding_resource(b: SetBindingModel) -> ResourceInfo {
    match b.data {
        SetBindingDataModel::UniformBuffer { layout } => ResourceInfo::UniformBuffer {
            size: layout.total_size as u64,
        },
        SetBindingDataModel::SampledImage { dim } => if dim == ImageDimension::Two {
            ResourceInfo::ImageSampler
        } else {
            ResourceInfo::Unused
        },
        _ => ResourceInfo::Unused,
    }
}

/// The named properties of the bindings of set 1, in order.
pub open spec fn property_entries(bs: Seq<SetBindingModel>) -> Seq<(Seq<char>, MaterialProperty)>
    decreases bs.len(),
{
    if bs.len() == 0 {
        Seq::empty()
    } else {
        property_entries(bs.drop_last()) + if bs.last().set == 1 {
            binding_properties(bs.last())
        } else {
            Seq::empty()
        }
    }
}

/// The resources of the bindings of set 1, by binding number; numbers that
/// no binding uses hold `Unused`.
pub open spec fn resource_table(bs: Seq<SetBindingModel>) -> Seq<ResourceInfo>
    decreases bs.len(),
{
    if bs.len() == 0 {
        Seq::empty()
    } else {
        let r = resource_table(bs.drop_last());
        let b = bs.last();
        if b.set != 1 {
            r
        } else {
            let grown = if b.binding >= r.len() {
                r + Seq::new((b.binding + 1 - r.len()) as nat, |i: int| ResourceInfo::Unused)
            } else {
                r
            };
            grown.update(b.binding as int, binding_resource(b))
        }
    }
}

/// The property of a name: the last entry of that name (a later property
/// of the same name replaces an earlier one).
pub open spec fn lookup_property(entries: Seq<(Seq<char>, MaterialProperty)>, name: Seq<char>) -> Option<
    MaterialProperty,
>
    decreases entries.len(),
{
    if entries.len() == 0 {
        None
    } else if entries.last().0 == name {
        Some(entries.last().1)
    } else {
        lookup_property(entries.drop_last(), name)
    }
}

impl MaterialLayout {
    /// The property entries, in the order they were read.
    pub closed spec fn entries(&self) -> Seq<(Seq<char>, MaterialProperty)> {
        self.properties@.map_values(|p: (String, MaterialProperty)| (p.0@, p.1))
    }

    /// The resources of set 1 by binding number.
    pub closed spec fn resources(&self) -> Seq<ResourceInfo> {
        self.resource_infos@
    }
}

/// Reads the material properties and resources from the reflected
/// interface of a material's shaders (vertex and fragment merged).
pub fn reflect_material(refl: &ShaderInfo) -> (r: MaterialLayout)
    ensures
        r.entries() == property_entries(refl@.set_bindings),
        r.resources() == resource_table(refl@.set_bindings),
{
    let ghost bs = refl@.set_bindings;
    let mut properties: Vec<(String, MaterialProperty)> = Vec::new();
    let mut resource_infos: Vec<ResourceInfo> = Vec::new();
    let mut i: usize = 0;
    while i < refl.set_bindings.len()
        invariant
            bs == refl@.set_bindings,
            i <= bs.len(),
            properties@.map_values(|p: (String, MaterialProperty)| (p.0@, p.1)) == property_entries(
                bs.take(i as int),
            ),
            resource_infos@ == resource_table(bs.take(i as int)),
        decreases refl.set_bindings.len() - i,
    {
        let binding = &refl.set_bindings[i];
        let ghost b = bs[i as int];
        assert(binding@ == b);
        assert(bs.take(i + 1).drop_last() =~= bs.take(i as int));
        assert(bs.take(i + 1).last() == b);
        if binding.set != 1 {
            assert(property_entries(bs.take(i + 1)) =~= property_entries(bs.take(i as int)));
            i += 1;
            continue;
        }
        let ghost before = properties@.map_values(|p: (String, MaterialProperty)| (p.0@, p.1));
        let res_info = match &binding.data {
            SetBindingData::UniformBuffer { layout } => {
                let mut j: usize = 0;
                while j < layout.members.len()
                    invariant
                        j <= layout.members@.len(),
                        binding@ == b,
                        b.data == (SetBindingDataModel::UniformBuffer { layout: layout@ }),
                        properties@.map_values(|p: (String, MaterialProperty)| (p.0@, p.1)) == before
                            + binding_properties(b).take(j as int),
                    decreases layout.members.len() - j,
                {
                    let property = &layout.members[j];
                    let prop = match property.kind {
                        BlockMemberType::Float => MaterialProperty::Float {
                            binding: binding.binding,
                            offset: property.offset,
                        },
                        BlockMemberType::FloatVector(2) => MaterialProperty::Vec2 {
                            binding: binding.binding,
                            offset: property.offset,
                        },
                        BlockMemberType::FloatVector(3) => MaterialProperty::Vec3 {
                            binding: binding.binding,
                            offset: property.offset,
                        },
                        BlockMemberType::FloatVector(4) => MaterialProperty::Vec4 {
                            binding: binding.binding,
                            offset: property.offset,
                        },
                        _ => MaterialProperty::Unsupported,
                    };
                    let ghost before_j = properties@;
                    properties.push((property.name.clone(), prop));
                    proof {
                        assert(layout@.members[j as int] == property@);
                        assert(binding_properties(b)[j as int] == (property.name@, prop));
                        assert(binding_properties(b).take(j + 1) =~= binding_properties(b).take(
                            j as int,
                        ).push((property.name@, prop)));
                        assert(properties@.map_values(|p: (String, MaterialProperty)| (p.0@, p.1))
                            =~= before_j.map_values(|p: (String, MaterialProperty)| (p.0@, p.1)).push(
                            (property.name@, prop),
                        ));
                    }
                    j += 1;
                }
                assert(binding_properties(b).take(layout.members@.len() as int) =~= binding_properties(
                    b,
                ));
                ResourceInfo::UniformBuffer { size: layout.total_size as u64 }
            },
            SetBindingData::SampledImage { dim: ImageDimension::Two } => {
                let ghost before_j = properties@;
                properties.push(
                    (binding.var_name.clone(), MaterialProperty::Sampler2D { binding: binding.binding }),
                );
                proof {
                    assert(properties@.map_values(|p: (String, MaterialProperty)| (p.0@, p.1))
                        =~= before + binding_properties(b));
                }
                ResourceInfo::ImageSampler
            },
            _ => {
                assert(binding_properties(b) =~= Seq::<(Seq<char>, MaterialProperty)>::empty());
                assert(before + binding_properties(b) =~= before);
                ResourceInfo::Unused
            },
        };
        let ghost r0 = resource_infos@;
        let n = binding.binding as usize;
        while resource_infos.len() <= n
            invariant
                r0 == resource_table(bs.take(i as int)),
                n == b.binding,
                resource_infos@.len() >= r0.len(),
                resource_infos@.len() <= if n >= r0.len() {
                    n + 1
                } else {
                    r0.len() as int
                },
                forall|k: int| 0 <= k < r0.len() ==> resource_infos@[k] == r0[k],
                forall|k: int|
                    r0.len() <= k < resource_infos@.len() ==> resource_infos@[k] == ResourceInfo::Unused,
            decreases n + 1 - resource_infos.len(),
        {
            resource_infos.push(ResourceInfo::Unused);
        }
        resource_infos.set(n, res_info);
        proof {
            let grown = if b.binding >= r0.len() {
                r0 + Seq::new((b.binding + 1 - r0.len()) as nat, |k: int| ResourceInfo::Unused)
            } else {
                r0
            };
            assert(binding_resource(b) == res_info);
            assert(resource_infos@ =~= grown.update(b.binding as int, binding_resource(b)));
            assert(resource_table(bs.take(i + 1)) == grown.update(b.binding as int, binding_resource(b)));
        }
        i += 1;
    }
    proof {
        assert(bs.take(bs.len() as int) =~= bs);
    }
    MaterialLayout { properties, resource_infos }
}

/// Whether a property can take a value of the given kind.
pub open spec fn kind_matches(p: MaterialProperty, kind: UniformKind) -> bool {
    match (p, kind) {
        (MaterialProperty::Float { .. }, UniformKind::Float) => true,
        (MaterialProperty::Vec2 { .. }, UniformKind::Vec2) => true,
        (MaterialProperty::Vec3 { .. }, UniformKind::Vec3) => true,
        (MaterialProperty::Vec4 { .. }, UniformKind::Vec4) => true,
        _ => false,
    }
}

/// The binding and byte offset of a uniform property.
pub open spec fn uniform_place(p: MaterialProperty) -> (u32, u32) {
    match p {
        MaterialProperty::Float { binding, offset } => (binding, offset),
        MaterialProperty::Vec2 { binding, offset } => (binding, offset),
        MaterialProperty::Vec3 { binding, offset } => (binding, offset),
        MaterialProperty::Vec4 { binding, offset } => (binding, offset),
        _ => (0, 0),
    }
}

impl MaterialLayout {
    /// The property of the given name, if there is one.
    pub fn property(&self, name: &str) -> (r: Option<MaterialProperty>)
        ensures
            r == lookup_property(self.entries(), name@),
    {
        let ghost es = self.entries();
        let mut i: usize = self.properties.len();
        assert(es.take(i as int) =~= es);
        while i > 0
            invariant
                i <= self.properties@.len(),
                es == self.entries(),
                lookup_property(es, name@) == lookup_property(es.take(i as int), name@),
            decreases i,
        {
            let entry = &self.properties[i - 1];
            let ghost t = es.take(i as int);
            assert(t.drop_last() =~= es.take(i - 1));
            assert(t.last() == (entry.0@, entry.1));
            if entry.0.as_str().to_owned() == name.to_owned() {
                return Some(entry.1);
            }
            i -= 1;
        }
        assert(es.take(0) =~= Seq::<(Seq<char>, MaterialProperty)>::empty());
        None
    }

    /// Where a value of the given kind for the property `name` is written:
    /// the binding and byte offset. Fails when there is no such property or
    /// when it is of another kind.
    pub fn uniform_property(&self, name: &str, kind: UniformKind) -> (r: Result<(u32, u32), MaterialError>)
        ensures
            match lookup_property(self.entries(), name@) {
                None => r matches Err(MaterialError::InvalidMaterialProperty(n)) && n@ == name@,
                Some(p) => if kind_matches(p, kind) {
                    r == Ok::<(u32, u32), MaterialError>(uniform_place(p))
                } else {
                    r matches Err(MaterialError::InvalidMaterialPropertyType(n)) && n@ == name@
                },
            },
    {
        let prop = match self.property(name) {
            Some(p) => p,
            None => return Err(MaterialError::InvalidMaterialProperty(name.to_owned())),
        };
        match (prop, kind) {
            (MaterialProperty::Float { binding, offset }, UniformKind::Float) => Ok((binding, offset)),
            (MaterialProperty::Vec2 { binding, offset }, UniformKind::Vec2) => Ok((binding, offset)),
            (MaterialProperty::Vec3 { binding, offset }, UniformKind::Vec3) => Ok((binding, offset)),
            (MaterialProperty::Vec4 { binding, offset }, UniformKind::Vec4) => Ok((binding, offset)),
            _ => Err(MaterialError::InvalidMaterialPropertyType(name.to_owned())),
        }
    }

    /// The binding of the 2D sampler property `name`, whose resource must be
    /// an image sampler. Fails when there is no such property or when it is
    /// of another kind.
    pub fn texture_property(&self, name: &str) -> (r: Result<u32, MaterialError>)
        ensures
            match lookup_property(self.entries(), name@) {
                Some(MaterialProperty::Sampler2D { binding }) => if binding < self.resources().len()
                    && self.resources()[binding as int] == ResourceInfo::ImageSampler {
                    r == Ok::<u32, MaterialError>(binding)
                } else {
                    r matches Err(MaterialError::InvalidMaterialPropertyType(n)) && n@ == name@
                },
                Some(_) => r matches Err(MaterialError::InvalidMaterialPropertyType(n)) && n@ == name@,
                None => r matches Err(MaterialError::InvalidMaterialProperty(n)) && n@ == name@,
            },
    {
        let prop = match self.property(name) {
            Some(p) => p,
            None => return Err(MaterialError::InvalidMaterialProperty(name.to_owned())),
        };
        match prop {
            MaterialProperty::Sampler2D { binding } => {
                if (binding as usize) < self.resource_infos.len() {
                    match self.resource_infos[binding as usize] {
                        ResourceInfo::ImageSampler => Ok(binding),
                        _ => Err(MaterialError::InvalidMaterialPropertyType(name.to_owned())),
                    }
                } else {
                    Err(MaterialError::InvalidMaterialPropertyType(name.to_owned()))
                }
            },
            _ => Err(MaterialError::InvalidMaterialPropertyType(name.to_owned())),
        }
    }

    /// The resources of set 1 by binding number.
    pub fn resource_infos(&self) -> (r: &Vec<ResourceInfo>)
        ensures
            r@ == self.resources(),
    {
        &self.resource_infos
    }
}

/// The property of a name is that of its last entry.
proof fn lemma_lookup_last_entry(entries: Seq<(Seq<char>, MaterialProperty)>, name: Seq<char>, i: int)
    requires
        0 <= i < entries.len(),
        entries[i].0 == name,
        forall|j: int| i < j < entries.len() ==> (#[trigger] entries[j]).0 != name,
    ensures
        lookup_property(entries, name) == Some(entries[i].1),
    decreases entries.len(),
{
    if i < entries.len() - 1 {
        let d = entries.drop_last();
        assert forall|j: int| i < j < d.len() implies (#[trigger] d[j]).0 != name by {
            assert(d[j] == entries[j]);
        }
        lemma_lookup_last_entry(d, name, i);
        assert(d[i] == entries[i]);
    }
}

/// A member of a uniform block in set 1 becomes the property of its name
/// (where no later member of the block has that name), whatever the
/// bindings before: a `Float` member the property `Float`, a
/// `FloatVector(2)`, `(3)` or `(4)` member the property `Vec2`, `Vec3` or
/// `Vec4`, each at the binding's number and the member's offset, so that a
/// value of that kind is written there; a matrix member is unsupported.
pub proof fn law_block_members_become_properties(bs: Seq<SetBindingModel>, b: SetBindingModel, i: int)
    requires
        b.set == 1,
        b.data is UniformBuffer,
        0 <= i < b.data->UniformBuffer_layout.members.len(),
        forall|j: int|
            i < j < b.data->UniformBuffer_layout.members.len() ==> (#[trigger] b.data->UniformBuffer_layout.members[j]).name
                != b.data->UniformBuffer_layout.members[i].name,
    ensures
        ({
            let m = b.data->UniformBuffer_layout.members[i];
            let p = lookup_property(property_entries(bs.push(b)), m.name);
            &&& m.kind == BlockMemberType::Float ==> p == Some(
                MaterialProperty::Float { binding: b.binding, offset: m.offset },
            ) && kind_matches(p->0, UniformKind::Float) && uniform_place(p->0) == (b.binding, m.offset)
            &&& m.kind == BlockMemberType::FloatVector(2) ==> p == Some(
                MaterialProperty::Vec2 { binding: b.binding, offset: m.offset },
            ) && kind_matches(p->0, UniformKind::Vec2) && uniform_place(p->0) == (b.binding, m.offset)
            &&& m.kind == BlockMemberType::FloatVector(3) ==> p == Some(
                MaterialProperty::Vec3 { binding: b.binding, offset: m.offset },
            ) && kind_matches(p->0, UniformKind::Vec3) && uniform_place(p->0) == (b.binding, m.offset)
            &&& m.kind == BlockMemberType::FloatVector(4) ==> p == Some(
                MaterialProperty::Vec4 { binding: b.binding, offset: m.offset },
            ) && kind_matches(p->0, UniformKind::Vec4) && uniform_place(p->0) == (b.binding, m.offset)
            &&& m.kind is FloatMatrix ==> p == Some(MaterialProperty::Unsupported)
        }),
{
    let ms = b.data->UniformBuffer_layout.members;
    let m = ms[i];
    let all = bs.push(b);
    assert(all.drop_last() =~= bs);
    let pre = property_entries(bs);
    let post = binding_properties(b);
    assert(property_entries(all) == pre + post);
    let es = pre + post;
    let k = pre.len() + i;
    assert(es[k] == post[i]);
    assert forall|j: int| k < j < es.len() implies (#[trigger] es[j]).0 != m.name by {
        assert(es[j] == post[j - pre.len()]);
        assert(post[j - pre.len()].0 == ms[j - pre.len()].name);
    }
    lemma_lookup_last_entry(es, m.name, k);
}

/// Properties are named by their own names, whichever block they sit in, so
/// a later property of the same name replaces an earlier one, and leaves
/// the other names as they were.
pub proof fn law_later_property_replaces(
    entries: Seq<(Seq<char>, MaterialProperty)>,
    name: Seq<char>,
    p: MaterialProperty,
    other: Seq<char>,
)
    requires
        other != name,
    ensures
        lookup_property(entries.push((name, p)), name) == Some(p),
        lookup_property(entries.push((name, p)), other) == lookup_property(entries, other),
{
    assert(entries.push((name, p)).drop_last() =~= entries);
}

} // verus!
