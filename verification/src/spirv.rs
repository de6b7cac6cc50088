//! The parts of the `spirv_layout` crate that shader reflection uses, with
//! the contracts that the library relies on.
use spirv_layout::Type::{
    Array as SpirvArray, Bool as SpirvBool, Float32 as SpirvFloat32, Image2D as SpirvImage2D,
    Int32 as SpirvInt32, Mat3 as SpirvMat3, Mat4 as SpirvMat4, Pointer as SpirvPointer,
    SampledImage as SpirvSampledImage, Sampler as SpirvSampler, Struct as SpirvStruct,
    UInt32 as SpirvUInt32, Unknown as SpirvUnknown, Vec2 as SpirvVec2, Vec3 as SpirvVec3,
    Vec4 as SpirvVec4, Void as SpirvVoid,
};
use vstd::multiset::Multiset;
use vstd::prelude::*;

verus! {

/// `spirv_layout::Error`, carried through as an opaque value.
#[verifier::external_type_specification]
#[verifier::external_body]
pub struct ExSpirvError(spirv_layout::Error);

/// `spirv_layout::Module`, the reflection info of one SPIR-V module; opaque.
#[verifier::external_type_specification]
#[verifier::external_body]
pub struct ExSpirvModule(spirv_layout::Module);

/// A module read by `spirv_layout`, together with the words it was read
/// from, which are its view: everything that reflection reads of the module
/// is determined by those words.
pub struct SpirvModule {
    module: spirv_layout::Module,
    words: Ghost<Seq<u32>>,
}

impl View for SpirvModule {
    type V = Seq<u32>;

    closed spec fn view(&self) -> Seq<u32> {
        self.words@
    }
}

/// A uniform variable of a module, as plain values.
pub struct UniformVariable {
    pub set: Option<u32>,
    pub binding: Option<u32>,
    pub type_id: u32,
    pub name: Option<String>,
}

/// A member of a struct type, as plain values: its name, the id of its
/// type, and its byte offset.
pub struct StructMemberInfo(pub Option<String>, pub u32, pub Option<u32>);

/// The kind of a type declared in a module (`spirv_layout::Type` without its fields).
#[derive(Clone, Copy, PartialEq, Eq, Structural)]
pub enum TypeKind {
    Unknown,
    Void,
    Bool,
    Int32,
    UInt32,
    Float32,
    Vec2,
    Vec3,
    Vec4,
    Mat3,
    Mat4,
    Image2D,
    Sampler,
    SampledImage,
    Array,
    Struct,
    Pointer,
}

/// Whether `spirv_layout` reads a module from `words` (that is, whether the
/// instructions decode and the type declarations refer to known ids).
pub uninterp spec fn spirv_module_ok(words: Seq<u32>) -> bool;

/// Calls `spirv_layout::Module::from_words`. Whether it succeeds is a
/// function of the words alone, named `spirv_module_ok`; its source rejects,
/// with an error, every word stream shorter than six words or whose first
/// word is not the SPIR-V magic number. A module it gives is kept with the
/// words it was read from, its view.
#[verifier::external_body]
pub(crate) fn module_from_words(words: &[u32]) -> (r: Result<SpirvModule, spirv_layout::Error>)
    ensures
        r is Ok <==> spirv_module_ok(words@),
        (words@.len() < 6 || words@[0] != 0x07230203) ==> r is Err,
        r matches Ok(m) ==> m@ == words@,
{
    spirv_layout::Module::from_words(words).map(|module| SpirvModule { module, words: Ghost(words@) })
}

/// A uniform variable as a mathematical value.
pub struct UniformVariableModel {
    pub set: Option<u32>,
    pub binding: Option<u32>,
    pub type_id: u32,
    pub name: Option<Seq<char>>,
}

/// The text of an optional string.
pub open spec fn opt_string_view(s: Option<String>) -> Option<Seq<char>> {
    match s {
        Some(x) => Some(x@),
        None => None,
    }
}

impl View for UniformVariable {
    type V = UniformVariableModel;

    open spec fn view(&self) -> UniformVariableModel {
        UniformVariableModel {
            set: self.set,
            binding: self.binding,
            type_id: self.type_id,
            name: opt_string_view(self.name),
        }
    }
}

/// The uniform variables that `spirv_layout` finds in the module read from
/// `words`, as a multiset: the module lists them in the order in which it
/// walks a hash map, and that order is not a function of the words.
pub uninterp spec fn spirv_uniforms(words: Seq<u32>) -> Multiset<UniformVariableModel>;

/// Calls `spirv_layout::Module::get_uniforms` and copies each variable into
/// plain values. The module collected them from its own variables, a hash
/// map, so only the multiset of the result is claimed: it is the same for
/// every module read from the same words. Their order is left unsaid.
#[verifier::external_body]
pub(crate) fn module_uniforms(module: &SpirvModule) -> (r: Vec<UniformVariable>)
    ensures
        r@.map_values(|v: UniformVariable| v@).to_multiset() == spirv_uniforms(module@),
{
    module.module.get_uniforms().iter().map(|v| UniformVariable {
        set: v.set,
        binding: v.binding,
        type_id: v.type_id,
        name: v.name.clone(),
    }).collect()
}

/// A type declared in a module, as plain values: its kind, and for a struct
/// its members (empty for every other kind).
pub struct TypeInfo {
    pub kind: TypeKind,
    pub members: Vec<StructMemberInfo>,
}

/// A struct member as a mathematical value: name, type id, offset.
pub struct StructMemberModel {
    pub name: Option<Seq<char>>,
    pub type_id: u32,
    pub offset: Option<u32>,
}

impl View for StructMemberInfo {
    type V = StructMemberModel;

    open spec fn view(&self) -> StructMemberModel {
        StructMemberModel { name: opt_string_view(self.0), type_id: self.1, offset: self.2 }
    }
}

/// A type declared in a module as a mathematical value.
pub struct TypeInfoModel {
    pub kind: TypeKind,
    pub members: Seq<StructMemberModel>,
}

impl View for TypeInfo {
    type V = TypeInfoModel;

    open spec fn view(&self) -> TypeInfoModel {
        TypeInfoModel { kind: self.kind, members: self.members@.map_values(|m: StructMemberInfo| m@) }
    }
}

/// The type that the id `type_id` names in the module read from `words`.
pub uninterp spec fn spirv_type(words: Seq<u32>, type_id: u32) -> Option<TypeInfoModel>;

/// Calls `spirv_layout::Module::get_type` and copies the type found into
/// plain values; `None` for an id that names no type. The module keeps its
/// types in a map from id to type that it fills from the words in their
/// order, so the result is a function of the words and the id; that function
/// (the module's whole reading of the type declarations) is only named.
#[verifier::external_body]
pub(crate) fn module_type(module: &SpirvModule, type_id: u32) -> (r: Option<TypeInfo>)
    ensures
        match r {
            Some(t) => spirv_type(module@, type_id) == Some(t@),
            None => spirv_type(module@, type_id) is None,
        },
{
    let t = module.module.get_type(type_id)?;
    let members = match t {
        SpirvStruct { elements } => elements.iter().map(|e| StructMemberInfo(e.name.clone(), e.type_id, e.offset)).collect(),
        _ => vec![],
    };
    Some(TypeInfo { members, kind: match t {
        SpirvUnknown => TypeKind::Unknown, SpirvVoid => TypeKind::Void, SpirvBool => TypeKind::Bool,
        SpirvInt32 => TypeKind::Int32, SpirvUInt32 => TypeKind::UInt32, SpirvFloat32 => TypeKind::Float32,
        SpirvVec2 => TypeKind::Vec2, SpirvVec3 => TypeKind::Vec3, SpirvVec4 => TypeKind::Vec4,
        SpirvMat3 => TypeKind::Mat3, SpirvMat4 => TypeKind::Mat4, SpirvImage2D { .. } => TypeKind::Image2D,
        SpirvSampler => TypeKind::Sampler, SpirvSampledImage { .. } => TypeKind::SampledImage,
        SpirvArray { .. } => TypeKind::Array, SpirvStruct { .. } => TypeKind::Struct, SpirvPointer { .. } => TypeKind::Pointer,
    } })
}

/// The size in bytes of a type of a kind whose size is fixed: 32-bit
/// scalars, float vectors and float matrices.
pub open spec fn fixed_size(k: TypeKind) -> Option<u32> {
    match k {
        TypeKind::Int32 | TypeKind::UInt32 | TypeKind::Float32 => Some(4),
        TypeKind::Vec2 => Some(8),
        TypeKind::Vec3 => Some(12),
        TypeKind::Vec4 => Some(16),
        TypeKind::Mat3 => Some(36),
        TypeKind::Mat4 => Some(64),
        _ => None,
    }
}

fn fixed_size_of(k: TypeKind) -> (r: Option<u32>)
    ensures
        r == fixed_size(k),
{
    match k {
        TypeKind::Int32 | TypeKind::UInt32 | TypeKind::Float32 => Some(4),
        TypeKind::Vec2 => Some(8),
        TypeKind::Vec3 => Some(12),
        TypeKind::Vec4 => Some(16),
        TypeKind::Mat3 => Some(36),
        TypeKind::Mat4 => Some(64),
        _ => None,
    }
}

/// The offset by which struct members are compared (0 where unknown).
pub open spec fn offset_key(e: StructMemberModel) -> u32 {
    match e.offset {
        Some(o) => o,
        None => 0,
    }
}

/// The index of the last member of `es` whose `offset_key` is greatest.
pub open spec fn last_greatest(es: Seq<StructMemberModel>) -> int
    decreases es.len(),
{
    if es.len() <= 1 {
        0
    } else {
        let i = last_greatest(es.drop_last());
        if offset_key(es[i]) <= offset_key(es.last()) {
            es.len() - 1
        } else {
            i
        }
    }
}

proof fn lemma_last_greatest_in_range(es: Seq<StructMemberModel>)
    requires
        es.len() > 0,
    ensures
        0 <= last_greatest(es) < es.len(),
    decreases es.len(),
{
    if es.len() > 1 {
        lemma_last_greatest_in_range(es.drop_last());
    }
}

/// `size` placed `offset` bytes in, where that end still fits in `u32`.
pub open spec fn shifted_size(offset: int, size: Option<u32>) -> Option<u32> {
    match size {
        Some(s) => if offset + s <= u32::MAX {
            Some((offset + s) as u32)
        } else {
            None
        },
        None => None,
    }
}

/// The size in bytes of the type `type_id` of the module read from `words`,
/// as `spirv_layout::Module::get_type_size` computes it: a fixed size for
/// scalars, vectors and matrices; for a struct, the offset of its member
/// with the greatest offset (the last such member) plus that member's size;
/// `None` for every other type and for an id that names none. Members are
/// followed at most `depth` levels down, and a size that does not fit in
/// `u32` is `None`: those are the inputs on which `get_type_size` recurses
/// without end or overflows.
pub open spec fn type_size_within(words: Seq<u32>, type_id: u32, depth: nat) -> Option<u32>
    decreases depth,
{
    match spirv_type(words, type_id) {
        None => None,
        Some(t) => if t.kind == TypeKind::Struct {
            if depth == 0 || t.members.len() == 0 {
                None
            } else {
                let e = t.members[last_greatest(t.members)];
                match e.offset {
                    Some(o) => shifted_size(o as int, type_size_within(words, e.type_id, (depth - 1) as nat)),
                    None => None,
                }
            }
        } else {
            fixed_size(t.kind)
        },
    }
}

/// The index of the last member of `members` with the greatest offset.
fn last_greatest_member(members: &Vec<StructMemberInfo>) -> (r: usize)
    requires
        members@.len() > 0,
    ensures
        r == last_greatest(members@.map_values(|m: StructMemberInfo| m@)),
        r < members@.len(),
{
    let ghost es = members@.map_values(|m: StructMemberInfo| m@);
    let mut best: usize = 0;
    let mut best_key: u32 = match members[0].2 {
        Some(o) => o,
        None => 0,
    };
    let mut j: usize = 1;
    assert(es.take(1).drop_last() =~= Seq::<StructMemberModel>::empty());
    while j < members.len()
        invariant
            1 <= j <= members@.len(),
            es == members@.map_values(|m: StructMemberInfo| m@),
            best == last_greatest(es.take(j as int)),
            best < j,
            best_key == offset_key(es[best as int]),
        decreases members@.len() - j,
    {
        let key: u32 = match members[j].2 {
            Some(o) => o,
            None => 0,
        };
        assert(es.take(j + 1).drop_last() =~= es.take(j as int));
        proof {
            lemma_last_greatest_in_range(es.take(j as int));
        }
        if best_key <= key {
            best = j;
            best_key = key;
        }
        j += 1;
    }
    assert(es.take(members@.len() as int) =~= es);
    best
}

/// The size in bytes of the type `type_id` of `module`, as
/// `type_size_within` states it.
pub(crate) fn type_size(module: &SpirvModule, type_id: u32, depth: usize) -> (r: Option<u32>)
    ensures
        r == type_size_within(module@, type_id, depth as nat),
{
    let mut cur = type_id;
    let mut d = depth;
    let mut acc: u32 = 0;
    loop
        invariant
            d <= depth,
            type_size_within(module@, type_id, depth as nat) == shifted_size(
                acc as int,
                type_size_within(module@, cur, d as nat),
            ),
        decreases d,
    {
        let t = match module_type(module, cur) {
            Some(t) => t,
            None => return None,
        };
        let is_struct = match t.kind {
            TypeKind::Struct => true,
            _ => false,
        };
        if !is_struct {
            return match fixed_size_of(t.kind) {
                Some(s) => if s <= u32::MAX - acc {
                    Some(acc + s)
                } else {
                    None
                },
                None => None,
            };
        }
        if d == 0 || t.members.len() == 0 {
            return None;
        }
        let i = last_greatest_member(&t.members);
        let e = &t.members[i];
        assert(t@.members[i as int] == e@);
        let o = match e.2 {
            Some(o) => o,
            None => return None,
        };
        if o > u32::MAX - acc {
            return None;
        }
        acc = acc + o;
        cur = e.1;
        d = d - 1;
    }
}

/// Gives `spirv_layout::Error::InvalidId`, the error that reflection reports
/// for a variable or member whose description is incomplete.
#[verifier::external_body]
pub(crate) fn invalid_id_error() -> spirv_layout::Error {
    spirv_layout::Error::InvalidId
}

} // verus!
