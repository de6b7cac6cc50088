//! Shader interface descriptions (descriptor set bindings and uniform block
//! layouts) and the rules for combining the interfaces of several shader
//! stages into one.
use vstd::prelude::*;

use crate::spirv::{
    invalid_id_error, module_from_words, module_type, module_uniforms, opt_string_view,
    spirv_module_ok, spirv_type, spirv_uniforms, type_size, type_size_within, SpirvModule,
    StructMemberInfo,
    StructMemberModel, TypeKind, UniformVariable, UniformVariableModel,
};

verus! {

/// Errors that shader reflection and interface merging report.
#[derive(Debug)]
pub enum ShaderError {
    ReflectError(spirv_layout::Error),
    IncompatiblePropertyNames(String, String),
    IncompatibleProperties(String, String),
}

#[derive(Debug, Clone, Copy, PartialEq, Eq, Structural)]
pub enum BlockMemberType {
    Unsupported,
    Float,
    FloatVector(u32),
    FloatMatrix(u32),
}

#[derive(Debug, PartialEq, Eq)]
pub struct BlockMember {
    pub kind: BlockMemberType,
    pub offset: u32,
    pub size: u32,
    pub name: String,
}

#[derive(Debug, PartialEq, Eq)]
pub struct BlockLayout {
    pub members: Vec<BlockMember>,
    pub block_name: String,
    pub total_size: u32,
}

#[derive(Debug, Clone, Copy, PartialEq, Eq, Structural)]
pub enum ImageDimension {
    One,
    Two,
    Three,
    Cube,
    SubpassInput,
}

#[derive(Debug, PartialEq, Eq)]
pub enum SetBindingData {
    Sampler,
    Image { dim: ImageDimension },
    SampledImage { dim: ImageDimension },
    UniformBuffer { layout: BlockLayout },
}

#[derive(Debug, PartialEq, Eq)]
pub struct SetBinding {
    pub set: u32,
    pub binding: u32,
    pub data: SetBindingData,
    pub var_name: String,
}

#[derive(Debug, PartialEq, Eq)]
pub struct ShaderInfo {
    pub set_bindings: Vec<SetBinding>,
    pub push_constants: Option<BlockLayout>,
}

// ---------------------------------------------------------------------------
// Mathematical models: every string becomes its sequence of characters and
// every vector the sequence of the models of its elements.
// ---------------------------------------------------------------------------

pub struct BlockMemberModel {
    pub kind: BlockMemberType,
    pub offset: u32,
    pub size: u32,
    pub name: Seq<char>,
}

pub struct BlockLayoutModel {
    pub members: Seq<BlockMemberModel>,
    pub block_name: Seq<char>,
    pub total_size: u32,
}

pub enum SetBindingDataModel {
    Sampler,
    Image { dim: ImageDimension },
    SampledImage { dim: ImageDimension },
    UniformBuffer { layout: BlockLayoutModel },
}

pub struct SetBindingModel {
    pub set: u32,
    pub binding: u32,
    pub data: SetBindingDataModel,
    pub var_name: Seq<char>,
}

pub struct ShaderInfoModel {
    pub set_bindings: Seq<SetBindingModel>,
    pub push_constants: Option<BlockLayoutModel>,
}

/// The model of a merge failure: `names` tells the two kinds of error apart
/// (`true` for mismatching names), followed by the name of the binding of the
/// second interface and the name of the binding it collided with.
pub struct MergeErrorModel {
    pub names: bool,
    pub new_name: Seq<char>,
    pub existing_name: Seq<char>,
}

impl View for BlockMember {
    type V = BlockMemberModel;

    open spec fn view(&self) -> BlockMemberModel {
        BlockMemberModel { kind: self.kind, offset: self.offset, size: self.size, name: self.name@ }
    }
}

impl View for BlockLayout {
    type V = BlockLayoutModel;

    open spec fn view(&self) -> BlockLayoutModel {
        BlockLayoutModel {
            members: self.members@.map_values(|m: BlockMember| m@),
            block_name: self.block_name@,
            total_size: self.total_size,
        }
    }
}

impl View for SetBindingData {
    type V = SetBindingDataModel;

    open spec fn view(&self) -> SetBindingDataModel {
        match self {
            SetBindingData::Sampler => SetBindingDataModel::Sampler,
            SetBindingData::Image { dim } => SetBindingDataModel::Image { dim: *dim },
            SetBindingData::SampledImage { dim } => SetBindingDataModel::SampledImage { dim: *dim },
            SetBindingData::UniformBuffer { layout } => SetBindingDataModel::UniformBuffer {
                layout: layout@,
            },
        }
    }
}

impl View for SetBinding {
    type V = SetBindingModel;

    open spec fn view(&self) -> SetBindingModel {
        SetBindingModel {
            set: self.set,
            binding: self.binding,
            data: self.data@,
            var_name: self.var_name@,
        }
    }
}

impl View for ShaderInfo {
    type V = ShaderInfoModel;

    open spec fn view(&self) -> ShaderInfoModel {
        ShaderInfoModel {
            set_bindings: self.set_bindings@.map_values(|b: SetBinding| b@),
            push_constants: match self.push_constants {
                Some(l) => Some(l@),
                None => None,
            },
        }
    }
}

// ---------------------------------------------------------------------------
// Comparison rules
// ---------------------------------------------------------------------------

/// Two block members agree when kind, offset and size agree; names are not compared.
pub open spec fn member_matches(a: BlockMemberModel, b: BlockMemberModel) -> bool {
    a.kind == b.kind && a.offset == b.offset && a.size == b.size
}

pub open spec fn min_len(a: nat, b: nat) -> nat {
    if a <= b { a } else { b }
}

/// Two block layouts agree when their total sizes are equal and the members
/// that both have (position by position, up to the shorter list) agree.
pub open spec fn layout_matches(a: BlockLayoutModel, b: BlockLayoutModel) -> bool {
    &&& a.total_size == b.total_size
    &&& forall|i: int|
        0 <= i < min_len(a.members.len(), b.members.len()) ==> #[trigger] member_matches(
            a.members[i],
            b.members[i],
        )
}

/// Binding data agree: uniform buffers by `layout_matches`, every other
/// kind by equality.
pub open spec fn data_matches(a: SetBindingDataModel, b: SetBindingDataModel) -> bool {
    match a {
        SetBindingDataModel::UniformBuffer { layout } => match b {
            SetBindingDataModel::UniformBuffer { layout: r_layout } => layout_matches(
                layout,
                r_layout,
            ),
            _ => false,
        },
        SetBindingDataModel::Sampler => b is Sampler,
        SetBindingDataModel::Image { dim } => b matches SetBindingDataModel::Image { dim: d } && d
            == dim,
        SetBindingDataModel::SampledImage { dim } => b matches SetBindingDataModel::SampledImage {
            dim: d,
        } && d == dim,
    }
}

pub open spec fn binding_matches(a: SetBindingModel, b: SetBindingModel) -> bool {
    a.set == b.set && a.binding == b.binding && data_matches(a.data, b.data)
}

/// Full equality of two bindings, names included.
pub open spec fn members_equal(a: Seq<BlockMemberModel>, b: Seq<BlockMemberModel>) -> bool {
    &&& a.len() == b.len()
    &&& forall|i: int| 0 <= i < a.len() ==> #[trigger] a[i] == b[i]
}

pub open spec fn layouts_equal(a: BlockLayoutModel, b: BlockLayoutModel) -> bool {
    &&& members_equal(a.members, b.members)
    &&& a.block_name == b.block_name
    &&& a.total_size == b.total_size
}

pub open spec fn data_equal(a: SetBindingDataModel, b: SetBindingDataModel) -> bool {
    match a {
        SetBindingDataModel::UniformBuffer { layout } => match b {
            SetBindingDataModel::UniformBuffer { layout: r_layout } => layouts_equal(
                layout,
                r_layout,
            ),
            _ => false,
        },
        _ => data_matches(a, b),
    }
}

pub open spec fn bindings_equal(a: SetBindingModel, b: SetBindingModel) -> bool {
    a.set == b.set && a.binding == b.binding && data_equal(a.data, b.data) && a.var_name
        == b.var_name
}

impl Clone for BlockMember {
    fn clone(&self) -> (r: Self)
        ensures
            r@ == self@,
    {
        BlockMember { kind: self.kind, offset: self.offset, size: self.size, name: self.name.clone() }
    }
}

impl Clone for BlockLayout {
    fn clone(&self) -> (r: Self)
        ensures
            r@ == self@,
    {
        let mut members: Vec<BlockMember> = Vec::new();
        let mut i: usize = 0;
        while i < self.members.len()
            invariant
                i <= self.members.len(),
                members@.len() == i,
                forall|j: int| 0 <= j < i ==> #[trigger] members@[j]@ == self.members@[j]@,
            decreases self.members.len() - i,
        {
            members.push(self.members[i].clone());
            i += 1;
        }
        assert(members@.map_values(|m: BlockMember| m@) =~= self.members@.map_values(
            |m: BlockMember| m@,
        ));
        BlockLayout { members, block_name: self.block_name.clone(), total_size: self.total_size }
    }
}

impl Clone for SetBindingData {
    fn clone(&self) -> (r: Self)
        ensures
            r@ == self@,
    {
        match self {
            SetBindingData::Sampler => SetBindingData::Sampler,
            SetBindingData::Image { dim } => SetBindingData::Image { dim: *dim },
            SetBindingData::SampledImage { dim } => SetBindingData::SampledImage { dim: *dim },
            SetBindingData::UniformBuffer { layout } => SetBindingData::UniformBuffer {
                layout: layout.clone(),
            },
        }
    }
}

impl Clone for ShaderInfo {
    fn clone(&self) -> (r: Self)
        ensures
            r@ == self@,
    {
        let mut set_bindings: Vec<SetBinding> = Vec::new();
        let mut i: usize = 0;
        while i < self.set_bindings.len()
            invariant
                i <= self.set_bindings.len(),
                set_bindings@.len() == i,
                forall|j: int| 0 <= j < i ==> #[trigger] set_bindings@[j]@ == self.set_bindings@[j]@,
            decreases self.set_bindings.len() - i,
        {
            set_bindings.push(self.set_bindings[i].clone());
            i += 1;
        }
        assert(set_bindings@.map_values(|b: SetBinding| b@) =~= self.set_bindings@.map_values(
            |b: SetBinding| b@,
        ));
        let push_constants = match &self.push_constants {
            Some(l) => Some(l.clone()),
            None => None,
        };
        ShaderInfo { set_bindings, push_constants }
    }
}

impl Clone for SetBinding {
    fn clone(&self) -> (r: Self)
        ensures
            r@ == self@,
    {
        SetBinding {
            set: self.set,
            binding: self.binding,
            data: self.data.clone(),
            var_name: self.var_name.clone(),
        }
    }
}

impl BlockMember {
    pub fn equal_ignore_names(&self, r: &BlockMember) -> (res: bool)
        ensures
            res == member_matches(self@, r@),
    {
        self.kind == r.kind && self.offset == r.offset && self.size == r.size
    }

    fn equals(&self, r: &BlockMember) -> (res: bool)
        ensures
            res == (self@ == r@),
    {
        self.kind == r.kind && self.offset == r.offset && self.size == r.size && self.name
            == r.name
    }
}

impl BlockLayout {
    pub fn equal_ignore_names(&self, r: &BlockLayout) -> (res: bool)
        ensures
            res == layout_matches(self@, r@),
    {
        if self.total_size != r.total_size {
            false
        } else {
            let n = if self.members.len() <= r.members.len() {
                self.members.len()
            } else {
                r.members.len()
            };
            let mut i: usize = 0;
            while i < n
                invariant
                    i <= n,
                    n == min_len(self.members@.len(), r.members@.len()),
                    forall|j: int|
                        0 <= j < i ==> #[trigger] member_matches(
                            self@.members[j],
                            r@.members[j],
                        ),
                decreases n - i,
            {
                if !self.members[i].equal_ignore_names(&r.members[i]) {
                    assert(!member_matches(self@.members[i as int], r@.members[i as int]));
                    return false;
                }
                i += 1;
            }
            true
        }
    }

    fn equals(&self, r: &BlockLayout) -> (res: bool)
        ensures
            res == layouts_equal(self@, r@),
    {
        if self.total_size != r.total_size || self.block_name != r.block_name
            || self.members.len() != r.members.len() {
            return false;
        }
        let mut i: usize = 0;
        while i < self.members.len()
            invariant
                i <= self.members.len(),
                self.members.len() == r.members.len(),
                forall|j: int| 0 <= j < i ==> #[trigger] self@.members[j] == r@.members[j],
            decreases self.members.len() - i,
        {
            if !self.members[i].equals(&r.members[i]) {
                assert(self@.members[i as int] != r@.members[i as int]);
                return false;
            }
            i += 1;
        }
        true
    }
}

impl SetBindingData {
    pub fn equal_ignore_names(&self, r: &SetBindingData) -> (res: bool)
        ensures
            res == data_matches(self@, r@),
    {
        match self {
            SetBindingData::UniformBuffer { layout } => match r {
                SetBindingData::UniformBuffer { layout: r_layout } => {
                    layout.equal_ignore_names(r_layout)
                },
                _ => false,
            },
            SetBindingData::Sampler => matches!(r, SetBindingData::Sampler),
            SetBindingData::Image { dim } => match r {
                SetBindingData::Image { dim: d } => *d == *dim,
                _ => false,
            },
            SetBindingData::SampledImage { dim } => match r {
                SetBindingData::SampledImage { dim: d } => *d == *dim,
                _ => false,
            },
        }
    }

    fn equals(&self, r: &SetBindingData) -> (res: bool)
        ensures
            res == data_equal(self@, r@),
    {
        match self {
            SetBindingData::UniformBuffer { layout } => match r {
                SetBindingData::UniformBuffer { layout: r_layout } => layout.equals(r_layout),
                _ => false,
            },
            _ => self.equal_ignore_names(r),
        }
    }
}

impl SetBinding {
    pub fn equal_ignore_names(&self, r: &SetBinding) -> (res: bool)
        ensures
            res == binding_matches(self@, r@),
    {
        self.set == r.set && self.binding == r.binding && self.data.equal_ignore_names(&r.data)
    }

    fn equals(&self, r: &SetBinding) -> (res: bool)
        ensures
            res == bindings_equal(self@, r@),
    {
        self.set == r.set && self.binding == r.binding && self.data.equals(&r.data)
            && self.var_name == r.var_name
    }
}

// ---------------------------------------------------------------------------
// Merging the interfaces of two shader stages
// ---------------------------------------------------------------------------

/// The position of the first binding in `res`, at `from` or after it, that
/// occupies the same descriptor set and binding number as `b`.
pub open spec fn first_slot(res: Seq<SetBindingModel>, b: SetBindingModel, from: int) -> Option<
    int,
>
    decreases res.len() - from,
{
    if from >= res.len() {
        None
    } else if res[from].set == b.set && res[from].binding == b.binding {
        Some(from)
    } else {
        first_slot(res, b, from + 1)
    }
}

/// The result of adding the bindings `bs`, in order, to the bindings `res`.
/// A binding whose slot is still free is appended; one whose slot is taken
/// must agree with the binding found there (by full equality when
/// `names_must_match`, else ignoring names), or merging fails there.
pub open spec fn merge_bindings(
    res: Seq<SetBindingModel>,
    bs: Seq<SetBindingModel>,
    names_must_match: bool,
) -> Result<Seq<SetBindingModel>, MergeErrorModel>
    decreases bs.len(),
{
    if bs.len() == 0 {
        Ok(res)
    } else {
        let b = bs[0];
        match first_slot(res, b, 0) {
            None => merge_bindings(res.push(b), bs.drop_first(), names_must_match),
            Some(i) => if names_must_match && !bindings_equal(res[i], b) {
                Err(MergeErrorModel { names: true, new_name: b.var_name, existing_name: res[i].var_name })
            } else if !names_must_match && !binding_matches(res[i], b) {
                Err(MergeErrorModel { names: false, new_name: b.var_name, existing_name: res[i].var_name })
            } else {
                merge_bindings(res, bs.drop_first(), names_must_match)
            },
        }
    }
}

/// Every (set, binding) slot occurs at most once.
pub open spec fn unique_slots(bs: Seq<SetBindingModel>) -> bool {
    forall|i: int, j: int|
        0 <= i < j < bs.len() ==> !((#[trigger] bs[i]).set == (#[trigger] bs[j]).set && bs[i].binding
            == bs[j].binding)
}

/// A search for the slot of `b` from `from` on finds the first binding at or
/// after `from` in that slot.
proof fn lemma_first_slot(res: Seq<SetBindingModel>, b: SetBindingModel, from: int)
    requires
        0 <= from,
    ensures
        match first_slot(res, b, from) {
            Some(i) => from <= i < res.len() && res[i].set == b.set && res[i].binding == b.binding
                && forall|k: int| from <= k < i ==> !(#[trigger] res[k].set == b.set && res[k].binding
                == b.binding),
            None => forall|k: int|
                from <= k < res.len() ==> !(#[trigger] res[k].set == b.set && res[k].binding
                    == b.binding),
        },
    decreases res.len() - from,
{
    if from < res.len() {
        lemma_first_slot(res, b, from + 1);
    }
}

/// Two block members agree, names aside, exactly when they have the same
/// kind, the same offset and the same size.
pub proof fn law_members_agree_at_the_same_place(a: BlockMemberModel, b: BlockMemberModel)
    ensures
        member_matches(a, b) ==> a.offset == b.offset && a.kind == b.kind && a.size == b.size,
        (a.offset == b.offset && a.kind == b.kind && a.size == b.size) ==> member_matches(a, b),
{
}

/// Merging without comparing names fails at a binding whose slot is taken
/// by a uniform block that has a member, common to both blocks, at another
/// offset: the two stages disagree on the block's layout.
pub proof fn law_merge_refuses_a_moved_member(
    res: Seq<SetBindingModel>,
    bs: Seq<SetBindingModel>,
    k: int,
    i: int,
)
    requires
        bs.len() > 0,
        0 <= k < res.len(),
        res[k].set == bs[0].set && res[k].binding == bs[0].binding,
        forall|j: int| 0 <= j < k ==> !(#[trigger] res[j].set == bs[0].set && res[j].binding
            == bs[0].binding),
        res[k].data is UniformBuffer,
        bs[0].data is UniformBuffer,
        0 <= i < res[k].data->UniformBuffer_layout.members.len(),
        i < bs[0].data->UniformBuffer_layout.members.len(),
        res[k].data->UniformBuffer_layout.members[i].offset != bs[0].data->UniformBuffer_layout.members[i].offset,
    ensures
        merge_bindings(res, bs, false) == Err::<Seq<SetBindingModel>, MergeErrorModel>(
            MergeErrorModel { names: false, new_name: bs[0].var_name, existing_name: res[k].var_name },
        ),
{
    let b = bs[0];
    lemma_first_slot(res, b, 0);
    assert(first_slot(res, b, 0) == Some(k)) by {
        match first_slot(res, b, 0) {
            Some(q) => {
                if q < k {
                    assert(!(res[q].set == b.set && res[q].binding == b.binding));
                }
                if q > k {
                    assert(!(res[k].set == b.set && res[k].binding == b.binding));
                }
            },
            None => {
                assert(!(res[k].set == b.set && res[k].binding == b.binding));
            },
        }
    }
    let la = res[k].data->UniformBuffer_layout;
    let lb = b.data->UniformBuffer_layout;
    assert(!member_matches(la.members[i], lb.members[i]));
    assert(!layout_matches(la, lb));
    assert(!binding_matches(res[k], b));
}

/// A binding agrees with itself, with or without names.
pub proof fn law_binding_agrees_with_itself(b: SetBindingModel)
    ensures
        bindings_equal(b, b),
        binding_matches(b, b),
{
}

/// A successful merge keeps the bindings of the first interface first, in
/// their order, and leaves no binding of the second without a binding in
/// its slot.
pub proof fn law_merge_keeps_and_covers(
    res: Seq<SetBindingModel>,
    bs: Seq<SetBindingModel>,
    names_must_match: bool,
)
    requires
        merge_bindings(res, bs, names_must_match) is Ok,
    ensures
        ({
            let out = merge_bindings(res, bs, names_must_match)->Ok_0;
            &&& res.len() <= out.len()
            &&& out.take(res.len() as int) == res
            &&& forall|j: int| 0 <= j < bs.len() ==> first_slot(out, #[trigger] bs[j], 0) is Some
        }),
    decreases bs.len(),
{
    if bs.len() > 0 {
        let b = bs[0];
        let next = match first_slot(res, b, 0) {
            None => res.push(b),
            Some(i) => res,
        };
        lemma_first_slot(res, b, 0);
        law_merge_keeps_and_covers(next, bs.drop_first(), names_must_match);
        let out = merge_bindings(res, bs, names_must_match)->Ok_0;
        assert(out == merge_bindings(next, bs.drop_first(), names_must_match)->Ok_0);
        assert(out.take(next.len() as int) == next);
        assert(out.take(res.len() as int) =~= res) by {
            assert(next.take(res.len() as int) =~= res);
            assert forall|k: int| 0 <= k < res.len() implies out[k] == res[k] by {
                assert(out.take(next.len() as int)[k] == next[k]);
            }
        }
        assert forall|j: int| 0 <= j < bs.len() implies first_slot(out, #[trigger] bs[j], 0) is Some by {
            if j > 0 {
                assert(bs[j] == bs.drop_first()[j - 1]);
            } else {
                let k = match first_slot(res, b, 0) {
                    None => res.len() as int,
                    Some(i) => i,
                };
                assert(out[k] == next[k]) by {
                    assert(out.take(next.len() as int)[k] == next[k]);
                }
                lemma_first_slot(out, b, 0);
                assert(out[k].set == b.set && out[k].binding == b.binding);
            }
        }
    }
}

/// Two block layouts that differ at most in names: the block name and the
/// member names.
pub open spec fn differ_in_names_only(a: BlockLayoutModel, b: BlockLayoutModel) -> bool {
    &&& a.total_size == b.total_size
    &&& a.members.len() == b.members.len()
    &&& forall|i: int| 0 <= i < a.members.len() ==> #[trigger] member_matches(a.members[i], b.members[i])
}

/// Comparing layouts while ignoring names: a layout agrees with itself and
/// with every renaming of it, renaming never changes whether it agrees with
/// another layout, and layouts of different total size never agree.
pub proof fn law_layout_match_ignores_names(
    a: BlockLayoutModel,
    renamed: BlockLayoutModel,
    other: BlockLayoutModel,
)
    requires
        differ_in_names_only(a, renamed),
    ensures
        layout_matches(a, a),
        layout_matches(a, renamed) && layout_matches(renamed, a),
        layout_matches(a, other) <==> layout_matches(renamed, other),
        layout_matches(other, a) <==> layout_matches(other, renamed),
        a.total_size != other.total_size ==> !layout_matches(a, other),
{
    assert(layout_matches(a, other) ==> layout_matches(renamed, other)) by {
        if layout_matches(a, other) {
            assert forall|i: int| 0 <= i < min_len(renamed.members.len(), other.members.len()) implies #[trigger] member_matches(renamed.members[i], other.members[i]) by {
                assert(member_matches(a.members[i], other.members[i]));
                assert(member_matches(a.members[i], renamed.members[i]));
            }
        }
    }
    assert(layout_matches(renamed, other) ==> layout_matches(a, other)) by {
        if layout_matches(renamed, other) {
            assert forall|i: int| 0 <= i < min_len(a.members.len(), other.members.len()) implies #[trigger] member_matches(a.members[i], other.members[i]) by {
                assert(member_matches(renamed.members[i], other.members[i]));
                assert(member_matches(a.members[i], renamed.members[i]));
            }
        }
    }
    assert(layout_matches(other, a) ==> layout_matches(other, renamed)) by {
        if layout_matches(other, a) {
            assert forall|i: int| 0 <= i < min_len(other.members.len(), renamed.members.len()) implies #[trigger] member_matches(other.members[i], renamed.members[i]) by {
                assert(member_matches(other.members[i], a.members[i]));
                assert(member_matches(a.members[i], renamed.members[i]));
            }
        }
    }
    assert(layout_matches(other, renamed) ==> layout_matches(other, a)) by {
        if layout_matches(other, renamed) {
            assert forall|i: int| 0 <= i < min_len(other.members.len(), a.members.len()) implies #[trigger] member_matches(other.members[i], a.members[i]) by {
                assert(member_matches(other.members[i], renamed.members[i]));
                assert(member_matches(a.members[i], renamed.members[i]));
            }
        }
    }
    assert(layout_matches(renamed, a)) by {
        assert forall|i: int| 0 <= i < min_len(renamed.members.len(), a.members.len()) implies #[trigger] member_matches(renamed.members[i], a.members[i]) by {
            assert(member_matches(a.members[i], renamed.members[i]));
        }
    }
}

/// Merging an interface with no bindings changes nothing.
pub proof fn law_merge_empty(res: Seq<SetBindingModel>, names_must_match: bool)
    ensures
        merge_bindings(res, Seq::empty(), names_must_match) == Ok::<
            Seq<SetBindingModel>,
            MergeErrorModel,
        >(res),
{
}

/// Merging an interface whose slots are all different into itself succeeds
/// and gives it back, whether names must match or not.
pub proof fn law_merge_with_itself(a: Seq<SetBindingModel>, names_must_match: bool)
    requires
        unique_slots(a),
    ensures
        merge_bindings(a, a, names_must_match) == Ok::<Seq<SetBindingModel>, MergeErrorModel>(a),
{
    lemma_merge_with_suffix(a, 0, names_must_match);
    assert(a.skip(0) =~= a);
}

proof fn lemma_merge_with_suffix(a: Seq<SetBindingModel>, k: int, names_must_match: bool)
    requires
        unique_slots(a),
        0 <= k <= a.len(),
    ensures
        merge_bindings(a, a.skip(k), names_must_match) == Ok::<Seq<SetBindingModel>, MergeErrorModel>(
            a,
        ),
    decreases a.len() - k,
{
    if k < a.len() {
        let bs = a.skip(k);
        let b = bs[0];
        assert(b == a[k]);
        lemma_first_slot(a, b, 0);
        assert(first_slot(a, b, 0) == Some(k)) by {
            match first_slot(a, b, 0) {
                Some(i) => {
                    if i < k {
                        assert(!(a[i].set == a[k].set && a[i].binding == a[k].binding));
                    }
                    if i > k {
                        assert(!(a[k].set == b.set && a[k].binding == b.binding));
                    }
                },
                None => {
                    assert(!(a[k].set == b.set && a[k].binding == b.binding));
                },
            }
        }
        law_binding_agrees_with_itself(b);
        assert(bs.drop_first() =~= a.skip(k + 1));
        lemma_merge_with_suffix(a, k + 1, names_must_match);
    }
}

/// The model of a merge error; `None` for an error that merging never reports.
pub open spec fn merge_error_model(e: ShaderError) -> Option<MergeErrorModel> {
    match e {
        ShaderError::IncompatiblePropertyNames(new_name, existing_name) => Some(
            MergeErrorModel { names: true, new_name: new_name@, existing_name: existing_name@ },
        ),
        ShaderError::IncompatibleProperties(new_name, existing_name) => Some(
            MergeErrorModel { names: false, new_name: new_name@, existing_name: existing_name@ },
        ),
        ShaderError::ReflectError(_) => None,
    }
}

/// Merges the interface `b` of one shader stage into the interface `a` of
/// another: the result holds the bindings of `a` followed by those of `b`
/// whose (set, binding) slot was not taken yet; the push constants of `a`
/// are kept.
pub fn merge(a: ShaderInfo, b: &ShaderInfo, names_must_match: bool) -> (r: Result<
    ShaderInfo,
    ShaderError,
>)
    ensures
        match (r, merge_bindings(a@.set_bindings, b@.set_bindings, names_must_match)) {
            (Ok(info), Ok(bindings)) => info@.set_bindings == bindings && info@.push_constants
                == a@.push_constants,
            (Err(e), Err(m)) => merge_error_model(e) == Some(m),
            _ => false,
        },
{
    let ghost all = b@.set_bindings;
    assert(all.skip(0) =~= all);
    let mut res = a;
    let mut k: usize = 0;
    while k < b.set_bindings.len()
        invariant
            k <= b.set_bindings.len(),
            all == b@.set_bindings,
            res@.push_constants == a@.push_constants,
            merge_bindings(a@.set_bindings, all, names_must_match) == merge_bindings(
                res@.set_bindings,
                all.skip(k as int),
                names_must_match,
            ),
        decreases b.set_bindings.len() - k,
    {
        let binding = &b.set_bindings[k];
        let ghost cur = res@.set_bindings;
        let ghost rest = all.skip(k as int);
        assert(rest[0] == binding@);
        assert(rest.drop_first() =~= all.skip(k + 1));
        let mut found = false;
        let mut j: usize = 0;
        while j < res.set_bindings.len()
            invariant_except_break
                j <= res.set_bindings.len(),
                res@.set_bindings == cur,
                !found,
                first_slot(cur, binding@, 0) == first_slot(cur, binding@, j as int),
                k < b.set_bindings.len(),
                all == b@.set_bindings,
                rest == all.skip(k as int),
                rest.len() > 0,
                rest[0] == binding@,
                binding == &b.set_bindings[k as int],
                res@.push_constants == a@.push_constants,
                merge_bindings(a@.set_bindings, all, names_must_match) == merge_bindings(
                    cur,
                    rest,
                    names_must_match,
                ),
            ensures
                res@.set_bindings == cur,
                found ==> first_slot(cur, binding@, 0) == Some(j as int) && (names_must_match
                    ==> bindings_equal(cur[j as int], binding@)) && (!names_must_match
                    ==> binding_matches(cur[j as int], binding@)),
                !found ==> first_slot(cur, binding@, 0) == None::<int>,
            decreases res.set_bindings.len() - j,
        {
            let a_binding = &res.set_bindings[j];
            assert(cur[j as int] == a_binding@);
            if a_binding.set != binding.set || a_binding.binding != binding.binding {
                j += 1;
                continue;
            }
            assert(first_slot(cur, binding@, j as int) == Some(j as int));
            if names_must_match {
                if !a_binding.equals(binding) {
                    return Err(
                        ShaderError::IncompatiblePropertyNames(
                            binding.var_name.clone(),
                            a_binding.var_name.clone(),
                        ),
                    );
                }
            } else if !a_binding.equal_ignore_names(binding) {
                return Err(
                    ShaderError::IncompatibleProperties(
                        binding.var_name.clone(),
                        a_binding.var_name.clone(),
                    ),
                );
            }
            found = true;
            break;
        }
        if !found {
            res.set_bindings.push(binding.clone());
            assert(res@.set_bindings =~= cur.push(binding@));
        }
        k += 1;
    }
    assert(all.skip(k as int) =~= Seq::<SetBindingModel>::empty());
    Ok(res)
}

// ---------------------------------------------------------------------------
// Reflection of a SPIR-V module
// ---------------------------------------------------------------------------

/// The member type that a uniform block member of the given kind has.
pub open spec fn member_kind_of(k: TypeKind) -> BlockMemberType {
    match k {
        TypeKind::Float32 => BlockMemberType::Float,
        TypeKind::Vec2 => BlockMemberType::FloatVector(2),
        TypeKind::Vec3 => BlockMemberType::FloatVector(3),
        TypeKind::Vec4 => BlockMemberType::FloatVector(4),
        TypeKind::Mat3 => BlockMemberType::FloatMatrix(3),
        TypeKind::Mat4 => BlockMemberType::FloatMatrix(4),
        _ => BlockMemberType::Unsupported,
    }
}

fn member_kind(k: TypeKind) -> (r: BlockMemberType)
    ensures
        r == member_kind_of(k),
{
    match k {
        TypeKind::Float32 => BlockMemberType::Float,
        TypeKind::Vec2 => BlockMemberType::FloatVector(2),
        TypeKind::Vec3 => BlockMemberType::FloatVector(3),
        TypeKind::Vec4 => BlockMemberType::FloatVector(4),
        TypeKind::Mat3 => BlockMemberType::FloatMatrix(3),
        TypeKind::Mat4 => BlockMemberType::FloatMatrix(4),
        _ => BlockMemberType::Unsupported,
    }
}

/// What reflection reads of one member of a uniform block: its name, its
/// byte offset, and the kind of its type (`None` where the module does not
/// give it).
pub struct MemberInfo {
    pub name: Option<String>,
    pub offset: Option<u32>,
    pub kind: Option<TypeKind>,
}

/// What reflection reads of one uniform variable: its set, binding and name,
/// the kind of its type, and for a struct type its size in bytes and its
/// members (`None` where the module does not give it).
pub struct UniformInfo {
    pub set: Option<u32>,
    pub binding: Option<u32>,
    pub name: Option<String>,
    pub kind: Option<TypeKind>,
    pub size: Option<u32>,
    pub members: Option<Vec<MemberInfo>>,
}

pub struct MemberInfoModel {
    pub name: Option<Seq<char>>,
    pub offset: Option<u32>,
    pub kind: Option<TypeKind>,
}

pub struct UniformInfoModel {
    pub set: Option<u32>,
    pub binding: Option<u32>,
    pub name: Option<Seq<char>>,
    pub kind: Option<TypeKind>,
    pub size: Option<u32>,
    pub members: Option<Seq<MemberInfoModel>>,
}

impl View for MemberInfo {
    type V = MemberInfoModel;

    open spec fn view(&self) -> MemberInfoModel {
        MemberInfoModel { name: opt_string_view(self.name), offset: self.offset, kind: self.kind }
    }
}

impl View for UniformInfo {
    type V = UniformInfoModel;

    open spec fn view(&self) -> UniformInfoModel {
        UniformInfoModel {
            set: self.set,
            binding: self.binding,
            name: opt_string_view(self.name),
            kind: self.kind,
            size: self.size,
            members: match self.members {
                Some(ms) => Some(ms@.map_values(|m: MemberInfo| m@)),
                None => None,
            },
        }
    }
}

/// The block member that a member description gives: its name and offset
/// must be known, as must the kind of its type. Sizes are not read (0).
pub open spec fn block_member_of(m: MemberInfoModel) -> Option<BlockMemberModel> {
    match (m.name, m.offset, m.kind) {
        (Some(name), Some(offset), Some(k)) => Some(
            BlockMemberModel { kind: member_kind_of(k), offset, size: 0, name },
        ),
        _ => None,
    }
}

/// The block members of a list of member descriptions, if all are complete.
pub open spec fn block_members_of(ms: Seq<MemberInfoModel>) -> Option<Seq<BlockMemberModel>>
    decreases ms.len(),
{
    if ms.len() == 0 {
        Some(Seq::empty())
    } else {
        match (block_members_of(ms.drop_last()), block_member_of(ms.last())) {
            (Some(pre), Some(m)) => Some(pre.push(m)),
            _ => None,
        }
    }
}

/// The binding data that a uniform of the given type gives: 2D images and
/// sampled images, samplers, and uniform blocks (a struct type, whose size
/// and members must be known); any other type is taken for a sampler.
pub open spec fn binding_data_of(u: UniformInfoModel) -> Option<SetBindingDataModel> {
    match u.kind {
        None => None,
        Some(TypeKind::Image2D) => Some(SetBindingDataModel::Image { dim: ImageDimension::Two }),
        Some(TypeKind::Sampler) => Some(SetBindingDataModel::Sampler),
        Some(TypeKind::SampledImage) => Some(
            SetBindingDataModel::SampledImage { dim: ImageDimension::Two },
        ),
        Some(TypeKind::Struct) => match (u.size, u.members) {
            (Some(total_size), Some(ms)) => match block_members_of(ms) {
                Some(members) => Some(
                    SetBindingDataModel::UniformBuffer {
                        layout: BlockLayoutModel { members, block_name: Seq::empty(), total_size },
                    },
                ),
                None => None,
            },
            _ => None,
        },
        Some(_) => Some(SetBindingDataModel::Sampler),
    }
}

/// The binding that a uniform gives: its set and binding must be known; a
/// missing name is the empty name.
pub open spec fn set_binding_of(u: UniformInfoModel) -> Option<SetBindingModel> {
    match (u.set, u.binding, binding_data_of(u)) {
        (Some(set), Some(binding), Some(data)) => Some(
            SetBindingModel {
                set,
                binding,
                data,
                var_name: match u.name {
                    Some(n) => n,
                    None => Seq::empty(),
                },
            },
        ),
        _ => None,
    }
}

/// The bindings of a list of uniforms, in order, if every uniform is
/// described completely.
pub open spec fn set_bindings_of(us: Seq<UniformInfoModel>) -> Option<Seq<SetBindingModel>>
    decreases us.len(),
{
    if us.len() == 0 {
        Some(Seq::empty())
    } else {
        match (set_bindings_of(us.drop_last()), set_binding_of(us.last())) {
            (Some(pre), Some(b)) => Some(pre.push(b)),
            _ => None,
        }
    }
}

/// Once a prefix of the uniforms is incomplete, so is every longer one.
proof fn lemma_incomplete_persists(us: Seq<UniformInfoModel>, n: int)
    requires
        0 <= n <= us.len(),
        set_bindings_of(us.take(n)) is None,
    ensures
        set_bindings_of(us) is None,
    decreases us.len() - n,
{
    if n < us.len() {
        assert(us.take(n + 1).drop_last() =~= us.take(n));
        lemma_incomplete_persists(us, n + 1);
    } else {
        assert(us.take(n) =~= us);
    }
}

proof fn lemma_incomplete_members_persist(ms: Seq<MemberInfoModel>, n: int)
    requires
        0 <= n <= ms.len(),
        block_members_of(ms.take(n)) is None,
    ensures
        block_members_of(ms) is None,
    decreases ms.len() - n,
{
    if n < ms.len() {
        assert(ms.take(n + 1).drop_last() =~= ms.take(n));
        lemma_incomplete_members_persist(ms, n + 1);
    } else {
        assert(ms.take(n) =~= ms);
    }
}

/// The block members of complete member descriptions.
fn block_members(ms: &Vec<MemberInfo>) -> (r: Option<Vec<BlockMember>>)
    ensures
        match block_members_of(ms@.map_values(|m: MemberInfo| m@)) {
            Some(bms) => r matches Some(v) && v@.map_values(|b: BlockMember| b@) == bms,
            None => r is None,
        },
{
    let ghost mm = ms@.map_values(|m: MemberInfo| m@);
    let mut members: Vec<BlockMember> = Vec::new();
    let mut i: usize = 0;
    while i < ms.len()
        invariant
            i <= ms@.len(),
            mm == ms@.map_values(|m: MemberInfo| m@),
            block_members_of(mm.take(i as int)) == Some(members@.map_values(|b: BlockMember| b@)),
        decreases ms.len() - i,
    {
        let m = &ms[i];
        assert(mm[i as int] == m@);
        assert(mm.take(i + 1).drop_last() =~= mm.take(i as int));
        assert(mm.take(i + 1).last() == m@);
        let kind = match m.kind {
            Some(k) => member_kind(k),
            None => {
                proof {
                    lemma_incomplete_members_persist(mm, i + 1);
                }
                return None;
            },
        };
        let offset = match m.offset {
            Some(o) => o,
            None => {
                proof {
                    lemma_incomplete_members_persist(mm, i + 1);
                }
                return None;
            },
        };
        let name = match &m.name {
            Some(n) => n.clone(),
            None => {
                proof {
                    lemma_incomplete_members_persist(mm, i + 1);
                }
                return None;
            },
        };
        let ghost before = members@;
        members.push(BlockMember { kind, offset, size: 0, name });
        assert(members@.map_values(|b: BlockMember| b@) =~= before.map_values(|b: BlockMember| b@).push(
            block_member_of(m@)->Some_0,
        ));
        i += 1;
    }
    assert(mm.take(ms@.len() as int) =~= mm);
    Some(members)
}

/// The descriptor set bindings of a module's uniform variables, in order.
/// A uniform whose set, binding or type is not known, or a uniform block
/// whose size or a member's name, offset or type is not known, makes
/// reflection fail with `ReflectError(spirv_layout::Error::InvalidId)`.
pub fn set_bindings_from_uniforms(us: &Vec<UniformInfo>) -> (r: Result<Vec<SetBinding>, ShaderError>)
    ensures
        match set_bindings_of(us@.map_values(|u: UniformInfo| u@)) {
            Some(bs) => r matches Ok(v) && v@.map_values(|b: SetBinding| b@) == bs,
            None => r matches Err(ShaderError::ReflectError(_)),
        },
{
    let ghost um = us@.map_values(|u: UniformInfo| u@);
    let mut set_bindings: Vec<SetBinding> = Vec::new();
    let mut i: usize = 0;
    while i < us.len()
        invariant
            i <= us@.len(),
            um == us@.map_values(|u: UniformInfo| u@),
            set_bindings_of(um.take(i as int)) == Some(set_bindings@.map_values(|b: SetBinding| b@)),
        decreases us.len() - i,
    {
        let var = &us[i];
        assert(um[i as int] == var@);
        assert(um.take(i + 1).drop_last() =~= um.take(i as int));
        assert(um.take(i + 1).last() == var@);
        let set = match var.set {
            Some(s) => s,
            None => {
                proof {
                    lemma_incomplete_persists(um, i + 1);
                }
                return Err(ShaderError::ReflectError(invalid_id_error()));
            },
        };
        let binding = match var.binding {
            Some(b) => b,
            None => {
                proof {
                    lemma_incomplete_persists(um, i + 1);
                }
                return Err(ShaderError::ReflectError(invalid_id_error()));
            },
        };
        let var_name = match &var.name {
            Some(n) => n.clone(),
            None => String::new(),
        };
        let data = match var.kind {
            None => {
                proof {
                    lemma_incomplete_persists(um, i + 1);
                }
                return Err(ShaderError::ReflectError(invalid_id_error()));
            },
            Some(TypeKind::Image2D) => SetBindingData::Image { dim: ImageDimension::Two },
            Some(TypeKind::Sampler) => SetBindingData::Sampler,
            Some(TypeKind::SampledImage) => SetBindingData::SampledImage { dim: ImageDimension::Two },
            Some(TypeKind::Struct) => {
                let total_size = match var.size {
                    Some(t) => t,
                    None => {
                        proof {
                            lemma_incomplete_persists(um, i + 1);
                        }
                        return Err(ShaderError::ReflectError(invalid_id_error()));
                    },
                };
                let members = match &var.members {
                    Some(ms) => match block_members(ms) {
                        Some(bms) => bms,
                        None => {
                            proof {
                                lemma_incomplete_persists(um, i + 1);
                            }
                            return Err(ShaderError::ReflectError(invalid_id_error()));
                        },
                    },
                    None => {
                        proof {
                            lemma_incomplete_persists(um, i + 1);
                        }
                        return Err(ShaderError::ReflectError(invalid_id_error()));
                    },
                };
                SetBindingData::UniformBuffer {
                    layout: BlockLayout { members, block_name: String::new(), total_size },
                }
            },
            Some(_) => SetBindingData::Sampler,
        };
        let b = SetBinding { set, binding, data, var_name };
        assert(set_binding_of(var@) == Some(b@));
        let ghost before = set_bindings@;
        set_bindings.push(b);
        assert(set_bindings@.map_values(|x: SetBinding| x@) =~= before.map_values(|x: SetBinding| x@).push(
            set_binding_of(var@)->Some_0,
        ));
        i += 1;
    }
    assert(um.take(us@.len() as int) =~= um);
    Ok(set_bindings)
}

/// What reflection reads of a struct member of the module read from
/// `words`: its name and offset, and the kind of its type.
pub open spec fn member_info_in(words: Seq<u32>, e: StructMemberModel) -> MemberInfoModel {
    MemberInfoModel {
        name: e.name,
        offset: e.offset,
        kind: match spirv_type(words, e.type_id) {
            Some(t) => Some(t.kind),
            None => None,
        },
    }
}

/// What reflection reads of a uniform variable of the module read from
/// `words`: for a struct type also its size (with members followed at most
/// as many levels down as there are words) and its members.
pub open spec fn uniform_info_in(words: Seq<u32>, v: UniformVariableModel) -> UniformInfoModel {
    let (kind, size, members) = match spirv_type(words, v.type_id) {
        Some(t) => if t.kind == TypeKind::Struct {
            (
                Some(TypeKind::Struct),
                type_size_within(words, v.type_id, words.len()),
                Some(t.members.map_values(|e: StructMemberModel| member_info_in(words, e))),
            )
        } else {
            (Some(t.kind), None, None)
        },
        None => (None, None, None),
    };
    UniformInfoModel { set: v.set, binding: v.binding, name: v.name, kind, size, members }
}

/// What reflection reads of the uniform variables `vs` of the module read
/// from `words`, in their order.
pub open spec fn uniform_infos_in(words: Seq<u32>, vs: Seq<UniformVariableModel>) -> Seq<UniformInfoModel> {
    vs.map_values(|v: UniformVariableModel| uniform_info_in(words, v))
}

/// `us` is what reflection reads of the uniforms of the module read from
/// `words`, taken in some order.
pub open spec fn reads_uniforms_of(words: Seq<u32>, us: Seq<UniformInfoModel>) -> bool {
    exists|vs: Seq<UniformVariableModel>|
        #[trigger] vs.to_multiset() == spirv_uniforms(words) && us == uniform_infos_in(words, vs)
}

/// Reads what reflection needs of each uniform variable of `module`. The
/// uniforms come from walking a hash map inside `spirv_layout`, so their
/// order, and with it the result's, is not fixed.
fn read_uniforms(module: &SpirvModule, word_count: usize) -> (r: Vec<UniformInfo>)
    requires
        word_count == module@.len(),
    ensures
        reads_uniforms_of(module@, r@.map_values(|u: UniformInfo| u@)),
{
    let uniforms = module_uniforms(module);
    let ghost vs = uniforms@.map_values(|v: UniformVariable| v@);
    let mut infos: Vec<UniformInfo> = Vec::new();
    let mut u: usize = 0;
    while u < uniforms.len()
        invariant
            u <= uniforms.len(),
            word_count == module@.len(),
            infos@.len() == u,
            vs == uniforms@.map_values(|v: UniformVariable| v@),
            infos@.map_values(|x: UniformInfo| x@) == uniform_infos_in(module@, vs.take(u as int)),
        decreases uniforms.len() - u,
    {
        let var = &uniforms[u];
        let ty = module_type(module, var.type_id);
        let (kind, size, members) = match ty {
            Some(t) => match t.kind {
                TypeKind::Struct => {
                    let size = type_size(module, var.type_id, word_count);
                    let elements = t.members;
                    let ghost es = elements@.map_values(|e: StructMemberInfo| e@);
                    let mut ms: Vec<MemberInfo> = Vec::new();
                    let mut m: usize = 0;
                    while m < elements.len()
                        invariant
                            m <= elements.len(),
                            ms@.len() == m,
                            es == elements@.map_values(|e: StructMemberInfo| e@),
                            ms@.map_values(|x: MemberInfo| x@) == es.take(m as int).map_values(
                                |e: StructMemberModel| member_info_in(module@, e),
                            ),
                        decreases elements.len() - m,
                    {
                        let e = &elements[m];
                        let member_kind = match module_type(module, e.1) {
                            Some(mt) => Some(mt.kind),
                            None => None,
                        };
                        let name = clone_text(&e.0);
                        let ghost before = ms@;
                        ms.push(MemberInfo { name, offset: e.2, kind: member_kind });
                        assert(ms@.map_values(|x: MemberInfo| x@) =~= es.take(m + 1).map_values(
                            |e: StructMemberModel| member_info_in(module@, e),
                        )) by {
                            assert(before.map_values(|x: MemberInfo| x@) =~= es.take(m as int).map_values(
                                |e: StructMemberModel| member_info_in(module@, e),
                            ));
                            assert(es.take(m + 1) =~= es.take(m as int).push(es[m as int]));
                            assert(es[m as int] == elements@[m as int]@);
                            assert(ms@[m as int]@ == member_info_in(module@, es[m as int]));
                            assert forall|i: int| 0 <= i < m implies #[trigger] ms@[i]@ == member_info_in(
                                module@,
                                es[i],
                            ) by {
                                assert(before.map_values(|x: MemberInfo| x@)[i] == es.take(
                                    m as int,
                                ).map_values(|e: StructMemberModel| member_info_in(module@, e))[i]);
                                assert(ms@[i] == before[i]);
                            }
                        }
                        m += 1;
                    }
                    assert(es.take(elements@.len() as int) =~= es);
                    (Some(TypeKind::Struct), size, Some(ms))
                },
                k => (Some(k), None, None),
            },
            None => (None, None, None),
        };
        let name = clone_text(&var.name);
        let ghost before = infos@;
        infos.push(UniformInfo { set: var.set, binding: var.binding, name, kind, size, members });
        assert(infos@.map_values(|x: UniformInfo| x@) =~= uniform_infos_in(module@, vs.take(u + 1))) by {
            assert(before.map_values(|x: UniformInfo| x@) =~= uniform_infos_in(module@, vs.take(u as int)));
            assert(vs.take(u + 1) =~= vs.take(u as int).push(vs[u as int]));
            assert(vs[u as int] == uniforms@[u as int]@);
            assert(infos@[u as int]@ == uniform_info_in(module@, vs[u as int]));
            assert forall|i: int| 0 <= i < u implies #[trigger] infos@[i]@ == uniform_info_in(module@, vs[i]) by {
                assert(before.map_values(|x: UniformInfo| x@)[i] == uniform_infos_in(
                    module@,
                    vs.take(u as int),
                )[i]);
                assert(infos@[i] == before[i]);
            }
        }
        u += 1;
    }
    assert(vs.take(uniforms@.len() as int) =~= vs);
    assert(reads_uniforms_of(module@, infos@.map_values(|x: UniformInfo| x@)));
    infos
}

/// A copy of an optional string.
fn clone_text(s: &Option<String>) -> (r: Option<String>)
    ensures
        opt_string_view(r) == opt_string_view(*s),
{
    match s {
        Some(x) => Some(x.clone()),
        None => None,
    }
}

/// What holds of every binding that reflection produces: images and sampled
/// images are two-dimensional, and a uniform block has an empty block name
/// and members of size 0.
pub open spec fn reflected_data_shape(d: SetBindingDataModel) -> bool {
    match d {
        SetBindingDataModel::Sampler => true,
        SetBindingDataModel::Image { dim } => dim == ImageDimension::Two,
        SetBindingDataModel::SampledImage { dim } => dim == ImageDimension::Two,
        SetBindingDataModel::UniformBuffer { layout } => layout.block_name.len() == 0 && forall|
            i: int,
        | 0 <= i < layout.members.len() ==> #[trigger] layout.members[i].size == 0,
    }
}

/// Every binding that uniforms give has the shape of `reflected_data_shape`.
proof fn lemma_bindings_shape(us: Seq<UniformInfoModel>)
    requires
        set_bindings_of(us) is Some,
    ensures
        forall|i: int|
            0 <= i < set_bindings_of(us)->Some_0.len() ==> #[trigger] reflected_data_shape(
                set_bindings_of(us)->Some_0[i].data,
            ),
    decreases us.len(),
{
    if us.len() > 0 {
        lemma_bindings_shape(us.drop_last());
        let u = us.last();
        if u.kind == Some(TypeKind::Struct) {
            lemma_members_size_zero(u.members->Some_0);
        }
        let bs = set_bindings_of(us)->Some_0;
        let pre = set_bindings_of(us.drop_last())->Some_0;
        assert forall|i: int| 0 <= i < bs.len() implies #[trigger] reflected_data_shape(bs[i].data) by {
            if i < pre.len() {
                assert(bs[i] == pre[i]);
            }
        }
    }
}

proof fn lemma_members_size_zero(ms: Seq<MemberInfoModel>)
    requires
        block_members_of(ms) is Some,
    ensures
        forall|i: int|
            0 <= i < block_members_of(ms)->Some_0.len() ==> #[trigger] block_members_of(
                ms,
            )->Some_0[i].size == 0,
    decreases ms.len(),
{
    if ms.len() > 0 {
        lemma_members_size_zero(ms.drop_last());
        let bs = block_members_of(ms)->Some_0;
        let pre = block_members_of(ms.drop_last())->Some_0;
        assert forall|i: int| 0 <= i < bs.len() implies #[trigger] bs[i].size == 0 by {
            if i < pre.len() {
                assert(bs[i] == pre[i]);
            }
        }
    }
}

/// `r` is what reflection gives for the uniforms of the module read from
/// `words`, taken in some order: their bindings (`set_bindings_of`), or a
/// reflection error where one of them is incomplete.
pub open spec fn reflects_bindings_of(words: Seq<u32>, r: Result<Seq<SetBindingModel>, ()>) -> bool {
    exists|vs: Seq<UniformVariableModel>|
        #[trigger] vs.to_multiset() == spirv_uniforms(words) && match set_bindings_of(
            uniform_infos_in(words, vs),
        ) {
            Some(bs) => r == Ok::<Seq<SetBindingModel>, ()>(bs),
            None => r is Err,
        }
}

/// The bindings of a reflection result, with its error forgotten.
pub open spec fn bindings_result(r: Result<Vec<SetBinding>, ShaderError>) -> Result<Seq<SetBindingModel>, ()> {
    match r {
        Ok(bs) => Ok(bs@.map_values(|b: SetBinding| b@)),
        Err(_) => Err(()),
    }
}

/// The bindings of a reflected shader, with its error forgotten.
pub open spec fn shader_bindings(r: Result<ShaderInfo, ShaderError>) -> Result<Seq<SetBindingModel>, ()> {
    match r {
        Ok(info) => Ok(info@.set_bindings),
        Err(_) => Err(()),
    }
}

/// Reads the descriptor set bindings of the uniforms of `module` (see
/// `set_bindings_from_uniforms`).
fn reflect_shader_bindings(module: &SpirvModule, word_count: usize) -> (r: Result<Vec<SetBinding>, ShaderError>)
    requires
        word_count == module@.len(),
    ensures
        reflects_bindings_of(module@, bindings_result(r)),
        r matches Ok(bs) ==> forall|i: int|
            0 <= i < bs@.len() ==> #[trigger] reflected_data_shape(bs@[i]@.data),
        r matches Err(e) ==> e is ReflectError,
{
    let uniforms = read_uniforms(module, word_count);
    let ghost us = uniforms@.map_values(|u: UniformInfo| u@);
    let ghost vs = choose|vs: Seq<UniformVariableModel>|
        #[trigger] vs.to_multiset() == spirv_uniforms(module@) && us == uniform_infos_in(module@, vs);
    let set_bindings = match set_bindings_from_uniforms(&uniforms) {
        Ok(bs) => bs,
        Err(e) => {
            assert(reflects_bindings_of(module@, bindings_result(Err::<Vec<SetBinding>, ShaderError>(e))));
            return Err(e);
        },
    };
    assert(reflects_bindings_of(module@, bindings_result(Ok::<Vec<SetBinding>, ShaderError>(set_bindings))));
    proof {
        lemma_bindings_shape(uniforms@.map_values(|u: UniformInfo| u@));
        assert forall|i: int| 0 <= i < set_bindings@.len() implies #[trigger] reflected_data_shape(
            set_bindings@[i]@.data,
        ) by {
            assert(set_bindings@.map_values(|b: SetBinding| b@)[i] == set_bindings@[i]@);
        }
    }
    Ok(set_bindings)
}

/// Reflects the SPIR-V module given as words: the descriptor set bindings of
/// its uniforms (`reflects_bindings_of`), with no push constants. A word
/// stream that `spirv_layout` cannot read (among them every one that does
/// not start with the SPIR-V header), or that has an incomplete uniform, is
/// refused with a reflection error.
pub fn reflect_shader(spv_code: &[u32]) -> (r: Result<ShaderInfo, ShaderError>)
    ensures
        (spv_code@.len() < 6 || spv_code@[0] != 0x07230203) ==> r matches Err(
            ShaderError::ReflectError(_),
        ),
        r matches Err(e) ==> e is ReflectError,
        r matches Ok(info) ==> info@.push_constants is None && forall|i: int|
            0 <= i < info@.set_bindings.len() ==> #[trigger] reflected_data_shape(
                info@.set_bindings[i].data,
            ),
        !spirv_module_ok(spv_code@) ==> r is Err,
        spirv_module_ok(spv_code@) ==> reflects_bindings_of(spv_code@, shader_bindings(r)),
{
    let module = match module_from_words(spv_code) {
        Ok(m) => m,
        Err(e) => return Err(ShaderError::ReflectError(e)),
    };
    let set_bindings = match reflect_shader_bindings(&module, spv_code.len()) {
        Ok(bs) => bs,
        Err(e) => return Err(e),
    };
    Ok(ShaderInfo { set_bindings, push_constants: None })
}

} // verus!
