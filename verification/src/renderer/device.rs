//! Choosing the physical device and the queue families to render with.
use vstd::prelude::*;

use crate::renderer::RendererError;

verus! {

/// What the device choice reads of a physical device.
#[derive(Debug, Clone, Copy, PartialEq, Eq, Structural)]
pub struct DeviceInfo {
    pub is_discrete_gpu: bool,
    pub max_image_dimension_2d: u32,
    pub has_geometry_shader: bool,
}

/// The score of a device: a discrete GPU gets 1000, the largest 2D image
/// size is added, and a device without geometry shaders scores 0.
pub open spec fn score_of(d: DeviceInfo) -> int {
    if !d.has_geometry_shader {
        0
    } else {
        (if d.is_discrete_gpu {
            1000int
        } else {
            0int
        }) + d.max_image_dimension_2d
    }
}

/// The sum that the score is built from before the geometry shader check.
pub open spec fn raw_score(d: DeviceInfo) -> int {
    (if d.is_discrete_gpu {
        1000int
    } else {
        0int
    }) + d.max_image_dimension_2d
}

/// Scores one device (see `score_of`).
pub fn device_score(d: &DeviceInfo) -> (r: u32)
    requires
        raw_score(*d) <= u32::MAX,
    ensures
        r == score_of(*d),
{
    let mut score: u32 = 0;
    if d.is_discrete_gpu {
        score += 1000;
    }
    score += d.max_image_dimension_2d;
    if !d.has_geometry_shader {
        score = 0;
    }
    score
}

/// Whether `i` is the position that the device choice picks among `ds`: the
/// best device, the one with the highest score (so a discrete GPU with
/// geometry shaders before an integrated one), and among devices of equal
/// score the last.
pub open spec fn is_chosen_device(ds: Seq<DeviceInfo>, i: int) -> bool {
    &&& 0 <= i < ds.len()
    &&& forall|j: int| 0 <= j < ds.len() ==> #[trigger] score_of(ds[j]) <= score_of(ds[i])
    &&& forall|j: int| i < j < ds.len() ==> #[trigger] score_of(ds[j]) < score_of(ds[i])
}

/// A device without geometry shaders scores 0, whatever its type and image
/// size; one with them scores its largest 2D image size, and 1000 more if
/// it is a discrete GPU.
pub proof fn law_geometry_shaders_are_required(d: DeviceInfo)
    ensures
        !d.has_geometry_shader ==> score_of(d) == 0,
        d.has_geometry_shader && !d.is_discrete_gpu ==> score_of(d) == d.max_image_dimension_2d,
        d.has_geometry_shader && d.is_discrete_gpu ==> score_of(d) == d.max_image_dimension_2d + 1000,
{
}

/// Where some device has geometry shaders and is a discrete GPU or has a
/// nonzero image size, the chosen device has geometry shaders; and a
/// discrete GPU with geometry shaders is chosen over every device that is
/// not one and has no larger image size.
pub proof fn law_chosen_device_has_geometry_shaders(ds: Seq<DeviceInfo>, i: int)
    requires
        is_chosen_device(ds, i),
    ensures
        (exists|j: int|
            0 <= j < ds.len() && (#[trigger] ds[j]).has_geometry_shader && (ds[j].is_discrete_gpu
                || ds[j].max_image_dimension_2d > 0)) ==> ds[i].has_geometry_shader,
        forall|j: int|
            0 <= j < ds.len() && (#[trigger] ds[j]).has_geometry_shader && ds[j].is_discrete_gpu
                ==> forall|k: int|
                0 <= k < ds.len() && !(ds[k].has_geometry_shader && ds[k].is_discrete_gpu)
                    && #[trigger] ds[k].max_image_dimension_2d <= ds[j].max_image_dimension_2d
                    ==> i != k,
{
    if exists|j: int|
        0 <= j < ds.len() && (#[trigger] ds[j]).has_geometry_shader && (ds[j].is_discrete_gpu
            || ds[j].max_image_dimension_2d > 0) {
        let j = choose|j: int|
            0 <= j < ds.len() && (#[trigger] ds[j]).has_geometry_shader && (ds[j].is_discrete_gpu
                || ds[j].max_image_dimension_2d > 0);
        assert(score_of(ds[j]) <= score_of(ds[i]));
    }
    assert forall|j: int|
        0 <= j < ds.len() && (#[trigger] ds[j]).has_geometry_shader && ds[j].is_discrete_gpu
            implies forall|k: int|
            0 <= k < ds.len() && !(ds[k].has_geometry_shader && ds[k].is_discrete_gpu)
                && #[trigger] ds[k].max_image_dimension_2d <= ds[j].max_image_dimension_2d
                ==> i != k by {
        assert(score_of(ds[j]) <= score_of(ds[i]));
    }
}

/// Picks the physical device to render with, by position in `devices`;
/// fails when there is none.
pub fn init_physical_device(devices: &Vec<DeviceInfo>) -> (r: Result<usize, RendererError>)
    requires
        forall|j: int| 0 <= j < devices@.len() ==> raw_score(#[trigger] devices@[j]) <= u32::MAX,
    ensures
        devices@.len() == 0 <==> r == Err::<usize, RendererError>(RendererError::NoSuitableGpu),
        r matches Ok(i) ==> is_chosen_device(devices@, i as int),
        r is Ok || r == Err::<usize, RendererError>(RendererError::NoSuitableGpu),
{
    if devices.len() == 0 {
        return Err(RendererError::NoSuitableGpu);
    }
    let mut best: usize = 0;
    let mut best_score: u32 = device_score(&devices[0]);
    let mut i: usize = 1;
    while i < devices.len()
        invariant
            1 <= i <= devices@.len(),
            best < i,
            best_score == score_of(devices@[best as int]),
            forall|j: int| 0 <= j < devices@.len() ==> raw_score(#[trigger] devices@[j]) <= u32::MAX,
            forall|j: int| 0 <= j < i ==> #[trigger] score_of(devices@[j]) <= best_score,
            forall|j: int| best < j < i ==> #[trigger] score_of(devices@[j]) < best_score,
        decreases devices.len() - i,
    {
        let s = device_score(&devices[i]);
        if s >= best_score {
            best = i;
            best_score = s;
        }
        i += 1;
    }
    Ok(best)
}

/// What the queue family search reads of a queue family.
#[derive(Debug, Clone, Copy, PartialEq, Eq, Structural)]
pub struct QueueFamilyInfo {
    pub queue_count: u32,
    pub supports_graphics: bool,
}

/// Why the queue family search failed: the surface query failed, or no
/// family offers both graphics and presentation.
#[derive(Debug, PartialEq, Eq)]
pub enum QueueFamilyError<E> {
    Surface(E),
    NoSuitableQueueFamily,
}

/// The queue families that graphics and presentation commands go to.
#[derive(Debug, Clone, Copy, PartialEq, Eq, Structural)]
pub struct QueueFamilies {
    pub graphics_q_index: u32,
    pub present_q_index: u32,
}

/// A family with at least one queue and graphics support.
pub open spec fn is_graphics_family(f: QueueFamilyInfo) -> bool {
    f.queue_count > 0 && f.supports_graphics
}

/// The last family for graphics and the last family for presentation among
/// the first `n` families, where `ans[i]` says whether family `i` can
/// present; families without queues are passed over.
pub open spec fn found_after(fams: Seq<QueueFamilyInfo>, ans: Seq<bool>, n: int) -> (
    Option<u32>,
    Option<u32>,
)
    decreases n,
{
    if n <= 0 {
        (None, None)
    } else {
        let (g, p) = found_after(fams, ans, n - 1);
        let i = n - 1;
        if fams[i].queue_count > 0 {
            (
                if fams[i].supports_graphics {
                    Some(i as u32)
                } else {
                    g
                },
                if ans[i] {
                    Some(i as u32)
                } else {
                    p
                },
            )
        } else {
            (g, p)
        }
    }
}

/// Both kinds of family have been found.
pub open spec fn found_both(x: (Option<u32>, Option<u32>)) -> bool {
    x.0 is Some && x.1 is Some
}

/// `ans` holds what `surface_support` answered for each family with queues
/// among the first `ans.len()`.
pub open spec fn answered<E, F: Fn(usize) -> Result<bool, E>>(
    surface_support: F,
    fams: Seq<QueueFamilyInfo>,
    ans: Seq<bool>,
) -> bool {
    forall|i: int|
        0 <= i < ans.len() && fams[i].queue_count > 0 ==> #[trigger] surface_support.ensures(
            (i as usize,),
            Ok::<bool, E>(ans[i]),
        )
}

/// The outcome of the search, given the answers it got: it stops at the
/// first family after which both kinds are found, fails on a failed
/// question, and otherwise finds no suitable family.
pub open spec fn search_outcome<E, F: Fn(usize) -> Result<bool, E>>(
    surface_support: F,
    fams: Seq<QueueFamilyInfo>,
    r: Result<(u32, u32), QueueFamilyError<E>>,
) -> bool {
    match r {
        Ok((g, p)) => exists|ans: Seq<bool>|
            #[trigger] answered(surface_support, fams, ans) && 1 <= ans.len() <= fams.len()
                && found_after(fams, ans, ans.len() as int) == (Some(g), Some(p)) && forall|n: int|
                0 <= n < ans.len() ==> !found_both(#[trigger] found_after(fams, ans, n)),
        Err(QueueFamilyError::NoSuitableQueueFamily) => exists|ans: Seq<bool>|
            #[trigger] answered(surface_support, fams, ans) && ans.len() == fams.len() && forall|n: int|
                0 <= n <= ans.len() ==> !found_both(#[trigger] found_after(fams, ans, n)),
        Err(QueueFamilyError::Surface(e)) => exists|ans: Seq<bool>|
            #[trigger] answered(surface_support, fams, ans) && ans.len() < fams.len() && fams[ans.len() as int].queue_count
                > 0 && surface_support.ensures((ans.len() as usize,), Err::<bool, E>(e)) && forall|n: int|
                0 <= n <= ans.len() ==> !found_both(#[trigger] found_after(fams, ans, n)),
    }
}

impl QueueFamilies {
    /// Finds a family for graphics and one for presentation.
    /// `surface_support(i)` asks whether family `i` can present to the
    /// surface; it is asked only of families with queues, in order, until
    /// both kinds have been found.
    pub fn init<E, F: Fn(usize) -> Result<bool, E>>(
        families: &Vec<QueueFamilyInfo>,
        surface_support: F,
    ) -> (r: Result<QueueFamilies, QueueFamilyError<E>>)
        requires
            families@.len() <= u32::MAX as int + 1,
            forall|i: usize| i < families@.len() ==> #[trigger] surface_support.requires((i,)),
        ensures
            r matches Ok(q) ==> {
                &&& q.graphics_q_index < families@.len()
                &&& is_graphics_family(families@[q.graphics_q_index as int])
                &&& q.present_q_index < families@.len()
                &&& families@[q.present_q_index as int].queue_count > 0
                &&& surface_support.ensures((q.present_q_index as usize,), Ok::<bool, E>(true))
            },
            match r {
                Err(QueueFamilyError::Surface(e)) => exists|i: usize|
                    i < families@.len() && families@[i as int].queue_count > 0
                        && #[trigger] surface_support.ensures((i,), Err::<bool, E>(e)),
                _ => true,
            },
            (forall|i: int| 0 <= i < families@.len() ==> !is_graphics_family(#[trigger] families@[i]))
                ==> r is Err,
            search_outcome(
                surface_support,
                families@,
                match r {
                    Ok(q) => Ok::<(u32, u32), QueueFamilyError<E>>((q.graphics_q_index, q.present_q_index)),
                    Err(e) => Err(e),
                },
            ),
    {
        match Self::find_suiltable_queue_family(families, surface_support) {
            Ok((g, p)) => Ok(QueueFamilies { graphics_q_index: g, present_q_index: p }),
            Err(e) => Err(e),
        }
    }

    /// The search behind `init`: scans the families in order, remembering the
    /// last graphics family and the last presenting family seen, and stops
    /// as soon as it has one of each.
    fn find_suiltable_queue_family<E, F: Fn(usize) -> Result<bool, E>>(
        families: &Vec<QueueFamilyInfo>,
        surface_support: F,
    ) -> (r: Result<(u32, u32), QueueFamilyError<E>>)
        requires
            families@.len() <= u32::MAX as int + 1,
            forall|i: usize| i < families@.len() ==> #[trigger] surface_support.requires((i,)),
        ensures
            r matches Ok((g, p)) ==> {
                &&& g < families@.len()
                &&& is_graphics_family(families@[g as int])
                &&& p < families@.len()
                &&& families@[p as int].queue_count > 0
                &&& surface_support.ensures((p as usize,), Ok::<bool, E>(true))
            },
            match r {
                Err(QueueFamilyError::Surface(e)) => exists|i: usize|
                    i < families@.len() && families@[i as int].queue_count > 0
                        && #[trigger] surface_support.ensures((i,), Err::<bool, E>(e)),
                _ => true,
            },
            (forall|i: int| 0 <= i < families@.len() ==> !is_graphics_family(#[trigger] families@[i]))
                ==> r is Err,
            search_outcome(surface_support, families@, r),
    {
        let ghost fams = families@;
        let ghost mut ans: Seq<bool> = Seq::empty();
        let mut graphics: Option<u32> = None;
        let mut present: Option<u32> = None;
        let mut index: usize = 0;
        while index < families.len()
            invariant
                index <= families@.len(),
                families@.len() <= u32::MAX as int + 1,
                forall|i: usize| i < families@.len() ==> #[trigger] surface_support.requires((i,)),
                graphics matches Some(g) ==> g < families@.len() && is_graphics_family(
                    families@[g as int],
                ),
                present matches Some(p) ==> p < families@.len() && families@[p as int].queue_count > 0
                    && surface_support.ensures((p as usize,), Ok::<bool, E>(true)),
                fams == families@,
                ans.len() == index,
                answered(surface_support, fams, ans),
                (graphics, present) == found_after(fams, ans, index as int),
                forall|n: int| 0 <= n <= index ==> !found_both(#[trigger] found_after(fams, ans, n)),
            decreases families.len() - index,
        {
            let qfam = families[index];
            let ghost mut a: bool = false;
            let ghost g0 = graphics;
            let ghost p0 = present;
            if qfam.queue_count > 0 {
                if qfam.supports_graphics {
                    graphics = Some(index as u32);
                }
                match surface_support(index) {
                    Ok(true) => {
                        present = Some(index as u32);
                        proof {
                            a = true;
                        }
                    },
                    Ok(false) => {},
                    Err(e) => {
                        let r: Result<(u32, u32), QueueFamilyError<E>> = Err(QueueFamilyError::Surface(e));
                        proof {
                            assert(surface_support.ensures((index,), Err::<bool, E>(e)));
                            assert(r->Err_0->Surface_0 == e);
                            assert(answered(surface_support, fams, ans));
                            assert(match r {
                                Err(QueueFamilyError::Surface(e2)) => exists|i: usize|
                                    i < families@.len() && families@[i as int].queue_count > 0
                                        && #[trigger] surface_support.ensures((i,), Err::<bool, E>(e2)),
                                _ => true,
                            });
                        }
                        return r;
                    },
                }
            }
            proof {
                let old_ans = ans;
                ans = ans.push(a);
                assert forall|i: int| 0 <= i < ans.len() && fams[i].queue_count > 0 implies #[trigger] surface_support.ensures(
                    (i as usize,),
                    Ok::<bool, E>(ans[i]),
                ) by {
                    if i < index {
                        assert(ans[i] == old_ans[i]);
                    }
                }
                assert forall|n: int| 0 <= n <= index implies found_after(fams, ans, n) == found_after(
                    fams,
                    old_ans,
                    n,
                ) by {
                    lemma_found_after_prefix(fams, old_ans, ans, n);
                }
                assert(found_after(fams, ans, index + 1) == (graphics, present));
            }
            match (graphics, present) {
                (Some(g), Some(p)) => {
                    proof {
                        assert(answered(surface_support, fams, ans));
                    }
                    return Ok((g, p));
                },
                _ => {},
            }
            index += 1;
        }
        proof {
            assert(answered(surface_support, fams, ans));
        }
        Err(QueueFamilyError::NoSuitableQueueFamily)
    }
}

/// What is found after the first `n` families depends only on the answers
/// for them.
proof fn lemma_found_after_prefix(fams: Seq<QueueFamilyInfo>, a: Seq<bool>, b: Seq<bool>, n: int)
    requires
        0 <= n <= a.len() <= b.len(),
        forall|i: int| 0 <= i < a.len() ==> a[i] == b[i],
    ensures
        found_after(fams, a, n) == found_after(fams, b, n),
    decreases n,
{
    if n > 0 {
        lemma_found_after_prefix(fams, a, b, n - 1);
    }
}

/// Once the scan has passed a family with queues that does graphics and
/// can present, both kinds are found: so the search cannot end without a
/// suitable family when such a family answers yes.
pub proof fn law_capable_family_is_found(fams: Seq<QueueFamilyInfo>, ans: Seq<bool>, i: int, n: int)
    requires
        0 <= i < n <= ans.len(),
        n <= fams.len(),
        fams.len() <= u32::MAX + 1,
        is_graphics_family(fams[i]),
        ans[i],
    ensures
        found_both(found_after(fams, ans, n)),
    decreases n,
{
    if n - 1 > i {
        law_capable_family_is_found(fams, ans, i, n - 1);
    }
}

} // verus!
