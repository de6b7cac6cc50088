//! Where the groups of a mesh lie in its shared index buffer.
use vstd::prelude::*;

verus! {

/// The number of faces in the first `n` groups.
pub open spec fn faces_before(face_counts: Seq<usize>, n: int) -> int
    decreases n,
{
    if n <= 0 {
        0
    } else {
        faces_before(face_counts, n - 1) + face_counts[n - 1]
    }
}

proof fn lemma_faces_before_mono(face_counts: Seq<usize>, i: int, j: int)
    requires
        0 <= i <= j,
    ensures
        faces_before(face_counts, i) <= faces_before(face_counts, j),
    decreases j - i,
{
    if i < j {
        lemma_faces_before_mono(face_counts, i, j - 1);
    }
}

/// The first index and the number of indices of each group, given how many
/// triangles each has: three indices per triangle, the groups one after
/// another from index 0.
pub fn submesh_ranges(face_counts: &Vec<usize>) -> (r: Vec<(u32, u32)>)
    requires
        3 * faces_before(face_counts@, face_counts@.len() as int) <= u32::MAX,
    ensures
        r@.len() == face_counts@.len(),
        forall|i: int|
            0 <= i < r@.len() ==> #[trigger] r@[i] == (
                (3 * faces_before(face_counts@, i)) as u32,
                (3 * face_counts@[i]) as u32,
            ),
{
    let ghost n = face_counts@.len() as int;
    let mut ranges: Vec<(u32, u32)> = Vec::new();
    let mut start_index: u32 = 0;
    let mut i: usize = 0;
    while i < face_counts.len()
        invariant
            n == face_counts@.len(),
            3 * faces_before(face_counts@, n) <= u32::MAX,
            i <= n,
            start_index == 3 * faces_before(face_counts@, i as int),
            ranges@.len() == i,
            forall|k: int|
                0 <= k < i ==> #[trigger] ranges@[k] == (
                    (3 * faces_before(face_counts@, k)) as u32,
                    (3 * face_counts@[k]) as u32,
                ),
        decreases n - i,
    {
        proof {
            lemma_faces_before_mono(face_counts@, i + 1, n);
        }
        let count = face_counts[i] as u32;
        let len = count * 3;
        ranges.push((start_index, len));
        start_index = start_index + len;
        i += 1;
    }
    ranges
}

} // verus!
