use vstd::prelude::*;

verus! {

/// Every index names one of the `n` vertices.
pub open spec fn indices_valid(indices: Seq<u16>, n: int) -> bool {
    forall|k: int| 0 <= k < indices.len() ==> #[trigger] indices[k] < n
}

/// The flat attribute stream of an indexed mesh: for each index in turn, the three components
/// of the attribute of the vertex it names.
pub open spec fn expanded<T>(indices: Seq<u16>, attrs: Seq<[T; 3]>) -> Seq<T> {
    Seq::new(3 * indices.len(), |k: int| attrs[indices[k / 3] as int]@[k % 3])
}

/// Tells whether every index names one of the first `vertex_count` vertices.
pub fn indices_in_range(indices: &Vec<u16>, vertex_count: usize) -> (r: bool)
    ensures
        r == indices_valid(indices@, vertex_count as int),
{
    let mut k: usize = 0;
    while k < indices.len()
        invariant
            k <= indices@.len(),
            forall|q: int| 0 <= q < k ==> #[trigger] indices@[q] < vertex_count,
        decreases indices@.len() - k,
    {
        if indices[k] as usize >= vertex_count {
            return false;
        }
        k = k + 1;
    }
    true
}

/// Unrolls an indexed mesh attribute (positions or normals) into the flat stream that is
/// uploaded for drawing without an index buffer: three components per index.
pub fn expand_indexed<T: Copy>(indices: &Vec<u16>, attrs: &Vec<[T; 3]>) -> (r: Vec<T>)
    requires
        indices_valid(indices@, attrs@.len() as int),
        3 * indices@.len() <= usize::MAX,
    ensures
        r@ == expanded(indices@, attrs@),
{
    let mut out: Vec<T> = Vec::new();
    let mut k: usize = 0;
    while k < indices.len()
        invariant
            k <= indices@.len(),
            indices_valid(indices@, attrs@.len() as int),
            out@.len() == 3 * k,
            forall|q: int| 0 <= q < 3 * k ==> #[trigger] out@[q] == expanded(indices@, attrs@)[q],
        decreases indices@.len() - k,
    {
        let a: [T; 3] = attrs[indices[k] as usize];
        out.push(a[0]);
        out.push(a[1]);
        out.push(a[2]);
        k = k + 1;
    }
    assert(out@ =~= expanded(indices@, attrs@));
    out
}

} // verus!
