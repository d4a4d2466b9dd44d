use vstd::prelude::*;

verus! {

/// Whether objects `k` and `j` of the scene are in contact this tick.
///
/// `enabled[i]` says whether object `i` takes part in physics, and `within[a][b]` (read only
/// for `a < b`) whether the centres of objects `a` and `b` lie closer than the sum of their
/// radii. A pair collides when it is made of two distinct objects, both physics-enabled and
/// within reach of each other.
pub open spec fn touches(enabled: Seq<bool>, within: Seq<Seq<bool>>, k: int, j: int) -> bool {
    &&& k != j
    &&& enabled[k]
    &&& enabled[j]
    &&& if k < j {
        within[k][j]
    } else {
        within[j][k]
    }
}

/// The number of objects `j < m` that object `k` collides with.
pub open spec fn contact_count(enabled: Seq<bool>, within: Seq<Seq<bool>>, k: int, m: int) -> nat
    decreases m,
{
    if m <= 0 {
        0
    } else {
        contact_count(enabled, within, k, m - 1) + if touches(enabled, within, k, m - 1) {
            1nat
        } else {
            0nat
        }
    }
}

/// Whether object `k` has its horizontal velocity reversed by the collision response: each
/// colliding pair reverses both of its members, so the net effect is a reversal exactly
/// when `k` takes part in an odd number of collisions.
pub open spec fn reversed(enabled: Seq<bool>, within: Seq<Seq<bool>>, k: int) -> bool {
    contact_count(enabled, within, k, enabled.len() as int) % 2 == 1
}

/// The rows of `within` are as long as the object list.
pub open spec fn square(within: Seq<Seq<bool>>, n: int) -> bool {
    &&& within.len() == n
    &&& forall|i: int| 0 <= i < n ==> #[trigger] within[i].len() == n
}

/// The parity of the contact count of `k`, seen as a boolean.
pub open spec fn odd_contacts(enabled: Seq<bool>, within: Seq<Seq<bool>>, k: int, m: int) -> bool {
    contact_count(enabled, within, k, m) % 2 == 1
}

/// An object that does not take part in physics is in contact with nothing, so the collision
/// response never reverses its velocity.
pub proof fn lemma_disabled_never_reversed(enabled: Seq<bool>, within: Seq<Seq<bool>>, k: int)
    requires
        0 <= k < enabled.len(),
        !enabled[k],
    ensures
        !reversed(enabled, within, k),
{
    lemma_no_contacts(enabled, within, k, enabled.len() as int);
}

proof fn lemma_no_contacts(enabled: Seq<bool>, within: Seq<Seq<bool>>, k: int, m: int)
    requires
        0 <= k < enabled.len(),
        !enabled[k],
    ensures
        contact_count(enabled, within, k, m) == 0,
    decreases m,
{
    if m > 0 {
        lemma_no_contacts(enabled, within, k, m - 1);
    }
}

/// Whether objects `i` and `j` collide: both take part in physics and are within reach.
pub fn pair_collides(enabled_i: bool, enabled_j: bool, within: bool) -> (r: bool)
    ensures
        r == (enabled_i && enabled_j && within),
{
    enabled_i && enabled_j && within
}

/// Runs the all-pairs collision pass over the objects `0..n`, visiting each unordered pair
/// `i < j` once, and returns for every object whether its horizontal velocity ends up
/// reversed.
pub fn collision_reversals(enabled: &Vec<bool>, within: &Vec<Vec<bool>>) -> (r: Vec<bool>)
    requires
        square(within@.map_values(|row: Vec<bool>| row@), enabled@.len() as int),
    ensures
        r@.len() == enabled@.len(),
        forall|k: int|
            0 <= k < r@.len() ==> r@[k] == reversed(
                enabled@,
                within@.map_values(|row: Vec<bool>| row@),
                k,
            ),
{
    let n = enabled.len();
    let ghost w = within@.map_values(|row: Vec<bool>| row@);
    let ghost e = enabled@;
    let mut flips: Vec<bool> = Vec::new();
    let mut k: usize = 0;
    while k < n
        invariant
            k <= n,
            flips@.len() == k,
            forall|q: int| 0 <= q < k ==> flips@[q] == false,
        decreases n - k,
    {
        flips.push(false);
        k = k + 1;
    }
    let mut i: usize = 0;
    while i < n
        invariant
            n == enabled@.len(),
            e == enabled@,
            w == within@.map_values(|row: Vec<bool>| row@),
            square(w, n as int),
            i <= n,
            flips@.len() == n,
            forall|q: int|
                0 <= q < n ==> #[trigger] flips@[q] == if q < i {
                    odd_contacts(e, w, q, n as int)
                } else {
                    odd_contacts(e, w, q, i as int)
                },
        decreases n - i,
    {
        let mut j: usize = i + 1;
        assert(contact_count(e, w, i as int, i + 1) == contact_count(e, w, i as int, i as int));
        while j < n
            invariant
                n == enabled@.len(),
                e == enabled@,
                w == within@.map_values(|row: Vec<bool>| row@),
                square(w, n as int),
                i < n,
                i + 1 <= j <= n,
                flips@.len() == n,
                flips@[i as int] == odd_contacts(e, w, i as int, j as int),
                forall|q: int|
                    0 <= q < n && q != i ==> #[trigger] flips@[q] == if q < i {
                        odd_contacts(e, w, q, n as int)
                    } else if q < j {
                        odd_contacts(e, w, q, i + 1)
                    } else {
                        odd_contacts(e, w, q, i as int)
                    },
            decreases n - j,
        {
            assert(w[i as int] == within@[i as int]@);
            let hit = pair_collides(enabled[i], enabled[j], within[i][j]);
            assert(hit == touches(e, w, i as int, j as int));
            assert(hit == touches(e, w, j as int, i as int));
            if hit {
                let fi = !flips[i];
                flips.set(i, fi);
                let fj = !flips[j];
                flips.set(j, fj);
            }
            j = j + 1;
        }
        i = i + 1;
    }
    flips
}

} // verus!
