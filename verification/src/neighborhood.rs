use vstd::prelude::*;

verus! {

/// The four toroidal neighbors of `p` in a square grid of side `size`:
/// up, left, down, right, with both indices wrapped modulo `size`.
pub open spec fn neighbors_spec(p: (usize, usize), size: usize) -> Seq<(usize, usize)> {
    seq![
        ((((p.0 + size - 1) % (size as int)) as usize, p.1)),
        ((p.0, ((p.1 + size - 1) % (size as int)) as usize)),
        ((((p.0 + 1) % (size as int)) as usize, p.1)),
        ((p.0, ((p.1 + 1) % (size as int)) as usize)),
    ]
}

/// Every neighbor of an in-range pixel is itself in range.
pub proof fn lemma_neighbors_in_bounds(p: (usize, usize), size: usize)
    requires
        1 <= size,
        p.0 < size,
        p.1 < size,
    ensures
        forall|k: int|
            0 <= k < neighbors_spec(p, size).len() ==> (#[trigger] neighbors_spec(p, size)[k]).0
                < size && neighbors_spec(p, size)[k].1 < size,
{
}

/// Computes the four grid-wrapped axis-aligned neighbors of `pixel`:
/// the edges of the grid wrap around to the opposite edge.
pub fn neighbors(pixel: (usize, usize), size: usize) -> (nbrs: Vec<(usize, usize)>)
    requires
        1 <= size,
        pixel.0 < size,
        pixel.1 < size,
        2 * size <= usize::MAX,
    ensures
        nbrs@ == neighbors_spec(pixel, size),
{
    let (r, c) = pixel;
    let up = (r + size - 1) % size;
    let left = (c + size - 1) % size;
    let down = (r + 1) % size;
    let right = (c + 1) % size;
    let mut nbrs: Vec<(usize, usize)> = Vec::new();
    nbrs.push((up, c));
    nbrs.push((r, left));
    nbrs.push((down, c));
    nbrs.push((r, right));
    proof {
        assert(nbrs@ =~= neighbors_spec(pixel, size));
    }
    nbrs
}

} // verus!
