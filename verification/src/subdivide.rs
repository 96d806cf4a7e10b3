use vstd::prelude::*;
use crate::color::{Color, MID_GRAY_BITS, gview, grid_is_square, grid_in_range, color_in_range};

verus! {

/// The 1-by-1 starting grid: a single mid-gray cell (all channels 128).
pub fn seed_grid() -> (g: Vec<Vec<Color>>)
    ensures
        grid_is_square(gview(&g), 1),
        grid_in_range(gview(&g)),
        gview(&g)[0][0] == (Color { ch0: MID_GRAY_BITS, ch1: MID_GRAY_BITS, ch2: MID_GRAY_BITS }),
{
    let mut row: Vec<Color> = Vec::new();
    row.push(Color { ch0: MID_GRAY_BITS, ch1: MID_GRAY_BITS, ch2: MID_GRAY_BITS });
    let mut g: Vec<Vec<Color>> = Vec::new();
    g.push(row);
    proof {
        assert(gview(&g) =~= seq![seq![
            Color { ch0: MID_GRAY_BITS, ch1: MID_GRAY_BITS, ch2: MID_GRAY_BITS },
        ]]);
    }
    g
}

/// The replica index of destination cell (k, l) stays inside the replica
/// vector of a grid of side `si`.
proof fn lemma_quad_index_bounds(k: int, l: int, si: int)
    requires
        1 <= si,
        0 <= k < 2 * si,
        0 <= l < 2 * si,
    ensures
        0 <= 4 * ((k / 2) * si + l / 2) + 2 * (k % 2) + l % 2 < 4 * si * si,
{
    let kr = k / 2;
    let lr = l / 2;
    assert(0 <= kr < si && 0 <= lr < si);
    assert(0 <= 4 * (kr * si + lr) + 2 * (k % 2) + l % 2 < 4 * si * si) by (nonlinear_arith)
        requires
            0 <= kr < si,
            0 <= lr < si,
            0 <= k % 2 < 2,
            0 <= l % 2 < 2,
            1 <= si,
    ;
}

/// Doubles the grid: source cell (r, c) spreads to the 2-by-2 destination
/// block at (2r, 2c), and destination cell (rr, cc) receives the already
/// perturbed replica `quads[4 * ((rr / 2) * s + cc / 2) + 2 * (rr % 2) + cc % 2]`,
/// i.e. the replicas are consumed source cell by source cell, in the block
/// order (0,0), (0,1), (1,0), (1,1).
#[verifier::loop_isolation(false)]
pub fn subdivide_place(img: &Vec<Vec<Color>>, quads: &Vec<Color>) -> (out: Vec<Vec<Color>>)
    requires
        1 <= img@.len(),
        grid_is_square(gview(img), img@.len() as nat),
        quads@.len() == 4 * img@.len() * img@.len(),
        forall|q: int| 0 <= q < quads@.len() ==> color_in_range(#[trigger] quads@[q]),
    ensures
        grid_is_square(gview(&out), (2 * img@.len()) as nat),
        grid_in_range(gview(&out)),
        forall|rr: int, cc: int|
            0 <= rr < 2 * img@.len() && 0 <= cc < 2 * img@.len() ==> #[trigger] gview(
                &out,
            )[rr][cc] == quads@[4 * ((rr / 2) * img@.len() + cc / 2) + 2 * (rr % 2) + cc % 2],
{
    let s = img.len();
    let ghost si = s as int;
    let quad_count = quads.len();
    proof {
        assert(quad_count == 4 * si * si);
        assert(2 * si <= 4 * si * si) by (nonlinear_arith)
            requires 1 <= si;
    }
    let size2 = 2 * s;
    let mut out: Vec<Vec<Color>> = Vec::new();
    for rr in 0..size2
        invariant
            out@.len() == rr,
            forall|k: int, l: int|
                0 <= k < rr && 0 <= l < size2 ==> #[trigger] gview(&out)[k][l] == quads@[4 * ((k
                    / 2) * si + l / 2) + 2 * (k % 2) + l % 2],
            forall|k: int| 0 <= k < rr ==> (#[trigger] gview(&out)[k]).len() == size2,
    {
        let mut row: Vec<Color> = Vec::new();
        for cc in 0..size2
            invariant
                row@.len() == cc,
                forall|l: int|
                    0 <= l < cc ==> #[trigger] row@[l] == quads@[4 * ((rr / 2) * si + l / 2) + 2 * (
                    rr % 2) + l % 2],
        {
            proof {
                lemma_quad_index_bounds(rr as int, cc as int, si);
            }
            let idx = 4 * ((rr / 2) * s + cc / 2) + 2 * (rr % 2) + cc % 2;
            row.push(quads[idx]);
        }
        let ghost prev = gview(&out);
        out.push(row);
        proof {
            assert(gview(&out) =~= prev.push(row@));
        }
    }
    proof {
        assert forall|k: int, l: int|
            0 <= k < 2 * si && 0 <= l < 2 * si implies color_in_range(
            #[trigger] gview(&out)[k][l],
        ) by {
            lemma_quad_index_bounds(k, l, si);
            assert(gview(&out)[k][l] == quads@[4 * ((k / 2) * si + l / 2) + 2 * (k % 2) + l % 2]);
        }
    }
    out
}

} // verus!
