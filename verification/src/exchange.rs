use vstd::prelude::*;
use crate::color::{Color, gview, grid_multiset, grid_in_range, color_in_range};
use crate::color::{lemma_grid_multiset_set_cell, lemma_grid_multiset_counts_cell};
use crate::entropy::gen_index;

verus! {

/// Draws one candidate pixel pair for an exchange trial: four independent
/// uniform draws, row then column of the first pixel, then of the second.
pub fn draw_pair(rng: &mut rand::rngs::StdRng, size: usize) -> (pp: (
    (usize, usize),
    (usize, usize),
))
    requires
        1 <= size,
    ensures
        pp.0.0 < size,
        pp.0.1 < size,
        pp.1.0 < size,
        pp.1.1 < size,
{
    let r1 = gen_index(rng, size);
    let c1 = gen_index(rng, size);
    let r2 = gen_index(rng, size);
    let c2 = gen_index(rng, size);
    ((r1, c1), (r2, c2))
}

/// The grid after the colors at `p1` and `p2` change places.
pub open spec fn swapped_view(g: Seq<Seq<Color>>, p1: (usize, usize), p2: (usize, usize)) -> Seq<
    Seq<Color>,
> {
    let a = g[p1.0 as int][p1.1 as int];
    let b = g[p2.0 as int][p2.1 as int];
    let g1 = g.update(p1.0 as int, g[p1.0 as int].update(p1.1 as int, b));
    g1.update(p2.0 as int, g1[p2.0 as int].update(p2.1 as int, a))
}

/// Exchanging a pixel with itself changes nothing.
pub proof fn lemma_swap_with_self_is_noop(g: Seq<Seq<Color>>, p: (usize, usize))
    requires
        p.0 < g.len(),
        p.1 < g[p.0 as int].len(),
    ensures
        swapped_view(g, p, p) == g,
{
    let i = p.0 as int;
    let j = p.1 as int;
    assert(g[i].update(j, g[i][j]) =~= g[i]);
    assert(g.update(i, g[i]) =~= g);
    assert(swapped_view(g, p, p) =~= g);
}

/// Carries out the accepted or rejected trial on the grid. On acceptance the
/// two pixels' colors change places; otherwise nothing changes. Either way
/// the multiset of colors in the grid is exactly preserved, and in-range
/// colors stay in range: an exchange moves colors, it never makes new ones.
pub fn apply_swap(img: &mut Vec<Vec<Color>>, p1: (usize, usize), p2: (usize, usize), accept: bool)
    requires
        p1.0 < old(img)@.len(),
        p1.1 < old(img)@[p1.0 as int]@.len(),
        p2.0 < old(img)@.len(),
        p2.1 < old(img)@[p2.0 as int]@.len(),
    ensures
        grid_multiset(gview(final(img))) == grid_multiset(gview(old(img))),
        !accept ==> gview(final(img)) == gview(old(img)),
        accept ==> gview(final(img)) == swapped_view(gview(old(img)), p1, p2),
        accept ==> gview(final(img))[p1.0 as int][p1.1 as int] == gview(old(img))[p2.0 as int][p2.1
            as int] && gview(final(img))[p2.0 as int][p2.1 as int] == gview(old(img))[p1.0
            as int][p1.1 as int],
        accept ==> forall|k: int, l: int|
            0 <= k < gview(old(img)).len() && 0 <= l < gview(old(img))[k].len() && (k, l) != (
                p1.0 as int,
                p1.1 as int,
            ) && (k, l) != (p2.0 as int, p2.1 as int) ==> #[trigger] gview(final(img))[k][l]
                == gview(old(img))[k][l],
        p1 == p2 ==> gview(final(img)) == gview(old(img)),
        final(img)@.len() == old(img)@.len(),
        forall|k: int|
            0 <= k < final(img)@.len() ==> (#[trigger] gview(final(img))[k]).len() == gview(
                old(img),
            )[k].len(),
        grid_in_range(gview(old(img))) ==> grid_in_range(gview(final(img))),
{
    let ghost v0 = gview(old(img));
    if accept {
        let a = img[p1.0][p1.1];
        let b = img[p2.0][p2.1];
        img[p1.0][p1.1] = b;
        let ghost v1 = gview(img);
        proof {
            assert(v1 =~= v0.update(p1.0 as int, v0[p1.0 as int].update(p1.1 as int, b)));
            lemma_grid_multiset_set_cell(v0, p1.0 as int, p1.1 as int, b);
        }
        img[p2.0][p2.1] = a;
        let ghost v2 = gview(img);
        proof {
            assert(v2 =~= v1.update(p2.0 as int, v1[p2.0 as int].update(p2.1 as int, a)));
            lemma_grid_multiset_set_cell(v1, p2.0 as int, p2.1 as int, a);
            assert(v1[p2.0 as int][p2.1 as int] == b);
            lemma_grid_multiset_counts_cell(v0, p1.0 as int, p1.1 as int);
            lemma_grid_multiset_counts_cell(v0, p2.0 as int, p2.1 as int);
            assert(grid_multiset(v2) =~= grid_multiset(v0)) by {
                broadcast use vstd::multiset::group_multiset_axioms;

                assert(grid_multiset(v2) == grid_multiset(v0).insert(b).remove(a).insert(
                    a,
                ).remove(b));
                assert(grid_multiset(v0).count(a) >= 1);
                assert(grid_multiset(v0).count(b) >= 1);
            }
            assert(v2 =~= swapped_view(v0, p1, p2));
            if p1 == p2 {
                lemma_swap_with_self_is_noop(v0, p1);
            }
            assert(grid_in_range(v0) ==> grid_in_range(v2)) by {
                if grid_in_range(v0) {
                    assert(forall|k: int, l: int|
                        0 <= k < v2.len() && 0 <= l < v2[k].len() ==> color_in_range(
                            #[trigger] v2[k][l],
                        ));
                }
            }
        }
    }
}

} // verus!
