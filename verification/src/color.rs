use vstd::prelude::*;
use vstd::multiset::Multiset;

verus! {

/// Bit pattern of the IEEE-754 double 255.0, the top of the channel range.
pub const CHANNEL_MAX_BITS: u64 = 0x406F_E000_0000_0000;

/// Bit pattern of the IEEE-754 double 128.0, the mid-gray seed value.
pub const MID_GRAY_BITS: u64 = 0x4060_0000_0000_0000;

/// Bit pattern of the largest finite IEEE-754 double.
pub const FINITE_MAX_BITS: u64 = 0x7FEF_FFFF_FFFF_FFFF;

/// One color: three channel values, each carried as the raw bit pattern of an
/// IEEE-754 double. The grid logic never interprets the patterns numerically;
/// it only moves them around, so two channels are the same exactly when their
/// patterns are.
#[derive(Clone, Copy, PartialEq, Eq, Structural, Debug)]
pub struct Color {
    pub ch0: u64,
    pub ch1: u64,
    pub ch2: u64,
}

/// The pattern encodes a double in [0.0, 255.0]. A double with a clear sign
/// bit compares numerically exactly as its pattern compares as an integer,
/// and every pattern above that of 255.0 is negative, infinite or NaN, so the
/// range is a single integer comparison.
pub open spec fn channel_in_range(bits: u64) -> bool {
    bits <= CHANNEL_MAX_BITS
}

pub open spec fn color_in_range(c: Color) -> bool {
    channel_in_range(c.ch0) && channel_in_range(c.ch1) && channel_in_range(c.ch2)
}

/// The grid seen as a sequence of rows of colors.
pub open spec fn gview(g: &Vec<Vec<Color>>) -> Seq<Seq<Color>> {
    g@.map_values(|row: Vec<Color>| row@)
}

/// A square grid with `size` rows of `size` cells each.
pub open spec fn grid_is_square(g: Seq<Seq<Color>>, size: nat) -> bool {
    g.len() == size && forall|i: int| 0 <= i < g.len() ==> (#[trigger] g[i]).len() == size
}

/// Every cell of the grid holds an in-range color.
pub open spec fn grid_in_range(g: Seq<Seq<Color>>) -> bool {
    forall|i: int, j: int|
        0 <= i < g.len() && 0 <= j < g[i].len() ==> color_in_range(#[trigger] g[i][j])
}

/// The multiset of all colors present in the grid, row by row.
pub open spec fn grid_multiset(g: Seq<Seq<Color>>) -> Multiset<Color>
    decreases g.len(),
{
    if g.len() == 0 {
        Multiset::empty()
    } else {
        g[0].to_multiset().add(grid_multiset(g.drop_first()))
    }
}

/// Replacing row `i` moves exactly that row's colors out of the grid multiset
/// and the new row's colors in.
pub proof fn lemma_grid_multiset_update_row(g: Seq<Seq<Color>>, i: int, r: Seq<Color>)
    requires
        0 <= i < g.len(),
    ensures
        grid_multiset(g.update(i, r)).add(g[i].to_multiset()) == grid_multiset(g).add(
            r.to_multiset(),
        ),
    decreases g.len(),
{
    broadcast use vstd::multiset::group_multiset_axioms;

    let gu = g.update(i, r);
    if i == 0 {
        assert(gu.drop_first() =~= g.drop_first());
        assert(grid_multiset(gu).add(g[0].to_multiset()) =~= grid_multiset(g).add(
            r.to_multiset(),
        ));
    } else {
        assert(gu.drop_first() =~= g.drop_first().update(i - 1, r));
        lemma_grid_multiset_update_row(g.drop_first(), i - 1, r);
        let lhs = grid_multiset(gu).add(g[i].to_multiset());
        let rhs = grid_multiset(g).add(r.to_multiset());
        assert forall|x: Color| lhs.count(x) == rhs.count(x) by {
            assert(grid_multiset(gu).count(x) == gu[0].to_multiset().count(x) + grid_multiset(
                gu.drop_first(),
            ).count(x));
            assert(grid_multiset(g).count(x) == g[0].to_multiset().count(x) + grid_multiset(
                g.drop_first(),
            ).count(x));
            assert(grid_multiset(gu.drop_first()).add(g[i].to_multiset()).count(x)
                == grid_multiset(g.drop_first()).add(r.to_multiset()).count(x));
        }
        assert(lhs =~= rhs);
    }
}

/// The color sitting in any cell occurs in the grid multiset.
pub proof fn lemma_grid_multiset_counts_cell(g: Seq<Seq<Color>>, i: int, j: int)
    requires
        0 <= i < g.len(),
        0 <= j < g[i].len(),
    ensures
        grid_multiset(g).count(g[i][j]) >= 1,
    decreases g.len(),
{
    broadcast use vstd::multiset::group_multiset_axioms;
    broadcast use vstd::seq_lib::group_to_multiset_ensures;

    if i == 0 {
        assert(g[0].contains(g[0][j]));
    } else {
        lemma_grid_multiset_counts_cell(g.drop_first(), i - 1, j);
    }
}

/// Overwriting the cell `(i, j)` with `v` inserts `v` into the grid multiset
/// and removes the cell's previous color.
pub proof fn lemma_grid_multiset_set_cell(g: Seq<Seq<Color>>, i: int, j: int, v: Color)
    requires
        0 <= i < g.len(),
        0 <= j < g[i].len(),
    ensures
        grid_multiset(g.update(i, g[i].update(j, v))) == grid_multiset(g).insert(v).remove(
            g[i][j],
        ),
{
    broadcast use vstd::multiset::group_multiset_axioms;
    broadcast use vstd::seq_lib::group_to_multiset_ensures;

    let row = g[i];
    let old_c = row[j];
    let row2 = row.update(j, v);
    lemma_grid_multiset_update_row(g, i, row2);
    lemma_grid_multiset_counts_cell(g, i, j);
    assert(row.contains(old_c));
    assert(row.to_multiset().count(old_c) >= 1);
    assert(row2.to_multiset() == row.to_multiset().insert(v).remove(old_c));
    let lhs = grid_multiset(g.update(i, row2));
    let rhs = grid_multiset(g).insert(v).remove(old_c);
    assert forall|x: Color| lhs.count(x) == rhs.count(x) by {
        assert(lhs.add(row.to_multiset()).count(x) == grid_multiset(g).add(
            row2.to_multiset(),
        ).count(x));
    }
    assert(lhs =~= rhs);
}

} // verus!
