use vstd::prelude::*;

use crate::decompose::tiles_count;
use crate::tile::{Honor, Suit, Tile, TileKey};

verus! {

pub open spec fn next_honor(h: Honor) -> Honor {
    match h {
        Honor::East => Honor::South,
        Honor::South => Honor::West,
        Honor::West => Honor::North,
        Honor::North => Honor::East,
        Honor::White => Honor::Green,
        Honor::Green => Honor::Red,
        Honor::Red => Honor::White,
    }
}

/// The bonus tile that an indicator points at: the next rank of its suit
/// (9 wraps to 1), the next wind, or the next dragon.
pub open spec fn dora_of(ind: Tile) -> Tile {
    if ind.suit == Suit::Honor {
        Tile { suit: Suit::Honor, num: 0, honor: Some(next_honor(ind.honor->0)), red: false }
    } else {
        Tile {
            suit: ind.suit,
            num: if ind.num == 9 {
                1
            } else {
                (ind.num + 1) as u8
            },
            honor: None,
            red: false,
        }
    }
}

/// Tiles matching the bonus tile of each indicator, summed over indicators.
pub open spec fn dora_count(tiles: Seq<Tile>, inds: Seq<Tile>) -> int
    decreases inds.len(),
{
    if inds.len() == 0 {
        0
    } else {
        dora_count(tiles, inds.drop_last()) + tiles_count(tiles, dora_of(inds.last()).key())
    }
}

pub open spec fn is_red_five(t: Tile) -> bool {
    t.red && t.suit != Suit::Honor && t.num == 5
}

pub open spec fn aka_count(tiles: Seq<Tile>) -> int
    decreases tiles.len(),
{
    if tiles.len() == 0 {
        0
    } else {
        aka_count(tiles.drop_last()) + if is_red_five(tiles.last()) {
            1int
        } else {
            0
        }
    }
}

/// Converts a dora indicator to the dora tile it points at.
pub fn indicator_to_dora(ind: Tile) -> (r: Tile)
    requires
        ind.suit == Suit::Honor ==> ind.honor is Some,
        ind.suit != Suit::Honor ==> ind.num <= 9,
    ensures
        r == dora_of(ind),
{
    if ind.is_honor() {
        let h = ind.honor.unwrap();
        let next = match h {
            Honor::East => Honor::South,
            Honor::South => Honor::West,
            Honor::West => Honor::North,
            Honor::North => Honor::East,
            Honor::White => Honor::Green,
            Honor::Green => Honor::Red,
            Honor::Red => Honor::White,
        };
        Tile::honor(next)
    } else {
        let n = ind.num;
        let next = if n == 9 { 1 } else { n + 1 };
        Tile { suit: ind.suit, num: next, honor: None, red: false }
    }
}

proof fn lemma_tiles_count_bounds(ts: Seq<Tile>, k: TileKey)
    ensures
        0 <= tiles_count(ts, k) <= ts.len(),
    decreases ts.len(),
{
    if ts.len() > 0 {
        lemma_tiles_count_bounds(ts.drop_last(), k);
    }
}

fn count_key(tiles: &[Tile], k: TileKey) -> (r: u64)
    ensures
        r == tiles_count(tiles@, k),
{
    let mut c: u64 = 0;
    let mut i: usize = 0;
    while i < tiles.len()
        invariant
            i <= tiles@.len(),
            c == tiles_count(tiles@.subrange(0, i as int), k),
            c <= i,
        decreases tiles.len() - i,
    {
        proof {
            assert(tiles@.subrange(0, i + 1).drop_last() =~= tiles@.subrange(0, i as int));
        }
        if TileKey::from_tile(&tiles[i]) == k {
            c = c + 1;
        }
        i += 1;
    }
    proof {
        assert(tiles@.subrange(0, tiles@.len() as int) =~= tiles@);
    }
    c
}

/// Counts, over the indicators, the tiles (red flag ignored) that match
/// each indicator's dora tile.
pub fn count_dora_from_indicators(all_tiles: &[Tile], indicators: &[Tile]) -> (r: u32)
    requires
        forall|j: int| 0 <= j < indicators@.len() ==> (#[trigger] indicators@[j]).wf(),
        all_tiles@.len() * indicators@.len() <= u32::MAX,
    ensures
        r == dora_count(all_tiles@, indicators@),
        r <= all_tiles@.len() * indicators@.len(),
{
    let mut count: u64 = 0;
    let mut i: usize = 0;
    while i < indicators.len()
        invariant
            i <= indicators@.len(),
            forall|j: int| 0 <= j < indicators@.len() ==> (#[trigger] indicators@[j]).wf(),
            all_tiles@.len() * indicators@.len() <= u32::MAX,
            count == dora_count(all_tiles@, indicators@.subrange(0, i as int)),
            count <= all_tiles@.len() * i,
        decreases indicators.len() - i,
    {
        proof {
            assert(indicators@.subrange(0, i + 1).drop_last() =~= indicators@.subrange(0, i as int));
            assert(all_tiles@.len() * (i + 1) <= all_tiles@.len() * indicators@.len())
                by (nonlinear_arith)
                requires
                    i + 1 <= indicators@.len(),
            ;
            assert(all_tiles@.len() * (i + 1) == all_tiles@.len() * i + all_tiles@.len())
                by (nonlinear_arith);
        }
        let d = indicator_to_dora(indicators[i]);
        let c = count_key(all_tiles, TileKey::from_tile(&d));
        proof {
            lemma_tiles_count_bounds(all_tiles@, d.key());
        }
        count = count + c;
        i += 1;
    }
    proof {
        assert(indicators@.subrange(0, indicators@.len() as int) =~= indicators@);
    }
    count as u32
}

/// Counts the red fives.
pub fn count_aka(all_tiles: &[Tile]) -> (r: u32)
    requires
        all_tiles@.len() <= u32::MAX,
    ensures
        r == aka_count(all_tiles@),
        r <= all_tiles@.len(),
{
    let mut c: u32 = 0;
    let mut i: usize = 0;
    while i < all_tiles.len()
        invariant
            i <= all_tiles@.len(),
            all_tiles@.len() <= u32::MAX,
            c == aka_count(all_tiles@.subrange(0, i as int)),
            c <= i,
        decreases all_tiles.len() - i,
    {
        proof {
            assert(all_tiles@.subrange(0, i + 1).drop_last() =~= all_tiles@.subrange(0, i as int));
        }
        let t = all_tiles[i];
        if t.red && !t.is_honor() && t.num == 5 {
            c = c + 1;
        }
        i += 1;
    }
    proof {
        assert(all_tiles@.subrange(0, all_tiles@.len() as int) =~= all_tiles@);
    }
    c
}

} // verus!
