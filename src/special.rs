use vstd::prelude::*;

use crate::decompose::{count_tiles, counts_of, tile_counts};
use crate::tile::{key_at, key_at_index, Tile, TileKey, NUM_KEYS};

verus! {

/// The two non-standard winning shapes; thirteen orphans completed on the
/// duplicated tile is the double-value variant.
#[derive(Debug, Clone, Copy, PartialEq, Eq, Structural)]
pub enum SpecialHand {
    Chiitoitsu,
    Kokushi,
    Kokushi13,
}

/// Number of positions before `i` whose count equals `v`.
pub open spec fn count_eq(c: Seq<int>, i: int, v: int) -> nat
    decreases i,
{
    if i <= 0 {
        0
    } else {
        count_eq(c, i - 1, v) + if c[i - 1] == v {
            1nat
        } else {
            0nat
        }
    }
}

/// Number of positions before `i` whose count is nonzero.
pub open spec fn count_present(c: Seq<int>, i: int) -> nat
    decreases i,
{
    if i <= 0 {
        0
    } else {
        count_present(c, i - 1) + if c[i - 1] > 0 {
            1nat
        } else {
            0nat
        }
    }
}

/// Seven distinct identities, two of each.
pub open spec fn is_seven_pairs(c: Seq<int>) -> bool {
    count_present(c, 34) == 7 && count_eq(c, 34, 2) == 7
}

/// Only terminals and honors, all thirteen of them, exactly one twice.
pub open spec fn is_thirteen_orphans(c: Seq<int>) -> bool {
    &&& forall|i: int| 0 <= i < 34 && c[i] > 0 ==> (#[trigger] key_at(i)).is_terminal_or_honor()
    &&& count_present(c, 34) == 13
    &&& count_eq(c, 34, 2) == 1
    &&& count_eq(c, 34, 1) == 12
}

/// The special shape that 14 concealed tiles form, if any; none when a meld
/// was declared.
pub open spec fn special_of(tiles: Seq<Tile>, win_tile: Tile, has_calls: bool) -> Option<
    SpecialHand,
> {
    let c = tile_counts(tiles);
    if has_calls || tiles.len() != 14 {
        None
    } else if is_seven_pairs(c) {
        Some(SpecialHand::Chiitoitsu)
    } else if is_thirteen_orphans(c) {
        if c[win_tile.key().index()] == 2 {
            Some(SpecialHand::Kokushi13)
        } else {
            Some(SpecialHand::Kokushi)
        }
    } else {
        None
    }
}

/// Recognises seven pairs and thirteen orphans among the 14 concealed tiles.
pub fn detect_special(tiles14: &[Tile], win_tile: Tile, has_calls: bool) -> (r: Option<
    SpecialHand,
>)
    requires
        forall|j: int| 0 <= j < tiles14@.len() ==> (#[trigger] tiles14@[j]).wf(),
        win_tile.wf(),
    ensures
        r == special_of(tiles14@, win_tile, has_calls),
        has_calls ==> r is None,
{
    if has_calls {
        return None;
    }
    if tiles14.len() != 14 {
        return None;
    }
    let counts = count_tiles(tiles14);
    if is_chiitoitsu(&counts) {
        return Some(SpecialHand::Chiitoitsu);
    }
    detect_kokushi(&counts, win_tile)
}

struct Tally {
    present: usize,
    ones: usize,
    twos: usize,
    all_orphans: bool,
}

fn tally(counts: &Vec<usize>) -> (r: Tally)
    requires
        counts@.len() == NUM_KEYS,
    ensures
        r.present == count_present(counts_of(counts@), 34),
        r.ones == count_eq(counts_of(counts@), 34, 1),
        r.twos == count_eq(counts_of(counts@), 34, 2),
        r.all_orphans == forall|i: int|
            0 <= i < 34 && counts_of(counts@)[i] > 0 ==> (#[trigger] key_at(
                i,
            )).is_terminal_or_honor(),
{
    let ghost c = counts_of(counts@);
    let mut r = Tally { present: 0, ones: 0, twos: 0, all_orphans: true };
    let mut i: usize = 0;
    while i < NUM_KEYS
        invariant
            i <= NUM_KEYS,
            counts@.len() == NUM_KEYS,
            c == counts_of(counts@),
            r.present == count_present(c, i as int),
            r.ones == count_eq(c, i as int, 1),
            r.twos == count_eq(c, i as int, 2),
            r.present <= i && r.ones <= i && r.twos <= i,
            r.all_orphans == forall|j: int|
                0 <= j < i && c[j] > 0 ==> (#[trigger] key_at(j)).is_terminal_or_honor(),
        decreases NUM_KEYS - i,
    {
        let v = counts[i];
        if v > 0 {
            r.present = r.present + 1;
            let k = key_at_index(i);
            if !k.is_terminal_or_honor_key() {
                r.all_orphans = false;
            }
        }
        if v == 1 {
            r.ones = r.ones + 1;
        }
        if v == 2 {
            r.twos = r.twos + 1;
        }
        i += 1;
    }
    r
}

fn is_chiitoitsu(counts: &Vec<usize>) -> (r: bool)
    requires
        counts@.len() == NUM_KEYS,
    ensures
        r == is_seven_pairs(counts_of(counts@)),
{
    let t = tally(counts);
    t.present == 7 && t.twos == 7
}

fn detect_kokushi(counts: &Vec<usize>, win_tile: Tile) -> (r: Option<SpecialHand>)
    requires
        counts@.len() == NUM_KEYS,
        win_tile.wf(),
    ensures
        r == (if is_thirteen_orphans(counts_of(counts@)) {
            if counts_of(counts@)[win_tile.key().index()] == 2 {
                Some(SpecialHand::Kokushi13)
            } else {
                Some(SpecialHand::Kokushi)
            }
        } else {
            None
        }),
{
    let t = tally(counts);
    if !(t.all_orphans && t.present == 13 && t.twos == 1 && t.ones == 12) {
        return None;
    }
    let wk = TileKey::from_tile(&win_tile);
    if counts[wk.index_of()] == 2 {
        Some(SpecialHand::Kokushi13)
    } else {
        Some(SpecialHand::Kokushi)
    }
}

} // verus!
