use vstd::prelude::*;

use crate::tile::{key_at, key_at_index, lemma_key_at_index, tile_of_code, Tile, TileKey, NUM_KEYS};
use crate::{Meld, MeldType};

verus! {

/// A group of tiles: a run, a triplet, a quad, or the pair (head).
#[derive(Debug, Clone, Copy, PartialEq, Eq, Structural)]
pub enum Block {
    Shuntsu(Tile, Tile, Tile),
    Koutsu(Tile, Tile, Tile),
    Kantsu(Tile, Tile, Tile, Tile),
    Toitsu(Tile, Tile),
}

/// Which tile identities the declared melds hold as claimed triplets and
/// claimed quads.
#[derive(Debug, Clone)]
pub struct OpenInfo {
    open_triplets: Vec<TileKey>,
    open_kans: Vec<TileKey>,
}

/// The key of the first tile of a meld.
pub open spec fn meld_key(m: Meld) -> TileKey {
    tile_of_code(m.tiles@[0]@)->0.key()
}

/// The melds' first tiles are readable wherever a meld has tiles.
pub open spec fn melds_readable(melds: Seq<Meld>) -> bool {
    forall|i: int|
        0 <= i < melds.len() && (#[trigger] melds[i]).tiles@.len() > 0 ==> tile_of_code(
            melds[i].tiles@[0]@,
        ) is Some
}

/// Keys of the non-empty melds of one kind, in declaration order.
pub open spec fn meld_keys_of(melds: Seq<Meld>, kind: MeldType) -> Seq<TileKey>
    decreases melds.len(),
{
    if melds.len() == 0 {
        seq![]
    } else {
        let m = melds.last();
        let rest = meld_keys_of(melds.drop_last(), kind);
        if m.tiles@.len() > 0 && m.meld_type == kind {
            rest.push(meld_key(m))
        } else {
            rest
        }
    }
}

impl OpenInfo {
    pub closed spec fn triplet_keys(&self) -> Seq<TileKey> {
        self.open_triplets@
    }

    pub closed spec fn kan_keys(&self) -> Seq<TileKey> {
        self.open_kans@
    }

    /// Claimed triplets mark their key open-triplet and claimed quads mark
    /// theirs open-quad; runs and concealed quads mark nothing.
    pub fn from_melds(melds: &[Meld]) -> (r: OpenInfo)
        requires
            melds_readable(melds@),
        ensures
            r.triplet_keys() == meld_keys_of(melds@, MeldType::PON),
            r.kan_keys() == meld_keys_of(melds@, MeldType::MINKAN),
    {
        let mut open_triplets: Vec<TileKey> = Vec::new();
        let mut open_kans: Vec<TileKey> = Vec::new();
        let mut i: usize = 0;
        while i < melds.len()
            invariant
                i <= melds@.len(),
                melds_readable(melds@),
                open_triplets@ == meld_keys_of(melds@.subrange(0, i as int), MeldType::PON),
                open_kans@ == meld_keys_of(melds@.subrange(0, i as int), MeldType::MINKAN),
            decreases melds.len() - i,
        {
            let m = &melds[i];
            proof {
                assert(melds@.subrange(0, i + 1).drop_last() =~= melds@.subrange(0, i as int));
                assert(melds@.subrange(0, i + 1).last() == melds@[i as int]);
            }
            if m.tiles.len() > 0 {
                let t0 = match Tile::from_code(m.tiles[0].as_str()) {
                    Ok(t) => t,
                    Err(_) => {
                        proof {
                            assert(melds@[i as int].tiles@.len() > 0);
                        }
                        return OpenInfo { open_triplets, open_kans };
                    },
                };
                let k0 = TileKey::from_tile(&t0);
                match m.meld_type {
                    MeldType::PON => {
                        open_triplets.push(k0);
                    },
                    MeldType::MINKAN => {
                        open_kans.push(k0);
                    },
                    _ => {},
                }
            }
            i += 1;
        }
        proof {
            assert(melds@.subrange(0, melds@.len() as int) =~= melds@);
        }
        OpenInfo { open_triplets, open_kans }
    }

    pub fn is_open_triplet(&self, k: TileKey) -> (r: bool)
        ensures
            r == self.triplet_keys().contains(k),
    {
        contains_key(&self.open_triplets, k)
    }

    pub fn is_open_kan(&self, k: TileKey) -> (r: bool)
        ensures
            r == self.kan_keys().contains(k),
    {
        contains_key(&self.open_kans, k)
    }

    /// A copy of the marks.
    pub fn duplicate(&self) -> (r: OpenInfo)
        ensures
            r.triplet_keys() == self.triplet_keys(),
            r.kan_keys() == self.kan_keys(),
    {
        OpenInfo { open_triplets: copy_keys(&self.open_triplets), open_kans: copy_keys(&self.open_kans) }
    }
}

fn contains_key(v: &Vec<TileKey>, k: TileKey) -> (r: bool)
    ensures
        r == v@.contains(k),
{
    let mut i: usize = 0;
    while i < v.len()
        invariant
            i <= v@.len(),
            forall|j: int| 0 <= j < i ==> v@[j] != k,
        decreases v.len() - i,
    {
        if v[i] == k {
            return true;
        }
        i += 1;
    }
    false
}

fn copy_keys(v: &Vec<TileKey>) -> (r: Vec<TileKey>)
    ensures
        r@ == v@,
{
    let mut out: Vec<TileKey> = Vec::new();
    let mut i: usize = 0;
    while i < v.len()
        invariant
            i <= v@.len(),
            out@ == v@.subrange(0, i as int),
        decreases v.len() - i,
    {
        out.push(v[i]);
        proof {
            assert(out@ =~= v@.subrange(0, i + 1));
        }
        i += 1;
    }
    proof {
        assert(out@ =~= v@);
    }
    out
}

/// One candidate winning shape: its groups (declared melds included once
/// the scorer attaches them), its pair, whether the hand is concealed, the
/// pair's key, and the open marks of the declared melds.
#[derive(Debug, Clone)]
pub struct HandPattern {
    pub blocks: Vec<Block>,
    pub pair: Block,
    pub menzen: bool,
    pub pair_key: Option<TileKey>,
    pub open_info: Option<OpenInfo>,
}

pub open spec fn pair_key_of(b: Block) -> Option<TileKey> {
    match b {
        Block::Toitsu(t, _) => Some(t.key()),
        _ => None,
    }
}

/// Keys that the declared melds mark open-triplet (none without marks).
pub open spec fn triplet_marks(o: Option<OpenInfo>) -> Seq<TileKey> {
    match o {
        Some(oi) => oi.triplet_keys(),
        None => seq![],
    }
}

/// Keys that the declared melds mark open-quad (none without marks).
pub open spec fn kan_marks(o: Option<OpenInfo>) -> Seq<TileKey> {
    match o {
        Some(oi) => oi.kan_keys(),
        None => seq![],
    }
}

/// What the scoring rules read of a candidate.
pub struct PatternModel {
    pub blocks: Seq<Block>,
    pub pair_key: Option<TileKey>,
    pub menzen: bool,
    pub open_triplets: Seq<TileKey>,
    pub open_kans: Seq<TileKey>,
}

impl HandPattern {
    /// At most four groups besides the pair.
    pub open spec fn wf(&self) -> bool {
        self.blocks@.len() <= 4
    }

    pub open spec fn model(&self) -> PatternModel {
        PatternModel {
            blocks: self.blocks@,
            pair_key: self.pair_key,
            menzen: self.menzen,
            open_triplets: triplet_marks(self.open_info),
            open_kans: kan_marks(self.open_info),
        }
    }

    pub fn extract_pair_key(&self) -> (r: Option<TileKey>)
        ensures
            r == pair_key_of(self.pair),
    {
        match &self.pair {
            Block::Toitsu(t, _) => Some(TileKey::from_tile(t)),
            _ => None,
        }
    }
}

// ---------------------------------------------------------------------------
// Tile counting
// ---------------------------------------------------------------------------

pub open spec fn tile_is(t: Tile, k: TileKey) -> int {
    if t.key() == k {
        1
    } else {
        0
    }
}

/// How many tiles of key `k` a block holds.
pub open spec fn block_count(b: Block, k: TileKey) -> int {
    match b {
        Block::Shuntsu(a, b2, c) => tile_is(a, k) + tile_is(b2, k) + tile_is(c, k),
        Block::Koutsu(a, b2, c) => tile_is(a, k) + tile_is(b2, k) + tile_is(c, k),
        Block::Kantsu(a, b2, c, d) => tile_is(a, k) + tile_is(b2, k) + tile_is(c, k) + tile_is(
            d,
            k,
        ),
        Block::Toitsu(a, b2) => tile_is(a, k) + tile_is(b2, k),
    }
}

pub open spec fn blocks_count(bs: Seq<Block>, k: TileKey) -> int
    decreases bs.len(),
{
    if bs.len() == 0 {
        0
    } else {
        blocks_count(bs.drop_last(), k) + block_count(bs.last(), k)
    }
}

pub open spec fn tiles_count(ts: Seq<Tile>, k: TileKey) -> int
    decreases ts.len(),
{
    if ts.len() == 0 {
        0
    } else {
        tiles_count(ts.drop_last(), k) + tile_is(ts.last(), k)
    }
}

/// How many tiles of key `k` a pattern uses, pair included.
pub open spec fn pattern_count(p: HandPattern, k: TileKey) -> int {
    blocks_count(p.blocks@, k) + block_count(p.pair, k)
}

/// The count of each key of a tile multiset, in canonical key order.
pub open spec fn tile_counts(ts: Seq<Tile>) -> Seq<int> {
    Seq::new(NUM_KEYS as nat, |i: int| tiles_count(ts, key_at(i)))
}

pub open spec fn plain_tile(k: TileKey) -> Tile {
    Tile { suit: k.suit, num: k.num, honor: k.honor, red: false }
}

/// A group that the search may form: a triplet of one well-formed key, or a
/// run of three consecutive ranks of one suit.
pub open spec fn is_group(b: Block) -> bool {
    match b {
        Block::Koutsu(a, b2, c) => a.key().wf() && !a.red && b2 == a && c == a,
        Block::Shuntsu(a, b2, c) => a.key().wf() && a.suit != crate::tile::Suit::Honor && a.num
            <= 7 && !a.red && b2 == plain_tile(
            TileKey { suit: a.suit, num: (a.num + 1) as u8, honor: None },
        ) && c == plain_tile(TileKey { suit: a.suit, num: (a.num + 2) as u8, honor: None }),
        _ => false,
    }
}

proof fn lemma_blocks_count_push(bs: Seq<Block>, b: Block, k: TileKey)
    ensures
        blocks_count(bs.push(b), k) == blocks_count(bs, k) + block_count(b, k),
{
    assert(bs.push(b).drop_last() =~= bs);
}

// ---------------------------------------------------------------------------
// The search, stated over key counts
// ---------------------------------------------------------------------------

pub open spec fn all_zero(c: Seq<int>) -> bool {
    forall|i: int| 0 <= i < c.len() ==> c[i] == 0
}

/// The first position from `i` on whose count is nonzero (`c.len()` if none).
pub open spec fn first_nonzero(c: Seq<int>, i: int) -> int
    decreases c.len() - i,
{
    if i >= c.len() {
        c.len() as int
    } else if c[i] != 0 {
        i
    } else {
        first_nonzero(c, i + 1)
    }
}

pub open spec fn triplet_at(i: int) -> Block {
    let t = plain_tile(key_at(i));
    Block::Koutsu(t, t, t)
}

pub open spec fn run_at(i: int) -> Block {
    Block::Shuntsu(plain_tile(key_at(i)), plain_tile(key_at(i + 1)), plain_tile(key_at(i + 2)))
}

/// A run can start at position `i`: a suited rank of at most 7 whose two
/// successors are present.
pub open spec fn run_fits(c: Seq<int>, i: int) -> bool {
    0 <= i < 27 && i % 9 <= 6 && c[i + 1] > 0 && c[i + 2] > 0
}

pub open spec fn take_run(c: Seq<int>, i: int) -> Seq<int> {
    c.update(i, c[i] - 1).update(i + 1, c[i + 1] - 1).update(i + 2, c[i + 2] - 1)
}

/// Every way to complete `blocks` to `n` groups that use up the counts `c`:
/// at the smallest remaining key, first a triplet, then a run starting there.
pub open spec fn search(c: Seq<int>, blocks: Seq<Block>, n: nat) -> Seq<Seq<Block>>
    decreases n - blocks.len(),
{
    if blocks.len() >= n {
        if all_zero(c) {
            seq![blocks]
        } else {
            seq![]
        }
    } else if all_zero(c) {
        seq![]
    } else {
        let i = first_nonzero(c, 0);
        let with_triplet = if c[i] >= 3 {
            search(c.update(i, c[i] - 3), blocks.push(triplet_at(i)), n)
        } else {
            seq![]
        };
        let with_run = if run_fits(c, i) {
            search(take_run(c, i), blocks.push(run_at(i)), n)
        } else {
            seq![]
        };
        with_triplet + with_run
    }
}

/// The candidates of the pair keys before position `i`, in canonical order.
pub open spec fn pair_choices(c: Seq<int>, i: int, n: nat) -> Seq<(Seq<Block>, TileKey)>
    decreases i,
{
    if i <= 0 {
        seq![]
    } else {
        let j = i - 1;
        let here = if c[j] >= 2 {
            search(c.update(j, c[j] - 2), seq![], n).map_values(
                |bs: Seq<Block>| (bs, key_at(j)),
            )
        } else {
            seq![]
        };
        pair_choices(c, j, n) + here
    }
}

/// All decompositions of the tiles into a pair and `n` groups: each is the
/// list of groups and the key of the pair.
pub open spec fn decompositions(tiles: Seq<Tile>, n: nat) -> Seq<(Seq<Block>, TileKey)> {
    pair_choices(tile_counts(tiles), NUM_KEYS as int, n)
}

/// A pattern as the search produces it.
pub open spec fn pattern_is(p: HandPattern, bs: Seq<Block>, pk: TileKey) -> bool {
    &&& p.blocks@ == bs
    &&& p.pair == Block::Toitsu(plain_tile(pk), plain_tile(pk))
    &&& p.pair_key == Some(pk)
    &&& p.menzen
    &&& p.open_info is None
}

pub open spec fn counts_of(v: Seq<usize>) -> Seq<int> {
    v.map_values(|x: usize| x as int)
}

proof fn lemma_first_nonzero(c: Seq<int>, i: int)
    requires
        0 <= i <= c.len(),
    ensures
        i <= first_nonzero(c, i) <= c.len(),
        first_nonzero(c, i) < c.len() ==> c[first_nonzero(c, i)] != 0,
        forall|j: int| i <= j < first_nonzero(c, i) ==> c[j] == 0,
    decreases c.len() - i,
{
    if i < c.len() && c[i] == 0 {
        lemma_first_nonzero(c, i + 1);
    }
}

proof fn lemma_key_at_plain(i: int)
    requires
        0 <= i < 34,
    ensures
        key_at(i).wf(),
        key_at(i).index() == i,
        plain_tile(key_at(i)).key() == key_at(i),
        forall|k: TileKey| k.wf() ==> (k == key_at(i) <==> k.index() == i),
{
    assert forall|k: TileKey| k.wf() implies (k == key_at(i) <==> k.index() == i) by {
        lemma_key_at_index(k);
    }
}

/// Each result of the search extends `blocks` by groups, to exactly `n`
/// blocks, and uses up exactly the counts `c`.
proof fn lemma_search_conserves(c: Seq<int>, blocks: Seq<Block>, n: nat)
    requires
        c.len() == 34,
        blocks.len() <= n,
        forall|i: int| 0 <= i < 34 ==> c[i] >= 0,
    ensures
        forall|j: int|
            0 <= j < search(c, blocks, n).len() ==> {
                let bs = #[trigger] search(c, blocks, n)[j];
                &&& bs.len() == n
                &&& bs.subrange(0, blocks.len() as int) == blocks
                &&& forall|m: int| blocks.len() <= m < n ==> is_group(#[trigger] bs[m])
                &&& forall|k: TileKey|
                    k.wf() ==> #[trigger] blocks_count(bs, k) == c[k.index()] + blocks_count(
                        blocks,
                        k,
                    )
            },
    decreases n - blocks.len(),
{
    let r = search(c, blocks, n);
    if blocks.len() >= n {
        if all_zero(c) {
            assert(blocks.subrange(0, blocks.len() as int) =~= blocks);
            assert forall|k: TileKey| k.wf() implies #[trigger] blocks_count(blocks, k) == c[k.index()]
                + blocks_count(blocks, k) by {
                lemma_key_at_index(k);
            }
        }
    } else if all_zero(c) {
    } else {
        let i = first_nonzero(c, 0);
        lemma_first_nonzero(c, 0);
        if i >= c.len() {
            assert(all_zero(c));
        }
        lemma_key_at_plain(i);
        let with_triplet = if c[i] >= 3 {
            search(c.update(i, c[i] - 3), blocks.push(triplet_at(i)), n)
        } else {
            seq![]
        };
        let with_run = if run_fits(c, i) {
            search(take_run(c, i), blocks.push(run_at(i)), n)
        } else {
            seq![]
        };
        assert(r == with_triplet + with_run);
        if c[i] >= 3 {
            let c2 = c.update(i, c[i] - 3);
            let b2 = blocks.push(triplet_at(i));
            lemma_search_conserves(c2, b2, n);
            assert forall|j: int| 0 <= j < with_triplet.len() implies {
                let bs = #[trigger] with_triplet[j];
                &&& bs.len() == n
                &&& bs.subrange(0, blocks.len() as int) == blocks
                &&& forall|m: int| blocks.len() <= m < n ==> is_group(#[trigger] bs[m])
                &&& forall|k: TileKey|
                    k.wf() ==> #[trigger] blocks_count(bs, k) == c[k.index()] + blocks_count(
                        blocks,
                        k,
                    )
            } by {
                let bs = with_triplet[j];
                assert(bs.subrange(0, b2.len() as int) == b2);
                assert(bs[blocks.len() as int] == b2[blocks.len() as int]);
                assert(bs.subrange(0, blocks.len() as int) =~= blocks);
                assert forall|k: TileKey| k.wf() implies #[trigger] blocks_count(bs, k) == c[k.index()]
                    + blocks_count(blocks, k) by {
                    lemma_blocks_count_push(blocks, triplet_at(i), k);
                    lemma_key_at_index(k);
                }
            }
        }
        if run_fits(c, i) {
            let c2 = take_run(c, i);
            let b2 = blocks.push(run_at(i));
            lemma_key_at_plain(i + 1);
            lemma_key_at_plain(i + 2);
            lemma_search_conserves(c2, b2, n);
            assert forall|j: int| 0 <= j < with_run.len() implies {
                let bs = #[trigger] with_run[j];
                &&& bs.len() == n
                &&& bs.subrange(0, blocks.len() as int) == blocks
                &&& forall|m: int| blocks.len() <= m < n ==> is_group(#[trigger] bs[m])
                &&& forall|k: TileKey|
                    k.wf() ==> #[trigger] blocks_count(bs, k) == c[k.index()] + blocks_count(
                        blocks,
                        k,
                    )
            } by {
                let bs = with_run[j];
                assert(bs.subrange(0, b2.len() as int) == b2);
                assert(bs[blocks.len() as int] == b2[blocks.len() as int]);
                assert(bs.subrange(0, blocks.len() as int) =~= blocks);
                assert forall|k: TileKey| k.wf() implies #[trigger] blocks_count(bs, k) == c[k.index()]
                    + blocks_count(blocks, k) by {
                    lemma_blocks_count_push(blocks, run_at(i), k);
                    lemma_key_at_index(k);
                }
            }
        }
    }
}


/// Every decomposition uses each tile identity exactly as often as the
/// tiles hold it, has exactly `n` groups besides the pair, and each of its
/// groups is a triplet or a run.
pub proof fn lemma_decompositions_conserve(tiles: Seq<Tile>, n: nat)
    ensures
        forall|j: int|
            0 <= j < decompositions(tiles, n).len() ==> {
                let d = #[trigger] decompositions(tiles, n)[j];
                &&& d.0.len() == n
                &&& d.1.wf()
                &&& forall|m: int| 0 <= m < n ==> is_group(#[trigger] d.0[m])
                &&& forall|k: TileKey|
                    k.wf() ==> #[trigger] blocks_count(d.0, k) + block_count(
                        Block::Toitsu(plain_tile(d.1), plain_tile(d.1)),
                        k,
                    ) == tiles_count(tiles, k)
            },
{
    lemma_pair_choices_conserve(tiles, NUM_KEYS as int, n);
}

proof fn lemma_tiles_count_nonneg(ts: Seq<Tile>, k: TileKey)
    ensures
        tiles_count(ts, k) >= 0,
    decreases ts.len(),
{
    if ts.len() > 0 {
        lemma_tiles_count_nonneg(ts.drop_last(), k);
    }
}

proof fn lemma_pair_choices_conserve(tiles: Seq<Tile>, i: int, n: nat)
    requires
        0 <= i <= 34,
    ensures
        forall|j: int|
            0 <= j < pair_choices(tile_counts(tiles), i, n).len() ==> {
                let d = #[trigger] pair_choices(tile_counts(tiles), i, n)[j];
                &&& d.0.len() == n
                &&& d.1.wf()
                &&& forall|m: int| 0 <= m < n ==> is_group(#[trigger] d.0[m])
                &&& forall|k: TileKey|
                    k.wf() ==> #[trigger] blocks_count(d.0, k) + block_count(
                        Block::Toitsu(plain_tile(d.1), plain_tile(d.1)),
                        k,
                    ) == tiles_count(tiles, k)
            },
    decreases i,
{
    let c = tile_counts(tiles);
    if i > 0 {
        let j = i - 1;
        lemma_pair_choices_conserve(tiles, j, n);
        if c[j] >= 2 {
            let c2 = c.update(j, c[j] - 2);
            assert forall|x: int| 0 <= x < 34 implies c2[x] >= 0 by {
                lemma_tiles_count_nonneg(tiles, key_at(x));
            }
            lemma_search_conserves(c2, seq![], n);
            lemma_key_at_plain(j);
            let here = search(c2, seq![], n).map_values(|bs: Seq<Block>| (bs, key_at(j)));
            assert forall|x: int| 0 <= x < here.len() implies {
                let d = #[trigger] here[x];
                &&& d.0.len() == n
                &&& d.1.wf()
                &&& forall|m: int| 0 <= m < n ==> is_group(#[trigger] d.0[m])
                &&& forall|k: TileKey|
                    k.wf() ==> #[trigger] blocks_count(d.0, k) + block_count(
                        Block::Toitsu(plain_tile(d.1), plain_tile(d.1)),
                        k,
                    ) == tiles_count(tiles, k)
            } by {
                let bs = search(c2, seq![], n)[x];
                assert(here[x] == (bs, key_at(j)));
                assert forall|k: TileKey| k.wf() implies #[trigger] blocks_count(bs, k) + block_count(
                    Block::Toitsu(plain_tile(key_at(j)), plain_tile(key_at(j))),
                    k,
                ) == tiles_count(tiles, k) by {
                    lemma_key_at_index(k);
                    assert(blocks_count(seq![], k) == 0);
                    assert(c[k.index()] == tiles_count(tiles, key_at(k.index())));
                }
            }
        }
    }
}

// ---------------------------------------------------------------------------
// The search, executable
// ---------------------------------------------------------------------------

/// The count of each key among the tiles, in canonical key order.
pub(crate) fn count_tiles(tiles: &[Tile]) -> (r: Vec<usize>)
    requires
        forall|j: int| 0 <= j < tiles@.len() ==> (#[trigger] tiles@[j]).wf(),
    ensures
        r@.len() == NUM_KEYS,
        counts_of(r@) == tile_counts(tiles@),
{
    let mut map: Vec<usize> = Vec::new();
    let mut i: usize = 0;
    while i < NUM_KEYS
        invariant
            i <= NUM_KEYS,
            map@.len() == i,
            forall|x: int| 0 <= x < i ==> map@[x] == 0,
        decreases NUM_KEYS - i,
    {
        map.push(0);
        i += 1;
    }
    let mut j: usize = 0;
    while j < tiles.len()
        invariant
            j <= tiles@.len(),
            map@.len() == NUM_KEYS,
            forall|q: int| 0 <= q < tiles@.len() ==> (#[trigger] tiles@[q]).wf(),
            forall|x: int|
                0 <= x < NUM_KEYS ==> #[trigger] map@[x] as int == tiles_count(
                    tiles@.subrange(0, j as int),
                    key_at(x),
                ),
            forall|x: int| 0 <= x < NUM_KEYS ==> #[trigger] map@[x] <= j,
        decreases tiles.len() - j,
    {
        let t = tiles[j];
        let k = TileKey::from_tile(&t);
        let x = k.index_of();
        proof {
            let s = tiles@.subrange(0, j + 1);
            assert(s.drop_last() =~= tiles@.subrange(0, j as int));
            assert(s.last() == t);
            assert forall|y: int| 0 <= y < NUM_KEYS implies (tile_is(t, key_at(y)) == if y == x {
                1int
            } else {
                0
            }) by {
                lemma_key_at_plain(y);
            }
        }
        map.set(x, map[x] + 1);
        j += 1;
    }
    proof {
        assert(tiles@.subrange(0, tiles@.len() as int) =~= tiles@);
        assert(counts_of(map@) =~= tile_counts(tiles@));
    }
    map
}

/// The first position with a nonzero count, if any.
fn min_nonzero_key(counts: &Vec<usize>) -> (r: Option<usize>)
    ensures
        match r {
            Some(i) => i == first_nonzero(counts_of(counts@), 0) && i < counts@.len(),
            None => all_zero(counts_of(counts@)) && first_nonzero(counts_of(counts@), 0)
                == counts@.len(),
        },
{
    let ghost c = counts_of(counts@);
    let mut i: usize = 0;
    while i < counts.len()
        invariant
            i <= counts@.len(),
            c == counts_of(counts@),
            forall|j: int| 0 <= j < i ==> counts@[j] == 0,
            first_nonzero(c, 0) == first_nonzero(c, i as int),
        decreases counts.len() - i,
    {
        if counts[i] > 0 {
            return Some(i);
        }
        i += 1;
    }
    None
}

pub(crate) fn copy_blocks(v: &Vec<Block>) -> (r: Vec<Block>)
    ensures
        r@ == v@,
{
    let mut out: Vec<Block> = Vec::new();
    let mut i: usize = 0;
    while i < v.len()
        invariant
            i <= v@.len(),
            out@ == v@.subrange(0, i as int),
        decreases v.len() - i,
    {
        out.push(v[i]);
        proof {
            assert(out@ =~= v@.subrange(0, i + 1));
        }
        i += 1;
    }
    proof {
        assert(out@ =~= v@);
    }
    out
}

/// The leaf of the search: all groups formed; the pattern counts only if no
/// tile is left.
fn finish_pattern(
    counts: &Vec<usize>,
    blocks: &Vec<Block>,
    results: &mut Vec<HandPattern>,
    pair_key: TileKey,
    blocks_needed: usize,
)
    requires
        counts@.len() == NUM_KEYS,
        blocks@.len() == blocks_needed,
    ensures
        final(results)@.len() == old(results)@.len() + search(
            counts_of(counts@),
            blocks@,
            blocks_needed as nat,
        ).len(),
        final(results)@.subrange(0, old(results)@.len() as int) == old(results)@,
        forall|j: int|
            0 <= j < search(counts_of(counts@), blocks@, blocks_needed as nat).len() ==> pattern_is(
                #[trigger] final(results)@[old(results)@.len() + j],
                search(counts_of(counts@), blocks@, blocks_needed as nat)[j],
                pair_key,
            ),
{
    let ghost c = counts_of(counts@);
    let ghost res0 = results@;
    let z = min_nonzero_key(counts);
    if z.is_none() {
        let pt = pair_key.to_tile();
        let hp = HandPattern {
            blocks: copy_blocks(blocks),
            pair: Block::Toitsu(pt, pt),
            menzen: true,
            pair_key: Some(pair_key),
            open_info: None,
        };
        results.push(hp);
        proof {
            assert(search(c, blocks@, blocks_needed as nat) == seq![blocks@]);
            assert(results@[res0.len() as int] == hp);
            assert(results@.subrange(0, res0.len() as int) =~= res0);
        }
    } else {
        proof {
            lemma_first_nonzero(c, 0);
            assert(!all_zero(c));
            assert(search(c, blocks@, blocks_needed as nat) == Seq::<Seq<Block>>::empty());
        }
    }
}

/// Appends to `results`, in order, the patterns that `search` gives for the
/// current counts and blocks; restores `counts` and `blocks` on return.
#[verifier::rlimit(60)]
fn dfs_blocks(
    counts: &mut Vec<usize>,
    blocks: &mut Vec<Block>,
    results: &mut Vec<HandPattern>,
    pair_key: TileKey,
    blocks_needed: usize,
)
    requires
        old(counts)@.len() == NUM_KEYS,
        old(blocks)@.len() <= blocks_needed,
        pair_key.wf(),
    ensures
        final(counts)@ == old(counts)@,
        final(blocks)@ == old(blocks)@,
        final(results)@.len() == old(results)@.len() + search(
            counts_of(old(counts)@),
            old(blocks)@,
            blocks_needed as nat,
        ).len(),
        final(results)@.subrange(0, old(results)@.len() as int) == old(results)@,
        forall|j: int|
            0 <= j < search(counts_of(old(counts)@), old(blocks)@, blocks_needed as nat).len()
                ==> pattern_is(
                #[trigger] final(results)@[old(results)@.len() + j],
                search(counts_of(old(counts)@), old(blocks)@, blocks_needed as nat)[j],
                pair_key,
            ),
    decreases blocks_needed - old(blocks)@.len(),
{
    let ghost c = counts_of(counts@);
    let ghost bl = blocks@;
    let ghost res0 = results@;
    let ghost n = blocks_needed as nat;
    if blocks.len() == blocks_needed {
        finish_pattern(counts, blocks, results, pair_key, blocks_needed);
        return;
    }
    let key = match min_nonzero_key(counts) {
        Some(i) => i,
        None => {
            proof {
                assert(search(c, bl, n) == Seq::<Seq<Block>>::empty());
                assert(results@.subrange(0, res0.len() as int) =~= res0);
            }
            return;
        },
    };
    proof {
        lemma_first_nonzero(c, 0);
        lemma_key_at_plain(key as int);
    }
    let ghost with_triplet = if c[key as int] >= 3 {
        search(c.update(key as int, c[key as int] - 3), bl.push(triplet_at(key as int)), n)
    } else {
        seq![]
    };
    let ghost with_run = if run_fits(c, key as int) {
        search(take_run(c, key as int), bl.push(run_at(key as int)), n)
    } else {
        seq![]
    };
    assert(search(c, bl, n) == with_triplet + with_run);
    let k = key_at_index(key);
    let t = k.to_tile();
    if counts[key] >= 3 {
        let v = counts[key];
        counts.set(key, v - 3);
        blocks.push(Block::Koutsu(t, t, t));
        proof {
            assert(counts_of(counts@) =~= c.update(key as int, c[key as int] - 3));
        }
        dfs_blocks(counts, blocks, results, pair_key, blocks_needed);
        blocks.pop();
        counts.set(key, v);
        proof {
            assert(blocks@ =~= bl);
            assert(counts_of(counts@) =~= c);
        }
    } else {
        proof {
            assert(results@.subrange(0, res0.len() as int) =~= res0);
        }
    }
    let ghost res_mid = results@;
    assert(res_mid.len() == res0.len() + with_triplet.len());
    assert(res_mid.subrange(0, res0.len() as int) == res0);
    assert(forall|j: int|
        0 <= j < with_triplet.len() ==> pattern_is(
            #[trigger] res_mid[res0.len() + j],
            with_triplet[j],
            pair_key,
        ));
    if key < 27 && key % 9 <= 6 && counts[key + 1] > 0 && counts[key + 2] > 0 {
        let v0 = counts[key];
        let v1 = counts[key + 1];
        let v2 = counts[key + 2];
        let k2 = key_at_index(key + 1);
        let k3 = key_at_index(key + 2);
        counts.set(key, v0 - 1);
        counts.set(key + 1, v1 - 1);
        counts.set(key + 2, v2 - 1);
        blocks.push(Block::Shuntsu(t, k2.to_tile(), k3.to_tile()));
        proof {
            assert(counts_of(counts@) =~= take_run(c, key as int));
            assert(run_fits(c, key as int));
        }
        dfs_blocks(counts, blocks, results, pair_key, blocks_needed);
        blocks.pop();
        counts.set(key, v0);
        counts.set(key + 1, v1);
        counts.set(key + 2, v2);
        proof {
            assert(blocks@ =~= bl);
            assert(counts_of(counts@) =~= c);
            assert(results@.subrange(0, res_mid.len() as int) == res_mid);
            assert(results@.subrange(0, res0.len() as int) =~= res0) by {
                assert(results@.subrange(0, res0.len() as int) =~= res_mid.subrange(
                    0,
                    res0.len() as int,
                ));
            }
            assert forall|j: int| 0 <= j < search(c, bl, n).len() implies pattern_is(
                #[trigger] results@[res0.len() + j],
                search(c, bl, n)[j],
                pair_key,
            ) by {
                if j < with_triplet.len() {
                    assert(results@[res0.len() + j] == results@.subrange(
                        0,
                        res_mid.len() as int,
                    )[res0.len() + j]);
                    assert(search(c, bl, n)[j] == with_triplet[j]);
                } else {
                    let q = j - with_triplet.len();
                    assert(search(c, bl, n)[j] == with_run[q]);
                    assert(results@[res0.len() + j] == results@[res_mid.len() + q]);
                }
            }
        }
    } else {
        proof {
            assert(!run_fits(c, key as int));
            assert(search(c, bl, n) =~= with_triplet);
        }
    }
}

/// Every way to split the tiles into one pair and `blocks_needed` groups,
/// pair keys in canonical order.
pub fn decompose_with_blocks_needed(tiles: &[Tile], blocks_needed: usize) -> (r: Vec<HandPattern>)
    requires
        forall|j: int| 0 <= j < tiles@.len() ==> (#[trigger] tiles@[j]).wf(),
    ensures
        r@.len() == decompositions(tiles@, blocks_needed as nat).len(),
        forall|j: int|
            0 <= j < r@.len() ==> pattern_is(
                #[trigger] r@[j],
                decompositions(tiles@, blocks_needed as nat)[j].0,
                decompositions(tiles@, blocks_needed as nat)[j].1,
            ),
        forall|j: int, k: TileKey|
            0 <= j < r@.len() && k.wf() ==> #[trigger] pattern_count(r@[j], k) == tiles_count(
                tiles@,
                k,
            ),
        forall|j: int|
            0 <= j < r@.len() ==> (#[trigger] r@[j]).blocks@.len() == blocks_needed && forall|
                m: int,
            |
                0 <= m < blocks_needed ==> is_group(#[trigger] r@[j].blocks@[m]),
{
    let mut counts = count_tiles(tiles);
    let ghost c = counts_of(counts@);
    let ghost n = blocks_needed as nat;
    let mut results: Vec<HandPattern> = Vec::new();
    let mut i: usize = 0;
    while i < NUM_KEYS
        invariant
            i <= NUM_KEYS,
            counts@.len() == NUM_KEYS,
            counts_of(counts@) == c,
            c == tile_counts(tiles@),
            n == blocks_needed as nat,
            results@.len() == pair_choices(c, i as int, n).len(),
            forall|j: int|
                0 <= j < results@.len() ==> pattern_is(
                    #[trigger] results@[j],
                    pair_choices(c, i as int, n)[j].0,
                    pair_choices(c, i as int, n)[j].1,
                ),
        decreases NUM_KEYS - i,
    {
        let ghost before = results@;
        let ghost prev = pair_choices(c, i as int, n);
        let ghost here = if c[i as int] >= 2 {
            search(c.update(i as int, c[i as int] - 2), seq![], n).map_values(
                |bs: Seq<Block>| (bs, key_at(i as int)),
            )
        } else {
            seq![]
        };
        assert(pair_choices(c, i + 1, n) == prev + here);
        if counts[i] >= 2 {
            let v = counts[i];
            counts.set(i, v - 2);
            let pair_key = key_at_index(i);
            let mut blocks: Vec<Block> = Vec::new();
            proof {
                assert(counts_of(counts@) =~= c.update(i as int, c[i as int] - 2));
                assert(blocks@ =~= Seq::<Block>::empty());
            }
            let ghost found = search(c.update(i as int, c[i as int] - 2), seq![], n);
            dfs_blocks(&mut counts, &mut blocks, &mut results, pair_key, blocks_needed);
            counts.set(i, v);
            proof {
                assert(counts_of(counts@) =~= c);
                assert(here.len() == found.len());
                assert(results@.len() == before.len() + here.len());
                assert(pair_choices(c, i + 1, n).len() == prev.len() + here.len());
                assert forall|j: int| 0 <= j < results@.len() implies pattern_is(
                    #[trigger] results@[j],
                    pair_choices(c, i + 1, n)[j].0,
                    pair_choices(c, i + 1, n)[j].1,
                ) by {
                    if j < before.len() {
                        assert(results@[j] == results@.subrange(0, before.len() as int)[j]);
                    } else {
                        let q = j - before.len();
                        assert(results@[before.len() + q] == results@[j]);
                        assert(pair_choices(c, i + 1, n)[j] == here[q]);
                        assert(here[q] == (found[q], key_at(i as int)));
                        assert(pattern_is(results@[before.len() + q], found[q], pair_key));
                    }
                }
            }
        } else {
            proof {
                assert(pair_choices(c, i + 1, n) =~= prev);
            }
        }
        i += 1;
    }
    proof {
        lemma_decompositions_conserve(tiles@, n);
        assert forall|j: int, k: TileKey|
            0 <= j < results@.len() && k.wf() implies #[trigger] pattern_count(results@[j], k)
            == tiles_count(tiles@, k) by {
            let d = decompositions(tiles@, n)[j];
            assert(blocks_count(d.0, k) + block_count(
                Block::Toitsu(plain_tile(d.1), plain_tile(d.1)),
                k,
            ) == tiles_count(tiles@, k));
        }
    }
    results
}

/// Decomposition of a hand with no declared melds: a pair and four groups.
pub fn decompose_standard_hand(tiles: &[Tile]) -> (r: Vec<HandPattern>)
    requires
        forall|j: int| 0 <= j < tiles@.len() ==> (#[trigger] tiles@[j]).wf(),
    ensures
        r@.len() == decompositions(tiles@, 4).len(),
        forall|j: int|
            0 <= j < r@.len() ==> pattern_is(
                #[trigger] r@[j],
                decompositions(tiles@, 4)[j].0,
                decompositions(tiles@, 4)[j].1,
            ),
{
    decompose_with_blocks_needed(tiles, 4)
}


// ---------------------------------------------------------------------------
// Completeness of the search
// ---------------------------------------------------------------------------

proof fn lemma_block_count_nonneg(b: Block, k: TileKey)
    ensures
        0 <= block_count(b, k) <= 4,
{
}

proof fn lemma_blocks_count_concat(a: Seq<Block>, b: Seq<Block>, k: TileKey)
    ensures
        blocks_count(a + b, k) == blocks_count(a, k) + blocks_count(b, k),
    decreases b.len(),
{
    if b.len() == 0 {
        assert(a + b =~= a);
    } else {
        lemma_blocks_count_concat(a, b.drop_last(), k);
        assert((a + b).drop_last() =~= a + b.drop_last());
    }
}

proof fn lemma_blocks_count_nonneg(bs: Seq<Block>, k: TileKey)
    ensures
        blocks_count(bs, k) >= 0,
    decreases bs.len(),
{
    if bs.len() > 0 {
        lemma_blocks_count_nonneg(bs.drop_last(), k);
        lemma_block_count_nonneg(bs.last(), k);
    }
}

proof fn lemma_blocks_count_remove(bs: Seq<Block>, idx: int, k: TileKey)
    requires
        0 <= idx < bs.len(),
    ensures
        blocks_count(bs.remove(idx), k) == blocks_count(bs, k) - block_count(bs[idx], k),
        blocks_count(bs, k) >= block_count(bs[idx], k),
{
    let a = bs.subrange(0, idx);
    let b = bs.subrange(idx + 1, bs.len() as int);
    assert(bs.remove(idx) =~= a + b);
    assert(bs =~= (a + seq![bs[idx]]) + b);
    lemma_blocks_count_concat(a, b, k);
    lemma_blocks_count_concat(a + seq![bs[idx]], b, k);
    lemma_blocks_count_push(a, bs[idx], k);
    assert(a.push(bs[idx]) =~= a + seq![bs[idx]]);
    lemma_blocks_count_nonneg(bs.remove(idx), k);
}

proof fn lemma_some_block_holds(bs: Seq<Block>, k: TileKey)
    requires
        blocks_count(bs, k) > 0,
    ensures
        exists|idx: int| 0 <= idx < bs.len() && #[trigger] block_count(bs[idx], k) > 0,
    decreases bs.len(),
{
    if block_count(bs.last(), k) > 0 {
        assert(block_count(bs[bs.len() - 1], k) > 0);
    } else {
        lemma_some_block_holds(bs.drop_last(), k);
        let idx = choose|idx: int|
            0 <= idx < bs.drop_last().len() && #[trigger] block_count(bs.drop_last()[idx], k) > 0;
        assert(bs[idx] == bs.drop_last()[idx]);
    }
}

/// The smallest remaining key is covered either by a triplet of it or by a
/// run that starts at it.
proof fn lemma_first_group(c: Seq<int>, gs: Seq<Block>, idx: int, i: int)
    requires
        c.len() == 34,
        forall|x: int| 0 <= x < 34 ==> #[trigger] c[x] == blocks_count(gs, key_at(x)),
        0 <= i < 34,
        forall|x: int| 0 <= x < i ==> c[x] == 0,
        0 <= idx < gs.len(),
        is_group(gs[idx]),
        block_count(gs[idx], key_at(i)) > 0,
    ensures
        gs[idx] == triplet_at(i) || (gs[idx] == run_at(i) && run_fits(c, i)),
{
    let g = gs[idx];
    lemma_key_at_plain(i);
    match g {
        Block::Koutsu(a, _, _) => {
            assert(a.key() == key_at(i));
        },
        Block::Shuntsu(a, b, d) => {
            let s = a.key().index();
            lemma_key_at_index(a.key());
            lemma_key_at_plain(s);
            assert(0 <= s < 27);
            let kb = TileKey { suit: a.suit, num: (a.num + 1) as u8, honor: None };
            let kd = TileKey { suit: a.suit, num: (a.num + 2) as u8, honor: None };
            assert(kb.wf() && kd.wf());
            assert(kb.index() == s + 1);
            assert(kd.index() == s + 2);
            lemma_key_at_index(kb);
            lemma_key_at_index(kd);
            lemma_blocks_count_remove(gs, idx, key_at(s));
            assert(block_count(g, key_at(s)) >= 1);
            assert(c[s] >= 1);
            assert(s >= i);
            assert(key_at(i) == a.key() || key_at(i) == kb || key_at(i) == kd);
            assert(s == i);
            lemma_key_at_plain(i + 1);
            lemma_key_at_plain(i + 2);
            lemma_blocks_count_remove(gs, idx, key_at(i + 1));
            lemma_blocks_count_remove(gs, idx, key_at(i + 2));
            assert(block_count(g, key_at(i + 1)) >= 1);
            assert(block_count(g, key_at(i + 2)) >= 1);
            assert(i % 9 == a.num - 1);
        },
        _ => {},
    }
}

/// Whatever groups use up exactly the counts `c`, the search finds them
/// after `blocks`, in some order.
proof fn lemma_search_complete(c: Seq<int>, blocks: Seq<Block>, n: nat, gs: Seq<Block>)
    requires
        c.len() == 34,
        blocks.len() + gs.len() == n,
        forall|m: int| 0 <= m < gs.len() ==> is_group(#[trigger] gs[m]),
        forall|x: int| 0 <= x < 34 ==> #[trigger] c[x] == blocks_count(gs, key_at(x)),
    ensures
        exists|j: int|
            0 <= j < search(c, blocks, n).len() && (#[trigger] search(c, blocks, n)[j]).to_multiset()
                == blocks.to_multiset().add(gs.to_multiset()),
    decreases gs.len(),
{
    broadcast use vstd::seq_lib::group_to_multiset_ensures;
    broadcast use vstd::multiset::group_multiset_axioms;

    if gs.len() == 0 {
        assert forall|x: int| 0 <= x < c.len() implies c[x] == 0 by {
            assert(blocks_count(gs, key_at(x)) == 0);
        }
        assert(search(c, blocks, n) == seq![blocks]);
        assert(gs.to_multiset() =~= vstd::multiset::Multiset::<Block>::empty());
        assert(blocks.to_multiset().add(gs.to_multiset()) =~= blocks.to_multiset());
        assert(search(c, blocks, n)[0] == blocks);
    } else {
        let g0 = gs[0];
        lemma_blocks_count_nonneg(gs, key_at(0));
        // some key is present: the first tile of the first group
        let k0 = match g0 {
            Block::Koutsu(a, _, _) => a.key(),
            Block::Shuntsu(a, _, _) => a.key(),
            _ => key_at(0),
        };
        lemma_key_at_index(k0);
        lemma_blocks_count_remove(gs, 0, k0);
        assert(c[k0.index()] > 0);
        assert(!all_zero(c));
        let i = first_nonzero(c, 0);
        lemma_first_nonzero(c, 0);
        assert(i < 34);
        lemma_key_at_plain(i);
        lemma_blocks_count_nonneg(gs, key_at(i));
        assert(blocks_count(gs, key_at(i)) == c[i]);
        lemma_some_block_holds(gs, key_at(i));
        let idx = choose|idx: int| 0 <= idx < gs.len() && #[trigger] block_count(gs[idx], key_at(i)) > 0;
        let g = gs[idx];
        lemma_first_group(c, gs, idx, i);
        let rest = gs.remove(idx);
        assert forall|m: int| 0 <= m < rest.len() implies is_group(#[trigger] rest[m]) by {
            if m < idx {
                assert(rest[m] == gs[m]);
            } else {
                assert(rest[m] == gs[m + 1]);
            }
        }
        let with_triplet = if c[i] >= 3 {
            search(c.update(i, c[i] - 3), blocks.push(triplet_at(i)), n)
        } else {
            seq![]
        };
        let with_run = if run_fits(c, i) {
            search(take_run(c, i), blocks.push(run_at(i)), n)
        } else {
            seq![]
        };
        assert(search(c, blocks, n) == with_triplet + with_run);
        let target = blocks.to_multiset().add(gs.to_multiset());
        assert(blocks.push(g).to_multiset().add(rest.to_multiset()) =~= target) by {
            assert(rest.to_multiset() == gs.to_multiset().remove(g));
            assert(gs.to_multiset().count(g) > 0) by {
                assert(gs.contains(g));
            }
        }
        if g == triplet_at(i) {
            let c2 = c.update(i, c[i] - 3);
            assert forall|x: int| 0 <= x < 34 implies #[trigger] c2[x] == blocks_count(rest, key_at(x)) by {
                lemma_blocks_count_remove(gs, idx, key_at(x));
                lemma_key_at_plain(x);
            }
            assert(c[i] >= 3) by {
                lemma_blocks_count_remove(gs, idx, key_at(i));
            }
            lemma_search_complete(c2, blocks.push(g), n, rest);
            let j = choose|j: int|
                0 <= j < search(c2, blocks.push(g), n).len() && (#[trigger] search(
                    c2,
                    blocks.push(g),
                    n,
                )[j]).to_multiset() == blocks.push(g).to_multiset().add(rest.to_multiset());
            assert(search(c, blocks, n)[j] == with_triplet[j]);
        } else {
            let c2 = take_run(c, i);
            assert forall|x: int| 0 <= x < 34 implies #[trigger] c2[x] == blocks_count(rest, key_at(x)) by {
                lemma_blocks_count_remove(gs, idx, key_at(x));
                lemma_key_at_plain(x);
                lemma_key_at_plain(i + 1);
                lemma_key_at_plain(i + 2);
            }
            lemma_search_complete(c2, blocks.push(g), n, rest);
            let j = choose|j: int|
                0 <= j < search(c2, blocks.push(g), n).len() && (#[trigger] search(
                    c2,
                    blocks.push(g),
                    n,
                )[j]).to_multiset() == blocks.push(g).to_multiset().add(rest.to_multiset());
            assert(search(c, blocks, n)[with_triplet.len() + j] == with_run[j]);
        }
    }
}


proof fn lemma_pair_choices_contain(c: Seq<int>, i: int, n: nat, p: int, j: int)
    requires
        0 <= p < i <= c.len(),
        c[p] >= 2,
        0 <= j < search(c.update(p, c[p] - 2), seq![], n).len(),
    ensures
        exists|off: int|
            0 <= off < pair_choices(c, i, n).len() && #[trigger] pair_choices(c, i, n)[off] == (
            search(c.update(p, c[p] - 2), seq![], n)[j],
            key_at(p),
        ),
    decreases i,
{
    let prev = pair_choices(c, i - 1, n);
    let here = if c[i - 1] >= 2 {
        search(c.update(i - 1, c[i - 1] - 2), seq![], n).map_values(
            |bs: Seq<Block>| (bs, key_at(i - 1)),
        )
    } else {
        seq![]
    };
    assert(pair_choices(c, i, n) == prev + here);
    if i - 1 == p {
        assert(pair_choices(c, i, n)[prev.len() + j] == here[j]);
    } else {
        lemma_pair_choices_contain(c, i - 1, n, p, j);
        let off = choose|off: int|
            0 <= off < prev.len() && #[trigger] prev[off] == (
                search(c.update(p, c[p] - 2), seq![], n)[j],
                key_at(p),
            );
        assert(pair_choices(c, i, n)[off] == prev[off]);
    }
}

/// Every way to split the tiles into a pair and `n` groups (triplets and
/// runs) is found: some decomposition has the same pair and the same groups,
/// in some order.
pub proof fn lemma_decompositions_complete(tiles: Seq<Tile>, n: nat, pk: TileKey, gs: Seq<Block>)
    requires
        pk.wf(),
        gs.len() == n,
        forall|m: int| 0 <= m < gs.len() ==> is_group(#[trigger] gs[m]),
        forall|k: TileKey|
            k.wf() ==> #[trigger] blocks_count(gs, k) + block_count(
                Block::Toitsu(plain_tile(pk), plain_tile(pk)),
                k,
            ) == tiles_count(tiles, k),
    ensures
        exists|j: int|
            0 <= j < decompositions(tiles, n).len() && (#[trigger] decompositions(tiles, n)[j]).1
                == pk && decompositions(tiles, n)[j].0.to_multiset() == gs.to_multiset(),
{
    broadcast use vstd::multiset::group_multiset_axioms;

    let c = tile_counts(tiles);
    let p = pk.index();
    lemma_key_at_index(pk);
    lemma_key_at_plain(p);
    lemma_blocks_count_nonneg(gs, pk);
    assert(blocks_count(gs, pk) + 2 == tiles_count(tiles, pk));
    assert(c[p] >= 2);
    let c2 = c.update(p, c[p] - 2);
    assert forall|x: int| 0 <= x < 34 implies #[trigger] c2[x] == blocks_count(gs, key_at(x)) by {
        lemma_key_at_plain(x);
        assert(blocks_count(gs, key_at(x)) + block_count(
            Block::Toitsu(plain_tile(pk), plain_tile(pk)),
            key_at(x),
        ) == tiles_count(tiles, key_at(x)));
    }
    lemma_search_complete(c2, seq![], n, gs);
    let j = choose|j: int|
        0 <= j < search(c2, seq![], n).len() && (#[trigger] search(c2, seq![], n)[j]).to_multiset()
            == Seq::<Block>::empty().to_multiset().add(gs.to_multiset());
    assert(Seq::<Block>::empty().to_multiset().add(gs.to_multiset()) =~= gs.to_multiset()) by {
        broadcast use vstd::seq_lib::group_to_multiset_ensures;

        assert(Seq::<Block>::empty().to_multiset() =~= vstd::multiset::Multiset::<Block>::empty());
    }
    lemma_pair_choices_contain(c, 34, n, p, j);
    let off = choose|off: int|
        0 <= off < pair_choices(c, 34, n).len() && #[trigger] pair_choices(c, 34, n)[off] == (
            search(c2, seq![], n)[j],
            key_at(p),
        );
    assert(decompositions(tiles, n)[off] == pair_choices(c, 34, n)[off]);
}

} // verus!
