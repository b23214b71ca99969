use vstd::prelude::*;

use crate::decompose::{kan_marks, triplet_marks, Block, HandPattern, OpenInfo, PatternModel};
use crate::tile::{is_dragon, Honor, Suit, Tile, TileKey};
use crate::{WinType, Wind};

verus! {

#[derive(Debug, Clone, Copy, PartialEq, Eq, Structural)]
pub enum WaitType {
    Ryanmen,
    Kanchan,
    Penchan,
    Tanki,
    Shanpon,
}

/// How the winning tile completed the hand; on a claimed win that completed
/// a triplet, that triplet's key.
#[derive(Debug, Clone, Copy, PartialEq, Eq, Structural)]
pub struct WaitInfo {
    pub wait_type: WaitType,
    pub ron_completed_triplet: Option<TileKey>,
}

pub open spec fn wind_honor(w: Wind) -> Honor {
    match w {
        Wind::E => Honor::East,
        Wind::S => Honor::South,
        Wind::W => Honor::West,
        Wind::N => Honor::North,
    }
}

pub(crate) fn wind_to_honor(w: Wind) -> (r: Honor)
    ensures
        r == wind_honor(w),
{
    match w {
        Wind::E => Honor::East,
        Wind::S => Honor::South,
        Wind::W => Honor::West,
        Wind::N => Honor::North,
    }
}

/// A dragon, or the round wind, or the seat wind.
pub open spec fn is_value_key(k: TileKey, round_wind: Wind, seat_wind: Wind) -> bool {
    k.suit == Suit::Honor && k.honor is Some && (is_dragon(k.honor->0) || k.honor->0 == wind_honor(
        round_wind,
    ) || k.honor->0 == wind_honor(seat_wind))
}

pub open spec fn run_holds(b: Block, wk: TileKey) -> bool {
    match b {
        Block::Shuntsu(a, b2, c) => wk == a.key() || wk == b2.key() || wk == c.key(),
        _ => false,
    }
}

pub open spec fn run_wait(b: Block, wk: TileKey) -> WaitType {
    match b {
        Block::Shuntsu(a, b2, c) => if wk == b2.key() {
            WaitType::Kanchan
        } else if a.suit != Suit::Honor && a.num == 1 && wk == c.key() {
            WaitType::Penchan
        } else if a.suit != Suit::Honor && a.num == 7 && wk == a.key() {
            WaitType::Penchan
        } else {
            WaitType::Ryanmen
        },
        _ => WaitType::Ryanmen,
    }
}

pub open spec fn set_holds(b: Block, wk: TileKey) -> bool {
    match b {
        Block::Koutsu(a, _, _) => a.key() == wk,
        Block::Kantsu(a, _, _, _) => a.key() == wk,
        _ => false,
    }
}

/// Position of the first block from `i` on that satisfies the run test
/// (`bs.len()` if none).
pub open spec fn first_run_from(bs: Seq<Block>, wk: TileKey, i: int) -> int
    decreases bs.len() - i,
{
    if i >= bs.len() {
        bs.len() as int
    } else if run_holds(bs[i], wk) {
        i
    } else {
        first_run_from(bs, wk, i + 1)
    }
}

pub open spec fn first_set_from(bs: Seq<Block>, wk: TileKey, i: int) -> int
    decreases bs.len() - i,
{
    if i >= bs.len() {
        bs.len() as int
    } else if set_holds(bs[i], wk) {
        i
    } else {
        first_set_from(bs, wk, i + 1)
    }
}

/// The wait: the pair first, then the first run holding the winning key,
/// then the first triplet or quad of it; two-sided if nothing matches.
pub open spec fn wait_info_of(
    bs: Seq<Block>,
    pair_key: Option<TileKey>,
    wk: TileKey,
    win_type: WinType,
) -> WaitInfo {
    let r = first_run_from(bs, wk, 0);
    let t = first_set_from(bs, wk, 0);
    if pair_key == Some(wk) {
        WaitInfo { wait_type: WaitType::Tanki, ron_completed_triplet: None }
    } else if r < bs.len() {
        WaitInfo { wait_type: run_wait(bs[r], wk), ron_completed_triplet: None }
    } else if t < bs.len() {
        WaitInfo {
            wait_type: WaitType::Shanpon,
            ron_completed_triplet: if bs[t] is Koutsu && win_type == WinType::RON {
                Some(wk)
            } else {
                None
            },
        }
    } else {
        WaitInfo { wait_type: WaitType::Ryanmen, ron_completed_triplet: None }
    }
}

pub open spec fn pattern_wait(p: PatternModel, win_tile: Tile, win_type: WinType) -> WaitInfo {
    wait_info_of(p.blocks, p.pair_key, win_tile.key(), win_type)
}

/// Wait type as the yaku rules see it.
pub fn detect_wait_type(pattern: &HandPattern, win_tile: Tile) -> (r: WaitType)
    ensures
        r == pattern_wait(pattern.model(), win_tile, WinType::TSUMO).wait_type,
{
    detect_wait_info(pattern, win_tile, WinType::TSUMO).wait_type
}

pub fn detect_wait_info(pattern: &HandPattern, win_tile: Tile, win_type: WinType) -> (r: WaitInfo)
    ensures
        r == pattern_wait(pattern.model(), win_tile, win_type),
{
    let ghost bs = pattern.blocks@;
    let wk = TileKey::from_tile(&win_tile);
    if let Some(pk) = pattern.pair_key {
        if pk == wk {
            return WaitInfo { wait_type: WaitType::Tanki, ron_completed_triplet: None };
        }
    }
    let mut i: usize = 0;
    while i < pattern.blocks.len()
        invariant
            i <= bs.len(),
            bs == pattern.blocks@,
            wk == win_tile.key(),
            pattern.pair_key != Some(wk),
            first_run_from(bs, wk, 0) == first_run_from(bs, wk, i as int),
        decreases pattern.blocks.len() - i,
    {
        if let Block::Shuntsu(a, b2, c) = pattern.blocks[i] {
            let ka = TileKey::from_tile(&a);
            let kb = TileKey::from_tile(&b2);
            let kc = TileKey::from_tile(&c);
            if wk == ka || wk == kb || wk == kc {
                if wk == kb {
                    return WaitInfo { wait_type: WaitType::Kanchan, ron_completed_triplet: None };
                }
                if ka.suit != Suit::Honor {
                    if ka.num == 1 && wk == kc {
                        return WaitInfo {
                            wait_type: WaitType::Penchan,
                            ron_completed_triplet: None,
                        };
                    }
                    if ka.num == 7 && wk == ka {
                        return WaitInfo {
                            wait_type: WaitType::Penchan,
                            ron_completed_triplet: None,
                        };
                    }
                }
                return WaitInfo { wait_type: WaitType::Ryanmen, ron_completed_triplet: None };
            }
        }
        i += 1;
    }
    let mut j: usize = 0;
    while j < pattern.blocks.len()
        invariant
            j <= bs.len(),
            bs == pattern.blocks@,
            wk == win_tile.key(),
            pattern.pair_key != Some(wk),
            first_run_from(bs, wk, 0) == bs.len(),
            first_set_from(bs, wk, 0) == first_set_from(bs, wk, j as int),
        decreases pattern.blocks.len() - j,
    {
        match pattern.blocks[j] {
            Block::Koutsu(t, _, _) => {
                let k = TileKey::from_tile(&t);
                if k == wk {
                    let ron_completed = if win_type == WinType::RON {
                        Some(k)
                    } else {
                        None
                    };
                    return WaitInfo { wait_type: WaitType::Shanpon, ron_completed_triplet: ron_completed };
                }
            },
            Block::Kantsu(t, _, _, _) => {
                let k = TileKey::from_tile(&t);
                if k == wk {
                    return WaitInfo { wait_type: WaitType::Shanpon, ron_completed_triplet: None };
                }
            },
            _ => {},
        }
        j += 1;
    }
    WaitInfo { wait_type: WaitType::Ryanmen, ron_completed_triplet: None }
}

// ---------------------------------------------------------------------------
// Fu
// ---------------------------------------------------------------------------

pub open spec fn round_up_10_spec(x: int) -> int {
    ((x + 9) / 10) * 10
}

/// Fu of the head: 2 for a dragon, 2 for the round wind, 2 for the seat wind.
pub open spec fn pair_fu_spec(k: TileKey, round_wind: Wind, seat_wind: Wind) -> int {
    if k.suit != Suit::Honor || k.honor is None {
        0
    } else {
        (if is_dragon(k.honor->0) {
            2int
        } else {
            0
        }) + (if k.honor->0 == wind_honor(round_wind) {
            2int
        } else {
            0
        }) + (if k.honor->0 == wind_honor(seat_wind) {
            2int
        } else {
            0
        })
    }
}

pub open spec fn triplet_fu_spec(k: TileKey, open: bool) -> int {
    let base = if open {
        2int
    } else {
        4
    };
    if k.is_terminal_or_honor() {
        2 * base
    } else {
        base
    }
}

pub open spec fn kan_fu_spec(k: TileKey, open: bool) -> int {
    4 * triplet_fu_spec(k, open)
}

/// Fu of one group: runs and pairs none; triplets and quads by the table,
/// a triplet being open if a meld marks it or the claimed tile completed it.
pub open spec fn block_fu_spec(
    b: Block,
    ot: Seq<TileKey>,
    okn: Seq<TileKey>,
    ron_completed: Option<TileKey>,
) -> int {
    match b {
        Block::Koutsu(t, _, _) => triplet_fu_spec(
            t.key(),
            ot.contains(t.key()) || ron_completed == Some(t.key()),
        ),
        Block::Kantsu(t, _, _, _) => kan_fu_spec(t.key(), okn.contains(t.key())),
        _ => 0,
    }
}

pub open spec fn blocks_fu(
    bs: Seq<Block>,
    ot: Seq<TileKey>,
    okn: Seq<TileKey>,
    ron_completed: Option<TileKey>,
) -> int
    decreases bs.len(),
{
    if bs.len() == 0 {
        0
    } else {
        blocks_fu(bs.drop_last(), ot, okn, ron_completed) + block_fu_spec(
            bs.last(),
            ot,
            okn,
            ron_completed,
        )
    }
}

/// All groups runs, head not a value tile, two-sided wait.
pub open spec fn pinfu_shape(
    bs: Seq<Block>,
    pair_key: Option<TileKey>,
    round_wind: Wind,
    seat_wind: Wind,
    wt: WaitType,
) -> bool {
    &&& forall|i: int| 0 <= i < bs.len() ==> (#[trigger] bs[i]) is Shuntsu
    &&& pair_key is Some
    &&& !is_value_key(pair_key->0, round_wind, seat_wind)
    &&& wt == WaitType::Ryanmen
}

/// The fu total before the 30-fu floor and rounding.
pub open spec fn raw_fu(
    p: PatternModel,
    win_tile: Tile,
    win_type: WinType,
    menzen: bool,
    round_wind: Wind,
    seat_wind: Wind,
) -> int {
    let wi = pattern_wait(p, win_tile, win_type);
    20 + (if win_type == WinType::TSUMO {
        2int
    } else {
        0
    }) + (if win_type == WinType::RON && menzen {
        10int
    } else {
        0
    }) + (match p.pair_key {
        Some(k) => pair_fu_spec(k, round_wind, seat_wind),
        None => 0,
    }) + blocks_fu(p.blocks, p.open_triplets, p.open_kans, wi.ron_completed_triplet) + (
    if wi.wait_type
        == WaitType::Kanchan || wi.wait_type == WaitType::Penchan || wi.wait_type
        == WaitType::Tanki {
        2int
    } else {
        0
    })
}

/// 20 stands only for a concealed self-drawn pinfu shape; another 20 becomes
/// 30. Then rounded up to a multiple of 10.
pub open spec fn fu_of(
    p: PatternModel,
    win_tile: Tile,
    win_type: WinType,
    menzen: bool,
    round_wind: Wind,
    seat_wind: Wind,
) -> int {
    let raw = raw_fu(p, win_tile, win_type, menzen, round_wind, seat_wind);
    let wt = pattern_wait(p, win_tile, win_type).wait_type;
    let allow_20 = menzen && win_type == WinType::TSUMO && pinfu_shape(
        p.blocks,
        p.pair_key,
        round_wind,
        seat_wind,
        wt,
    );
    round_up_10_spec(
        if raw == 20 && !allow_20 {
            30
        } else {
            raw
        },
    )
}

proof fn lemma_blocks_fu_bounds(
    bs: Seq<Block>,
    ot: Seq<TileKey>,
    okn: Seq<TileKey>,
    rc: Option<TileKey>,
)
    ensures
        0 <= blocks_fu(bs, ot, okn, rc) <= 32 * bs.len(),
    decreases bs.len(),
{
    if bs.len() > 0 {
        lemma_blocks_fu_bounds(bs.drop_last(), ot, okn, rc);
    }
}

/// Fu is a multiple of 10 and at least 20; it is 20 only when the hand is
/// concealed, self-drawn and of pinfu shape (all runs, head not a value
/// tile, two-sided wait); otherwise it is at least 30.
pub proof fn lemma_fu_rules(
    p: PatternModel,
    win_tile: Tile,
    win_type: WinType,
    menzen: bool,
    round_wind: Wind,
    seat_wind: Wind,
)
    ensures
        fu_of(p, win_tile, win_type, menzen, round_wind, seat_wind) % 10 == 0,
        fu_of(p, win_tile, win_type, menzen, round_wind, seat_wind) >= 20,
        p.blocks.len() <= 4 ==> fu_of(p, win_tile, win_type, menzen, round_wind, seat_wind) <= 200,
        fu_of(p, win_tile, win_type, menzen, round_wind, seat_wind) == 20 ==> menzen && win_type
            == WinType::TSUMO && pinfu_shape(
            p.blocks,
            p.pair_key,
            round_wind,
            seat_wind,
            pattern_wait(p, win_tile, win_type).wait_type,
        ),
        !(menzen && win_type == WinType::TSUMO && pinfu_shape(
            p.blocks,
            p.pair_key,
            round_wind,
            seat_wind,
            pattern_wait(p, win_tile, win_type).wait_type,
        )) ==> fu_of(p, win_tile, win_type, menzen, round_wind, seat_wind) >= 30,
{
    let wi = pattern_wait(p, win_tile, win_type);
    lemma_blocks_fu_bounds(p.blocks, p.open_triplets, p.open_kans, wi.ron_completed_triplet);
    let raw = raw_fu(p, win_tile, win_type, menzen, round_wind, seat_wind);
    assert(raw >= 20);
}

fn round_up_10(x: u32) -> (r: u32)
    requires
        x <= 1000,
    ensures
        r == round_up_10_spec(x as int),
{
    ((x + 9) / 10) * 10
}

fn pair_fu(pair: TileKey, round_wind: Wind, seat_wind: Wind) -> (r: u32)
    ensures
        r == pair_fu_spec(pair, round_wind, seat_wind),
{
    if pair.suit != Suit::Honor {
        return 0;
    }
    let h = match pair.honor {
        Some(h) => h,
        None => return 0,
    };
    let mut fu: u32 = 0;
    if matches!(h, Honor::White | Honor::Green | Honor::Red) {
        fu += 2;
    }
    if h == wind_to_honor(round_wind) {
        fu += 2;
    }
    if h == wind_to_honor(seat_wind) {
        fu += 2;
    }
    fu
}

fn triplet_fu(k: TileKey, open: bool) -> (r: u32)
    ensures
        r == triplet_fu_spec(k, open),
{
    let th = k.is_terminal_or_honor_key();
    match (open, th) {
        (true, false) => 2,
        (true, true) => 4,
        (false, false) => 4,
        (false, true) => 8,
    }
}

fn kan_fu(k: TileKey, open: bool) -> (r: u32)
    ensures
        r == kan_fu_spec(k, open),
{
    let th = k.is_terminal_or_honor_key();
    match (open, th) {
        (true, false) => 8,
        (true, true) => 16,
        (false, false) => 16,
        (false, true) => 32,
    }
}

fn block_fu(block: &Block, open_info: &Option<OpenInfo>, ron_completed_triplet: Option<TileKey>) -> (r: u32)
    ensures
        r == block_fu_spec(
            *block,
            triplet_marks(*open_info),
            kan_marks(*open_info),
            ron_completed_triplet,
        ),
{
    match block {
        Block::Koutsu(t, _, _) => {
            let k = TileKey::from_tile(t);
            let mut open = match open_info {
                Some(o) => o.is_open_triplet(k),
                None => false,
            };
            if ron_completed_triplet == Some(k) {
                open = true;
            }
            triplet_fu(k, open)
        },
        Block::Kantsu(t, _, _, _) => {
            let k = TileKey::from_tile(t);
            let open = match open_info {
                Some(o) => o.is_open_kan(k),
                None => false,
            };
            kan_fu(k, open)
        },
        _ => 0,
    }
}

/// The pinfu shape test shared by the fu and yaku rules.
pub(crate) fn is_pinfu_shape(pattern: &HandPattern, round_wind: Wind, seat_wind: Wind, wt: WaitType) -> (r: bool)
    ensures
        r == pinfu_shape(pattern.blocks@, pattern.pair_key, round_wind, seat_wind, wt),
{
    let mut i: usize = 0;
    while i < pattern.blocks.len()
        invariant
            i <= pattern.blocks@.len(),
            forall|j: int| 0 <= j < i ==> (#[trigger] pattern.blocks@[j]) is Shuntsu,
        decreases pattern.blocks.len() - i,
    {
        if !matches!(pattern.blocks[i], Block::Shuntsu(_, _, _)) {
            return false;
        }
        i += 1;
    }
    let pk = match pattern.pair_key {
        Some(pk) => pk,
        None => return false,
    };
    if pk.suit == Suit::Honor {
        if let Some(h) = pk.honor {
            if matches!(h, Honor::White | Honor::Green | Honor::Red) {
                return false;
            }
            if h == wind_to_honor(round_wind) || h == wind_to_honor(seat_wind) {
                return false;
            }
        }
    }
    wt == WaitType::Ryanmen
}

/// Fu of a standard candidate, with the wait type found on the way.
#[verifier::rlimit(60)]
pub fn calc_fu(
    pattern: &HandPattern,
    win_tile: Tile,
    win_type: WinType,
    menzen: bool,
    round_wind: Wind,
    seat_wind: Wind,
) -> (r: (u32, WaitType))
    requires
        pattern.wf(),
    ensures
        r.0 == fu_of(pattern.model(), win_tile, win_type, menzen, round_wind, seat_wind),
        r.1 == pattern_wait(pattern.model(), win_tile, win_type).wait_type,
        r.0 % 10 == 0,
        20 <= r.0 <= 200,
{
    let wi = detect_wait_info(pattern, win_tile, win_type);
    let mut fu: u32 = 20;
    if win_type == WinType::TSUMO {
        fu += 2;
    }
    if win_type == WinType::RON && menzen {
        fu += 10;
    }
    if let Some(pair_key) = pattern.pair_key {
        fu += pair_fu(pair_key, round_wind, seat_wind);
    }
    let ghost head = fu;
    let mut i: usize = 0;
    while i < pattern.blocks.len()
        invariant
            i <= pattern.blocks@.len(),
            pattern.blocks@.len() <= 4,
            head <= 40,
            fu == head + blocks_fu(
                pattern.blocks@.subrange(0, i as int),
                triplet_marks(pattern.open_info),
                kan_marks(pattern.open_info),
                wi.ron_completed_triplet,
            ),
        decreases pattern.blocks.len() - i,
    {
        proof {
            let s = pattern.blocks@.subrange(0, i + 1);
            assert(s.drop_last() =~= pattern.blocks@.subrange(0, i as int));
            lemma_blocks_fu_bounds(
                pattern.blocks@.subrange(0, i as int),
                triplet_marks(pattern.open_info),
                kan_marks(pattern.open_info),
                wi.ron_completed_triplet,
            );
        }
        fu += block_fu(&pattern.blocks[i], &pattern.open_info, wi.ron_completed_triplet);
        i += 1;
    }
    proof {
        assert(pattern.blocks@.subrange(0, i as int) =~= pattern.blocks@);
        lemma_blocks_fu_bounds(
            pattern.blocks@,
            triplet_marks(pattern.open_info),
            kan_marks(pattern.open_info),
            wi.ron_completed_triplet,
        );
    }
    if matches!(wi.wait_type, WaitType::Kanchan | WaitType::Penchan | WaitType::Tanki) {
        fu += 2;
    }
    if fu == 20 {
        let pinfu_like = is_pinfu_shape(pattern, round_wind, seat_wind, wi.wait_type);
        let allow_20 = menzen && win_type == WinType::TSUMO && pinfu_like;
        if !allow_20 {
            fu = 30;
        }
    }
    fu = round_up_10(fu);
    proof {
        lemma_fu_rules(pattern.model(), win_tile, win_type, menzen, round_wind, seat_wind);
    }
    (fu, wi.wait_type)
}

} // verus!
