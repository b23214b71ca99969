use vstd::prelude::*;

use crate::decompose::{
    copy_blocks, decompose_with_blocks_needed, decompositions, meld_keys_of, pattern_is,
    Block, HandPattern, OpenInfo, PatternModel,
};
use crate::dora::{aka_count, count_aka, count_dora_from_indicators, dora_count};
use crate::fu::{
    calc_fu, detect_wait_type, fu_of, is_pinfu_shape, lemma_fu_rules, pattern_wait, pinfu_shape,
};
use crate::points::{base_points, calc_points, points_total};
use crate::special::{detect_special, special_of, SpecialHand};
use crate::text::{decimal, labelled_number};
use crate::tile::{lemma_decode_encode, tile_of_code, InvalidTileCode, Tile, TileKey};
use crate::yaku::{
    eval_special_yaku, eval_yaku_standard, han_sum, limit_entries, names_of, special_entries,
    standard_entries, string_views, Entry,
};
use crate::{Meld, MeldType, Riichi, ScoreRequest, ScoreResult, WinType};

verus! {

// ---------------------------------------------------------------------------
// Reading the request
// ---------------------------------------------------------------------------

/// Every code of the list is a valid tile code.
pub open spec fn codes_ok(v: Seq<String>) -> bool {
    forall|j: int| 0 <= j < v.len() ==> (#[trigger] tile_of_code(v[j]@)) is Some
}

pub open spec fn decode_all(v: Seq<String>) -> Seq<Tile> {
    v.map_values(|s: String| tile_of_code(s@)->0)
}

pub open spec fn melds_ok(ms: Seq<Meld>) -> bool {
    forall|i: int| 0 <= i < ms.len() ==> codes_ok(#[trigger] ms[i].tiles@)
}

/// The tiles of the declared melds, meld after meld.
pub open spec fn meld_tiles(ms: Seq<Meld>) -> Seq<Tile>
    decreases ms.len(),
{
    if ms.len() == 0 {
        seq![]
    } else {
        meld_tiles(ms.drop_last()) + decode_all(ms.last().tiles@)
    }
}

/// The group a declared meld forms: a run of three, a triplet of three, a
/// quad of four; none if the meld has another number of tiles.
pub open spec fn meld_block(kind: MeldType, ts: Seq<Tile>) -> Seq<Block> {
    match kind {
        MeldType::CHI => if ts.len() == 3 {
            seq![Block::Shuntsu(ts[0], ts[1], ts[2])]
        } else {
            seq![]
        },
        MeldType::PON => if ts.len() == 3 {
            seq![Block::Koutsu(ts[0], ts[1], ts[2])]
        } else {
            seq![]
        },
        _ => if ts.len() == 4 {
            seq![Block::Kantsu(ts[0], ts[1], ts[2], ts[3])]
        } else {
            seq![]
        },
    }
}

pub open spec fn meld_blocks(ms: Seq<Meld>) -> Seq<Block>
    decreases ms.len(),
{
    if ms.len() == 0 {
        seq![]
    } else {
        meld_blocks(ms.drop_last()) + meld_block(ms.last().meld_type, decode_all(ms.last().tiles@))
    }
}

/// Every tile code of the request is valid.
pub open spec fn request_readable(req: ScoreRequest) -> bool {
    &&& codes_ok(req.hand_tiles@)
    &&& tile_of_code(req.win_tile@) is Some
    &&& melds_ok(req.melds@)
    &&& codes_ok(req.dora_indicators@)
    &&& codes_ok(req.kan_dora_indicators@)
    &&& codes_ok(req.ura_indicators@)
    &&& codes_ok(req.kan_ura_indicators@)
}

/// Sizes under which every count and payment fits the result's integers.
pub open spec fn request_within_limits(req: ScoreRequest) -> bool {
    &&& req.hand_tiles@.len() <= 100
    &&& req.melds@.len() <= 100
    &&& forall|i: int| 0 <= i < req.melds@.len() ==> (#[trigger] req.melds@[i]).tiles@.len() <= 100
    &&& req.dora_indicators@.len() <= 100
    &&& req.kan_dora_indicators@.len() <= 100
    &&& req.ura_indicators@.len() <= 100
    &&& req.kan_ura_indicators@.len() <= 100
    &&& req.honba <= 1_000_000
    &&& req.kyotaku <= 1_000_000
}

pub open spec fn win_of(req: ScoreRequest) -> Tile {
    tile_of_code(req.win_tile@)->0
}

/// The concealed tiles with the winning tile.
pub open spec fn hand_of(req: ScoreRequest) -> Seq<Tile> {
    decode_all(req.hand_tiles@).push(win_of(req))
}

/// The concealed tiles, the winning tile and the meld tiles.
pub open spec fn all_tiles_of(req: ScoreRequest) -> Seq<Tile> {
    hand_of(req) + meld_tiles(req.melds@)
}

/// No claimed run, triplet or quad: only concealed quads keep the hand
/// concealed.
pub open spec fn concealed_of(req: ScoreRequest) -> bool {
    forall|i: int| 0 <= i < req.melds@.len() ==> (#[trigger] req.melds@[i]).meld_type
        == MeldType::ANKAN
}

pub open spec fn dora_han_of(req: ScoreRequest) -> int {
    dora_count(all_tiles_of(req), decode_all(req.dora_indicators@)) + dora_count(
        all_tiles_of(req),
        decode_all(req.kan_dora_indicators@),
    )
}

/// Hidden dora count only under riichi.
pub open spec fn ura_han_of(req: ScoreRequest) -> int {
    if req.flags.riichi != Riichi::NONE {
        dora_count(all_tiles_of(req), decode_all(req.ura_indicators@)) + dora_count(
            all_tiles_of(req),
            decode_all(req.kan_ura_indicators@),
        )
    } else {
        0
    }
}

pub open spec fn aka_han_of(req: ScoreRequest) -> int {
    aka_count(all_tiles_of(req))
}

// ---------------------------------------------------------------------------
// The result, stated
// ---------------------------------------------------------------------------

/// What a result reports.
pub struct ScoreView {
    pub total_points: int,
    pub yakuman: int,
    pub han: int,
    pub fu: int,
    pub yaku: Seq<Seq<char>>,
    pub dora_han: int,
    pub ura_dora_han: int,
    pub aka_dora_han: int,
}

pub open spec fn view_of_result(r: ScoreResult) -> ScoreView {
    ScoreView {
        total_points: r.total_points as int,
        yakuman: r.yakuman as int,
        han: r.han as int,
        fu: r.fu as int,
        yaku: string_views(r.yaku@),
        dora_han: r.dora_han as int,
        ura_dora_han: r.ura_dora_han as int,
        aka_dora_han: r.aka_dora_han as int,
    }
}

pub open spec fn view_of_best(b: Option<ScoreResult>) -> Option<ScoreView> {
    match b {
        Some(r) => Some(view_of_result(r)),
        None => None,
    }
}

/// A zero-payment result carrying one message.
pub open spec fn message_view(msg: Seq<char>) -> ScoreView {
    ScoreView {
        total_points: 0,
        yakuman: 0,
        han: 0,
        fu: 0,
        yaku: seq![msg],
        dora_han: 0,
        ura_dora_han: 0,
        aka_dora_han: 0,
    }
}

pub open spec fn bonus_names(d: int, u: int, a: int) -> Seq<Seq<char>> {
    (if d > 0 {
        seq!["ドラ"@ + decimal(d as nat)]
    } else {
        seq![]
    }) + (if u > 0 {
        seq!["裏ドラ"@ + decimal(u as nat)]
    } else {
        seq![]
    }) + (if a > 0 {
        seq!["赤ドラ"@ + decimal(a as nat)]
    } else {
        seq![]
    })
}

/// A scored candidate: its bonuses, its fu, the dora of the request, and
/// the payment they give.
pub open spec fn candidate_view(
    req: ScoreRequest,
    standard: Seq<Entry>,
    limit: Seq<Entry>,
    fu: int,
) -> ScoreView {
    let ym = han_sum(limit);
    let d = dora_han_of(req);
    let u = ura_han_of(req);
    let a = aka_han_of(req);
    let han = (if ym > 0 {
        0
    } else {
        han_sum(standard)
    }) + d + u + a;
    ScoreView {
        total_points: points_total(
            fu,
            han,
            ym,
            req.win_type,
            req.dealer,
            req.honba as int,
            req.kyotaku as int,
        ),
        yakuman: ym,
        han,
        fu,
        yaku: names_of(standard + limit) + bonus_names(d, u, a),
        dora_han: d,
        ura_dora_han: u,
        aka_dora_han: a,
    }
}

/// The seven-pairs or thirteen-orphans candidate, if the hand is one.
pub open spec fn special_view(req: ScoreRequest) -> Option<ScoreView> {
    match special_of(hand_of(req), win_of(req), req.melds@.len() > 0) {
        Some(sp) => Some(
            candidate_view(
                req,
                special_entries(sp).0,
                special_entries(sp).1,
                if sp == SpecialHand::Chiitoitsu {
                    25
                } else {
                    0
                },
            ),
        ),
        None => None,
    }
}

/// The candidate a decomposition gives, with the declared melds attached.
pub open spec fn model_of(req: ScoreRequest, d: (Seq<Block>, TileKey)) -> PatternModel {
    PatternModel {
        blocks: d.0 + meld_blocks(req.melds@),
        pair_key: Some(d.1),
        menzen: concealed_of(req),
        open_triplets: meld_keys_of(req.melds@, MeldType::PON),
        open_kans: meld_keys_of(req.melds@, MeldType::MINKAN),
    }
}

/// A standard candidate, unless it earns no bonus at all. A self-drawn
/// pinfu stays at 20 fu.
pub open spec fn standard_view(req: ScoreRequest, d: (Seq<Block>, TileKey)) -> Option<ScoreView> {
    let m = model_of(req, d);
    let win = win_of(req);
    let standard = standard_entries(
        m,
        all_tiles_of(req),
        win,
        req.win_type,
        req.round_wind,
        req.seat_wind,
        req.flags.riichi,
        req.flags.ippatsu,
        req.flags.rinshan,
        req.flags.chankan,
        req.flags.haitei,
        req.flags.houtei,
    );
    let limit = limit_entries(m, win, req.win_type);
    let wt = pattern_wait(m, win, WinType::TSUMO).wait_type;
    let pinfu = m.menzen && pinfu_shape(m.blocks, m.pair_key, req.round_wind, req.seat_wind, wt);
    let fu = if pinfu && req.win_type == WinType::TSUMO {
        20
    } else {
        fu_of(m, win, req.win_type, m.menzen, req.round_wind, req.seat_wind)
    };
    if han_sum(limit) == 0 && han_sum(standard) == 0 {
        None
    } else {
        Some(candidate_view(req, standard, limit, fu))
    }
}

/// Keeps the earlier candidate unless the new one pays strictly more.
pub open spec fn pick(best: Option<ScoreView>, c: Option<ScoreView>) -> Option<ScoreView> {
    match c {
        None => best,
        Some(cv) => match best {
            None => Some(cv),
            Some(b) => if cv.total_points > b.total_points {
                Some(cv)
            } else {
                Some(b)
            },
        },
    }
}

pub open spec fn best_upto(
    req: ScoreRequest,
    ds: Seq<(Seq<Block>, TileKey)>,
    init: Option<ScoreView>,
    i: int,
) -> Option<ScoreView>
    decreases i,
{
    if i <= 0 {
        init
    } else {
        pick(best_upto(req, ds, init, i - 1), standard_view(req, ds[i - 1]))
    }
}

pub open spec fn blocks_needed_of(req: ScoreRequest) -> int {
    4 - meld_blocks(req.melds@).len()
}

/// The scored result of a readable request.
pub open spec fn score_view(req: ScoreRequest) -> ScoreView {
    let mb = meld_blocks(req.melds@);
    let sv = special_view(req);
    if mb.len() > 4 {
        message_view("副露が多すぎます（面子数が4を超えています）"@)
    } else {
        let n = (4 - mb.len()) as nat;
        let ds = decompositions(hand_of(req), n);
        if ds.len() == 0 {
            match sv {
                Some(v) => v,
                None => message_view(
                    "分解できませんでした: blocks_needed="@ + decimal(n) + ", meld_blocks="@
                        + decimal(mb.len()),
                ),
            }
        } else {
            match best_upto(req, ds, sv, ds.len() as int) {
                Some(v) => v,
                None => message_view("役なし（和了不可）"@),
            }
        }
    }
}


// ---------------------------------------------------------------------------
// Executable
// ---------------------------------------------------------------------------

fn parse_codes(v: &Vec<String>) -> (r: Result<Vec<Tile>, InvalidTileCode>)
    ensures
        match r {
            Ok(ts) => codes_ok(v@) && ts@ == decode_all(v@) && ts@.len() == v@.len() && forall|
                j: int,
            |
                0 <= j < ts@.len() ==> (#[trigger] ts@[j]).wf(),
            Err(_) => !codes_ok(v@),
        },
{
    let mut out: Vec<Tile> = Vec::new();
    let mut i: usize = 0;
    while i < v.len()
        invariant
            i <= v@.len(),
            out@.len() == i,
            forall|j: int| 0 <= j < i ==> (#[trigger] tile_of_code(v@[j]@)) is Some,
            forall|j: int| 0 <= j < i ==> out@[j] == tile_of_code(v@[j]@)->0,
            forall|j: int| 0 <= j < i ==> (#[trigger] out@[j]).wf(),
        decreases v.len() - i,
    {
        match Tile::from_code(v[i].as_str()) {
            Ok(t) => {
                proof {
                    lemma_decode_encode(v@[i as int]@);
                }
                out.push(t);
            },
            Err(e) => {
                return Err(e);
            },
        }
        i += 1;
    }
    proof {
        assert(out@ =~= decode_all(v@));
    }
    Ok(out)
}

proof fn lemma_meld_tiles_len(ms: Seq<Meld>)
    requires
        melds_ok(ms),
        forall|i: int| 0 <= i < ms.len() ==> (#[trigger] ms[i]).tiles@.len() <= 100,
    ensures
        meld_tiles(ms).len() <= 100 * ms.len(),
        forall|j: int| 0 <= j < meld_tiles(ms).len() ==> (#[trigger] meld_tiles(ms)[j]).wf(),
    decreases ms.len(),
{
    if ms.len() > 0 {
        let init = ms.drop_last();
        assert forall|i: int| 0 <= i < init.len() implies codes_ok(#[trigger] init[i].tiles@) by {
            assert(init[i] == ms[i]);
        }
        assert forall|i: int| 0 <= i < init.len() implies (#[trigger] init[i]).tiles@.len() <= 100 by {
            assert(init[i] == ms[i]);
        }
        lemma_meld_tiles_len(init);
        let last = ms.last();
        assert(codes_ok(ms[ms.len() - 1].tiles@));
        assert forall|j: int| 0 <= j < decode_all(last.tiles@).len() implies (
        #[trigger] decode_all(last.tiles@)[j]).wf() by {
            lemma_decode_encode(last.tiles@[j]@);
        }
    }
}

/// The meld tiles, meld after meld, or the condition if a code is invalid.
fn parse_meld_tiles(melds: &Vec<Meld>) -> (r: Result<Vec<Tile>, InvalidTileCode>)
    ensures
        match r {
            Ok(ts) => melds_ok(melds@) && ts@ == meld_tiles(melds@),
            Err(_) => !melds_ok(melds@),
        },
{
    let mut out: Vec<Tile> = Vec::new();
    let mut i: usize = 0;
    while i < melds.len()
        invariant
            i <= melds@.len(),
            melds_ok(melds@.subrange(0, i as int)),
            out@ == meld_tiles(melds@.subrange(0, i as int)),
        decreases melds.len() - i,
    {
        let ts = parse_codes(&melds[i].tiles);
        match ts {
            Ok(mut ts) => {
                proof {
                    let s = melds@.subrange(0, i + 1);
                    assert(s.drop_last() =~= melds@.subrange(0, i as int));
                    assert(s.last() == melds@[i as int]);
                    assert forall|q: int| 0 <= q < s.len() implies codes_ok(#[trigger] s[q].tiles@) by {
                        if q < i {
                            assert(s[q] == melds@.subrange(0, i as int)[q]);
                        }
                    }
                }
                out.append(&mut ts);
            },
            Err(e) => {
                proof {
                    assert(!melds_ok(melds@)) by {
                        assert(!codes_ok(melds@[i as int].tiles@));
                    }
                }
                return Err(e);
            },
        }
        i += 1;
    }
    proof {
        assert(melds@.subrange(0, melds@.len() as int) =~= melds@);
    }
    Ok(out)
}

/// The groups that the declared melds form.
fn melds_to_blocks(melds: &Vec<Meld>) -> (r: Vec<Block>)
    requires
        melds_ok(melds@),
    ensures
        r@ == meld_blocks(melds@),
{
    let mut v: Vec<Block> = Vec::new();
    let mut i: usize = 0;
    while i < melds.len()
        invariant
            i <= melds@.len(),
            melds_ok(melds@),
            v@ == meld_blocks(melds@.subrange(0, i as int)),
        decreases melds.len() - i,
    {
        let m = &melds[i];
        proof {
            let s = melds@.subrange(0, i + 1);
            assert(s.drop_last() =~= melds@.subrange(0, i as int));
            assert(s.last() == melds@[i as int]);
            assert(codes_ok(melds@[i as int].tiles@));
        }
        let tiles = match parse_codes(&m.tiles) {
            Ok(ts) => ts,
            Err(_) => {
                return v;
            },
        };
        let ghost before = v@;
        match m.meld_type {
            MeldType::CHI => {
                if tiles.len() == 3 {
                    v.push(Block::Shuntsu(tiles[0], tiles[1], tiles[2]));
                }
            },
            MeldType::PON => {
                if tiles.len() == 3 {
                    v.push(Block::Koutsu(tiles[0], tiles[1], tiles[2]));
                }
            },
            MeldType::MINKAN | MeldType::ANKAN => {
                if tiles.len() == 4 {
                    v.push(Block::Kantsu(tiles[0], tiles[1], tiles[2], tiles[3]));
                }
            },
        }
        proof {
            assert(v@ =~= before + meld_block(m.meld_type, decode_all(m.tiles@)));
        }
        i += 1;
    }
    proof {
        assert(melds@.subrange(0, melds@.len() as int) =~= melds@);
    }
    v
}

/// Claimed runs, triplets and quads open the hand; concealed quads do not.
fn is_menzen_strict(melds: &Vec<Meld>) -> (r: bool)
    ensures
        r == forall|i: int| 0 <= i < melds@.len() ==> (#[trigger] melds@[i]).meld_type
            == MeldType::ANKAN,
{
    let mut i: usize = 0;
    while i < melds.len()
        invariant
            i <= melds@.len(),
            forall|j: int| 0 <= j < i ==> (#[trigger] melds@[j]).meld_type == MeldType::ANKAN,
        decreases melds.len() - i,
    {
        match melds[i].meld_type {
            MeldType::CHI | MeldType::PON | MeldType::MINKAN => return false,
            MeldType::ANKAN => {},
        }
        i += 1;
    }
    true
}

proof fn lemma_product_bound(a: int, b: int)
    requires
        0 <= a <= 10101,
        0 <= b <= 100,
    ensures
        a * b <= 1_010_100,
{
    assert(a * b <= 10101 * 100) by (nonlinear_arith)
        requires
            0 <= a <= 10101,
            0 <= b <= 100,
    ;
}

proof fn lemma_points_fit(
    fu: int,
    han: int,
    ym: int,
    win_type: WinType,
    dealer: bool,
    honba: int,
    kyotaku: int,
)
    requires
        0 <= fu <= 200,
        han >= 0,
        0 <= ym <= 60,
        0 <= honba <= 1_000_000,
        0 <= kyotaku <= 1_000_000,
    ensures
        points_total(fu, han, ym, win_type, dealer, honba, kyotaku) <= u32::MAX,
{
    vstd::arithmetic::power2::lemma2_to64();
    let b = base_points(fu, han);
    if han < 6 {
        assert(vstd::arithmetic::power2::pow2((han + 2) as nat) <= 128);
        assert(fu * vstd::arithmetic::power2::pow2((han + 2) as nat) <= 200 * 128) by (nonlinear_arith)
            requires
                0 <= fu <= 200,
                vstd::arithmetic::power2::pow2((han + 2) as nat) <= 128,
        ;
    }
    assert(0 <= b <= 25600);
}

fn message_result(msg: String) -> (r: ScoreResult)
    ensures
        view_of_result(r) == message_view(msg@),
{
    let mut yaku: Vec<String> = Vec::new();
    let ghost m = msg@;
    yaku.push(msg);
    proof {
        assert(string_views(yaku@) =~= seq![m]);
    }
    ScoreResult {
        total_points: 0,
        yakuman: 0,
        han: 0,
        fu: 0,
        yaku,
        dora_han: 0,
        ura_dora_han: 0,
        aka_dora_han: 0,
    }
}

/// The result of one candidate: its bonuses with the dora counts appended,
/// and the payment.
fn make_result(
    req: &ScoreRequest,
    yr: crate::yaku::YakuResult,
    fu: u32,
    dora: u32,
    ura: u32,
    aka: u32,
    Ghost(standard): Ghost<Seq<Entry>>,
    Ghost(limit): Ghost<Seq<Entry>>,
) -> (r: ScoreResult)
    requires
        crate::yaku::result_of(yr, standard, limit),
        request_within_limits(*req),
        fu <= 200,
        yr.yakuman <= 60,
        yr.han <= 1000,
        dora <= 3_000_000,
        ura <= 3_000_000,
        aka <= 20_000,
        dora == dora_han_of(*req),
        ura == ura_han_of(*req),
        aka == aka_han_of(*req),
    ensures
        view_of_result(r) == candidate_view(*req, standard, limit, fu as int),
{
    let han = yr.han + dora + ura + aka;
    let yakuman = yr.yakuman;
    let mut yaku = yr.yaku;
    let ghost start = string_views(yaku@);
    if dora > 0 {
        yaku.push(labelled_number("ドラ", dora));
    }
    let ghost s1 = string_views(yaku@);
    if ura > 0 {
        yaku.push(labelled_number("裏ドラ", ura));
    }
    let ghost s2 = string_views(yaku@);
    if aka > 0 {
        yaku.push(labelled_number("赤ドラ", aka));
    }
    proof {
        assert(s1 =~= start + (if dora > 0 {
            seq!["ドラ"@ + decimal(dora as nat)]
        } else {
            seq![]
        }));
        assert(s2 =~= s1 + (if ura > 0 {
            seq!["裏ドラ"@ + decimal(ura as nat)]
        } else {
            seq![]
        }));
        assert(string_views(yaku@) =~= s2 + (if aka > 0 {
            seq!["赤ドラ"@ + decimal(aka as nat)]
        } else {
            seq![]
        }));
        assert(string_views(yaku@) =~= start + bonus_names(dora as int, ura as int, aka as int));
        lemma_points_fit(
            fu as int,
            han as int,
            yakuman as int,
            req.win_type,
            req.dealer,
            req.honba as int,
            req.kyotaku as int,
        );
    }
    let bd = calc_points(fu, han, yakuman, req.win_type, req.dealer, req.honba, req.kyotaku);
    ScoreResult {
        total_points: bd.total_points,
        yakuman,
        han,
        fu,
        yaku,
        dora_han: dora,
        ura_dora_han: ura,
        aka_dora_han: aka,
    }
}

/// Scores one standard decomposition with the declared melds attached;
/// none if it earns no bonus.
fn score_candidate(
    req: &ScoreRequest,
    p: &HandPattern,
    meld_blocks_v: &Vec<Block>,
    menzen: bool,
    open_info: &OpenInfo,
    all_tiles: &Vec<Tile>,
    win_tile: Tile,
    dora: u32,
    ura: u32,
    aka: u32,
    Ghost(d): Ghost<(Seq<Block>, TileKey)>,
) -> (r: Option<ScoreResult>)
    requires
        request_within_limits(*req),
        request_readable(*req),
        pattern_is(*p, d.0, d.1),
        d.0.len() + meld_blocks_v@.len() == 4,
        meld_blocks_v@ == meld_blocks(req.melds@),
        menzen == concealed_of(*req),
        open_info.triplet_keys() == meld_keys_of(req.melds@, MeldType::PON),
        open_info.kan_keys() == meld_keys_of(req.melds@, MeldType::MINKAN),
        all_tiles@ == all_tiles_of(*req),
        win_tile == win_of(*req),
        dora <= 3_000_000,
        ura <= 3_000_000,
        aka <= 20_000,
        dora == dora_han_of(*req),
        ura == ura_han_of(*req),
        aka == aka_han_of(*req),
    ensures
        view_of_best(r) == standard_view(*req, d),
{
    let mut blocks = copy_blocks(&p.blocks);
    let mut extra = copy_blocks(meld_blocks_v);
    blocks.append(&mut extra);
    let mut hp = HandPattern {
        blocks,
        pair: p.pair,
        menzen,
        pair_key: None,
        open_info: Some(open_info.duplicate()),
    };
    hp.pair_key = hp.extract_pair_key();
    proof {
        assert(hp.model() == model_of(*req, d));
    }
    let ghost m = hp.model();
    let ghost standard = standard_entries(
        m,
        all_tiles_of(*req),
        win_tile,
        req.win_type,
        req.round_wind,
        req.seat_wind,
        req.flags.riichi,
        req.flags.ippatsu,
        req.flags.rinshan,
        req.flags.chankan,
        req.flags.haitei,
        req.flags.houtei,
    );
    let ghost limit = limit_entries(m, win_tile, req.win_type);
    let yr = eval_yaku_standard(
        &hp,
        all_tiles.as_slice(),
        win_tile,
        req.win_type,
        req.round_wind,
        req.seat_wind,
        req.flags.riichi,
        req.flags.ippatsu,
        req.flags.rinshan,
        req.flags.chankan,
        req.flags.haitei,
        req.flags.houtei,
    );
    if yr.yakuman == 0 && yr.han == 0 {
        return None;
    }
    let (fu0, _wt) = calc_fu(&hp, win_tile, req.win_type, hp.menzen, req.round_wind, req.seat_wind);
    let wt = detect_wait_type(&hp, win_tile);
    let pinfu = hp.menzen && is_pinfu_shape(&hp, req.round_wind, req.seat_wind, wt);
    let fu = if pinfu && req.win_type == WinType::TSUMO { 20 } else { fu0 };
    Some(make_result(req, yr, fu, dora, ura, aka, Ghost(standard), Ghost(limit)))
}


/// Scores a request: the best-paying interpretation of the hand, a
/// zero-payment result with a message when the hand cannot be split or
/// earns no bonus, or the condition if a tile code is malformed.
#[verifier::rlimit(80)]
pub fn score_best(req: &ScoreRequest) -> (r: Result<ScoreResult, InvalidTileCode>)
    requires
        request_within_limits(*req),
    ensures
        match r {
            Ok(res) => request_readable(*req) && view_of_result(res) == score_view(*req),
            Err(_) => !request_readable(*req),
        },
{
    let mut tiles14 = match parse_codes(&req.hand_tiles) {
        Ok(ts) => ts,
        Err(e) => return Err(e),
    };
    let win_tile = match Tile::from_code(req.win_tile.as_str()) {
        Ok(t) => t,
        Err(e) => return Err(e),
    };
    proof {
        lemma_decode_encode(req.win_tile@);
    }
    tiles14.push(win_tile);
    let mut meld_tiles_v = match parse_meld_tiles(&req.melds) {
        Ok(ts) => ts,
        Err(e) => return Err(e),
    };
    let dora_inds = match parse_codes(&req.dora_indicators) {
        Ok(ts) => ts,
        Err(e) => return Err(e),
    };
    let kan_dora_inds = match parse_codes(&req.kan_dora_indicators) {
        Ok(ts) => ts,
        Err(e) => return Err(e),
    };
    let ura_inds = match parse_codes(&req.ura_indicators) {
        Ok(ts) => ts,
        Err(e) => return Err(e),
    };
    let kan_ura_inds = match parse_codes(&req.kan_ura_indicators) {
        Ok(ts) => ts,
        Err(e) => return Err(e),
    };
    proof {
        assert(tiles14@ =~= hand_of(*req));
        lemma_meld_tiles_len(req.melds@);
    }
    let mut all_tiles = tiles14.clone();
    proof {
        assert(all_tiles@ =~= tiles14@);
    }
    all_tiles.append(&mut meld_tiles_v);
    proof {
        assert(all_tiles@ == all_tiles_of(*req));
        assert(all_tiles@.len() <= 10101);
        lemma_product_bound(all_tiles@.len() as int, dora_inds@.len() as int);
        lemma_product_bound(all_tiles@.len() as int, kan_dora_inds@.len() as int);
        lemma_product_bound(all_tiles@.len() as int, ura_inds@.len() as int);
        lemma_product_bound(all_tiles@.len() as int, kan_ura_inds@.len() as int);
    }
    let dora = count_dora_from_indicators(&all_tiles, &dora_inds) + count_dora_from_indicators(
        &all_tiles,
        &kan_dora_inds,
    );
    let ura = if req.flags.riichi != Riichi::NONE {
        count_dora_from_indicators(&all_tiles, &ura_inds) + count_dora_from_indicators(
            &all_tiles,
            &kan_ura_inds,
        )
    } else {
        0
    };
    let aka = count_aka(&all_tiles);
    let meld_blocks_v = melds_to_blocks(&req.melds);
    let menzen = is_menzen_strict(&req.melds);
    let open_info = OpenInfo::from_melds(req.melds.as_slice());
    let mut best: Option<ScoreResult> = None;
    match detect_special(tiles14.as_slice(), win_tile, req.melds.len() > 0) {
        Some(sp) => {
            let yr = eval_special_yaku(sp);
            let fu: u32 = match sp {
                SpecialHand::Chiitoitsu => 25,
                _ => 0,
            };
            best = Some(
                make_result(
                    req,
                    yr,
                    fu,
                    dora,
                    ura,
                    aka,
                    Ghost(special_entries(sp).0),
                    Ghost(special_entries(sp).1),
                ),
            );
        },
        None => {},
    }
    assert(view_of_best(best) == special_view(*req));
    if meld_blocks_v.len() > 4 {
        return Ok(message_result(String::from_str("副露が多すぎます（面子数が4を超えています）")));
    }
    let blocks_needed = 4 - meld_blocks_v.len();
    let patterns = decompose_with_blocks_needed(tiles14.as_slice(), blocks_needed);
    let ghost ds = decompositions(hand_of(*req), blocks_needed as nat);
    if patterns.len() == 0 {
        match best {
            Some(b) => {
                return Ok(b);
            },
            None => {
                let mut msg = labelled_number("分解できませんでした: blocks_needed=", blocks_needed as u32);
                msg.append(labelled_number(", meld_blocks=", meld_blocks_v.len() as u32).as_str());
                proof {
                    assert(msg@ =~= "分解できませんでした: blocks_needed="@ + decimal(
                        blocks_needed as nat,
                    ) + ", meld_blocks="@ + decimal(meld_blocks_v@.len()));
                }
                return Ok(message_result(msg));
            },
        }
    }
    let ghost sv = special_view(*req);
    let mut i: usize = 0;
    while i < patterns.len()
        invariant
            i <= patterns@.len(),
            patterns@.len() == ds.len(),
            forall|j: int| 0 <= j < patterns@.len() ==> pattern_is(#[trigger] patterns@[j], ds[j].0, ds[j].1),
            forall|j: int| 0 <= j < patterns@.len() ==> (#[trigger] patterns@[j]).blocks@.len() == blocks_needed,
            blocks_needed + meld_blocks_v@.len() == 4,
            request_within_limits(*req),
            request_readable(*req),
            meld_blocks_v@ == meld_blocks(req.melds@),
            menzen == concealed_of(*req),
            open_info.triplet_keys() == meld_keys_of(req.melds@, MeldType::PON),
            open_info.kan_keys() == meld_keys_of(req.melds@, MeldType::MINKAN),
            tiles14@ == hand_of(*req),
            all_tiles@ == all_tiles_of(*req),
            win_tile == win_of(*req),
            dora <= 3_000_000,
            ura <= 3_000_000,
            aka <= 20_000,
            dora == dora_han_of(*req),
            ura == ura_han_of(*req),
            aka == aka_han_of(*req),
            view_of_best(best) == best_upto(*req, ds, sv, i as int),
        decreases patterns.len() - i,
    {
        let cand = score_candidate(
            req,
            &patterns[i],
            &meld_blocks_v,
            menzen,
            &open_info,
            &all_tiles,
            win_tile,
            dora,
            ura,
            aka,
            Ghost(ds[i as int]),
        );
        best = match cand {
            None => best,
            Some(c) => match best {
                None => Some(c),
                Some(b) => if c.total_points > b.total_points {
                    Some(c)
                } else {
                    Some(b)
                },
            },
        };
        i += 1;
    }
    match best {
        Some(b) => Ok(b),
        None => Ok(message_result(String::from_str("役なし（和了不可）"))),
    }
}


// ---------------------------------------------------------------------------
// Laws of the selected result
// ---------------------------------------------------------------------------

proof fn lemma_best_source(
    req: ScoreRequest,
    ds: Seq<(Seq<Block>, TileKey)>,
    init: Option<ScoreView>,
    i: int,
)
    requires
        0 <= i <= ds.len(),
    ensures
        best_upto(req, ds, init, i) == init || exists|j: int|
            0 <= j < i && best_upto(req, ds, init, i) == #[trigger] standard_view(req, ds[j]),
    decreases i,
{
    if i > 0 {
        lemma_best_source(req, ds, init, i - 1);
        let prev = best_upto(req, ds, init, i - 1);
        let c = standard_view(req, ds[i - 1]);
        if best_upto(req, ds, init, i) != prev {
            assert(best_upto(req, ds, init, i) == c);
        } else if prev != init {
            let j = choose|j: int|
                0 <= j < i - 1 && prev == #[trigger] standard_view(req, ds[j]);
            assert(best_upto(req, ds, init, i) == standard_view(req, ds[j]));
        }
    }
}

proof fn lemma_standard_fu(req: ScoreRequest, d: (Seq<Block>, TileKey))
    ensures
        standard_view(req, d) is Some ==> standard_view(req, d)->0.fu % 10 == 0,
{
    let m = model_of(req, d);
    lemma_fu_rules(m, win_of(req), req.win_type, m.menzen, req.round_wind, req.seat_wind);
}

/// The selected result's fu is a multiple of 10, except that it is 25
/// exactly when the hand is seven pairs and that candidate is the result.
pub proof fn lemma_result_fu(req: ScoreRequest)
    requires
        request_readable(req),
    ensures
        score_view(req).fu == 25 <==> (special_of(hand_of(req), win_of(req), req.melds@.len() > 0)
            == Some(SpecialHand::Chiitoitsu) && special_view(req) == Some(score_view(req))),
        score_view(req).fu != 25 ==> score_view(req).fu % 10 == 0,
{
    let mb = meld_blocks(req.melds@);
    if mb.len() <= 4 {
        let n = (4 - mb.len()) as nat;
        let ds = decompositions(hand_of(req), n);
        if ds.len() > 0 {
            let sv = special_view(req);
            lemma_best_source(req, ds, sv, ds.len() as int);
            let b = best_upto(req, ds, sv, ds.len() as int);
            if b != sv && b is Some {
                let j = choose|j: int|
                    0 <= j < ds.len() && b == #[trigger] standard_view(req, ds[j]);
                lemma_standard_fu(req, ds[j]);
                if special_view(req) == Some(score_view(req)) {
                    assert(sv == b);
                }
            }
        }
    }
}

/// A result with a limit hand carries no standard han: its han is only the
/// dora, hidden dora and red-five count.
pub proof fn lemma_limit_excludes_han(req: ScoreRequest)
    requires
        request_readable(req),
    ensures
        score_view(req).yakuman > 0 ==> score_view(req).han == score_view(req).dora_han
            + score_view(req).ura_dora_han + score_view(req).aka_dora_han,
{
    let mb = meld_blocks(req.melds@);
    if mb.len() <= 4 {
        let n = (4 - mb.len()) as nat;
        let ds = decompositions(hand_of(req), n);
        if ds.len() > 0 {
            let sv = special_view(req);
            lemma_best_source(req, ds, sv, ds.len() as int);
            let b = best_upto(req, ds, sv, ds.len() as int);
            if b != sv && b is Some {
                let j = choose|j: int|
                    0 <= j < ds.len() && b == #[trigger] standard_view(req, ds[j]);
            }
        }
    }
}


/// A candidate scored at 20 fu is a concealed self-draw of pinfu shape: all
/// groups runs, the head not a value tile, a two-sided wait.
proof fn lemma_standard_twenty(req: ScoreRequest, d: (Seq<Block>, TileKey))
    ensures
        standard_view(req, d) is Some && standard_view(req, d)->0.fu == 20 ==> {
            let m = model_of(req, d);
            &&& req.win_type == WinType::TSUMO
            &&& m.menzen
            &&& pinfu_shape(
                m.blocks,
                m.pair_key,
                req.round_wind,
                req.seat_wind,
                pattern_wait(m, win_of(req), WinType::TSUMO).wait_type,
            )
        },
{
    let m = model_of(req, d);
    lemma_fu_rules(m, win_of(req), req.win_type, m.menzen, req.round_wind, req.seat_wind);
}

/// A selected result of 20 fu comes from a concealed, self-drawn candidate
/// of pinfu shape; no other path yields 20.
pub proof fn lemma_result_twenty_fu(req: ScoreRequest)
    requires
        request_readable(req),
    ensures
        score_view(req).fu == 20 ==> req.win_type == WinType::TSUMO && concealed_of(req) && exists|
            j: int,
        |
            0 <= j < decompositions(hand_of(req), blocks_needed_of(req) as nat).len() && {
                let m = model_of(
                    req,
                    #[trigger] decompositions(hand_of(req), blocks_needed_of(req) as nat)[j],
                );
                pinfu_shape(
                    m.blocks,
                    m.pair_key,
                    req.round_wind,
                    req.seat_wind,
                    pattern_wait(m, win_of(req), WinType::TSUMO).wait_type,
                )
            },
{
    let mb = meld_blocks(req.melds@);
    if mb.len() <= 4 {
        let n = (4 - mb.len()) as nat;
        let ds = decompositions(hand_of(req), n);
        if ds.len() > 0 {
            let sv = special_view(req);
            lemma_best_source(req, ds, sv, ds.len() as int);
            let b = best_upto(req, ds, sv, ds.len() as int);
            if b != sv && b is Some {
                let j = choose|j: int|
                    0 <= j < ds.len() && b == #[trigger] standard_view(req, ds[j]);
                lemma_standard_twenty(req, ds[j]);
                assert(blocks_needed_of(req) as nat == n);
                let dsn = decompositions(hand_of(req), blocks_needed_of(req) as nat);
                assert(dsn[j] == ds[j]);
            }
        }
    }
}

} // verus!
