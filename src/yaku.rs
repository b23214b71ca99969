use vstd::prelude::*;

use crate::decompose::{kan_marks, triplet_marks, Block, HandPattern, PatternModel};
use crate::fu::{
    first_set_from, detect_wait_info, detect_wait_type, is_pinfu_shape, pattern_wait, pinfu_shape, wind_honor,
    wind_to_honor, WaitType,
};
use crate::special::SpecialHand;
use crate::tile::{is_dragon, Honor, Suit, Tile, TileKey};
use crate::{Riichi, WinType, Wind};

verus! {

/// The scoring bonuses, standard and limit.
#[derive(Debug, Clone, Copy, PartialEq, Eq, Structural)]
pub enum Yaku {
    Riichi,
    DoubleRiichi,
    Ippatsu,
    Rinshan,
    Chankan,
    Haitei,
    Houtei,
    MenzenTsumo,
    Tanyao,
    YakuhaiWhite,
    YakuhaiGreen,
    YakuhaiRed,
    RoundWind,
    SeatWind,
    Toitoi,
    Sanankou,
    Honitsu,
    Chinitsu,
    Ittsuu,
    SanshokuDoujun,
    Junchan,
    Chanta,
    SanshokuDoukou,
    Shousangen,
    Honroutou,
    Sankantsu,
    Pinfu,
    Iipeikou,
    Ryanpeikou,
    Daisangen,
    Daisuushi,
    Shousuushi,
    Tsuuiisou,
    Suukantsu,
    Suuankou,
    SuuankouTanki,
    Chiitoitsu,
    Kokushi,
    Kokushi13,
}

pub open spec fn yaku_name(y: Yaku) -> Seq<char> {
    match y {
        Yaku::Riichi => "立直"@,
        Yaku::DoubleRiichi => "ダブル立直"@,
        Yaku::Ippatsu => "一発"@,
        Yaku::Rinshan => "嶺上開花"@,
        Yaku::Chankan => "搶槓"@,
        Yaku::Haitei => "海底摸月"@,
        Yaku::Houtei => "河底撈魚"@,
        Yaku::MenzenTsumo => "門前清自摸和"@,
        Yaku::Tanyao => "断么九"@,
        Yaku::YakuhaiWhite => "役牌 白"@,
        Yaku::YakuhaiGreen => "役牌 發"@,
        Yaku::YakuhaiRed => "役牌 中"@,
        Yaku::RoundWind => "役牌 場風"@,
        Yaku::SeatWind => "役牌 自風"@,
        Yaku::Toitoi => "対々和"@,
        Yaku::Sanankou => "三暗刻"@,
        Yaku::Honitsu => "混一色"@,
        Yaku::Chinitsu => "清一色"@,
        Yaku::Ittsuu => "一気通貫"@,
        Yaku::SanshokuDoujun => "三色同順"@,
        Yaku::Junchan => "純全帯么九"@,
        Yaku::Chanta => "混全帯么九"@,
        Yaku::SanshokuDoukou => "三色同刻"@,
        Yaku::Shousangen => "小三元"@,
        Yaku::Honroutou => "混老頭"@,
        Yaku::Sankantsu => "三槓子"@,
        Yaku::Pinfu => "平和"@,
        Yaku::Iipeikou => "一盃口"@,
        Yaku::Ryanpeikou => "二盃口"@,
        Yaku::Daisangen => "大三元"@,
        Yaku::Daisuushi => "大四喜"@,
        Yaku::Shousuushi => "小四喜"@,
        Yaku::Tsuuiisou => "字一色"@,
        Yaku::Suukantsu => "四槓子"@,
        Yaku::Suuankou => "四暗刻"@,
        Yaku::SuuankouTanki => "四暗刻単騎"@,
        Yaku::Chiitoitsu => "七対子"@,
        Yaku::Kokushi => "国士無双"@,
        Yaku::Kokushi13 => "国士無双十三面待ち"@,
    }
}

impl Yaku {
    /// The bonus's display name.
    pub fn name(&self) -> (r: String)
        ensures
            r@ == yaku_name(*self),
    {
        let s: &str = match self {
            Yaku::Riichi => "立直",
            Yaku::DoubleRiichi => "ダブル立直",
            Yaku::Ippatsu => "一発",
            Yaku::Rinshan => "嶺上開花",
            Yaku::Chankan => "搶槓",
            Yaku::Haitei => "海底摸月",
            Yaku::Houtei => "河底撈魚",
            Yaku::MenzenTsumo => "門前清自摸和",
            Yaku::Tanyao => "断么九",
            Yaku::YakuhaiWhite => "役牌 白",
            Yaku::YakuhaiGreen => "役牌 發",
            Yaku::YakuhaiRed => "役牌 中",
            Yaku::RoundWind => "役牌 場風",
            Yaku::SeatWind => "役牌 自風",
            Yaku::Toitoi => "対々和",
            Yaku::Sanankou => "三暗刻",
            Yaku::Honitsu => "混一色",
            Yaku::Chinitsu => "清一色",
            Yaku::Ittsuu => "一気通貫",
            Yaku::SanshokuDoujun => "三色同順",
            Yaku::Junchan => "純全帯么九",
            Yaku::Chanta => "混全帯么九",
            Yaku::SanshokuDoukou => "三色同刻",
            Yaku::Shousangen => "小三元",
            Yaku::Honroutou => "混老頭",
            Yaku::Sankantsu => "三槓子",
            Yaku::Pinfu => "平和",
            Yaku::Iipeikou => "一盃口",
            Yaku::Ryanpeikou => "二盃口",
            Yaku::Daisangen => "大三元",
            Yaku::Daisuushi => "大四喜",
            Yaku::Shousuushi => "小四喜",
            Yaku::Tsuuiisou => "字一色",
            Yaku::Suukantsu => "四槓子",
            Yaku::Suuankou => "四暗刻",
            Yaku::SuuankouTanki => "四暗刻単騎",
            Yaku::Chiitoitsu => "七対子",
            Yaku::Kokushi => "国士無双",
            Yaku::Kokushi13 => "国士無双十三面待ち",
        };
        String::from_str(s)
    }
}

#[derive(Debug, Clone)]
pub struct YakuResult {
    pub yakuman: u32,
    pub han: u32,
    pub yaku: Vec<String>,
}

/// A bonus with its han (or, for a limit hand, its multiplier).
pub type Entry = (Yaku, u32);

pub open spec fn opt(c: bool, y: Yaku, h: u32) -> Seq<Entry> {
    if c {
        seq![(y, h)]
    } else {
        seq![]
    }
}

pub open spec fn han_sum(s: Seq<Entry>) -> int
    decreases s.len(),
{
    if s.len() == 0 {
        0
    } else {
        han_sum(s.drop_last()) + s.last().1
    }
}

pub open spec fn names_of(s: Seq<Entry>) -> Seq<Seq<char>> {
    s.map_values(|e: Entry| yaku_name(e.0))
}

pub open spec fn string_views(v: Seq<String>) -> Seq<Seq<char>> {
    v.map_values(|s: String| s@)
}

/// The result reports the entries' names, the limit multipliers' sum, and
/// the standard han's sum unless a limit hand was found.
pub open spec fn result_of(r: YakuResult, standard: Seq<Entry>, limit: Seq<Entry>) -> bool {
    &&& r.yakuman == han_sum(limit)
    &&& r.han == if han_sum(limit) > 0 {
        0
    } else {
        han_sum(standard)
    }
    &&& string_views(r.yaku@) == names_of(standard + limit)
}

pub open spec fn special_entries(sp: SpecialHand) -> (Seq<Entry>, Seq<Entry>) {
    match sp {
        SpecialHand::Chiitoitsu => (seq![(Yaku::Chiitoitsu, 2u32)], seq![]),
        SpecialHand::Kokushi => (seq![], seq![(Yaku::Kokushi, 1u32)]),
        SpecialHand::Kokushi13 => (seq![], seq![(Yaku::Kokushi13, 2u32)]),
    }
}

/// Seven pairs scores 2 han; thirteen orphans is a single limit hand, and
/// double when completed on the duplicated tile.
pub fn eval_special_yaku(sp: SpecialHand) -> (r: YakuResult)
    ensures
        result_of(r, special_entries(sp).0, special_entries(sp).1),
        r.yakuman <= 2,
        r.han <= 2,
{
    let (y, yakuman, han) = match sp {
        SpecialHand::Chiitoitsu => (Yaku::Chiitoitsu, 0u32, 2u32),
        SpecialHand::Kokushi => (Yaku::Kokushi, 1u32, 0u32),
        SpecialHand::Kokushi13 => (Yaku::Kokushi13, 2u32, 0u32),
    };
    let mut names: Vec<String> = Vec::new();
    names.push(y.name());
    proof {
        let e = special_entries(sp);
        lemma_han_sum_push(Seq::<Entry>::empty(), (y, 2u32));
        lemma_han_sum_push(Seq::<Entry>::empty(), (y, 1u32));
        assert(Seq::<Entry>::empty().push((y, 2u32)) =~= seq![(y, 2u32)]);
        assert(Seq::<Entry>::empty().push((y, 1u32)) =~= seq![(y, 1u32)]);
        assert(string_views(names@) =~= names_of(e.0 + e.1));
    }
    YakuResult { yakuman, han, yaku: names }
}

// ---------------------------------------------------------------------------
// Shape predicates
// ---------------------------------------------------------------------------

pub open spec fn set_key_of(b: Block) -> Option<TileKey> {
    match b {
        Block::Koutsu(t, _, _) => Some(t.key()),
        Block::Kantsu(t, _, _, _) => Some(t.key()),
        _ => None,
    }
}

pub open spec fn set_honor(b: Block) -> Option<Honor> {
    match set_key_of(b) {
        Some(k) => if k.suit == Suit::Honor {
            k.honor
        } else {
            None
        },
        None => None,
    }
}

pub open spec fn is_dragon_set(b: Block) -> bool {
    set_honor(b) is Some && is_dragon(set_honor(b)->0)
}

pub open spec fn is_wind_set(b: Block) -> bool {
    set_honor(b) is Some && !is_dragon(set_honor(b)->0)
}

/// A triplet or quad that no meld marks open and that the claimed tile did
/// not complete.
pub open spec fn is_concealed_set(
    b: Block,
    ot: Seq<TileKey>,
    okn: Seq<TileKey>,
    rc: Option<TileKey>,
) -> bool {
    match set_key_of(b) {
        Some(k) => !ot.contains(k) && !okn.contains(k) && rc != Some(k),
        None => false,
    }
}

pub open spec fn count_dragon_sets(bs: Seq<Block>) -> int
    decreases bs.len(),
{
    if bs.len() == 0 {
        0
    } else {
        count_dragon_sets(bs.drop_last()) + if is_dragon_set(bs.last()) {
            1int
        } else {
            0
        }
    }
}

pub open spec fn count_wind_sets(bs: Seq<Block>) -> int
    decreases bs.len(),
{
    if bs.len() == 0 {
        0
    } else {
        count_wind_sets(bs.drop_last()) + if is_wind_set(bs.last()) {
            1int
        } else {
            0
        }
    }
}

pub open spec fn count_kans(bs: Seq<Block>) -> int
    decreases bs.len(),
{
    if bs.len() == 0 {
        0
    } else {
        count_kans(bs.drop_last()) + if bs.last() is Kantsu {
            1int
        } else {
            0
        }
    }
}

pub open spec fn count_concealed_sets(
    bs: Seq<Block>,
    ot: Seq<TileKey>,
    okn: Seq<TileKey>,
    rc: Option<TileKey>,
) -> int
    decreases bs.len(),
{
    if bs.len() == 0 {
        0
    } else {
        count_concealed_sets(bs.drop_last(), ot, okn, rc) + if is_concealed_set(
            bs.last(),
            ot,
            okn,
            rc,
        ) {
            1int
        } else {
            0
        }
    }
}

pub open spec fn is_simple_tile(t: Tile) -> bool {
    t.suit != Suit::Honor && t.num != 1 && t.num != 9
}

pub open spec fn all_simples(ts: Seq<Tile>) -> bool {
    forall|j: int| 0 <= j < ts.len() ==> is_simple_tile(#[trigger] ts[j])
}

pub open spec fn all_sets(bs: Seq<Block>) -> bool {
    forall|i: int| 0 <= i < bs.len() ==> (#[trigger] bs[i]) is Koutsu || bs[i] is Kantsu
}

/// Position of the first suited tile from `i` on (`ts.len()` if none).
pub open spec fn first_suited(ts: Seq<Tile>, i: int) -> int
    decreases ts.len() - i,
{
    if i >= ts.len() {
        ts.len() as int
    } else if ts[i].suit != Suit::Honor {
        i
    } else {
        first_suited(ts, i + 1)
    }
}

pub open spec fn has_honor_tile(ts: Seq<Tile>) -> bool {
    exists|j: int| 0 <= j < ts.len() && (#[trigger] ts[j]).suit == Suit::Honor
}

/// One suit only, with or without honors.
pub open spec fn purity_entries(ts: Seq<Tile>, menzen: bool) -> Seq<Entry> {
    let f = first_suited(ts, 0);
    if f < ts.len() && forall|q: int|
        0 <= q < ts.len() ==> (#[trigger] ts[q]).suit == Suit::Honor || ts[q].suit == ts[f].suit {
        if has_honor_tile(ts) {
            seq![
                (Yaku::Honitsu, if menzen {
                    3u32
                } else {
                    2u32
                }),
            ]
        } else {
            seq![
                (Yaku::Chinitsu, if menzen {
                    6u32
                } else {
                    5u32
                }),
            ]
        }
    } else {
        seq![]
    }
}

pub open spec fn run_start(b: Block) -> Option<Tile> {
    match b {
        Block::Shuntsu(a, _, _) => Some(a),
        _ => None,
    }
}

pub open spec fn run_present(bs: Seq<Block>, s: Suit, n: u8) -> bool {
    exists|i: int|
        0 <= i < bs.len() && (#[trigger] run_start(bs[i])) is Some && run_start(bs[i])->0.suit
            == s && run_start(bs[i])->0.num == n
}

pub open spec fn ittsuu_in(bs: Seq<Block>, s: Suit) -> bool {
    run_present(bs, s, 1) && run_present(bs, s, 4) && run_present(bs, s, 7)
}

pub open spec fn is_ittsuu(bs: Seq<Block>) -> bool {
    ittsuu_in(bs, Suit::Man) || ittsuu_in(bs, Suit::Pin) || ittsuu_in(bs, Suit::Sou)
}

pub open spec fn doujun_at(bs: Seq<Block>, n: u8) -> bool {
    run_present(bs, Suit::Man, n) && run_present(bs, Suit::Pin, n) && run_present(bs, Suit::Sou, n)
}

pub open spec fn is_sanshoku_doujun(bs: Seq<Block>) -> bool {
    exists|n: u8| 1 <= n <= 7 && #[trigger] doujun_at(bs, n)
}

pub open spec fn set_present(bs: Seq<Block>, s: Suit, n: u8) -> bool {
    exists|i: int|
        0 <= i < bs.len() && (#[trigger] set_key_of(bs[i])) is Some && set_key_of(bs[i])->0.suit
            == s && set_key_of(bs[i])->0.num == n
}

pub open spec fn doukou_at(bs: Seq<Block>, n: u8) -> bool {
    set_present(bs, Suit::Man, n) && set_present(bs, Suit::Pin, n) && set_present(bs, Suit::Sou, n)
}

pub open spec fn sanshoku_doukou_holds(bs: Seq<Block>) -> bool {
    exists|n: u8| 1 <= n <= 9 && #[trigger] doukou_at(bs, n)
}

/// The group holds a terminal or honor: a 1-2-3 or 7-8-9 run, or a
/// terminal or honor triplet or quad.
pub open spec fn block_has_outside(b: Block) -> bool {
    match b {
        Block::Shuntsu(a, _, c) => (a.num == 1 && c.num == 3) || (a.num == 7 && c.num == 9),
        Block::Koutsu(t, _, _) => t.key().is_terminal_or_honor(),
        Block::Kantsu(t, _, _, _) => t.key().is_terminal_or_honor(),
        Block::Toitsu(_, _) => true,
    }
}

pub open spec fn has_honor_run(bs: Seq<Block>) -> bool {
    exists|i: int|
        0 <= i < bs.len() && (#[trigger] run_start(bs[i])) is Some && run_start(bs[i])->0.suit
            == Suit::Honor
}

pub open spec fn is_honor_set(b: Block) -> bool {
    set_key_of(b) is Some && set_key_of(b)->0.suit == Suit::Honor
}

pub open spec fn has_honor_group(bs: Seq<Block>, pk: Option<TileKey>) -> bool {
    (exists|i: int| 0 <= i < bs.len() && #[trigger] is_honor_set(bs[i])) || (pk is Some
        && pk->0.suit == Suit::Honor)
}

/// Every group and the head hold a terminal or honor: pure (no honors
/// anywhere) or mixed.
pub open spec fn chanta_entries(bs: Seq<Block>, pk: Option<TileKey>, menzen: bool) -> Seq<Entry> {
    if !has_honor_run(bs) && pk is Some && pk->0.is_terminal_or_honor() && forall|i: int|
        0 <= i < bs.len() ==> block_has_outside(#[trigger] bs[i]) {
        if !has_honor_group(bs, pk) {
            seq![
                (Yaku::Junchan, if menzen {
                    3u32
                } else {
                    2u32
                }),
            ]
        } else {
            seq![
                (Yaku::Chanta, if menzen {
                    2u32
                } else {
                    1u32
                }),
            ]
        }
    } else {
        seq![]
    }
}

pub open spec fn is_dragon_key(pk: Option<TileKey>) -> bool {
    pk is Some && pk->0.suit == Suit::Honor && pk->0.honor is Some && is_dragon(pk->0.honor->0)
}

pub open spec fn is_wind_key(pk: Option<TileKey>) -> bool {
    pk is Some && pk->0.suit == Suit::Honor && pk->0.honor is Some && !is_dragon(pk->0.honor->0)
}

pub open spec fn honroutou_holds(bs: Seq<Block>, pk: Option<TileKey>) -> bool {
    &&& forall|i: int| 0 <= i < bs.len() ==> !((#[trigger] bs[i]) is Shuntsu)
    &&& forall|i: int|
        0 <= i < bs.len() && (#[trigger] set_key_of(bs[i])) is Some ==> set_key_of(
            bs[i],
        )->0.is_terminal_or_honor()
    &&& pk is Some
    &&& pk->0.is_terminal_or_honor()
}

pub open spec fn block_all_honor(b: Block) -> bool {
    match b {
        Block::Shuntsu(a, _, _) => a.suit == Suit::Honor,
        Block::Koutsu(t, _, _) => t.suit == Suit::Honor,
        Block::Kantsu(t, _, _, _) => t.suit == Suit::Honor,
        Block::Toitsu(_, _) => true,
    }
}

pub open spec fn tsuuiisou_holds(bs: Seq<Block>, pk: Option<TileKey>) -> bool {
    (forall|i: int| 0 <= i < bs.len() ==> block_all_honor(#[trigger] bs[i])) && pk is Some
        && pk->0.suit == Suit::Honor
}

pub open spec fn slot_suit(x: int) -> Suit {
    if x < 9 {
        Suit::Man
    } else if x < 18 {
        Suit::Pin
    } else {
        Suit::Sou
    }
}

/// Number of runs of suit `s` starting at rank `n`.
pub open spec fn run_count(bs: Seq<Block>, s: Suit, n: u8) -> int
    decreases bs.len(),
{
    if bs.len() == 0 {
        0
    } else {
        run_count(bs.drop_last(), s, n) + if run_start(bs.last()) is Some && run_start(
            bs.last(),
        )->0.suit == s && run_start(bs.last())->0.num == n {
            1int
        } else {
            0
        }
    }
}

/// Number of suited run starts, among the first `x` of the 27, held by two
/// or more runs.
pub open spec fn repeated_runs(bs: Seq<Block>, x: int) -> int
    decreases x,
{
    if x <= 0 {
        0
    } else {
        repeated_runs(bs, x - 1) + if run_count(bs, slot_suit(x - 1), ((x - 1) % 9 + 1) as u8)
            >= 2 {
            1int
        } else {
            0
        }
    }
}

pub open spec fn block_yakuhai(b: Block, rw: Wind, sw: Wind) -> Seq<Entry> {
    match set_honor(b) {
        Some(h) => opt(h == Honor::White, Yaku::YakuhaiWhite, 1) + opt(
            h == Honor::Green,
            Yaku::YakuhaiGreen,
            1,
        ) + opt(h == Honor::Red, Yaku::YakuhaiRed, 1) + opt(h == wind_honor(rw), Yaku::RoundWind, 1)
            + opt(h == wind_honor(sw), Yaku::SeatWind, 1),
        None => seq![],
    }
}

/// Value-tile bonuses of the groups, in group order.
pub open spec fn yakuhai_entries(bs: Seq<Block>, rw: Wind, sw: Wind) -> Seq<Entry>
    decreases bs.len(),
{
    if bs.len() == 0 {
        seq![]
    } else {
        yakuhai_entries(bs.drop_last(), rw, sw) + block_yakuhai(bs.last(), rw, sw)
    }
}

/// Situational bonuses, self-draw while concealed, and all simples.
pub open spec fn situational_entries(
    tiles: Seq<Tile>,
    menzen: bool,
    win_type: WinType,
    riichi: Riichi,
    ippatsu: bool,
    rinshan: bool,
    chankan: bool,
    haitei: bool,
    houtei: bool,
) -> Seq<Entry> {
    Seq::<Entry>::empty() + opt(riichi == Riichi::DOUBLE, Yaku::DoubleRiichi, 2) + opt(
        riichi == Riichi::RIICHI,
        Yaku::Riichi,
        1,
    ) + opt(ippatsu, Yaku::Ippatsu, 1) + opt(rinshan, Yaku::Rinshan, 1) + opt(
        chankan,
        Yaku::Chankan,
        1,
    ) + opt(haitei, Yaku::Haitei, 1) + opt(houtei, Yaku::Houtei, 1) + opt(
        menzen && win_type == WinType::TSUMO,
        Yaku::MenzenTsumo,
        1,
    ) + opt(all_simples(tiles), Yaku::Tanyao, 1)
}

/// All triplets, three concealed triplets, suit purity, straight, mixed
/// triple run, terminal-inclusive groups, triple triplets.
pub open spec fn shape_entries(
    p: PatternModel,
    tiles: Seq<Tile>,
    rc: Option<TileKey>,
) -> Seq<Entry> {
    let bs = p.blocks;
    let menzen = p.menzen;
    let m21: u32 = if menzen {
        2
    } else {
        1
    };
    Seq::<Entry>::empty() + opt(all_sets(bs), Yaku::Toitoi, 2) + opt(
        count_concealed_sets(bs, p.open_triplets, p.open_kans, rc) >= 3,
        Yaku::Sanankou,
        2,
    ) + purity_entries(tiles, menzen) + opt(is_ittsuu(bs), Yaku::Ittsuu, m21) + opt(
        is_sanshoku_doujun(bs),
        Yaku::SanshokuDoujun,
        m21,
    ) + chanta_entries(bs, p.pair_key, menzen) + opt(
        sanshoku_doukou_holds(bs),
        Yaku::SanshokuDoukou,
        2,
    )
}

/// Small dragons, all terminals and honors, three quads, pinfu, and the
/// repeated-run bonuses.
pub open spec fn closing_entries(p: PatternModel, rw: Wind, sw: Wind, wt: WaitType) -> Seq<Entry> {
    let bs = p.blocks;
    let menzen = p.menzen;
    let reps = repeated_runs(bs, 27);
    Seq::<Entry>::empty() + opt(
        count_dragon_sets(bs) == 2 && is_dragon_key(p.pair_key),
        Yaku::Shousangen,
        2,
    ) + opt(honroutou_holds(bs, p.pair_key), Yaku::Honroutou, 2) + opt(
        count_kans(bs) == 3,
        Yaku::Sankantsu,
        2,
    ) + opt(menzen && pinfu_shape(bs, p.pair_key, rw, sw, wt), Yaku::Pinfu, 1) + opt(
        menzen && reps == 2,
        Yaku::Ryanpeikou,
        3,
    ) + opt(menzen && reps == 1, Yaku::Iipeikou, 1)
}

/// The standard bonuses of a candidate, in the order they are reported.
pub open spec fn standard_entries(
    p: PatternModel,
    tiles: Seq<Tile>,
    win_tile: Tile,
    win_type: WinType,
    rw: Wind,
    sw: Wind,
    riichi: Riichi,
    ippatsu: bool,
    rinshan: bool,
    chankan: bool,
    haitei: bool,
    houtei: bool,
) -> Seq<Entry> {
    let rc = pattern_wait(p, win_tile, win_type).ron_completed_triplet;
    let wt = pattern_wait(p, win_tile, WinType::TSUMO).wait_type;
    situational_entries(tiles, p.menzen, win_type, riichi, ippatsu, rinshan, chankan, haitei, houtei)
        + yakuhai_entries(p.blocks, rw, sw) + shape_entries(p, tiles, rc) + closing_entries(
        p,
        rw,
        sw,
        wt,
    )
}

/// The limit hands of a candidate, with their multipliers.
pub open spec fn limit_entries(p: PatternModel, win_tile: Tile, win_type: WinType) -> Seq<Entry> {
    let bs = p.blocks;
    let rc = pattern_wait(p, win_tile, win_type).ron_completed_triplet;
    let concealed = count_concealed_sets(bs, p.open_triplets, p.open_kans, rc);
    let winds = count_wind_sets(bs);
    let tanki = p.pair_key == Some(win_tile.key());
    Seq::<Entry>::empty() + opt(count_dragon_sets(bs) == 3, Yaku::Daisangen, 1) + opt(
        winds == 4,
        Yaku::Daisuushi,
        1,
    ) + opt(winds == 3 && is_wind_key(p.pair_key), Yaku::Shousuushi, 1) + opt(
        tsuuiisou_holds(bs, p.pair_key),
        Yaku::Tsuuiisou,
        1,
    ) + opt(count_kans(bs) == 4, Yaku::Suukantsu, 1) + opt(
        concealed == 4 && tanki,
        Yaku::SuuankouTanki,
        2,
    ) + opt(concealed == 4 && !tanki, Yaku::Suuankou, 1)
}


pub open spec fn entry_han(e: Entry) -> u32 {
    e.1
}

pub open spec fn opt_seq(e: Option<Entry>) -> Seq<Entry> {
    match e {
        Some(x) => seq![x],
        None => seq![],
    }
}

proof fn lemma_han_sum_push(s: Seq<Entry>, e: Entry)
    ensures
        han_sum(s.push(e)) == han_sum(s) + e.1,
{
    assert(s.push(e).drop_last() =~= s);
}

fn add_entry(items: &mut Vec<Entry>, han: &mut u32, e: Option<Entry>)
    requires
        *old(han) == han_sum(old(items)@),
        *old(han) <= 100000,
        e is Some ==> entry_han(e->0) <= 6,
    ensures
        final(items)@ == old(items)@ + opt_seq(e),
        *final(han) == han_sum(final(items)@),
        *final(han) <= *old(han) + 6,
{
    match e {
        Some(x) => {
            proof {
                lemma_han_sum_push(items@, x);
                assert(items@.push(x) =~= items@ + seq![x]);
            }
            items.push(x);
            *han = *han + x.1;
        },
        None => {
            proof {
                assert(items@ + Seq::<Entry>::empty() =~= items@);
            }
        },
    }
}

fn add_if(items: &mut Vec<Entry>, han: &mut u32, c: bool, y: Yaku, h: u32)
    requires
        *old(han) == han_sum(old(items)@),
        *old(han) <= 100000,
        h <= 6,
    ensures
        final(items)@ == old(items)@ + opt(c, y, h),
        *final(han) == han_sum(final(items)@),
        *final(han) <= *old(han) + 6,
{
    if c {
        add_entry(items, han, Some((y, h)));
    } else {
        add_entry(items, han, None);
    }
}

fn is_tanyao(tiles: &[Tile]) -> (r: bool)
    ensures
        r == all_simples(tiles@),
{
    let mut i: usize = 0;
    while i < tiles.len()
        invariant
            i <= tiles@.len(),
            forall|j: int| 0 <= j < i ==> is_simple_tile(#[trigger] tiles@[j]),
        decreases tiles.len() - i,
    {
        let t = tiles[i];
        if t.suit == Suit::Honor || t.num == 1 || t.num == 9 {
            return false;
        }
        i += 1;
    }
    true
}

fn set_key(b: &Block) -> (r: Option<TileKey>)
    ensures
        r == set_key_of(*b),
{
    match b {
        Block::Koutsu(t, _, _) => Some(TileKey::from_tile(t)),
        Block::Kantsu(t, _, _, _) => Some(TileKey::from_tile(t)),
        _ => None,
    }
}

fn honor_of_set(b: &Block) -> (r: Option<Honor>)
    ensures
        r == set_honor(*b),
{
    match set_key(b) {
        Some(k) => if k.suit == Suit::Honor {
            k.honor
        } else {
            None
        },
        None => None,
    }
}

fn is_dragon_honor(h: Honor) -> (r: bool)
    ensures
        r == is_dragon(h),
{
    matches!(h, Honor::White | Honor::Green | Honor::Red)
}

/// Counts of the kinds of triplets and quads among the groups.
struct SetCounts {
    dragons: u32,
    winds: u32,
    kans: u32,
    concealed: u32,
}

fn count_sets(pattern: &HandPattern, rc: Option<TileKey>) -> (r: SetCounts)
    requires
        pattern.wf(),
    ensures
        r.dragons == count_dragon_sets(pattern.blocks@),
        r.winds == count_wind_sets(pattern.blocks@),
        r.kans == count_kans(pattern.blocks@),
        r.concealed == count_concealed_sets(
            pattern.blocks@,
            triplet_marks(pattern.open_info),
            kan_marks(pattern.open_info),
            rc,
        ),
{
    let ghost bs = pattern.blocks@;
    let mut r = SetCounts { dragons: 0, winds: 0, kans: 0, concealed: 0 };
    let mut i: usize = 0;
    while i < pattern.blocks.len()
        invariant
            i <= bs.len(),
            bs == pattern.blocks@,
            bs.len() <= 4,
            r.dragons == count_dragon_sets(bs.subrange(0, i as int)),
            r.winds == count_wind_sets(bs.subrange(0, i as int)),
            r.kans == count_kans(bs.subrange(0, i as int)),
            r.concealed == count_concealed_sets(
                bs.subrange(0, i as int),
                triplet_marks(pattern.open_info),
                kan_marks(pattern.open_info),
                rc,
            ),
            r.dragons <= i && r.winds <= i && r.kans <= i && r.concealed <= i,
        decreases pattern.blocks.len() - i,
    {
        let b = &pattern.blocks[i];
        proof {
            assert(bs.subrange(0, i + 1).drop_last() =~= bs.subrange(0, i as int));
        }
        if let Some(h) = honor_of_set(b) {
            if is_dragon_honor(h) {
                r.dragons = r.dragons + 1;
            } else {
                r.winds = r.winds + 1;
            }
        }
        if matches!(b, Block::Kantsu(_, _, _, _)) {
            r.kans = r.kans + 1;
        }
        if let Some(k) = set_key(b) {
            let open = match &pattern.open_info {
                Some(oi) => oi.is_open_triplet(k) || oi.is_open_kan(k),
                None => false,
            };
            if !open && rc != Some(k) {
                r.concealed = r.concealed + 1;
            }
        }
        i += 1;
    }
    proof {
        assert(bs.subrange(0, bs.len() as int) =~= bs);
    }
    r
}

fn is_toitoi(pattern: &HandPattern) -> (r: bool)
    ensures
        r == all_sets(pattern.blocks@),
{
    let mut i: usize = 0;
    while i < pattern.blocks.len()
        invariant
            i <= pattern.blocks@.len(),
            forall|j: int|
                0 <= j < i ==> (#[trigger] pattern.blocks@[j]) is Koutsu
                    || pattern.blocks@[j] is Kantsu,
        decreases pattern.blocks.len() - i,
    {
        if !matches!(pattern.blocks[i], Block::Koutsu(_, _, _) | Block::Kantsu(_, _, _, _)) {
            return false;
        }
        i += 1;
    }
    true
}

proof fn lemma_first_suited(ts: Seq<Tile>, i: int)
    requires
        0 <= i <= ts.len(),
    ensures
        i <= first_suited(ts, i) <= ts.len(),
        first_suited(ts, i) < ts.len() ==> ts[first_suited(ts, i)].suit != Suit::Honor,
        forall|j: int| i <= j < first_suited(ts, i) ==> ts[j].suit == Suit::Honor,
    decreases ts.len() - i,
{
    if i < ts.len() && ts[i].suit == Suit::Honor {
        lemma_first_suited(ts, i + 1);
    }
}

fn honitsu_chinitsu(tiles: &[Tile], menzen: bool) -> (r: Option<Entry>)
    ensures
        opt_seq(r) == purity_entries(tiles@, menzen),
        r is Some ==> entry_han(r->0) <= 6,
{
    let ghost ts = tiles@;
    proof {
        lemma_first_suited(ts, 0);
    }
    let mut suit_seen: Option<Suit> = None;
    let mut has_honor = false;
    let mut i: usize = 0;
    while i < tiles.len()
        invariant
            i <= ts.len(),
            ts == tiles@,
            first_suited(ts, 0) <= ts.len(),
            forall|j: int| 0 <= j < first_suited(ts, 0) ==> ts[j].suit == Suit::Honor,
            first_suited(ts, 0) < ts.len() ==> ts[first_suited(ts, 0)].suit != Suit::Honor,
            suit_seen is None ==> first_suited(ts, 0) >= i,
            suit_seen is Some ==> first_suited(ts, 0) < i && suit_seen->0 == ts[first_suited(
                ts,
                0,
            )].suit,
            forall|q: int|
                0 <= q < i ==> (#[trigger] ts[q]).suit == Suit::Honor || suit_seen == Some(
                    ts[q].suit,
                ),
            has_honor == exists|q: int| 0 <= q < i && (#[trigger] ts[q]).suit == Suit::Honor,
        decreases tiles.len() - i,
    {
        let t = tiles[i];
        if t.suit == Suit::Honor {
            has_honor = true;
        } else {
            match suit_seen {
                None => {
                    suit_seen = Some(t.suit);
                },
                Some(s) => {
                    if s != t.suit {
                        proof {
                            let f = first_suited(ts, 0);
                            assert(!(ts[i as int].suit == Suit::Honor || ts[i as int].suit
                                == ts[f].suit));
                        }
                        return None;
                    }
                },
            }
        }
        i += 1;
    }
    if suit_seen.is_none() {
        return None;
    }
    if has_honor {
        Some((Yaku::Honitsu, if menzen { 3 } else { 2 }))
    } else {
        Some((Yaku::Chinitsu, if menzen { 6 } else { 5 }))
    }
}

fn has_run(pattern: &HandPattern, s: Suit, n: u8) -> (r: bool)
    ensures
        r == run_present(pattern.blocks@, s, n),
{
    let ghost bs = pattern.blocks@;
    let mut i: usize = 0;
    while i < pattern.blocks.len()
        invariant
            i <= bs.len(),
            bs == pattern.blocks@,
            forall|j: int|
                0 <= j < i ==> !((#[trigger] run_start(bs[j])) is Some && run_start(bs[j])->0.suit
                    == s && run_start(bs[j])->0.num == n),
        decreases pattern.blocks.len() - i,
    {
        if let Block::Shuntsu(a, _, _) = pattern.blocks[i] {
            if a.suit == s && a.num == n {
                assert(run_start(bs[i as int]) == Some(a));
                return true;
            }
        }
        i += 1;
    }
    false
}

fn ittsuu(pattern: &HandPattern) -> (r: bool)
    ensures
        r == is_ittsuu(pattern.blocks@),
{
    (has_run(pattern, Suit::Man, 1) && has_run(pattern, Suit::Man, 4) && has_run(
        pattern,
        Suit::Man,
        7,
    )) || (has_run(pattern, Suit::Pin, 1) && has_run(pattern, Suit::Pin, 4)
        && has_run(pattern, Suit::Pin, 7)) || (has_run(pattern, Suit::Sou, 1)
        && has_run(pattern, Suit::Sou, 4) && has_run(pattern, Suit::Sou, 7))
}

fn sanshoku_doujun(pattern: &HandPattern) -> (r: bool)
    ensures
        r == is_sanshoku_doujun(pattern.blocks@),
{
    let mut n: u8 = 1;
    while n <= 7
        invariant
            1 <= n <= 8,
            forall|m: u8| 1 <= m < n ==> !#[trigger] doujun_at(pattern.blocks@, m),
        decreases 8 - n,
    {
        if has_run(pattern, Suit::Man, n) && has_run(pattern, Suit::Pin, n)
            && has_run(pattern, Suit::Sou, n) {
            assert(doujun_at(pattern.blocks@, n));
            return true;
        }
        n += 1;
    }
    false
}

fn has_set(pattern: &HandPattern, s: Suit, n: u8) -> (r: bool)
    ensures
        r == set_present(pattern.blocks@, s, n),
{
    let ghost bs = pattern.blocks@;
    let mut i: usize = 0;
    while i < pattern.blocks.len()
        invariant
            i <= bs.len(),
            bs == pattern.blocks@,
            forall|j: int|
                0 <= j < i ==> !((#[trigger] set_key_of(bs[j])) is Some && set_key_of(
                    bs[j],
                )->0.suit == s && set_key_of(bs[j])->0.num == n),
        decreases pattern.blocks.len() - i,
    {
        if let Some(k) = set_key(&pattern.blocks[i]) {
            if k.suit == s && k.num == n {
                return true;
            }
        }
        i += 1;
    }
    false
}

fn is_sanshoku_doukou(pattern: &HandPattern) -> (r: bool)
    ensures
        r == sanshoku_doukou_holds(pattern.blocks@),
{
    let mut n: u8 = 1;
    while n <= 9
        invariant
            1 <= n <= 10,
            forall|m: u8| 1 <= m < n ==> !#[trigger] doukou_at(pattern.blocks@, m),
        decreases 10 - n,
    {
        if has_set(pattern, Suit::Man, n) && has_set(pattern, Suit::Pin, n)
            && has_set(pattern, Suit::Sou, n) {
            assert(doukou_at(pattern.blocks@, n));
            return true;
        }
        n += 1;
    }
    false
}

fn chanta_junchan(pattern: &HandPattern, menzen: bool) -> (r: Option<Entry>)
    ensures
        opt_seq(r) == chanta_entries(pattern.blocks@, pattern.pair_key, menzen),
        r is Some ==> entry_han(r->0) <= 6,
{
    let ghost bs = pattern.blocks@;
    let mut all_outside = true;
    let mut any_honor = false;
    let mut i: usize = 0;
    while i < pattern.blocks.len()
        invariant
            i <= bs.len(),
            bs == pattern.blocks@,
            forall|j: int|
                0 <= j < i ==> !((#[trigger] run_start(bs[j])) is Some && run_start(bs[j])->0.suit
                    == Suit::Honor),
            all_outside == forall|j: int| 0 <= j < i ==> block_has_outside(#[trigger] bs[j]),
            any_honor == exists|j: int| 0 <= j < i && #[trigger] is_honor_set(bs[j]),
        decreases pattern.blocks.len() - i,
    {
        let b = pattern.blocks[i];
        match b {
            Block::Shuntsu(a, _, c) => {
                if a.suit == Suit::Honor {
                    proof {
                        assert(run_start(bs[i as int]) == Some(a));
                        assert(has_honor_run(bs));
                    }
                    return None;
                }
                if !((a.num == 1 && c.num == 3) || (a.num == 7 && c.num == 9)) {
                    all_outside = false;
                }
            },
            Block::Koutsu(t, _, _) | Block::Kantsu(t, _, _, _) => {
                let k = TileKey::from_tile(&t);
                if !k.is_terminal_or_honor_key() {
                    all_outside = false;
                }
                if k.suit == Suit::Honor {
                    any_honor = true;
                }
            },
            _ => {},
        }
        proof {
            if is_honor_set(bs[i as int]) {
                assert(any_honor);
                assert(exists|j: int| 0 <= j < i + 1 && #[trigger] is_honor_set(bs[j]));
            } else {
                assert((exists|j: int| 0 <= j < i + 1 && #[trigger] is_honor_set(bs[j])) ==> (
                exists|j: int| 0 <= j < i && #[trigger] is_honor_set(bs[j])));
            }
        }
        i += 1;
    }
    let pk = match pattern.pair_key {
        Some(pk) => pk,
        None => return None,
    };
    if !pk.is_terminal_or_honor_key() {
        all_outside = false;
    }
    if pk.suit == Suit::Honor {
        any_honor = true;
    }
    if !all_outside {
        return None;
    }
    if !any_honor {
        return Some((Yaku::Junchan, if menzen { 3 } else { 2 }));
    }
    Some((Yaku::Chanta, if menzen { 2 } else { 1 }))
}

fn is_honroutou(pattern: &HandPattern) -> (r: bool)
    ensures
        r == honroutou_holds(pattern.blocks@, pattern.pair_key),
{
    let ghost bs = pattern.blocks@;
    let mut i: usize = 0;
    while i < pattern.blocks.len()
        invariant
            i <= bs.len(),
            bs == pattern.blocks@,
            forall|j: int| 0 <= j < i ==> !((#[trigger] bs[j]) is Shuntsu),
            forall|j: int|
                0 <= j < i && (#[trigger] set_key_of(bs[j])) is Some ==> set_key_of(
                    bs[j],
                )->0.is_terminal_or_honor(),
        decreases pattern.blocks.len() - i,
    {
        let b = &pattern.blocks[i];
        if matches!(b, Block::Shuntsu(_, _, _)) {
            return false;
        }
        if let Some(k) = set_key(b) {
            if !k.is_terminal_or_honor_key() {
                return false;
            }
        }
        i += 1;
    }
    match pattern.pair_key {
        Some(pk) => pk.is_terminal_or_honor_key(),
        None => false,
    }
}

fn is_tsuuiisou(pattern: &HandPattern) -> (r: bool)
    ensures
        r == tsuuiisou_holds(pattern.blocks@, pattern.pair_key),
{
    let ghost bs = pattern.blocks@;
    let mut i: usize = 0;
    while i < pattern.blocks.len()
        invariant
            i <= bs.len(),
            bs == pattern.blocks@,
            forall|j: int| 0 <= j < i ==> block_all_honor(#[trigger] bs[j]),
        decreases pattern.blocks.len() - i,
    {
        let ok = match &pattern.blocks[i] {
            Block::Shuntsu(a, _, _) => a.suit == Suit::Honor,
            Block::Koutsu(t, _, _) => t.suit == Suit::Honor,
            Block::Kantsu(t, _, _, _) => t.suit == Suit::Honor,
            Block::Toitsu(_, _) => true,
        };
        if !ok {
            return false;
        }
        i += 1;
    }
    match pattern.pair_key {
        Some(pk) => pk.suit == Suit::Honor,
        None => false,
    }
}

fn count_runs(pattern: &HandPattern, s: Suit, n: u8) -> (r: u32)
    requires
        pattern.wf(),
    ensures
        r == run_count(pattern.blocks@, s, n),
{
    let ghost bs = pattern.blocks@;
    let mut c: u32 = 0;
    let mut i: usize = 0;
    while i < pattern.blocks.len()
        invariant
            i <= bs.len(),
            bs == pattern.blocks@,
            bs.len() <= 4,
            c == run_count(bs.subrange(0, i as int), s, n),
            c <= i,
        decreases pattern.blocks.len() - i,
    {
        proof {
            assert(bs.subrange(0, i + 1).drop_last() =~= bs.subrange(0, i as int));
        }
        if let Block::Shuntsu(a, _, _) = pattern.blocks[i] {
            if a.suit == s && a.num == n {
                c = c + 1;
            }
        }
        i += 1;
    }
    proof {
        assert(bs.subrange(0, bs.len() as int) =~= bs);
    }
    c
}

fn iipeikou_ryanpeikou(pattern: &HandPattern) -> (r: u32)
    requires
        pattern.wf(),
    ensures
        r == repeated_runs(pattern.blocks@, 27),
{
    let mut pairs: u32 = 0;
    let mut x: usize = 0;
    while x < 27
        invariant
            x <= 27,
            pattern.wf(),
            pairs == repeated_runs(pattern.blocks@, x as int),
            pairs <= x,
        decreases 27 - x,
    {
        let s = if x < 9 {
            Suit::Man
        } else if x < 18 {
            Suit::Pin
        } else {
            Suit::Sou
        };
        let n = (x % 9 + 1) as u8;
        if count_runs(pattern, s, n) >= 2 {
            pairs = pairs + 1;
        }
        x += 1;
    }
    pairs
}

fn add_yakuhai(
    items: &mut Vec<Entry>,
    han: &mut u32,
    pattern: &HandPattern,
    round_wind: Wind,
    seat_wind: Wind,
)
    requires
        pattern.wf(),
        *old(han) == han_sum(old(items)@),
        *old(han) <= 1000,
    ensures
        final(items)@ == old(items)@ + yakuhai_entries(pattern.blocks@, round_wind, seat_wind),
        *final(han) == han_sum(final(items)@),
        *final(han) <= *old(han) + 120,
{
    let ghost bs = pattern.blocks@;
    let ghost start = items@;
    let ghost han0 = *han;
    let rw = wind_to_honor(round_wind);
    let sw = wind_to_honor(seat_wind);
    let mut i: usize = 0;
    while i < pattern.blocks.len()
        invariant
            i <= bs.len(),
            bs == pattern.blocks@,
            bs.len() <= 4,
            rw == wind_honor(round_wind),
            sw == wind_honor(seat_wind),
            items@ == start + yakuhai_entries(bs.subrange(0, i as int), round_wind, seat_wind),
            *han == han_sum(items@),
            *han <= han0 + 30 * i,
            han0 <= 1000,
        decreases pattern.blocks.len() - i,
    {
        let b = &pattern.blocks[i];
        let ghost before = items@;
        proof {
            assert(bs.subrange(0, i + 1).drop_last() =~= bs.subrange(0, i as int));
        }
        if let Some(h) = honor_of_set(b) {
            add_if(items, han, matches!(h, Honor::White), Yaku::YakuhaiWhite, 1);
            add_if(items, han, matches!(h, Honor::Green), Yaku::YakuhaiGreen, 1);
            add_if(items, han, matches!(h, Honor::Red), Yaku::YakuhaiRed, 1);
            add_if(items, han, h == rw, Yaku::RoundWind, 1);
            add_if(items, han, h == sw, Yaku::SeatWind, 1);
            proof {
                assert(items@ =~= before + block_yakuhai(*b, round_wind, seat_wind));
            }
        } else {
            proof {
                assert(items@ =~= before + block_yakuhai(*b, round_wind, seat_wind));
            }
        }
        proof {
            assert(items@ =~= start + yakuhai_entries(
                bs.subrange(0, i + 1),
                round_wind,
                seat_wind,
            ));
        }
        i += 1;
    }
    proof {
        assert(bs.subrange(0, bs.len() as int) =~= bs);
    }
}

/// Names of the entries, in order.
fn entry_names(items: &Vec<Entry>, names: &mut Vec<String>)
    ensures
        string_views(final(names)@) == string_views(old(names)@) + names_of(items@),
{
    let ghost start = string_views(names@);
    let mut i: usize = 0;
    while i < items.len()
        invariant
            i <= items@.len(),
            string_views(names@) == start + names_of(items@.subrange(0, i as int)),
        decreases items.len() - i,
    {
        let n = items[i].0.name();
        let ghost prev = names@;
        names.push(n);
        proof {
            assert(string_views(names@) =~= string_views(prev).push(n@));
            assert(names_of(items@.subrange(0, i + 1)) =~= names_of(items@.subrange(0, i as int)).push(
                yaku_name(items@[i as int].0),
            ));
            assert(string_views(names@) =~= start + names_of(items@.subrange(0, i + 1)));
        }
        i += 1;
    }
    proof {
        assert(items@.subrange(0, items@.len() as int) =~= items@);
    }
}

proof fn lemma_han_sum_concat(a: Seq<Entry>, b: Seq<Entry>)
    ensures
        han_sum(a + b) == han_sum(a) + han_sum(b),
    decreases b.len(),
{
    if b.len() == 0 {
        assert(a + b =~= a);
    } else {
        lemma_han_sum_concat(a, b.drop_last());
        assert((a + b).drop_last() =~= a + b.drop_last());
    }
}

fn situational(
    tiles: &[Tile],
    menzen: bool,
    win_type: WinType,
    riichi: Riichi,
    ippatsu: bool,
    rinshan: bool,
    chankan: bool,
    haitei: bool,
    houtei: bool,
) -> (r: (Vec<Entry>, u32))
    ensures
        r.0@ == situational_entries(
            tiles@,
            menzen,
            win_type,
            riichi,
            ippatsu,
            rinshan,
            chankan,
            haitei,
            houtei,
        ),
        r.1 == han_sum(r.0@),
        r.1 <= 60,
{
    let mut items: Vec<Entry> = Vec::new();
    let mut han: u32 = 0;
    add_if(&mut items, &mut han, riichi == Riichi::DOUBLE, Yaku::DoubleRiichi, 2);
    add_if(&mut items, &mut han, riichi == Riichi::RIICHI, Yaku::Riichi, 1);
    add_if(&mut items, &mut han, ippatsu, Yaku::Ippatsu, 1);
    add_if(&mut items, &mut han, rinshan, Yaku::Rinshan, 1);
    add_if(&mut items, &mut han, chankan, Yaku::Chankan, 1);
    add_if(&mut items, &mut han, haitei, Yaku::Haitei, 1);
    add_if(&mut items, &mut han, houtei, Yaku::Houtei, 1);
    add_if(&mut items, &mut han, menzen && win_type == WinType::TSUMO, Yaku::MenzenTsumo, 1);
    add_if(&mut items, &mut han, is_tanyao(tiles), Yaku::Tanyao, 1);
    (items, han)
}

fn shape_yaku(pattern: &HandPattern, tiles: &[Tile], rc: Option<TileKey>) -> (r: (
    Vec<Entry>,
    u32,
))
    requires
        pattern.wf(),
    ensures
        r.0@ == shape_entries(pattern.model(), tiles@, rc),
        r.1 == han_sum(r.0@),
        r.1 <= 60,
{
    let menzen = pattern.menzen;
    let counts = count_sets(pattern, rc);
    let m21: u32 = if menzen { 2 } else { 1 };
    let mut items: Vec<Entry> = Vec::new();
    let mut han: u32 = 0;
    add_if(&mut items, &mut han, is_toitoi(pattern), Yaku::Toitoi, 2);
    add_if(&mut items, &mut han, counts.concealed >= 3, Yaku::Sanankou, 2);
    add_entry(&mut items, &mut han, honitsu_chinitsu(tiles, menzen));
    add_if(&mut items, &mut han, ittsuu(pattern), Yaku::Ittsuu, m21);
    add_if(&mut items, &mut han, sanshoku_doujun(pattern), Yaku::SanshokuDoujun, m21);
    add_entry(&mut items, &mut han, chanta_junchan(pattern, menzen));
    add_if(&mut items, &mut han, is_sanshoku_doukou(pattern), Yaku::SanshokuDoukou, 2);
    (items, han)
}

fn closing_yaku(pattern: &HandPattern, round_wind: Wind, seat_wind: Wind, wt: WaitType) -> (r: (
    Vec<Entry>,
    u32,
))
    requires
        pattern.wf(),
    ensures
        r.0@ == closing_entries(pattern.model(), round_wind, seat_wind, wt),
        r.1 == han_sum(r.0@),
        r.1 <= 60,
{
    let menzen = pattern.menzen;
    let counts = count_sets(pattern, None);
    let pair_dragon = match pattern.pair_key {
        Some(pk) => pk.suit == Suit::Honor && match pk.honor {
            Some(h) => is_dragon_honor(h),
            None => false,
        },
        None => false,
    };
    let mut items: Vec<Entry> = Vec::new();
    let mut han: u32 = 0;
    add_if(&mut items, &mut han, counts.dragons == 2 && pair_dragon, Yaku::Shousangen, 2);
    add_if(&mut items, &mut han, is_honroutou(pattern), Yaku::Honroutou, 2);
    add_if(&mut items, &mut han, counts.kans == 3, Yaku::Sankantsu, 2);
    let pinfu = menzen && is_pinfu_shape(pattern, round_wind, seat_wind, wt);
    add_if(&mut items, &mut han, pinfu, Yaku::Pinfu, 1);
    let reps = if menzen { iipeikou_ryanpeikou(pattern) } else { 0 };
    add_if(&mut items, &mut han, menzen && reps == 2, Yaku::Ryanpeikou, 3);
    add_if(&mut items, &mut han, menzen && reps == 1, Yaku::Iipeikou, 1);
    (items, han)
}

/// Evaluates the standard and limit bonuses of one standard candidate;
/// `tiles` are all the tiles of the hand, declared melds included. Any limit
/// hand replaces the standard han.
pub fn eval_yaku_standard(
    pattern: &HandPattern,
    tiles: &[Tile],
    win_tile: Tile,
    win_type: WinType,
    round_wind: Wind,
    seat_wind: Wind,
    riichi: Riichi,
    ippatsu: bool,
    rinshan: bool,
    chankan: bool,
    haitei: bool,
    houtei: bool,
) -> (r: YakuResult)
    requires
        pattern.wf(),
    ensures
        result_of(
            r,
            standard_entries(
                pattern.model(),
                tiles@,
                win_tile,
                win_type,
                round_wind,
                seat_wind,
                riichi,
                ippatsu,
                rinshan,
                chankan,
                haitei,
                houtei,
            ),
            limit_entries(pattern.model(), win_tile, win_type),
        ),
        r.yakuman > 0 ==> r.han == 0,
        r.yakuman <= 60,
        r.han <= 1000,
{
    let wi = detect_wait_info(pattern, win_tile, win_type);
    let wt = detect_wait_type(pattern, win_tile);
    let (mut items, h1) = situational(
        tiles,
        pattern.menzen,
        win_type,
        riichi,
        ippatsu,
        rinshan,
        chankan,
        haitei,
        houtei,
    );
    let mut h2: u32 = 0;
    let mut yakuhai: Vec<Entry> = Vec::new();
    proof {
        assert(Seq::<Entry>::empty() + yakuhai_entries(pattern.blocks@, round_wind, seat_wind)
            =~= yakuhai_entries(pattern.blocks@, round_wind, seat_wind));
    }
    add_yakuhai(&mut yakuhai, &mut h2, pattern, round_wind, seat_wind);
    let (mut shape, h3) = shape_yaku(pattern, tiles, wi.ron_completed_triplet);
    let (mut closing, h4) = closing_yaku(pattern, round_wind, seat_wind, wt);
    let ghost s1 = items@;
    let ghost s2 = yakuhai@;
    let ghost s3 = shape@;
    let ghost s4 = closing@;
    items.append(&mut yakuhai);
    items.append(&mut shape);
    items.append(&mut closing);
    proof {
        lemma_han_sum_concat(s1, s2);
        lemma_han_sum_concat(s1 + s2, s3);
        lemma_han_sum_concat(s1 + s2 + s3, s4);
    }
    let han_total = h1 + h2 + h3 + h4;
    let (limit, yakuman) = eval_yakuman_standard(pattern, win_tile, win_type);
    let mut names: Vec<String> = Vec::new();
    proof {
        assert(string_views(names@) =~= Seq::<Seq<char>>::empty());
    }
    entry_names(&items, &mut names);
    entry_names(&limit, &mut names);
    proof {
        assert(names_of(items@ + limit@) =~= names_of(items@) + names_of(limit@));
        assert(Seq::<Seq<char>>::empty() + names_of(items@) =~= names_of(items@));
    }
    let han = if yakuman > 0 { 0 } else { han_total };
    YakuResult { yakuman, han, yaku: names }
}

/// The limit hands of a standard candidate and the sum of their multipliers.
fn eval_yakuman_standard(pattern: &HandPattern, win_tile: Tile, win_type: WinType) -> (r: (
    Vec<Entry>,
    u32,
))
    requires
        pattern.wf(),
    ensures
        r.0@ == limit_entries(pattern.model(), win_tile, win_type),
        r.1 == han_sum(r.0@),
        r.1 <= 60,
{
    let wi = detect_wait_info(pattern, win_tile, win_type);
    let counts = count_sets(pattern, wi.ron_completed_triplet);
    let wk = TileKey::from_tile(&win_tile);
    let pair_wind = match pattern.pair_key {
        Some(pk) => pk.suit == Suit::Honor && match pk.honor {
            Some(h) => !is_dragon_honor(h),
            None => false,
        },
        None => false,
    };
    let tanki = match pattern.pair_key {
        Some(pk) => pk == wk,
        None => false,
    };
    let mut items: Vec<Entry> = Vec::new();
    let mut ym: u32 = 0;
    add_if(&mut items, &mut ym, counts.dragons == 3, Yaku::Daisangen, 1);
    add_if(&mut items, &mut ym, counts.winds == 4, Yaku::Daisuushi, 1);
    add_if(&mut items, &mut ym, counts.winds == 3 && pair_wind, Yaku::Shousuushi, 1);
    add_if(&mut items, &mut ym, is_tsuuiisou(pattern), Yaku::Tsuuiisou, 1);
    add_if(&mut items, &mut ym, counts.kans == 4, Yaku::Suukantsu, 1);
    add_if(&mut items, &mut ym, counts.concealed == 4 && tanki, Yaku::SuuankouTanki, 2);
    add_if(&mut items, &mut ym, counts.concealed == 4 && !tanki, Yaku::Suuankou, 1);
    (items, ym)
}


proof fn lemma_exclusion_count(bs: Seq<Block>, ot: Seq<TileKey>, okn: Seq<TileKey>, k: TileKey)
    ensures
        count_concealed_sets(bs, ot, okn, Some(k)) <= count_concealed_sets(bs, ot, okn, None),
        (exists|i: int| 0 <= i < bs.len() && #[trigger] set_key_of(bs[i]) == Some(k))
            && !ot.contains(k) && !okn.contains(k) ==> count_concealed_sets(
            bs,
            ot,
            okn,
            Some(k),
        ) < count_concealed_sets(bs, ot, okn, None),
    decreases bs.len(),
{
    if bs.len() > 0 {
        let init = bs.drop_last();
        lemma_exclusion_count(init, ot, okn, k);
        if (exists|i: int| 0 <= i < bs.len() && #[trigger] set_key_of(bs[i]) == Some(k))
            && !ot.contains(k) && !okn.contains(k) {
            let i = choose|i: int| 0 <= i < bs.len() && #[trigger] set_key_of(bs[i]) == Some(k);
            if i < bs.len() - 1 {
                assert(set_key_of(init[i]) == Some(k));
            }
        }
    }
}

/// A dual-triplet wait completed by a claimed tile does not count the
/// completed triplet as concealed: the concealed count that the three- and
/// four-concealed-triplet rules read is smaller than on a self-draw of the
/// same shape.
pub proof fn lemma_claimed_triplet_not_concealed(p: PatternModel, win_tile: Tile)
    requires
        pattern_wait(p, win_tile, WinType::RON).wait_type == WaitType::Shanpon,
        p.blocks[first_set_from(p.blocks, win_tile.key(), 0)] is Koutsu,
        !p.open_triplets.contains(win_tile.key()),
        !p.open_kans.contains(win_tile.key()),
    ensures
        pattern_wait(p, win_tile, WinType::RON).ron_completed_triplet == Some(win_tile.key()),
        pattern_wait(p, win_tile, WinType::TSUMO).ron_completed_triplet is None,
        count_concealed_sets(
            p.blocks,
            p.open_triplets,
            p.open_kans,
            pattern_wait(p, win_tile, WinType::RON).ron_completed_triplet,
        ) < count_concealed_sets(
            p.blocks,
            p.open_triplets,
            p.open_kans,
            pattern_wait(p, win_tile, WinType::TSUMO).ron_completed_triplet,
        ),
{
    let bs = p.blocks;
    let wk = win_tile.key();
    lemma_first_set(bs, wk, 0);
    let t = first_set_from(bs, wk, 0);
    assert(set_key_of(bs[t]) == Some(wk));
    lemma_exclusion_count(bs, p.open_triplets, p.open_kans, wk);
}

proof fn lemma_first_set(bs: Seq<Block>, wk: TileKey, i: int)
    requires
        0 <= i <= bs.len(),
    ensures
        i <= first_set_from(bs, wk, i) <= bs.len(),
        first_set_from(bs, wk, i) < bs.len() ==> crate::fu::set_holds(
            bs[first_set_from(bs, wk, i)],
            wk,
        ),
    decreases bs.len() - i,
{
    if i < bs.len() && !crate::fu::set_holds(bs[i], wk) {
        lemma_first_set(bs, wk, i + 1);
    }
}

} // verus!
