use mahjong_core::decompose::{
    decompose_standard_hand, decompose_with_blocks_needed, Block, HandPattern, OpenInfo,
};
use mahjong_core::dora::{count_aka, count_dora_from_indicators, indicator_to_dora};
use mahjong_core::fu::{calc_fu, detect_wait_info, detect_wait_type, WaitType};
use mahjong_core::special::{detect_special, SpecialHand};
use mahjong_core::tile::{Honor, Tile, TileKey};
use mahjong_core::yaku::{eval_special_yaku, eval_yaku_standard};
use mahjong_core::{Meld, MeldType, Riichi, WinType, Wind};

fn tiles(codes: &[&str]) -> Vec<Tile> {
    codes.iter().map(|c| Tile::from_code(c).unwrap()).collect()
}

fn t(code: &str) -> Tile {
    Tile::from_code(code).unwrap()
}

fn key(code: &str) -> TileKey {
    TileKey::from_tile(&t(code))
}

fn count_in_pattern(p: &HandPattern, k: TileKey) -> usize {
    let mut n = 0;
    let mut blocks = p.blocks.clone();
    blocks.push(p.pair.clone());
    for b in &blocks {
        let ts: Vec<Tile> = match b {
            Block::Shuntsu(a, b2, c) => vec![*a, *b2, *c],
            Block::Koutsu(a, b2, c) => vec![*a, *b2, *c],
            Block::Kantsu(a, b2, c, d) => vec![*a, *b2, *c, *d],
            Block::Toitsu(a, b2) => vec![*a, *b2],
        };
        n += ts.iter().filter(|x| TileKey::from_tile(x) == k).count();
    }
    n
}

#[test]
fn decomposition_conserves_tiles() {
    let hand = tiles(&[
        "2m", "2m", "2m", "3m", "3m", "3m", "4m", "4m", "4m", "5m", "5m", "5m", "6m", "6m",
    ]);
    let ps = decompose_standard_hand(&hand);
    assert_eq!(ps.len(), 4);
    for p in &ps {
        assert_eq!(p.blocks.len(), 4);
        for code in ["2m", "3m", "4m", "5m", "6m", "7m", "E"] {
            let k = key(code);
            let expected = hand.iter().filter(|x| TileKey::from_tile(x) == k).count();
            assert_eq!(count_in_pattern(p, k), expected);
        }
    }
    // pair keys in canonical order
    assert_eq!(ps[0].pair_key, Some(key("3m")));
    assert_eq!(ps[1].pair_key, Some(key("6m")));
    assert_eq!(ps[3].pair_key, Some(key("6m")));
}

#[test]
fn honors_never_form_runs() {
    let hand = tiles(&["E", "S", "W", "E", "S", "W", "E", "S", "W", "N", "N", "N", "P", "P"]);
    let ps = decompose_standard_hand(&hand);
    assert_eq!(ps.len(), 1);
    assert!(ps[0].blocks.iter().all(|b| matches!(b, Block::Koutsu(_, _, _))));
}

#[test]
fn only_a_pair_needs_no_search() {
    let ps = decompose_with_blocks_needed(&tiles(&["7p", "7p"]), 0);
    assert_eq!(ps.len(), 1);
    assert!(ps[0].blocks.is_empty());
    assert_eq!(ps[0].pair_key, Some(key("7p")));
    assert_eq!(ps[0].extract_pair_key(), Some(key("7p")));
}

#[test]
fn no_split_gives_no_pattern() {
    let hand = tiles(&[
        "1m", "1m", "2m", "3m", "4m", "5m", "6m", "7m", "8m", "9m", "1p", "1p", "1p", "1p",
    ]);
    assert!(decompose_standard_hand(&hand).is_empty());
}

#[test]
fn seven_pairs_and_orphans() {
    let sp = tiles(&[
        "1m", "1m", "3m", "3m", "5m", "5m", "7m", "7m", "7p", "7p", "9p", "9p", "E", "E",
    ]);
    assert_eq!(detect_special(&sp, t("E"), false), Some(SpecialHand::Chiitoitsu));
    assert_eq!(detect_special(&sp, t("E"), true), None);
    let ko = tiles(&[
        "1m", "9m", "1p", "9p", "1s", "9s", "E", "S", "W", "N", "P", "F", "C", "C",
    ]);
    assert_eq!(detect_special(&ko, t("E"), false), Some(SpecialHand::Kokushi));
    assert_eq!(detect_special(&ko, t("C"), false), Some(SpecialHand::Kokushi13));
    assert_eq!(detect_special(&ko, t("C"), true), None);
    assert_eq!(detect_special(&ko[..13], t("C"), false), None);
}

#[test]
fn special_bonuses() {
    let r = eval_special_yaku(SpecialHand::Chiitoitsu);
    assert_eq!((r.han, r.yakuman), (2, 0));
    assert_eq!(r.yaku, vec!["七対子".to_string()]);
    assert_eq!(eval_special_yaku(SpecialHand::Kokushi).yakuman, 1);
    assert_eq!(eval_special_yaku(SpecialHand::Kokushi13).yakuman, 2);
}

#[test]
fn open_marks_from_melds() {
    let melds = vec![
        Meld { meld_type: MeldType::PON, tiles: vec!["2m".into(), "2m".into(), "2m".into()] },
        Meld {
            meld_type: MeldType::MINKAN,
            tiles: vec!["E".into(), "E".into(), "E".into(), "E".into()],
        },
        Meld {
            meld_type: MeldType::ANKAN,
            tiles: vec!["9s".into(), "9s".into(), "9s".into(), "9s".into()],
        },
        Meld { meld_type: MeldType::CHI, tiles: vec!["3p".into(), "4p".into(), "5p".into()] },
    ];
    let oi = OpenInfo::from_melds(&melds);
    assert!(oi.is_open_triplet(key("2m")));
    assert!(!oi.is_open_triplet(key("E")));
    assert!(oi.is_open_kan(key("E")));
    assert!(!oi.is_open_kan(key("9s")));
    assert!(!oi.is_open_triplet(key("3p")));
}

fn pattern(blocks: Vec<Block>, pair: &str) -> HandPattern {
    let p = t(pair);
    HandPattern {
        blocks,
        pair: Block::Toitsu(p, p),
        menzen: true,
        pair_key: Some(TileKey::from_tile(&p)),
        open_info: None,
    }
}

fn run(a: &str, b: &str, c: &str) -> Block {
    Block::Shuntsu(t(a), t(b), t(c))
}

fn set(a: &str) -> Block {
    Block::Koutsu(t(a), t(a), t(a))
}

#[test]
fn wait_types() {
    let p = pattern(vec![run("1m", "2m", "3m"), run("7p", "8p", "9p"), run("4s", "5s", "6s"), set("E")], "9m");
    assert_eq!(detect_wait_type(&p, t("9m")), WaitType::Tanki);
    assert_eq!(detect_wait_type(&p, t("3m")), WaitType::Penchan);
    assert_eq!(detect_wait_type(&p, t("1m")), WaitType::Ryanmen);
    assert_eq!(detect_wait_type(&p, t("7p")), WaitType::Penchan);
    assert_eq!(detect_wait_type(&p, t("5s")), WaitType::Kanchan);
    assert_eq!(detect_wait_type(&p, t("6s")), WaitType::Ryanmen);
    let ron = detect_wait_info(&p, t("E"), WinType::RON);
    assert_eq!(ron.wait_type, WaitType::Shanpon);
    assert_eq!(ron.ron_completed_triplet, Some(key("E")));
    assert_eq!(detect_wait_info(&p, t("E"), WinType::TSUMO).ron_completed_triplet, None);
}

#[test]
fn fu_table_and_rounding() {
    // concealed ron: 20 + 10, East triplet concealed 8, pair 9m 0, edge wait 2 = 40
    let p = pattern(vec![run("1m", "2m", "3m"), run("7p", "8p", "9p"), run("4s", "5s", "6s"), set("E")], "9m");
    assert_eq!(calc_fu(&p, t("3m"), WinType::RON, true, Wind::S, Wind::W), (40, WaitType::Penchan));
    // shanpon ron on East: the triplet counts as open (4), 20 + 10 + 4 = 34 -> 40
    assert_eq!(calc_fu(&p, t("E"), WinType::RON, true, Wind::S, Wind::W).0, 40);
    // East as round and seat wind does not change group fu; a seat-wind pair adds 2 each
    let q = pattern(vec![run("1m", "2m", "3m"), run("7p", "8p", "9p"), run("4s", "5s", "6s"), run("2p", "3p", "4p")], "E");
    assert_eq!(calc_fu(&q, t("4s"), WinType::RON, true, Wind::E, Wind::E).0, 40);
}

#[test]
fn fu_floor_is_thirty_without_pinfu_shape() {
    // open ron of all runs on a two-sided wait: raw 20 becomes 30
    let mut p = pattern(vec![run("1m", "2m", "3m"), run("7p", "8p", "9p"), run("4s", "5s", "6s"), run("2p", "3p", "4p")], "9m");
    p.menzen = false;
    assert_eq!(calc_fu(&p, t("4s"), WinType::RON, false, Wind::E, Wind::S).0, 30);
    // concealed self-draw pinfu shape: 22 rounds to 30
    assert_eq!(calc_fu(&p, t("4s"), WinType::TSUMO, true, Wind::E, Wind::S).0, 30);
}

#[test]
fn yaku_of_a_closed_hand() {
    let hand = tiles(&[
        "2m", "3m", "4m", "2p", "3p", "4p", "2s", "3s", "4s", "6s", "7s", "8s", "5p", "5p",
    ]);
    let ps = decompose_standard_hand(&hand);
    assert_eq!(ps.len(), 1);
    let r = eval_yaku_standard(
        &ps[0],
        &hand,
        t("8s"),
        WinType::RON,
        Wind::E,
        Wind::S,
        Riichi::RIICHI,
        false,
        false,
        false,
        false,
        false,
    );
    assert_eq!(
        r.yaku,
        vec!["立直".to_string(), "断么九".to_string(), "三色同順".to_string(), "平和".to_string()]
    );
    assert_eq!(r.han, 5);
    assert_eq!(r.yakuman, 0);
}

#[test]
fn limit_hand_zeroes_standard_han() {
    let hand = tiles(&["P", "P", "P", "F", "F", "F", "C", "C", "C", "2m", "3m", "4m", "9p", "9p"]);
    let ps = decompose_standard_hand(&hand);
    assert_eq!(ps.len(), 1);
    let r = eval_yaku_standard(
        &ps[0], &hand, t("4m"), WinType::TSUMO, Wind::E, Wind::S, Riichi::NONE, false, false,
        false, false, false,
    );
    assert_eq!(r.yakuman, 1);
    assert_eq!(r.han, 0);
    assert!(r.yaku.contains(&"大三元".to_string()));
    assert!(r.yaku.contains(&"役牌 白".to_string()));
}

#[test]
fn claimed_shanpon_triplet_is_not_concealed() {
    // three concealed triplets, the third completed by the claimed tile
    let hand = tiles(&["2m", "2m", "2m", "5p", "5p", "5p", "8s", "8s", "8s", "3m", "4m", "5m", "9p", "9p"]);
    let ps = decompose_standard_hand(&hand);
    let tsumo = eval_yaku_standard(
        &ps[0], &hand, t("8s"), WinType::TSUMO, Wind::E, Wind::S, Riichi::NONE, false, false,
        false, false, false,
    );
    assert!(tsumo.yaku.contains(&"三暗刻".to_string()));
    let ron = eval_yaku_standard(
        &ps[0], &hand, t("8s"), WinType::RON, Wind::E, Wind::S, Riichi::RIICHI, false, false,
        false, false, false,
    );
    assert!(!ron.yaku.contains(&"三暗刻".to_string()));
}

#[test]
fn dora_indicators_wrap() {
    assert_eq!(indicator_to_dora(t("9m")), t("1m"));
    assert_eq!(indicator_to_dora(t("0p")), t("6p"));
    assert_eq!(indicator_to_dora(t("N")), Tile::honor(Honor::East));
    assert_eq!(indicator_to_dora(t("C")), Tile::honor(Honor::White));
    assert_eq!(indicator_to_dora(t("W")), Tile::honor(Honor::North));
    let all = tiles(&["1m", "1m", "0s", "5s", "E"]);
    assert_eq!(count_dora_from_indicators(&all, &tiles(&["9m", "4s"])), 4);
    assert_eq!(count_dora_from_indicators(&all, &tiles(&["N"])), 1);
    assert_eq!(count_dora_from_indicators(&all, &[]), 0);
    assert_eq!(count_aka(&all), 1);
}
