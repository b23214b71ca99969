use mahjong_core::tile::InvalidTileCode;
use mahjong_core::{score, Flags, Meld, MeldType, Riichi, ScoreRequest, WinType, Wind};

fn strings(codes: &[&str]) -> Vec<String> {
    codes.iter().map(|c| c.to_string()).collect()
}

fn request(hand: &[&str], win: &str, win_type: WinType, dealer: bool) -> ScoreRequest {
    ScoreRequest {
        round_wind: Wind::E,
        seat_wind: if dealer { Wind::E } else { Wind::S },
        kyotaku: 0,
        honba: 0,
        win_type,
        dealer,
        hand_tiles: strings(hand),
        win_tile: win.to_string(),
        melds: vec![],
        dora_indicators: vec![],
        kan_dora_indicators: vec![],
        ura_indicators: vec![],
        kan_ura_indicators: vec![],
        flags: Flags {
            riichi: Riichi::NONE,
            ippatsu: false,
            rinshan: false,
            chankan: false,
            haitei: false,
            houtei: false,
            tenhou: false,
            chihou: false,
        },
    }
}

fn meld(kind: MeldType, codes: &[&str]) -> Meld {
    Meld { meld_type: kind, tiles: strings(codes) }
}

#[test]
fn terminal_heavy_hand_without_a_split() {
    let req = request(
        &["1m", "1m", "2m", "3m", "4m", "5m", "6m", "7m", "8m", "9m", "1p", "1p", "1p"],
        "1p",
        WinType::TSUMO,
        false,
    );
    let r = score(&req).unwrap();
    assert_eq!(r.total_points, 0);
    assert_eq!((r.han, r.fu, r.yakuman), (0, 0, 0));
    assert_eq!(
        r.yaku,
        vec!["分解できませんでした: blocks_needed=4, meld_blocks=0".to_string()]
    );
}

#[test]
fn all_triplet_simples_self_draw() {
    let req = request(
        &["2m", "2m", "2m", "3m", "3m", "3m", "4m", "4m", "4m", "5m", "5m", "5m", "6m"],
        "6m",
        WinType::TSUMO,
        false,
    );
    let r = score(&req).unwrap();
    // four concealed triplets on a single wait: double limit hand
    assert_eq!(r.yakuman, 2);
    assert_eq!(r.han, 0);
    assert_eq!(r.fu, 40);
    assert_eq!(r.total_points, 64000);
    assert_eq!(
        r.yaku,
        vec![
            "門前清自摸和".to_string(),
            "断么九".to_string(),
            "対々和".to_string(),
            "三暗刻".to_string(),
            "清一色".to_string(),
            "四暗刻単騎".to_string()
        ]
    );
}

#[test]
fn seven_pairs_claimed_win() {
    let req = request(
        &["1m", "1m", "3m", "3m", "5m", "5m", "7m", "7m", "7p", "7p", "9p", "9p", "E"],
        "E",
        WinType::RON,
        false,
    );
    let r = score(&req).unwrap();
    assert_eq!(r.fu, 25);
    assert_eq!(r.han, 2);
    assert_eq!(r.yakuman, 0);
    // 25 * 2^4 = 400, times 4 = 1600
    assert_eq!(r.total_points, 1600);
    assert_eq!(r.yaku, vec!["七対子".to_string()]);
}

#[test]
fn four_declared_melds_leave_only_the_pair() {
    let mut req = request(&["7p"], "7p", WinType::RON, false);
    req.melds = vec![
        meld(MeldType::PON, &["2m", "2m", "2m"]),
        meld(MeldType::PON, &["5p", "5p", "5p"]),
        meld(MeldType::CHI, &["3s", "4s", "5s"]),
        meld(MeldType::CHI, &["6s", "7s", "8s"]),
    ];
    let r = score(&req).unwrap();
    // open ron: 20 + two open simple triplets 4 + single wait 2 = 26 -> 30
    assert_eq!(r.fu, 30);
    assert_eq!(r.han, 1);
    assert_eq!(r.yaku, vec!["断么九".to_string()]);
    assert_eq!(r.total_points, 1000);
}

#[test]
fn pinfu_self_draw_stays_at_twenty() {
    let req = request(
        &["2m", "3m", "4m", "8m", "8m", "5p", "6p", "7p", "3s", "4s", "5s", "6s", "7s"],
        "8s",
        WinType::TSUMO,
        false,
    );
    let r = score(&req).unwrap();
    assert_eq!(r.fu, 20);
    assert_eq!(r.han, 3);
    assert_eq!(
        r.yaku,
        vec!["門前清自摸和".to_string(), "断么九".to_string(), "平和".to_string()]
    );
    // base 20 * 32 = 640: dealer 1280 -> 1300, others 640 -> 700
    assert_eq!(r.total_points, 2700);
}

#[test]
fn dora_hidden_dora_and_red_fives() {
    let mut req = request(
        &["2m", "3m", "4m", "8m", "8m", "0p", "6p", "7p", "3s", "4s", "5s", "6s", "7s"],
        "8s",
        WinType::RON,
        false,
    );
    req.flags.riichi = Riichi::RIICHI;
    req.dora_indicators = strings(&["7m"]);
    req.ura_indicators = strings(&["2s"]);
    req.honba = 1;
    req.kyotaku = 2;
    let r = score(&req).unwrap();
    assert_eq!(r.dora_han, 2);
    assert_eq!(r.ura_dora_han, 1);
    assert_eq!(r.aka_dora_han, 1);
    // riichi, all simples, pinfu + 4 bonus = 7 han: 3000 base, 12000 + 300 + 2000
    assert_eq!(r.han, 7);
    assert_eq!(r.fu, 30);
    assert_eq!(r.total_points, 14300);
    assert_eq!(
        r.yaku,
        vec![
            "立直".to_string(),
            "断么九".to_string(),
            "平和".to_string(),
            "ドラ2".to_string(),
            "裏ドラ1".to_string(),
            "赤ドラ1".to_string()
        ]
    );
}

#[test]
fn hidden_dora_needs_riichi() {
    let mut req = request(
        &["2m", "3m", "4m", "8m", "8m", "5p", "6p", "7p", "3s", "4s", "5s", "6s", "7s"],
        "8s",
        WinType::TSUMO,
        false,
    );
    req.ura_indicators = strings(&["7m"]);
    let r = score(&req).unwrap();
    assert_eq!(r.ura_dora_han, 0);
}

#[test]
fn thirteen_orphans_on_the_pair_tile_is_double() {
    let req = request(
        &["1m", "9m", "1p", "9p", "1s", "9s", "E", "S", "W", "N", "P", "F", "C"],
        "C",
        WinType::RON,
        true,
    );
    let r = score(&req).unwrap();
    assert_eq!(r.yakuman, 2);
    assert_eq!(r.total_points, 96000);
    assert_eq!(r.yaku, vec!["国士無双十三面待ち".to_string()]);
}

#[test]
fn malformed_code_fails_the_call() {
    let req = request(
        &["2m", "3m", "4m", "8m", "8m", "5p", "6p", "7p", "3s", "4s", "5s", "6s", "7x"],
        "8s",
        WinType::TSUMO,
        false,
    );
    assert_eq!(score(&req).err(), Some(InvalidTileCode));
    let mut bad_meld = request(&["7p"], "7p", WinType::RON, false);
    bad_meld.melds = vec![meld(MeldType::PON, &["2m", "2m", "22"])];
    assert_eq!(score(&bad_meld).err(), Some(InvalidTileCode));
    let mut bad_ind = request(&["7p"], "7p", WinType::RON, false);
    bad_ind.kan_ura_indicators = strings(&["Q"]);
    assert_eq!(score(&bad_ind).err(), Some(InvalidTileCode));
}

#[test]
fn too_many_melds() {
    let mut req = request(&["7p"], "7p", WinType::RON, false);
    req.melds = vec![
        meld(MeldType::PON, &["2m", "2m", "2m"]),
        meld(MeldType::PON, &["5p", "5p", "5p"]),
        meld(MeldType::CHI, &["3s", "4s", "5s"]),
        meld(MeldType::CHI, &["6s", "7s", "8s"]),
        meld(MeldType::PON, &["E", "E", "E"]),
    ];
    let r = score(&req).unwrap();
    assert_eq!(r.total_points, 0);
    assert_eq!(r.yaku, vec!["副露が多すぎます（面子数が4を超えています）".to_string()]);
}

#[test]
fn no_bonus_means_no_win() {
    let mut req = request(
        &["4p", "5p", "6p", "7s", "8s", "9s", "2s", "2s", "2s", "9m"],
        "9m",
        WinType::RON,
        false,
    );
    req.melds = vec![meld(MeldType::CHI, &["1m", "2m", "3m"])];
    let r = score(&req).unwrap();
    assert_eq!(r.total_points, 0);
    assert_eq!(r.yaku, vec!["役なし（和了不可）".to_string()]);
}
