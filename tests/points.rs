use mahjong_core::points::calc_points;
use mahjong_core::text::labelled_number;
use mahjong_core::WinType;

#[test]
fn non_dealer_ron_rounds_up() {
    // 30 fu 1 han: 30 * 8 = 240, times 4 = 960, rounded to 1000.
    let b = calc_points(30, 1, 0, WinType::RON, false, 0, 0);
    assert_eq!(b.total_points, 1000);
    assert_eq!(b.payments, vec!["ロン: 1000".to_string()]);
}

#[test]
fn dealer_ron_four_han_thirty_fu() {
    // 30 * 64 = 1920, times 6 = 11520, rounded to 11600.
    let b = calc_points(30, 4, 0, WinType::RON, true, 0, 0);
    assert_eq!(b.total_points, 11600);
}

#[test]
fn mangan_plateaus() {
    assert_eq!(calc_points(30, 5, 0, WinType::RON, false, 0, 0).total_points, 8000);
    assert_eq!(calc_points(40, 4, 0, WinType::RON, false, 0, 0).total_points, 8000);
    assert_eq!(calc_points(70, 3, 0, WinType::RON, false, 0, 0).total_points, 8000);
    assert_eq!(calc_points(30, 6, 0, WinType::RON, false, 0, 0).total_points, 12000);
    assert_eq!(calc_points(30, 8, 0, WinType::RON, false, 0, 0).total_points, 16000);
    assert_eq!(calc_points(30, 11, 0, WinType::RON, false, 0, 0).total_points, 24000);
    assert_eq!(calc_points(30, 13, 0, WinType::RON, false, 0, 0).total_points, 32000);
}

#[test]
fn non_dealer_tsumo_rounds_each_payment() {
    // base 30 * 32 = 960: dealer pays 1920 -> 2000, others 960 -> 1000.
    let b = calc_points(30, 3, 0, WinType::TSUMO, false, 0, 0);
    assert_eq!(b.total_points, 4000);
    assert_eq!(b.payments, vec!["子ツモ: 親2000 / 子1000".to_string()]);
}

#[test]
fn dealer_tsumo_all_pay_the_same() {
    // base 20 * 32 = 640, times 2 = 1280 -> 1300 from each of three.
    let b = calc_points(20, 3, 0, WinType::TSUMO, true, 0, 0);
    assert_eq!(b.total_points, 3900);
    assert_eq!(b.payments, vec!["親ツモ: 1300オール".to_string()]);
}

#[test]
fn limit_hand_payments() {
    assert_eq!(calc_points(0, 0, 1, WinType::RON, false, 0, 0).total_points, 32000);
    assert_eq!(calc_points(0, 0, 1, WinType::RON, true, 0, 0).total_points, 48000);
    assert_eq!(calc_points(0, 0, 2, WinType::TSUMO, true, 0, 0).total_points, 96000);
    let b = calc_points(0, 0, 1, WinType::TSUMO, false, 0, 0);
    assert_eq!(b.total_points, 32000);
    assert_eq!(b.payments, vec!["役満1倍 子ツモ: 親16000 / 子8000".to_string()]);
}

#[test]
fn repeat_and_pot_bonuses_are_flat() {
    let b = calc_points(30, 1, 0, WinType::RON, false, 2, 1);
    assert_eq!(b.total_points, 1000 + 600 + 1000);
    assert_eq!(
        b.payments,
        vec![
            "ロン: 1000".to_string(),
            "本場 +600".to_string(),
            "供託 +1000".to_string()
        ]
    );
}

#[test]
fn standard_payments_are_multiples_of_100() {
    for han in 0..14 {
        for fu in [20, 25, 30, 40, 50, 60, 70, 80, 90, 100, 110] {
            for dealer in [false, true] {
                for wt in [WinType::RON, WinType::TSUMO] {
                    let b = calc_points(fu, han, 0, wt, dealer, 0, 0);
                    assert_eq!(b.total_points % 100, 0);
                }
            }
        }
    }
}

#[test]
fn numbers_are_written_in_decimal() {
    assert_eq!(labelled_number("ドラ", 12), "ドラ12");
    assert_eq!(labelled_number("x", 0), "x0");
    assert_eq!(labelled_number("", 4000000000), "4000000000");
}
