use vstd::prelude::*;

use crate::text::{decimal, labelled_number};
use crate::WinType;

verus! {

#[derive(Debug, Clone)]
pub struct PointBreakdown {
    pub total_points: u32,
    /// One human-readable line per part of the payment.
    pub payments: Vec<String>,
}

/// `x` rounded up to the next multiple of 100.
pub open spec fn round_up_100_spec(x: int) -> int {
    ((x + 99) / 100) * 100
}

/// Base points of a standard (non-limit) hand: `fu * 2^(han + 2)` below the
/// plateaus, else the plateau value.
pub open spec fn base_points(fu: int, han: int) -> int {
    if han >= 13 {
        8000
    } else if han >= 11 {
        6000
    } else if han >= 8 {
        4000
    } else if han >= 6 {
        3000
    } else if han == 5 || (han == 4 && fu >= 40) || (han == 3 && fu >= 70) {
        2000
    } else {
        fu * vstd::arithmetic::power2::pow2((han + 2) as nat)
    }
}

/// What each paying opponent pays, before repeat and pot bonuses: one entry
/// for a claimed win, three for a self-draw (the dealer's share first when
/// a non-dealer wins).
pub open spec fn recipient_payments(
    fu: int,
    han: int,
    yakuman: int,
    win_type: WinType,
    dealer: bool,
) -> Seq<int> {
    if yakuman > 0 {
        match win_type {
            WinType::RON => seq![(if dealer { 48000int } else { 32000int }) * yakuman],
            WinType::TSUMO => if dealer {
                seq![16000 * yakuman, 16000 * yakuman, 16000 * yakuman]
            } else {
                seq![16000 * yakuman, 8000 * yakuman, 8000 * yakuman]
            },
        }
    } else {
        let b = base_points(fu, han);
        match win_type {
            WinType::RON => seq![round_up_100_spec(b * (if dealer { 6int } else { 4int }))],
            WinType::TSUMO => if dealer {
                seq![round_up_100_spec(b * 2), round_up_100_spec(b * 2), round_up_100_spec(b * 2)]
            } else {
                seq![round_up_100_spec(b * 2), round_up_100_spec(b), round_up_100_spec(b)]
            },
        }
    }
}

pub open spec fn payments_sum(p: Seq<int>) -> int {
    if p.len() == 1 {
        p[0]
    } else {
        p[0] + p[1] + p[2]
    }
}

/// The winner's total: the opponents' payments, plus 300 per repeat count
/// and 1000 per pot stick.
pub open spec fn points_total(
    fu: int,
    han: int,
    yakuman: int,
    win_type: WinType,
    dealer: bool,
    honba: int,
    kyotaku: int,
) -> int {
    payments_sum(recipient_payments(fu, han, yakuman, win_type, dealer)) + 300 * honba + 1000
        * kyotaku
}

/// The payment lines that `calc_points` reports.
pub open spec fn payment_lines(
    fu: int,
    han: int,
    yakuman: int,
    win_type: WinType,
    dealer: bool,
    honba: int,
    kyotaku: int,
) -> Seq<Seq<char>> {
    let p = recipient_payments(fu, han, yakuman, win_type, dealer);
    let main = if yakuman > 0 {
        match win_type {
            WinType::RON => "役満"@ + decimal(yakuman as nat) + "倍 ロン: "@ + decimal(p[0] as nat),
            WinType::TSUMO => if dealer {
                "役満"@ + decimal(yakuman as nat) + "倍 親ツモ: "@ + decimal(p[0] as nat)
                    + "オール"@
            } else {
                "役満"@ + decimal(yakuman as nat) + "倍 子ツモ: 親"@ + decimal(p[0] as nat)
                    + " / 子"@ + decimal(p[1] as nat)
            },
        }
    } else {
        match win_type {
            WinType::RON => "ロン: "@ + decimal(p[0] as nat),
            WinType::TSUMO => if dealer {
                "親ツモ: "@ + decimal(p[0] as nat) + "オール"@
            } else {
                "子ツモ: 親"@ + decimal(p[0] as nat) + " / 子"@ + decimal(p[1] as nat)
            },
        }
    };
    let with_honba = if honba > 0 {
        seq![main, "本場 +"@ + decimal((300 * honba) as nat)]
    } else {
        seq![main]
    };
    if kyotaku > 0 {
        with_honba.push("供託 +"@ + decimal((1000 * kyotaku) as nat))
    } else {
        with_honba
    }
}

/// Every standard payment that one opponent makes is a multiple of 100, and
/// so is every limit-hand payment.
pub proof fn lemma_payments_rounded(
    fu: int,
    han: int,
    yakuman: int,
    win_type: WinType,
    dealer: bool,
)
    requires
        fu >= 0,
        han >= 0,
        yakuman >= 0,
    ensures
        forall|i: int|
            0 <= i < recipient_payments(fu, han, yakuman, win_type, dealer).len() ==> (
            #[trigger] recipient_payments(fu, han, yakuman, win_type, dealer)[i]) % 100 == 0,
{
}

fn round_up_100(x: u64) -> (r: u64)
    requires
        x <= 0xffff_ffff_ffff,
    ensures
        r == round_up_100_spec(x as int),
{
    ((x + 99) / 100) * 100
}

/// Converts fu, han (or a limit-hand count), the win mode, the dealer flag,
/// the repeat count and the pot sticks into the winner's payment.
pub fn calc_points(
    fu: u32,
    han: u32,
    yakuman: u32,
    win_type: WinType,
    dealer: bool,
    honba: u32,
    kyotaku: u32,
) -> (r: PointBreakdown)
    requires
        points_total(fu as int, han as int, yakuman as int, win_type, dealer, honba as int, kyotaku as int) <= u32::MAX,
    ensures
        r.total_points == points_total(
            fu as int,
            han as int,
            yakuman as int,
            win_type,
            dealer,
            honba as int,
            kyotaku as int,
        ),
        r.payments@.map_values(|s: String| s@) == payment_lines(
            fu as int,
            han as int,
            yakuman as int,
            win_type,
            dealer,
            honba as int,
            kyotaku as int,
        ),
{
    let ghost pays = recipient_payments(fu as int, han as int, yakuman as int, win_type, dealer);
    let mut payments: Vec<String> = Vec::new();
    let total: u64;
    let y = yakuman as u64;
    if yakuman > 0 {
        let base_total: u64 = if dealer { 48000 * y } else { 32000 * y };
        match win_type {
            WinType::RON => {
                total = base_total;
                let mut line = labelled_number("役満", yakuman);
                line.append(labelled_number("倍 ロン: ", base_total as u32).as_str());
                assert(line@ =~= "役満"@ + decimal(yakuman as nat) + "倍 ロン: "@ + decimal(
                    pays[0] as nat,
                ));
                payments.push(line);
            },
            WinType::TSUMO => {
                if dealer {
                    let each = 16000 * y;
                    total = each * 3;
                    let mut line = labelled_number("役満", yakuman);
                    line.append(labelled_number("倍 親ツモ: ", each as u32).as_str());
                    line.append("オール");
                    assert(line@ =~= "役満"@ + decimal(yakuman as nat) + "倍 親ツモ: "@ + decimal(
                        pays[0] as nat,
                    ) + "オール"@);
                    payments.push(line);
                } else {
                    let from_dealer = 16000 * y;
                    let from_other = 8000 * y;
                    total = from_dealer + from_other * 2;
                    let mut line = labelled_number("役満", yakuman);
                    line.append(labelled_number("倍 子ツモ: 親", from_dealer as u32).as_str());
                    line.append(labelled_number(" / 子", from_other as u32).as_str());
                    assert(line@ =~= "役満"@ + decimal(yakuman as nat) + "倍 子ツモ: 親"@ + decimal(
                        pays[0] as nat,
                    ) + " / 子"@ + decimal(pays[1] as nat));
                    payments.push(line);
                }
            },
        }
    } else {
        let f = fu as u64;
        let capped_base: u64 = if han >= 13 {
            8000
        } else if han >= 11 {
            6000
        } else if han >= 8 {
            4000
        } else if han >= 6 {
            3000
        } else if han == 5 || (han == 4 && fu >= 40) || (han == 3 && fu >= 70) {
            2000
        } else {
            proof {
                vstd::arithmetic::power2::lemma2_to64();
            }
            if han == 0 {
                f * 4
            } else if han == 1 {
                f * 8
            } else if han == 2 {
                f * 16
            } else if han == 3 {
                f * 32
            } else if han == 4 {
                f * 64
            } else {
                f * 128
            }
        };
        assert(capped_base == base_points(fu as int, han as int));
        match win_type {
            WinType::RON => {
                let raw = if dealer { capped_base * 6 } else { capped_base * 4 };
                let ron = round_up_100(raw);
                total = ron;
                payments.push(labelled_number("ロン: ", ron as u32));
            },
            WinType::TSUMO => {
                if dealer {
                    let each = round_up_100(capped_base * 2);
                    total = each * 3;
                    let mut line = labelled_number("親ツモ: ", each as u32);
                    line.append("オール");
                    assert(line@ =~= "親ツモ: "@ + decimal(pays[0] as nat) + "オール"@);
                    payments.push(line);
                } else {
                    let from_dealer = round_up_100(capped_base * 2);
                    let from_other = round_up_100(capped_base);
                    total = from_dealer + from_other * 2;
                    let mut line = labelled_number("子ツモ: 親", from_dealer as u32);
                    line.append(labelled_number(" / 子", from_other as u32).as_str());
                    assert(line@ =~= "子ツモ: 親"@ + decimal(pays[0] as nat) + " / 子"@ + decimal(
                        pays[1] as nat,
                    ));
                    payments.push(line);
                }
            },
        }
    }
    assert(total == payments_sum(pays));
    let mut sum = total;
    if honba > 0 {
        let add = 300 * (honba as u64);
        sum = sum + add;
        payments.push(labelled_number("本場 +", add as u32));
    }
    if kyotaku > 0 {
        let add = 1000 * (kyotaku as u64);
        sum = sum + add;
        payments.push(labelled_number("供託 +", add as u32));
    }
    assert(payments@.map_values(|s: String| s@) =~= payment_lines(
        fu as int,
        han as int,
        yakuman as int,
        win_type,
        dealer,
        honba as int,
        kyotaku as int,
    ));
    PointBreakdown { total_points: sum as u32, payments }
}

} // verus!
