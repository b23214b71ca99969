use mahjong_core::tile::{Honor, InvalidTileCode, Suit, Tile, TileKey};

#[test]
fn decodes_suited_and_honor_codes() {
    assert_eq!(
        Tile::from_code("3p"),
        Ok(Tile { suit: Suit::Pin, num: 3, honor: None, red: false })
    );
    assert_eq!(
        Tile::from_code("9s"),
        Ok(Tile { suit: Suit::Sou, num: 9, honor: None, red: false })
    );
    assert_eq!(Tile::from_code("E"), Ok(Tile::honor(Honor::East)));
    assert_eq!(Tile::from_code("P"), Ok(Tile::honor(Honor::White)));
    assert_eq!(Tile::from_code("F"), Ok(Tile::honor(Honor::Green)));
    assert_eq!(Tile::from_code("C"), Ok(Tile::honor(Honor::Red)));
}

#[test]
fn zero_digit_is_red_five() {
    let t = Tile::from_code("0m").unwrap();
    assert_eq!(t, Tile { suit: Suit::Man, num: 5, honor: None, red: true });
    assert_eq!(TileKey::from_tile(&t), TileKey::from_tile(&Tile::from_code("5m").unwrap()));
}

#[test]
fn malformed_codes_are_rejected() {
    assert_eq!(Tile::from_code(""), Err(InvalidTileCode));
    assert_eq!(Tile::from_code("10m"), Err(InvalidTileCode));
    assert_eq!(Tile::from_code("xm"), Err(InvalidTileCode));
    assert_eq!(Tile::from_code("5x"), Err(InvalidTileCode));
    assert_eq!(Tile::from_code("Z"), Err(InvalidTileCode));
    assert_eq!(Tile::from_code("5z"), Err(InvalidTileCode));
}

#[test]
fn every_valid_code_round_trips() {
    let mut codes: Vec<String> = Vec::new();
    for s in ["m", "p", "s"] {
        for d in 0..10 {
            codes.push(format!("{}{}", d, s));
        }
    }
    for h in ["E", "S", "W", "N", "P", "F", "C"] {
        codes.push(h.to_string());
    }
    assert_eq!(codes.len(), 37);
    for c in &codes {
        let t = Tile::from_code(c).unwrap();
        assert_eq!(&t.to_code(), c);
    }
}

#[test]
fn red_five_encodes_as_zero() {
    let red = Tile { suit: Suit::Sou, num: 5, honor: None, red: true };
    assert_eq!(red.to_code(), "0s");
    let plain = Tile { suit: Suit::Sou, num: 5, honor: None, red: false };
    assert_eq!(plain.to_code(), "5s");
}

#[test]
fn key_neighbours() {
    let k = TileKey::from_tile(&Tile::from_code("7m").unwrap());
    assert_eq!(k.next(), Some(TileKey { suit: Suit::Man, num: 8, honor: None }));
    assert_eq!(k.next2(), Some(TileKey { suit: Suit::Man, num: 9, honor: None }));
    let k8 = TileKey::from_tile(&Tile::from_code("8m").unwrap());
    assert_eq!(k8.next2(), None);
    let e = TileKey::from_tile(&Tile::honor(Honor::East));
    assert_eq!(e.next(), None);
    assert_eq!(e.to_tile(), Tile::honor(Honor::East));
    assert!(Tile::honor(Honor::Red).is_honor());
    assert_eq!(
        Tile::from_code("0p").unwrap().base_id(),
        (Suit::Pin, 5, None)
    );
}
