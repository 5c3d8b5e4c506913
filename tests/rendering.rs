use mapview::{color_of, decode, render, Rgb, Room, Tile, ORIGIN_X, ORIGIN_Y, TILE_SIZE};

const RED: Rgb = Rgb { red: 1000, green: 0, blue: 0 };
const LIGHT_GRAY: Rgb = Rgb { red: 800, green: 800, blue: 800 };
const TEAL: Rgb = Rgb { red: 100, green: 700, blue: 500 };
const NAVY: Rgb = Rgb { red: 100, green: 200, blue: 300 };
const BLACK: Rgb = Rgb { red: 0, green: 0, blue: 0 };
const WHITE: Rgb = Rgb { red: 1000, green: 1000, blue: 1000 };

#[test]
fn color_table() {
    let table = [
        ('#', RED),
        ('.', LIGHT_GRAY),
        ('&', TEAL),
        ('@', NAVY),
        ('*', BLACK),
        ('x', WHITE),
        (' ', WHITE),
        ('0', WHITE),
        ('é', WHITE),
    ];
    for (symbol, color) in table {
        assert_eq!(color_of(symbol), color, "{symbol}");
    }
}

#[test]
fn scenario_room_renders_four_tiles() {
    let (_, room) = decode(r##"{"room1":{"layers":{"terrain":[["#","."],[".","&"]]}}}"##).unwrap();
    let tiles = render(&room);
    let got: Vec<(usize, usize, Rgb)> = tiles.iter().map(|t| (t.column, t.row, t.color)).collect();
    assert_eq!(got, vec![(0, 0, RED), (1, 0, LIGHT_GRAY), (0, 1, LIGHT_GRAY), (1, 1, TEAL)]);
    for t in &tiles {
        assert_eq!(t.size, 8);
    }
}

#[test]
fn tile_positions() {
    let room = Room { terrain: vec![vec!['#', '#', '#'], vec!['.']] };
    let tiles = render(&room);
    assert_eq!(tiles.len(), 4);
    assert_eq!(
        tiles[2],
        Tile { column: 2, row: 0, x: 16 - 400, y: -300, color: RED, size: TILE_SIZE }
    );
    assert_eq!(tiles[3], Tile { column: 0, row: 1, x: -400, y: 8 - 300, color: LIGHT_GRAY, size: 8 });
    assert_eq!(ORIGIN_X, 400);
    assert_eq!(ORIGIN_Y, 300);
}

#[test]
fn empty_and_ragged_rooms() {
    assert!(render(&Room { terrain: vec![] }).is_empty());
    assert!(render(&Room { terrain: vec![vec![], vec![]] }).is_empty());
    let tiles = render(&Room { terrain: vec![vec![], vec!['@', '?']] });
    let got: Vec<(usize, usize, Rgb)> = tiles.iter().map(|t| (t.column, t.row, t.color)).collect();
    assert_eq!(got, vec![(0, 1, NAVY), (1, 1, WHITE)]);
}
