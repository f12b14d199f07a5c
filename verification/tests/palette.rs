use scene_frames::palette::{Palette, Rgb, SHADES};

#[test]
fn standard_palette_has_four_rows_of_five() {
    let palette = Palette::standard();
    assert_eq!(palette.len(), 4);
    assert_eq!(SHADES, 5);
    for row in &palette.rows {
        assert_eq!(row.len(), 5);
    }
}

#[test]
fn standard_palette_reads_as_hex() {
    let expected = [
        ["#00ff00", "#33ff33", "#88ff88", "#aaffaa", "#eeffee"],
        ["#ff0000", "#ff3333", "#ff8888", "#ffaaaa", "#ffeeee"],
        ["#0000ff", "#3333ff", "#8888ff", "#aaaaff", "#eeeeff"],
        ["#ffff00", "#ffff33", "#ffff88", "#ffffaa", "#ffffee"],
    ];
    let palette = Palette::standard();
    for object in 0..4 {
        for recency in 0..5 {
            let shade = palette.pick(object, recency).unwrap();
            assert_eq!(shade.hex(), expected[object][recency]);
        }
    }
}

#[test]
fn pick_has_nothing_beyond_the_table() {
    let palette = Palette::standard();
    assert_eq!(palette.pick(4, 0), None);
    assert_eq!(palette.pick(0, 5), None);
    assert_eq!(palette.pick(3, 4), Some(Rgb { red: 0xff, green: 0xff, blue: 0xee }));
    let none = Palette { rows: Vec::new() };
    assert_eq!(none.len(), 0);
    assert_eq!(none.pick(0, 0), None);
}

#[test]
fn hex_writes_two_digits_for_each_part() {
    assert_eq!(Rgb { red: 0, green: 0, blue: 0 }.hex(), "#000000");
    assert_eq!(Rgb { red: 0x01, green: 0x9a, blue: 0xf0 }.hex(), "#019af0");
    assert_eq!(Rgb { red: 0x12, green: 0x34, blue: 0x56 }.hex(), "#123456");
    assert_eq!(Rgb { red: 0x78, green: 0xbc, blue: 0xde }.hex(), "#78bcde");
    assert_eq!(Rgb { red: 0xff, green: 0xff, blue: 0xff }.hex(), "#ffffff");
}
