use fsynth::tui_elements::{BorderKind, TuiRect};
use fsynth::view::tui_elements::{TuiSplit, TuiStructure, TuiStructureLink, TuiTiles};
use fsynth::view::thing;

#[test]
fn border_symbols_per_style() {
    assert_eq!(BorderKind::Heavy.get_symbols(), vec!['┃', '━', '┏', '┓', '┗', '┛']);
    assert_eq!(BorderKind::Single.get_symbols(), vec!['│', '─', '┌', '┐', '└', '┘']);
    assert_eq!(BorderKind::Double.get_symbols(), vec!['║', '═', '╔', '╗', '╚', '╝']);
}

#[test]
fn rect_geometry_moves_and_resizes() {
    let mut rect = TuiRect::from_size(BorderKind::Single, (2, 3), (10, 6));
    assert_eq!(rect.from, (2, 3));
    assert_eq!(rect.to, (12, 9));
    rect.set_pos((5, 5));
    assert_eq!(rect.from, (5, 5));
    assert_eq!(rect.to, (15, 11));
    rect.set_size((4, 4));
    assert_eq!(rect.to, (9, 9));
    let other = TuiRect::from_coords(BorderKind::Double, (0, 0), (8, 4));
    assert_eq!(other.to, (8, 4));
}

#[test]
fn rect_renders_top_walls_bottom() {
    let rect = TuiRect::from_coords(BorderKind::Single, (1, 1), (6, 4));
    let lines = rect.draw();
    assert_eq!(lines.len(), 3);
    assert_eq!(lines[0].y, 1);
    assert_eq!(lines[0].start, '┌');
    assert_eq!(lines[0].mid, '─');
    assert_eq!(lines[0].mid_count, 3);
    assert_eq!(lines[0].end, '┐');
    assert_eq!(lines[1].y, 2);
    assert_eq!(lines[1].start, '│');
    assert_eq!(lines[1].mid, ' ');
    assert_eq!(lines[1].end, '│');
    assert_eq!(lines[2].y, 4);
    assert_eq!(lines[2].start, '└');
    assert_eq!(lines[2].end, '┘');
}

#[test]
fn even_split_layout() {
    let structure = TuiStructure {
        kind: TuiSplit::HSplit,
        stuffs: vec![
            TuiStructureLink::Element(String::from("top")),
            TuiStructureLink::Element(String::from("bottom")),
        ],
    };
    let panels = structure.draw(0, 20, 0, 10);
    assert_eq!(panels.len(), 2);
    assert_eq!(panels[0].name, "top");
    assert_eq!(panels[0].from, (0, 0));
    assert_eq!(panels[0].to, (20, 5));
    assert_eq!(panels[1].name, "bottom");
    assert_eq!(panels[1].from, (0, 5));
    assert_eq!(panels[1].to, (20, 10));
}

#[test]
fn nested_split_layout_stays_in_bounds() {
    let structure = TuiStructure {
        kind: TuiSplit::VSplit,
        stuffs: vec![
            TuiStructureLink::Element(String::from("left")),
            TuiStructureLink::Structure(TuiStructure {
                kind: TuiSplit::HSplit,
                stuffs: vec![
                    TuiStructureLink::Element(String::from("a")),
                    TuiStructureLink::Empty,
                    TuiStructureLink::Element(String::from("b")),
                ],
            }),
        ],
    };
    let panels = structure.draw(1, 31, 1, 13);
    assert_eq!(panels.len(), 3);
    for p in &panels {
        assert!(1 <= p.from.0 && p.from.0 <= p.to.0 && p.to.0 <= 31);
        assert!(1 <= p.from.1 && p.from.1 <= p.to.1 && p.to.1 <= 13);
    }
    assert_eq!(panels[0].name, "left");
    assert_eq!(panels[0].to, (16, 13));
    assert_eq!(panels[1].name, "a");
    assert_eq!(panels[2].name, "b");
}

#[test]
fn tiles_refuse_a_tiny_terminal() {
    let tiles = TuiTiles {
        structure: TuiStructure {
            kind: TuiSplit::HSplit,
            stuffs: vec![TuiStructureLink::Element(String::from("only"))],
        },
    };
    assert!(tiles.draw(29, 20).is_none());
    assert!(tiles.draw(40, 14).is_none());
    let panels = tiles.draw(40, 20).unwrap();
    assert_eq!(panels.len(), 1);
    assert_eq!(panels[0].from, (1, 1));
    assert_eq!(panels[0].to, (40, 18));
}

#[test]
fn banner_art_is_the_f_glyph() {
    let rows = thing();
    assert_eq!(
        rows,
        vec!["   ████", "  ██   ", "███████", "  ██   ", "  ██   "],
    );
    let blank = fsynth::view::letter('?');
    assert_eq!(blank, vec!["", "", "", "", ""]);
}
