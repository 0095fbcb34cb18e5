use village_tui::poledit::{Req, ReqTree};
use village_tui::pyramid::{fill_cells, text_cells, Block, Color, PaintStep, PyramidLayout};

fn leaf(r: Req) -> Option<Box<ReqTree>> {
    Some(Box::new(ReqTree { r, left: None, right: None }))
}

#[test]
fn pyramid_layout_on_screen() {
    let l = PyramidLayout::new(100, 20);
    assert_eq!(l.size, (100, 25));
    assert_eq!(l.eye, Block { start_x: 38, size_x: 24, start_y: 1, size_y: 3 });
    assert_eq!(l.back.start_x, 28);
    assert_eq!(l.third[0].start_x, 14);
    assert_eq!(l.fourth[7], Block { start_x: 83, size_x: 3, start_y: 15, size_y: 5 });
}

#[test]
fn pyramid_fill_cells_with_frame() {
    let b = Block { start_x: 2, size_x: 2, start_y: 1, size_y: 1 };
    assert_eq!(fill_cells(10, b, 1, 100), vec![1, 2, 3, 4, 11, 12, 13, 14, 21, 22, 23, 24]);
    assert_eq!(fill_cells(10, b, 0, 100), vec![12, 13]);
}

#[test]
fn pyramid_text_cells_centred_and_cut() {
    let b = Block { start_x: 0, size_x: 8, start_y: 1, size_y: 3 };
    let cells = text_cells(20, &"Back".chars().collect(), 4, b, 100);
    assert_eq!(cells, vec![(42, 'B'), (43, 'a'), (44, 'c'), (45, 'k')]);
    let long: Vec<char> = "abcdefghij".chars().collect();
    let cells = text_cells(20, &long, 10, b, 100);
    assert_eq!(cells.len(), 8);
    assert_eq!(cells[0], (40, 'a'));
}

#[test]
fn pyramid_text_cells_in_a_pillar() {
    let b = Block { start_x: 5, size_x: 3, start_y: 15, size_y: 5 };
    let text: Vec<char> = "abcdefg".chars().collect();
    let cells = text_cells(50, &text, 7, b, 50 * 25);
    assert_eq!(cells[0], (755, 'a'));
    assert_eq!(cells[3], (805, 'd'));
    assert_eq!(cells[6], (855, 'g'));
}

#[test]
fn pyramid_paint_without_requirement() {
    let l = PyramidLayout::new(100, 25);
    let steps = l.paint_steps("Default".to_string(), &ReqTree { r: Req::Nil, left: None, right: None });
    assert_eq!(steps.len(), 8);
    assert!(matches!(&steps[7], PaintStep::Write(b, t, Color::Magenta) if *b == l.eye && t == "Default"));
}

#[test]
fn pyramid_paint_of_a_logic_block() {
    let l = PyramidLayout::new(100, 25);
    let t = ReqTree { r: Req::And, left: leaf(Req::DataByte2Is(1)), right: None };
    let steps = l.paint_steps("P".to_string(), &t);
    assert_eq!(steps.len(), 15);
    assert!(matches!(&steps[9], PaintStep::Label(b, Req::And, Color::Green) if *b == l.top));
    assert!(matches!(&steps[10], PaintStep::Fill(b, 1, Color::Green) if *b == l.second[0]));
    assert!(matches!(&steps[12], PaintStep::Label(b, Req::DataByte2Is(1), Color::Blue) if *b == l.second[0]));
    assert!(matches!(&steps[14], PaintStep::Label(b, Req::Nil, Color::Blue) if *b == l.second[1]));
}

#[test]
fn pyramid_paint_of_teeth() {
    let l = PyramidLayout::new(100, 25);
    let ll = ReqTree { r: Req::Or, left: leaf(Req::DataByte3Is(2)), right: leaf(Req::DataByte3Is(3)) };
    let lt = ReqTree { r: Req::And, left: Some(Box::new(ll)), right: None };
    let t = ReqTree { r: Req::Or, left: Some(Box::new(lt)), right: None };
    let steps = l.paint_steps("P".to_string(), &t);
    assert!(matches!(&steps[10], PaintStep::Fill(b, 3, Color::Green) if *b == l.fourth[0]));
    assert!(matches!(&steps[18], PaintStep::Fill(b, 1, Color::Orange) if *b == l.fourth[1]));
    assert_eq!(steps.len(), 10 + 9 + 4 + 4 + 4);
}
