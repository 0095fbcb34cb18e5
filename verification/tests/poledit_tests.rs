use village_tui::poledit::{
    decimal_u8, decompose, BlockId, PolAction, PolKey, PolStep, PolicyEditor, Req, ReqTree,
    Requirement,
};

fn sample() -> Requirement {
    Requirement::And(
        Box::new(Requirement::Has(3)),
        Box::new(Requirement::Or(
            Box::new(Requirement::DataByte2Is(7)),
            Box::new(Requirement::Nil),
        )),
    )
}

#[test]
fn a_decomposed_requirement_is_put_back_together() {
    let t = decompose(sample());
    assert_eq!(t.req(), Req::And);
    assert_eq!(t.left().req(), Req::Has(3));
    assert_eq!(t.right().right().req(), Req::Nil);
    assert_eq!(t.requirement(), Ok(sample()));
}

#[test]
fn missing_operands_count_as_none() {
    let t = ReqTree { r: Req::Or, left: None, right: None };
    assert_eq!(
        t.requirement(),
        Ok(Requirement::Or(Box::new(Requirement::Nil), Box::new(Requirement::Nil)))
    );
}

#[test]
fn a_marker_cannot_be_composed() {
    assert_eq!(Req::Marker.compose(None, None), Err(()));
    assert_eq!(Req::And.compose(Some(Requirement::Nil), None), Err(()));
    let mut t = decompose(sample());
    t.mark((2, 0));
    assert_eq!(t.requirement(), Err(()));
}

#[test]
fn marks_are_found_where_they_were_placed() {
    for pos in [(1, 0), (2, 0), (2, 1), (3, 0), (3, 1), (3, 2), (3, 3), (4, 0), (4, 4)] {
        let mut t = decompose(sample());
        t.mark(pos);
        assert_eq!(t.mark_location(), pos);
    }
    let t = decompose(sample());
    assert_eq!(t.mark_location(), (0, 0));
}

#[test]
fn replacing_the_mark_puts_in_the_new_block() {
    let mut t = decompose(sample());
    t.mark((3, 0));
    assert!(t.replace_mark(Requirement::DataByte3Is(1)));
    assert_eq!(t.left().left().req(), Req::DataByte3Is(1));
    assert!(!t.replace_mark(Requirement::Nil));
    let mut top = decompose(sample());
    top.mark((1, 0));
    assert!(top.replace_mark(Requirement::Has(1)));
    assert_eq!(top.req(), Req::Has(1));
    assert!(top.left.is_none() && top.right.is_none());
}

#[test]
fn block_labels() {
    assert_eq!(Req::DataByte2InSet(12).text("x"), "DBt2InSet(12)");
    assert_eq!(Req::DataByte3IsNot(255).text("x"), "DBt3!=255");
    assert_eq!(Req::Has(1).text("Owner"), "Owner");
    assert_eq!(Req::Nil.text("x"), "None");
    assert_eq!(decimal_u8(0), vec!['0']);
    assert!(Req::And.is_logic_fn() && !Req::Marker.is_logic_fn());
    assert!(Req::Nil.is_none() && Req::Marker.not_none() && Req::Marker.is_marker());
}

#[test]
fn the_selection_moves_over_the_pyramid() {
    let t = decompose(sample());
    let mut e = PolicyEditor::new(0, 1, (80, 24));
    assert_eq!(e.blinker_right(&t), Some(BlockId::Eye));
    assert_eq!(e.selection, (0, 1));
    assert_eq!(e.blinker_down(&t), Some(BlockId::Top));
    assert_eq!(e.blinker_down(&t), Some(BlockId::Second(0)));
    // the left operand is no logical block: no way down
    assert_eq!(e.blinker_down(&t), None);
    assert_eq!(e.blinker_right(&t), Some(BlockId::Second(1)));
    assert_eq!(e.blinker_down(&t), Some(BlockId::Third(2)));
    // the block left of it belongs to a leaf
    assert_eq!(e.blinker_left(&t), None);
    assert_eq!(e.blinker_up(), Some(BlockId::Second(1)));
    assert_eq!(e.blinker_up(), Some(BlockId::Top));
    assert_eq!(e.blinker_up(), Some(BlockId::Eye));
    assert_eq!(e.blinker_up(), None);
}

#[test]
fn enter_closes_with_an_action() {
    let t = decompose(sample());
    let mut e = PolicyEditor::new(0, 1, (80, 24));
    e.selection = (0, 2);
    match e.handle_key(PolKey::Enter, 5u8, t) {
        PolStep::Close(Some(PolAction::Run(p, tree))) => {
            assert_eq!(p, 5);
            assert_eq!(tree.requirement(), Ok(sample()));
        }
        _ => panic!("run expected"),
    }
    e.selection = (2, 1);
    match e.handle_key(PolKey::Enter, 5u8, decompose(sample())) {
        PolStep::Close(Some(PolAction::SelectRequirement(tree))) => {
            assert_eq!(tree.mark_location(), (2, 1));
        }
        _ => panic!("a block is marked"),
    }
    e.selection = (0, 0);
    assert!(matches!(e.handle_key(PolKey::Enter, 5u8, decompose(sample())), PolStep::Close(None)));
    assert!(matches!(e.handle_key(PolKey::Other, 5u8, decompose(sample())), PolStep::Close(None)));
}
