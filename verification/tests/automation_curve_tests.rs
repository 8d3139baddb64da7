use oxitone_preview::automation_curve::{CurveTool, Interpolation};

#[test]
fn interpolation_cycles_through_its_three_modes() {
    let start = Interpolation::default_mode();
    assert_eq!(start, Interpolation::Linear);
    assert_eq!(start.label(), "Linear");
    assert_eq!(start.next(), Interpolation::Smooth);
    assert_eq!(start.next().label(), "Smooth");
    assert_eq!(start.next().next(), Interpolation::Step);
    assert_eq!(start.next().next().label(), "Step");
    assert_eq!(start.next().next().next(), start);
}

#[test]
fn drawing_is_the_default_tool() {
    assert_eq!(CurveTool::default_tool(), CurveTool::Draw);
}
