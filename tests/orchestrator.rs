use iai::orchestrator::{Action, Event, Orchestrator, Phase};

#[test]
fn missing_tool_measures_nothing() {
    let mut o = Orchestrator::new(3);
    assert_eq!(o.next_action(), Action::CheckTool);
    assert_eq!(o.step(Event::ToolChecked(false)), Action::Abort);
    assert_eq!(o.phase, Phase::Done);
    assert_eq!(o.step(Event::Measured), Action::Finish);
    assert_eq!(o.step(Event::ToolChecked(true)), Action::Finish);
}

#[test]
fn full_run_in_registration_order() {
    let mut o = Orchestrator::new(2);
    let mut actions = vec![o.next_action()];
    actions.push(o.step(Event::ToolChecked(true)));
    actions.push(o.step(Event::Measured));
    actions.push(o.step(Event::Measured));
    actions.push(o.step(Event::Measured));
    assert_eq!(
        actions,
        vec![
            Action::CheckTool,
            Action::MeasureCalibration,
            Action::MeasureBench(0),
            Action::MeasureBench(1),
            Action::Finish,
        ]
    );
}

#[test]
fn no_benchmarks_finishes_after_calibration() {
    let mut o = Orchestrator::new(0);
    assert_eq!(o.step(Event::ToolChecked(true)), Action::MeasureCalibration);
    assert_eq!(o.step(Event::Measured), Action::Finish);
}

#[test]
fn unexpected_event_repeats_the_pending_action() {
    let mut o = Orchestrator::new(2);
    assert_eq!(o.step(Event::Measured), Action::CheckTool);
    assert_eq!(o.phase, Phase::CheckTool);
    o.step(Event::ToolChecked(true));
    assert_eq!(o.step(Event::ToolChecked(true)), Action::MeasureCalibration);
}
