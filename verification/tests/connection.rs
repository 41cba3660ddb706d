use call::{ConnectionMonitor, MonitorStep};

fn watch(statuses: &[bool]) -> Vec<MonitorStep> {
    let mut monitor = ConnectionMonitor::new();
    let mut steps = Vec::new();
    for status in statuses {
        steps.push(monitor.observe(Some(*status)));
    }
    steps.push(monitor.observe(None));
    steps
}

#[test]
fn a_connection_that_stays_up_keeps_the_room() {
    assert_eq!(watch(&[true]), vec![MonitorStep::Wait, MonitorStep::Stop]);
}

#[test]
fn a_connection_that_is_down_at_first_ends_the_room() {
    assert_eq!(watch(&[false]), vec![MonitorStep::Leave, MonitorStep::Stop]);
    assert_eq!(watch(&[]), vec![MonitorStep::Leave]);
}

#[test]
fn any_later_status_ends_the_room() {
    assert_eq!(
        watch(&[true, false]),
        vec![MonitorStep::Wait, MonitorStep::Leave, MonitorStep::Stop]
    );
    assert_eq!(
        watch(&[true, true, false]),
        vec![
            MonitorStep::Wait,
            MonitorStep::Leave,
            MonitorStep::Stop,
            MonitorStep::Stop,
        ]
    );
}
