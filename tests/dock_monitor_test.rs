use sidecar_on_dock::dock_monitor::{matches_identifier, MonitorContext, SessionCommand};

#[test]
fn identifier_matching() {
    assert!(matches_identifier(Some(0x10), 0x10));
    assert!(!matches_identifier(Some(0x11), 0x10));
    assert!(!matches_identifier(None, 0x10));
    assert!(matches_identifier(Some(0), 0));
    assert!(!matches_identifier(None, 0));
}

#[test]
fn end_to_end_attach_then_detach() {
    let mut m = MonitorContext::new(0x10, Some("Pad".to_string()));
    assert!(!m.sidecar_active());
    assert_eq!(m.handle_batch(true, &vec![Some(0x10)]), vec![SessionCommand::Enable]);
    assert!(m.sidecar_active());
    assert_eq!(m.handle_batch(false, &vec![Some(0x10)]), vec![SessionCommand::Disable]);
    assert!(!m.sidecar_active());
    assert_eq!(m.ipad_name().as_deref(), Some("Pad"));
    assert_eq!(m.dock_uid(), 0x10);
}

#[test]
fn unmatched_events_do_nothing() {
    let mut m = MonitorContext::new(0x10, None);
    assert!(m.handle_batch(true, &vec![Some(1), None, Some(2)]).is_empty());
    assert!(m.handle_batch(false, &vec![Some(1), None, Some(2)]).is_empty());
    assert!(m.handle_batch(false, &vec![]).is_empty());
    assert!(!m.sidecar_active());
}

#[test]
fn single_match_in_appeared_batch_enables_once() {
    let mut m = MonitorContext::new(0x10, None);
    let cmds = m.handle_batch(true, &vec![Some(1), Some(0x10), None]);
    assert_eq!(cmds, vec![SessionCommand::Enable]);
    assert!(m.sidecar_active());
}

#[test]
fn unreadable_removal_disables_defensively_once() {
    let mut m = MonitorContext::new(0x10, None);
    m.handle_batch(true, &vec![Some(0x10)]);
    let cmds = m.handle_batch(false, &vec![Some(5), None, None]);
    assert_eq!(cmds, vec![SessionCommand::Disable]);
    assert!(!m.sidecar_active());
}

#[test]
fn unreadable_removal_without_session_does_nothing() {
    let mut m = MonitorContext::new(0x10, None);
    assert_eq!(m.handle_item(false, None), None);
    assert!(!m.sidecar_active());
}

#[test]
fn every_matching_item_is_reported() {
    let mut m = MonitorContext::new(7, None);
    let cmds = m.handle_batch(true, &vec![Some(7), Some(7)]);
    assert_eq!(cmds, vec![SessionCommand::Enable, SessionCommand::Enable]);
    assert_eq!(m.handle_item(false, Some(7)), Some(SessionCommand::Disable));
    assert!(!m.sidecar_active());
}
