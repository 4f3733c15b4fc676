use termlayer::server::{
    route_notification, route_request, split_section, NotificationAction, RequestReply,
    ServerNotification, ServerRequest,
};

#[test]
fn every_notification_kind_has_its_action() {
    assert_eq!(
        route_notification(ServerNotification::Initialized),
        NotificationAction::ForwardConfiguration
    );
    assert_eq!(
        route_notification(ServerNotification::PublishDiagnostics),
        NotificationAction::ApplyDiagnostics
    );
    assert_eq!(
        route_notification(ServerNotification::ShowMessage),
        NotificationAction::ShowStatus
    );
    assert_eq!(route_notification(ServerNotification::LogMessage), NotificationAction::LogOnly);
    assert_eq!(route_notification(ServerNotification::Exit), NotificationAction::CleanupServer);
    assert_eq!(route_notification(ServerNotification::Unknown), NotificationAction::Ignore);
}

#[test]
fn every_request_kind_is_answered() {
    assert_eq!(route_request(ServerRequest::WorkspaceFolders), RequestReply::Folders);
    assert_eq!(
        route_request(ServerRequest::WorkspaceConfiguration),
        RequestReply::ConfigurationSections
    );
    assert_eq!(route_request(ServerRequest::Unknown), RequestReply::MethodNotFound);
}

#[test]
fn section_name_splits_at_dots() {
    let segs = split_section(&b"rust.analyzer.check".to_vec());
    assert_eq!(segs, vec![b"rust".to_vec(), b"analyzer".to_vec(), b"check".to_vec()]);
}

#[test]
fn section_without_dots_is_one_segment() {
    assert_eq!(split_section(&b"editor".to_vec()), vec![b"editor".to_vec()]);
}

#[test]
fn empty_section_name_is_one_empty_segment() {
    assert_eq!(split_section(&Vec::new()), vec![Vec::<u8>::new()]);
}

#[test]
fn consecutive_dots_keep_empty_segments() {
    let segs = split_section(&b"a..b".to_vec());
    assert_eq!(segs, vec![b"a".to_vec(), Vec::<u8>::new(), b"b".to_vec()]);
}

#[test]
fn trailing_dot_keeps_a_trailing_empty_segment() {
    let segs = split_section(&b"a.".to_vec());
    assert_eq!(segs, vec![b"a".to_vec(), Vec::<u8>::new()]);
}
