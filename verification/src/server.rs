//! The routing decisions for inbound messages from the external
//! server-like collaborator.
//!
//! The caller parses the wire format and performs the actions; this module
//! fixes what happens to each kind of message: which notifications act on
//! the editor, which are logged or ignored, which requests get which reply,
//! and how a configuration section name splits into lookup segments. A
//! message that fails to parse is dropped; an unknown request is answered
//! with a method-not-found error; neither ends the loop.

use vstd::prelude::*;

verus! {

/// A notification from the collaborator, reduced to its kind.
#[derive(Clone, Copy, Debug, PartialEq, Eq, Structural)]
pub enum ServerNotification {
    Initialized,
    PublishDiagnostics,
    ShowMessage,
    LogMessage,
    Exit,
    Unknown,
}

/// What the loop does with one notification.
#[derive(Clone, Copy, Debug, PartialEq, Eq, Structural)]
pub enum NotificationAction {
    /// Send the stored configuration back and announce the server as ready.
    ForwardConfiguration,
    /// Replace the diagnostics the message carries.
    ApplyDiagnostics,
    /// Put the carried message into the status line.
    ShowStatus,
    /// Record the message and do nothing else.
    LogOnly,
    /// Drop the server's diagnostics everywhere and forget the server.
    CleanupServer,
    /// Do nothing.
    Ignore,
}

/// The action one notification kind maps to.
pub open spec fn spec_route_notification(n: ServerNotification) -> NotificationAction {
    match n {
        ServerNotification::Initialized => NotificationAction::ForwardConfiguration,
        ServerNotification::PublishDiagnostics => NotificationAction::ApplyDiagnostics,
        ServerNotification::ShowMessage => NotificationAction::ShowStatus,
        ServerNotification::LogMessage => NotificationAction::LogOnly,
        ServerNotification::Exit => NotificationAction::CleanupServer,
        ServerNotification::Unknown => NotificationAction::Ignore,
    }
}

/// Route one notification. Unknown notifications are ignored, never an
/// error; the loop goes on either way.
pub fn route_notification(n: ServerNotification) -> (a: NotificationAction)
    ensures
        a == spec_route_notification(n),
{
    match n {
        ServerNotification::Initialized => NotificationAction::ForwardConfiguration,
        ServerNotification::PublishDiagnostics => NotificationAction::ApplyDiagnostics,
        ServerNotification::ShowMessage => NotificationAction::ShowStatus,
        ServerNotification::LogMessage => NotificationAction::LogOnly,
        ServerNotification::Exit => NotificationAction::CleanupServer,
        ServerNotification::Unknown => NotificationAction::Ignore,
    }
}

/// A request from the collaborator, reduced to its kind.
#[derive(Clone, Copy, Debug, PartialEq, Eq, Structural)]
pub enum ServerRequest {
    WorkspaceFolders,
    WorkspaceConfiguration,
    Unknown,
}

/// The reply one request gets.
#[derive(Clone, Copy, Debug, PartialEq, Eq, Structural)]
pub enum RequestReply {
    /// Answer with the workspace folder list.
    Folders,
    /// Answer with one configuration value per requested section.
    ConfigurationSections,
    /// Answer with a method-not-found error.
    MethodNotFound,
}

/// The reply one request kind maps to.
pub open spec fn spec_route_request(r: ServerRequest) -> RequestReply {
    match r {
        ServerRequest::WorkspaceFolders => RequestReply::Folders,
        ServerRequest::WorkspaceConfiguration => RequestReply::ConfigurationSections,
        ServerRequest::Unknown => RequestReply::MethodNotFound,
    }
}

/// Route one request. An unknown method is answered, not dropped: the
/// collaborator always hears back.
pub fn route_request(r: ServerRequest) -> (a: RequestReply)
    ensures
        a == spec_route_request(r),
{
    match r {
        ServerRequest::WorkspaceFolders => RequestReply::Folders,
        ServerRequest::WorkspaceConfiguration => RequestReply::ConfigurationSections,
        ServerRequest::Unknown => RequestReply::MethodNotFound,
    }
}

/// The index of the first dot at or after `i`, or the length of `s` when
/// no dot follows.
pub open spec fn first_dot(s: Seq<u8>, i: int) -> int
    decreases s.len() - i,
{
    if i < 0 || i >= s.len() {
        s.len() as int
    } else if s[i] == 0x2e {
        i
    } else {
        first_dot(s, i + 1)
    }
}

/// `first_dot` stays between its start index and the length.
pub proof fn lemma_first_dot_bounds(s: Seq<u8>, i: int)
    requires
        0 <= i <= s.len(),
    ensures
        i <= first_dot(s, i) <= s.len(),
    decreases s.len() - i,
{
    if i < s.len() && s[i] != 0x2e {
        lemma_first_dot_bounds(s, i + 1);
    }
}

/// A configuration section name split at its dots, from position `i` on:
/// the segments between consecutive dots, dots excluded, empty segments
/// kept.
pub open spec fn spec_split_segments(s: Seq<u8>, i: int) -> Seq<Seq<u8>>
    decreases s.len() - i,
{
    let d = first_dot(s, i);
    if d >= s.len() || d < i {
        seq![s.subrange(i, s.len() as int)]
    } else {
        seq![s.subrange(i, d)] + spec_split_segments(s, d + 1)
    }
}

/// The views of a vector of byte vectors.
pub open spec fn segment_models(segs: Seq<Vec<u8>>) -> Seq<Seq<u8>> {
    segs.map_values(|v: Vec<u8>| v@)
}

/// Split a configuration section name at its dots, for the per-segment
/// configuration lookup that answers a configuration request.
pub fn split_section(name: &Vec<u8>) -> (segs: Vec<Vec<u8>>)
    ensures
        segment_models(segs@) == spec_split_segments(name@, 0),
{
    let mut segs: Vec<Vec<u8>> = Vec::new();
    let mut pos: usize = 0;
    proof {
        assert(segment_models(segs@) =~= Seq::<Seq<u8>>::empty());
    }
    loop
        invariant_except_break
            spec_split_segments(name@, 0) == segment_models(segs@) + spec_split_segments(
                name@,
                pos as int,
            ),
        invariant
            0 <= pos <= name@.len(),
        ensures
            segment_models(segs@) == spec_split_segments(name@, 0),
        decreases name@.len() - pos + 1,
    {
        let mut j: usize = pos;
        while j < name.len() && name[j] != 0x2e
            invariant
                pos <= j <= name@.len(),
                first_dot(name@, pos as int) == first_dot(name@, j as int),
            decreases name@.len() - j,
        {
            proof {
                assert(first_dot(name@, j as int) == first_dot(name@, j as int + 1));
            }
            j = j + 1;
        }
        let ghost d = first_dot(name@, pos as int);
        proof {
            if j == name@.len() {
                assert(d == name@.len());
            } else {
                assert(d == j as int);
            }
        }
        let mut seg: Vec<u8> = Vec::new();
        let mut t: usize = pos;
        while t < j
            invariant
                pos <= t <= j <= name@.len(),
                seg@ == name@.subrange(pos as int, t as int),
            decreases j - t,
        {
            seg.push(name[t]);
            t = t + 1;
            assert(seg@ =~= name@.subrange(pos as int, t as int));
        }
        segs.push(seg);
        proof {
            assert(segment_models(segs@) =~= segment_models(segs@.drop_last()) + seq![
                name@.subrange(pos as int, j as int),
            ]);
        }
        if j == name.len() {
            proof {
                assert(spec_split_segments(name@, pos as int) =~= seq![
                    name@.subrange(pos as int, name@.len() as int),
                ]);
                assert(segment_models(segs@) =~= spec_split_segments(name@, 0));
            }
            break ;
        }
        proof {
            lemma_first_dot_bounds(name@, pos as int);
            assert(spec_split_segments(name@, pos as int) =~= seq![
                name@.subrange(pos as int, j as int),
            ] + spec_split_segments(name@, j as int + 1));
            assert(segment_models(segs@) + spec_split_segments(name@, j as int + 1)
                =~= spec_split_segments(name@, 0));
        }
        pos = j + 1;
    }
    segs
}

} // verus!
