//! The layer that hands events and drawing on to the application that is shown.
use crate::app_id::AppId;
use crate::apps::EditorApps;
use crate::editor_view::Position;
use crate::graphics::CursorKind;
use crate::input::EventResult;
use vstd::prelude::*;

verus! {

/// Hands everything on to the application that is shown. It has no state of its own.
#[derive(Debug, Clone, Copy)]
pub struct ActiveAppProxy;

impl ActiveAppProxy {
    /// The place and the identifier of the application that gets events and is drawn. While it is
    /// taken out of its place, a placeholder keeps the identifier there.
    pub fn target(&self, apps: &EditorApps) -> (r: Option<(usize, AppId)>)
        ensures
            r == if apps.active_app < apps.apps@.len() {
                Some((apps.active_app, apps.apps@[apps.active_app as int].id))
            } else {
                None
            },
    {
        if apps.active_app >= apps.apps.len() {
            return None;
        }
        Some((apps.active_app, apps.apps[apps.active_app].id))
    }

    /// The result for an event: that of the application, given in `answer`, or ignored if there is
    /// none.
    pub fn handle_event(&self, apps: &EditorApps, answer: EventResult) -> (r: EventResult)
        ensures
            r == if apps.active_app < apps.apps@.len() {
                answer
            } else {
                EventResult::Ignored
            },
    {
        match self.target(apps) {
            Some(_) => answer,
            None => EventResult::Ignored,
        }
    }

    /// The cursor: that of the application, given in `answer`, or none.
    pub fn cursor(&self, apps: &EditorApps, answer: (Option<Position>, CursorKind)) -> (r: (
        Option<Position>,
        CursorKind,
    ))
        ensures
            r == if apps.active_app < apps.apps@.len() {
                answer
            } else {
                (None, CursorKind::Hidden)
            },
    {
        match self.target(apps) {
            Some(_) => answer,
            None => (None, CursorKind::Hidden),
        }
    }
}

} // verus!
