//! Opening a note: what to write before the editor starts, and the order of
//! the steps of an editing session (note file, viewer, editor, viewer stop).

use vstd::prelude::*;
use crate::paths::{new_template_path, new_template_path_of, note_path, note_path_of};
use crate::template::{render, rendered};

verus! {

/// What opening a note asks for: the note's path and, for a note that does
/// not exist yet, the content to write before the editor starts.
pub struct OpenPlan {
    pub path: String,
    pub content: Option<String>,
}

/// Plans opening the note `name` of the notes directory `dir`. A note that
/// already exists is opened as it is: nothing is rendered or written. A new
/// one gets `template` rendered for the title `name` and the date `date`.
pub fn plan_open(dir: &str, name: &str, template: &str, exists: bool, date: &str) -> (r: OpenPlan)
    ensures
        r.path@ == note_path_of(dir@, name@),
        exists ==> r.content is None,
        !exists ==> r.content is Some && r.content->0@ == rendered(template@, name@, date@),
{
    let path = note_path(dir, name);
    if exists {
        OpenPlan { path, content: None }
    } else {
        OpenPlan { path, content: Some(render(template, name, date)) }
    }
}

/// Relies on chrono's `From<SystemTime> for DateTime<Local>` and its
/// `%Y-%m-%d` formatting: the local date of the system clock's current time
/// as text. That conversion accepts times before 1970. It still panics when
/// the time lies outside the dates chrono can represent (about 262,000 years
/// either side of year 0), and where the time zone data holds no local time
/// type for the instant. It depends on the clock, so nothing is stated of it.
#[verifier::external_body]
fn today_text() -> (r: String) {
    chrono::DateTime::<chrono::Local>::from(std::time::SystemTime::now()).format("%Y-%m-%d").to_string()
}

/// Plans opening the note `name` as [`plan_open`] does, with today's local
/// date. The clock is read only when the note is new.
pub fn plan_open_today(dir: &str, name: &str, template: &str, exists: bool) -> (r: OpenPlan)
    ensures
        r.path@ == note_path_of(dir@, name@),
        exists ==> r.content is None,
        !exists ==> r.content is Some && exists|date: Seq<char>|
            r.content->0@ == rendered(template@, name@, date),
{
    if exists {
        plan_open(dir, name, template, true, "")
    } else {
        let date = today_text();
        plan_open(dir, name, template, false, date.as_str())
    }
}

/// Plans opening the template `name` of the notes directory `dir` for
/// editing. A template that does not exist yet starts empty.
pub fn plan_template(dir: &str, name: &str, exists: bool) -> (r: OpenPlan)
    ensures
        r.path@ == new_template_path_of(dir@, name@),
        exists ==> r.content is None,
        !exists ==> r.content is Some && r.content->0@.len() == 0,
{
    let path = new_template_path(dir, name);
    if exists {
        OpenPlan { path, content: None }
    } else {
        OpenPlan { path, content: Some(String::new()) }
    }
}

/// The stage an editing session has reached.
#[derive(Debug, Clone, Copy, PartialEq, Eq, Structural)]
pub enum Stage {
    /// Nothing done yet.
    Start,
    /// Waiting for the new note to be written.
    Writing,
    /// Waiting for the viewer to start.
    StartingViewer,
    /// Waiting for the editor to exit.
    Editing,
    /// Waiting for the viewer to be stopped.
    StoppingViewer,
    /// The session is over.
    Finished,
}

/// What the outside world reports to the session.
#[derive(Debug, Clone, Copy, PartialEq, Eq, Structural)]
pub enum Event {
    /// The session is asked to begin.
    Begin,
    /// The new note was written, or could not be.
    Written { ok: bool },
    /// The viewer started, or could not.
    ViewerStarted { ok: bool },
    /// The editor ran and exited successfully, or failed to start or exited
    /// with an error.
    EditorExited { ok: bool },
    /// The request to stop the viewer was made, whatever it gave.
    ViewerStopped,
}

/// What the session asks the outside world to do next.
#[derive(Debug, Clone, Copy, PartialEq, Eq, Structural)]
pub enum Action {
    /// Write the planned content to the note's path.
    WriteNote,
    /// Start the viewer on the note's path.
    StartViewer,
    /// Run the editor on the note's path and wait for it.
    RunEditor,
    /// Stop the viewer.
    StopViewer,
    /// Nothing more to do. `ok` says whether the note was opened in the
    /// editor without error.
    Finish { ok: bool },
    /// The event does not fit the stage: wait for another one.
    Wait,
}

/// The state of an editing session.
#[derive(Debug, Clone, Copy, PartialEq, Eq, Structural)]
pub struct Session {
    pub stage: Stage,
    /// The note is new and its content must be written first.
    pub write_first: bool,
    /// A viewer was started and has not been stopped.
    pub viewer_running: bool,
    /// The editor ran without error.
    pub editor_ok: bool,
}

impl Session {
    /// A session that has not begun. `write_first` is set for a new note.
    pub fn new(write_first: bool) -> (r: Session)
        ensures
            r == (Session { stage: Stage::Start, write_first, viewer_running: false, editor_ok: false }),
    {
        Session { stage: Stage::Start, write_first, viewer_running: false, editor_ok: false }
    }

    /// A session is consistent when a viewer runs only while the editor is
    /// awaited or the viewer is being stopped.
    pub open spec fn wf(self) -> bool {
        self.viewer_running ==> (self.stage == Stage::Editing || self.stage == Stage::StoppingViewer)
    }

    /// The next state and action after `event`. The note is written before
    /// any process starts; a viewer that started is always stopped before
    /// the session finishes; a failed viewer start does not stop the editor.
    pub fn step(self, event: Event) -> (r: (Session, Action))
        requires
            self.wf(),
        ensures
            r.0.wf(),
            r.0.write_first == self.write_first,
            r.1 is Finish ==> r.0.stage == Stage::Finished && !r.0.viewer_running,
            match (self.stage, event) {
                (Stage::Start, Event::Begin) => if self.write_first {
                    r.0 == (Session { stage: Stage::Writing, ..self }) && r.1 == Action::WriteNote
                } else {
                    r.0 == (Session { stage: Stage::StartingViewer, ..self }) && r.1
                        == Action::StartViewer
                },
                (Stage::Writing, Event::Written { ok }) => if ok {
                    r.0 == (Session { stage: Stage::StartingViewer, ..self }) && r.1
                        == Action::StartViewer
                } else {
                    r.0 == (Session { stage: Stage::Finished, ..self }) && r.1 == (Action::Finish {
                        ok: false,
                    })
                },
                (Stage::StartingViewer, Event::ViewerStarted { ok }) => {
                    &&& r.0 == (Session { stage: Stage::Editing, viewer_running: ok, ..self })
                    &&& r.1 == Action::RunEditor
                },
                (Stage::Editing, Event::EditorExited { ok }) => if self.viewer_running {
                    r.0 == (Session { stage: Stage::StoppingViewer, editor_ok: ok, ..self }) && r.1
                        == Action::StopViewer
                } else {
                    r.0 == (Session { stage: Stage::Finished, editor_ok: ok, ..self }) && r.1
                        == (Action::Finish { ok })
                },
                (Stage::StoppingViewer, Event::ViewerStopped) => {
                    &&& r.0 == (Session { stage: Stage::Finished, viewer_running: false, ..self })
                    &&& r.1 == (Action::Finish { ok: self.editor_ok })
                },
                _ => r.0 == self && r.1 == Action::Wait,
            },
    {
        match (self.stage, event) {
            (Stage::Start, Event::Begin) => {
                if self.write_first {
                    (Session { stage: Stage::Writing, ..self }, Action::WriteNote)
                } else {
                    (Session { stage: Stage::StartingViewer, ..self }, Action::StartViewer)
                }
            },
            (Stage::Writing, Event::Written { ok }) => {
                if ok {
                    (Session { stage: Stage::StartingViewer, ..self }, Action::StartViewer)
                } else {
                    (Session { stage: Stage::Finished, ..self }, Action::Finish { ok: false })
                }
            },
            (Stage::StartingViewer, Event::ViewerStarted { ok }) => {
                (Session { stage: Stage::Editing, viewer_running: ok, ..self }, Action::RunEditor)
            },
            (Stage::Editing, Event::EditorExited { ok }) => {
                if self.viewer_running {
                    (
                        Session { stage: Stage::StoppingViewer, editor_ok: ok, ..self },
                        Action::StopViewer,
                    )
                } else {
                    (Session { stage: Stage::Finished, editor_ok: ok, ..self }, Action::Finish { ok })
                }
            },
            (Stage::StoppingViewer, Event::ViewerStopped) => {
                (
                    Session { stage: Stage::Finished, viewer_running: false, ..self },
                    Action::Finish { ok: self.editor_ok },
                )
            },
            _ => (self, Action::Wait),
        }
    }
}

} // verus!
