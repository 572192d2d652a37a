//! The browser itself: a directory snapshot, the focused row, the time of the
//! press that a second press can pair with, and the last failure.

use vstd::prelude::*;
use vstd::string::StringExecFns;
use crate::error::DirectoryError;
use crate::listing::{is_listing, sentinel_name, texts};
use crate::model::{
    failure_message, target_among, ActionModel, FocusMove, InputEvent, RenderModel, SelectorModel,
};
use crate::paths::{join_dir, parent_dir, parent_of};
use crate::render::{shown, Action, RenderCommand};
use crate::snapshot::{failed_with, all_read, read_names, DirectorySnapshot, Reading};

verus! {

/// A second press pairs with the first if it comes less than this many
/// milliseconds after it, unless a selector is told otherwise.
pub const DOUBLE_CLICK_MS: u64 = 500;

/// Builds the message shown when `target` could not be entered.
pub fn failure_text(target: &str, reason: &str) -> (message: String)
    ensures
        message@ == failure_message(target@, reason@),
{
    let mut message = String::from_str("failed to enter dir `");
    message.append(target);
    message.append("`, reason: \"");
    message.append(reason);
    message.append("\"");
    message
}

/// Picks the directory that a double press on `entry` enters: `parent` for
/// `..` where there is a parent, else `child`, the entry joined to the open
/// directory.
pub fn pick_target(entry: &String, parent: Option<String>, child: String) -> (target: String)
    ensures
        target@ == target_among(
            entry@,
            match parent {
                Some(p) => Some(p@),
                None => None,
            },
            child@,
        ),
{
    let dots = sentinel_name();
    if *entry == dots {
        match parent {
            Some(p) => p,
            None => child,
        }
    } else {
        child
    }
}

/// What the browser answers to an event: the changes to show, and what the
/// host is to do next.
#[derive(Debug, PartialEq, Eq)]
pub struct Response {
    /// The changes to what is shown, in the order to make them.
    pub commands: Vec<RenderCommand>,
    /// What the host is to do next.
    pub action: Action,
}

/// A directory browser: shows the entries of one directory, keeps one of
/// them focused, and enters the directory that is pressed twice in a row.
#[derive(Debug)]
pub struct PathSelector {
    snapshot: DirectorySnapshot,
    focus: usize,
    last_click: Option<u64>,
    err_msg: Option<String>,
    window_ms: u64,
}

impl View for PathSelector {
    type V = SelectorModel;

    closed spec fn view(&self) -> SelectorModel {
        SelectorModel {
            dir: self.snapshot.dir(),
            entries: self.snapshot.names(),
            focus: self.focus as int,
            last_press: self.last_click,
            error: match self.err_msg {
                Some(m) => Some(m@),
                None => None,
            },
            window: self.window_ms,
        }
    }
}

impl PathSelector {
    /// The entries are in listing order, and the focus is on a row, or at 0
    /// where there is none.
    #[verifier::type_invariant]
    spec fn well_formed(&self) -> bool {
        self@.wf()
    }

    /// A selector on the directory of `snapshot`: the focus on the first row,
    /// no press to pair with, no message, the usual window.
    pub fn from_snapshot(snapshot: DirectorySnapshot) -> (selector: PathSelector)
        ensures
            selector@ == SelectorModel::opened(snapshot.dir(), snapshot.names(), DOUBLE_CLICK_MS),
            selector@.wf(),
    {
        proof {
            use_type_invariant(&snapshot);
        }
        PathSelector {
            snapshot,
            focus: 0,
            last_click: None,
            err_msg: None,
            window_ms: DOUBLE_CLICK_MS,
        }
    }

    /// A selector on the directory at `path`, from what a host read there.
    /// The entry `..` is listed if and only if `path` has a parent.
    ///
    /// Fails with the first failure of the reading, and only if there was one.
    pub fn with_path(path: String, reading: Reading) -> (r: Result<PathSelector, DirectoryError>)
        ensures
            r is Ok <==> all_read(reading),
            match r {
                Ok(selector) => {
                    &&& selector@.wf()
                    &&& selector@ == SelectorModel::opened(
                        path@,
                        selector@.entries,
                        DOUBLE_CLICK_MS,
                    )
                    &&& is_listing(
                        selector@.entries,
                        read_names(reading),
                        parent_of(path@) is Some,
                    )
                },
                Err(e) => failed_with(reading, e@),
            },
    {
        match DirectorySnapshot::construct(path, reading) {
            Ok(snapshot) => Ok(Self::from_snapshot(snapshot)),
            Err(e) => Err(e),
        }
    }

    /// The same selector with another window for the double press.
    pub fn with_double_click_window(self, window_ms: u64) -> (selector: PathSelector)
        ensures
            selector@ == (SelectorModel { window: window_ms, ..self@ }),
            selector@.wf(),
    {
        proof {
            use_type_invariant(&self);
        }
        let mut selector = self;
        selector.window_ms = window_ms;
        selector
    }

    /// Whether there is an entry to focus.
    pub fn has_focus(&self) -> (b: bool)
        ensures
            b == (self@.entries.len() > 0),
    {
        self.snapshot.entries().len() > 0
    }

    /// The number of entries.
    pub fn entry_count(&self) -> (n: usize)
        ensures
            n == self@.entries.len(),
    {
        self.snapshot.entries().len()
    }

    /// The focused row.
    pub fn focus_index(&self) -> (row: usize)
        ensures
            row == self@.focus,
            self@.wf(),
    {
        proof {
            use_type_invariant(self);
        }
        self.focus
    }

    /// The open directory.
    pub fn current_dir(&self) -> (dir: &String)
        ensures
            dir@ == self@.dir,
    {
        self.snapshot.path()
    }

    /// The entries in the order listed.
    pub fn entries(&self) -> (entries: &Vec<String>)
        ensures
            texts(entries@) == self@.entries,
    {
        self.snapshot.entries()
    }

    /// The message of the last failed descent, if no descent succeeded since.
    pub fn error_message(&self) -> (message: Option<&String>)
        ensures
            message is Some <==> self@.error is Some,
            message is Some ==> message->0@ == self@.error->0,
    {
        self.err_msg.as_ref()
    }

    /// The open directory and the focused entry. Joined, the two are the
    /// path that the user points at.
    pub fn focused_path(&self) -> (r: (&String, &String))
        requires
            self@.entries.len() > 0,
        ensures
            r.0@ == self@.dir,
            r.1@ == self@.entries[self@.focus],
    {
        proof {
            use_type_invariant(self);
        }
        (self.snapshot.path(), &self.snapshot.entries()[self.focus])
    }

    /// The two changes that move the emphasis from row `from` to row `to`.
    pub fn recolor(&self, from: usize, to: usize) -> (commands: Vec<RenderCommand>)
        requires
            self@.has_row(from as int),
            self@.has_row(to as int),
        ensures
            shown(commands@) == self@.recolored(from as int, to as int),
    {
        let entries = self.snapshot.entries();
        let mut commands: Vec<RenderCommand> = Vec::new();
        commands.push(RenderCommand::RowPlain { row: from, text: entries[from].clone() });
        commands.push(RenderCommand::RowEmphasized { row: to, text: entries[to].clone() });
        assert(shown(commands@) =~= self@.recolored(from as int, to as int));
        commands
    }

    /// Everything the host shows, from the top: the banner, the rows, the
    /// status line.
    pub fn render(&self) -> (commands: Vec<RenderCommand>)
        ensures
            shown(commands@) == self@.rendered(),
    {
        let entries = self.snapshot.entries();
        let mut commands: Vec<RenderCommand> = Vec::new();
        commands.push(RenderCommand::Banner { text: self.snapshot.path().clone() });
        let mut row: usize = 0;
        while row < entries.len()
            invariant
                row <= entries.len(),
                texts(entries@) == self@.entries,
                commands.len() == row + 1,
                forall|i: int| 0 <= i <= row ==> (#[trigger] commands@[i])@ == self@.rendered()[i],
            decreases entries.len() - row,
        {
            let text = entries[row].clone();
            if row == self.focus {
                commands.push(RenderCommand::RowEmphasized { row, text });
            } else {
                commands.push(RenderCommand::RowPlain { row, text });
            }
            row += 1;
        }
        let status = match &self.err_msg {
            Some(m) => Some(m.clone()),
            None => None,
        };
        commands.push(RenderCommand::Status { message: status });
        assert(shown(commands@) =~= self@.rendered());
        commands
    }

    /// Moves the focus one row up or down; at the first and at the last row
    /// it stays. Returns the changes to show: none if the focus stayed.
    pub fn move_focus(&mut self, step: FocusMove) -> (commands: Vec<RenderCommand>)
        ensures
            final(self)@ == old(self)@.moved(step),
            final(self)@.wf(),
            shown(commands@) == old(self)@.step_changes(step),
    {
        proof {
            use_type_invariant(&*self);
        }
        let from = self.focus;
        let count = self.snapshot.entries().len();
        let to = match step {
            FocusMove::Previous => if from > 0 {
                from - 1
            } else {
                from
            },
            FocusMove::Next => if from < count && from + 1 < count {
                from + 1
            } else {
                from
            },
        };
        if to == from {
            let commands: Vec<RenderCommand> = Vec::new();
            assert(shown(commands@) =~= Seq::<RenderModel>::empty());
            commands
        } else {
            self.focus = to;
            self.recolor(from, to)
        }
    }

    /// Puts the focus on `row`, as when the host's own handling of an event
    /// moved it there. Returns the changes to show. A `row` that is no row
    /// changes nothing.
    pub fn focus_on(&mut self, row: usize) -> (commands: Vec<RenderCommand>)
        ensures
            final(self)@ == old(self)@.focused_on(row as int),
            final(self)@.wf(),
            shown(commands@) == old(self)@.row_changes(row as int),
    {
        proof {
            use_type_invariant(&*self);
        }
        if row < self.snapshot.entries().len() {
            let from = self.focus;
            self.focus = row;
            self.recolor(from, row)
        } else {
            let commands: Vec<RenderCommand> = Vec::new();
            assert(shown(commands@) =~= Seq::<RenderModel>::empty());
            commands
        }
    }

    /// Whether a press at `now` is the second of a pair.
    pub fn is_double_press(&self, now: u64) -> (b: bool)
        ensures
            b == self@.is_double_press(now),
    {
        match self.last_click {
            Some(last) => now < last || now - last < self.window_ms,
            None => false,
        }
    }

    /// Takes a press on row `target_index` at the time `now`, in
    /// milliseconds. The pressed row gets the focus. The second press of a
    /// pair asks the host to read the directory to enter; any other press
    /// becomes the one to pair with. A press on no row changes nothing.
    pub fn handle_press(&mut self, target_index: usize, now: u64) -> (action: Action)
        ensures
            final(self)@ == old(self)@.pressed(target_index as int, now),
            final(self)@.wf(),
            action@ == old(self)@.press_action(target_index as int, now),
    {
        proof {
            use_type_invariant(&*self);
        }
        if target_index >= self.snapshot.entries().len() {
            return Action::NoOp;
        }
        self.focus = target_index;
        if self.is_double_press(now) {
            self.last_click = None;
            let dir = self.snapshot.path();
            let entry = &self.snapshot.entries()[target_index];
            let parent = parent_dir(dir.as_str());
            let child = join_dir(dir.as_str(), entry.as_str());
            Action::Load(pick_target(entry, parent, child))
        } else {
            self.last_click = Some(now);
            Action::NoOp
        }
    }

    /// Takes an event from the host: moves the focus or takes the press, and
    /// answers with the changes to show and with what to do next.
    pub fn on_event(&mut self, event: InputEvent) -> (response: Response)
        ensures
            final(self)@ == old(self)@.after(event),
            final(self)@.wf(),
            shown(response.commands@) == old(self)@.changes_on(event),
            response.action@ == old(self)@.action_on(event),
    {
        match event {
            InputEvent::FocusPrevious => Response {
                commands: self.move_focus(FocusMove::Previous),
                action: Action::NoOp,
            },
            InputEvent::FocusNext => Response {
                commands: self.move_focus(FocusMove::Next),
                action: Action::NoOp,
            },
            InputEvent::FocusAt { row } => Response {
                commands: self.focus_on(row),
                action: Action::NoOp,
            },
            InputEvent::Press { row, now } => {
                let commands = self.focus_on(row);
                let action = self.handle_press(row, now);
                Response { commands, action }
            },
        }
    }

    /// Ends a descent into `target` with what became of reading it. On a
    /// snapshot the selector shows that directory afresh and keeps only its
    /// window. On a failure it stays where it is and holds the message. In
    /// both cases no press is left to pair with.
    pub fn finish_descent(
        &mut self,
        target: &String,
        outcome: Result<DirectorySnapshot, DirectoryError>,
    ) -> (action: Action)
        ensures
            final(self)@.wf(),
            match outcome {
                Ok(snapshot) => {
                    &&& final(self)@ == SelectorModel::opened(
                        snapshot.dir(),
                        snapshot.names(),
                        old(self)@.window,
                    )
                    &&& action@ == ActionModel::Descended(snapshot.dir())
                },
                Err(e) => {
                    &&& final(self)@ == old(self)@.failed(failure_message(target@, e@))
                    &&& action@ == ActionModel::Failed(failure_message(target@, e@))
                },
            },
    {
        proof {
            use_type_invariant(&*self);
        }
        match outcome {
            Ok(snapshot) => {
                let dir = snapshot.path().clone();
                let window_ms = self.window_ms;
                *self = Self::from_snapshot(snapshot).with_double_click_window(window_ms);
                Action::Descended(dir)
            },
            Err(e) => {
                let message = failure_text(target.as_str(), e.reason().as_str());
                self.err_msg = Some(message.clone());
                self.last_click = None;
                Action::Failed(message)
            },
        }
    }

    /// Ends a descent into `target` with what the host read there: enters
    /// the directory if it could be read, else stays and holds the message
    /// with the first failure of the reading.
    pub fn descend(&mut self, target: String, reading: Reading) -> (action: Action)
        ensures
            final(self)@.wf(),
            all_read(reading) ==> {
                &&& action@ == ActionModel::Descended(target@)
                &&& final(self)@ == SelectorModel::opened(
                    target@,
                    final(self)@.entries,
                    old(self)@.window,
                )
                &&& is_listing(
                    final(self)@.entries,
                    read_names(reading),
                    parent_of(target@) is Some,
                )
            },
            !all_read(reading) ==> {
                &&& action matches Action::Failed(message)
                &&& final(self)@ == old(self)@.failed(message@)
                &&& exists|reason: Seq<char>|
                    failed_with(reading, reason) && message@ == failure_message(
                        target@,
                        reason,
                    )
            },
    {
        let outcome = DirectorySnapshot::construct(target.clone(), reading);
        self.finish_descent(&target, outcome)
    }
}

} // verus!
