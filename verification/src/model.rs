//! The browser as mathematics: its state, and what each event makes of it.
//! The executable selector is held to these functions, and the laws below are
//! proved of them.

use vstd::prelude::*;
use crate::listing::sentinel;
use crate::order::is_sorted;
use crate::paths::{joined, parent_of};

verus! {

/// A step of the focus.
#[derive(Clone, Copy, Debug, PartialEq, Eq)]
pub enum FocusMove {
    /// To the row above.
    Previous,
    /// To the row below.
    Next,
}

/// What a host reports to the browser.
#[derive(Clone, Copy, Debug, PartialEq, Eq)]
pub enum InputEvent {
    /// The key for the row above.
    FocusPrevious,
    /// The key for the row below.
    FocusNext,
    /// The host's own handling of an event left the focus on `row`.
    FocusAt { row: usize },
    /// A press on `row` at the time `now`, in milliseconds.
    Press { row: usize, now: u64 },
}

/// What the browser tells its host after an event, as text.
pub enum ActionModel {
    /// Nothing to do.
    NoOp,
    /// Read this directory, and hand what was read to `descend`.
    Load(Seq<char>),
    /// The browser now shows this directory.
    Descended(Seq<char>),
    /// The directory could not be entered; this is the message to show.
    Failed(Seq<char>),
}

/// One change to what the host shows, as text.
pub enum RenderModel {
    /// Row `row` reads `text`, unstyled.
    RowPlain { row: int, text: Seq<char> },
    /// Row `row` reads `text`, emphasized: it has the focus.
    RowEmphasized { row: int, text: Seq<char> },
    /// The banner reads `text`: the open directory.
    Banner { text: Seq<char> },
    /// The status line reads `message`, or is empty.
    Status { message: Option<Seq<char>> },
}

/// The message shown when the directory `target` could not be entered for
/// the reason `reason`.
pub open spec fn failure_message(target: Seq<char>, reason: Seq<char>) -> Seq<char> {
    "failed to enter dir `"@ + target + "`, reason: \""@ + reason + "\""@
}

/// The directory that a double press on `entry` enters: the parent for `..`
/// where there is a parent, else the entry joined to the open directory,
/// which is `child`.
pub open spec fn target_among(
    entry: Seq<char>,
    parent: Option<Seq<char>>,
    child: Seq<char>,
) -> Seq<char> {
    if entry == sentinel() && parent is Some {
        parent->0
    } else {
        child
    }
}

/// The state of the browser.
pub struct SelectorModel {
    /// The open directory.
    pub dir: Seq<char>,
    /// Its entries, in listing order.
    pub entries: Seq<Seq<char>>,
    /// The focused row; 0 and without meaning where there is no entry.
    pub focus: int,
    /// When the press was that a second press can pair with, if there is one.
    pub last_press: Option<u64>,
    /// The message of the last failed descent, until a descent succeeds.
    pub error: Option<Seq<char>>,
    /// A second press pairs with the first if it comes less than this many
    /// milliseconds after it.
    pub window: u64,
}

impl SelectorModel {
    /// The entries are in listing order and the focus is on one of them, or
    /// at 0 where there is none.
    pub open spec fn wf(self) -> bool {
        &&& is_sorted(self.entries)
        &&& 0 <= self.focus
        &&& self.focus < self.entries.len() || self.focus == 0
    }

    /// The state on opening `dir` with the entries `entries`: the focus on
    /// the first row, no press to pair with, no message.
    pub open spec fn opened(dir: Seq<char>, entries: Seq<Seq<char>>, window: u64) -> SelectorModel {
        SelectorModel { dir, entries, focus: 0, last_press: None, error: None, window }
    }

    /// `row` is a row of the listing.
    pub open spec fn has_row(self, row: int) -> bool {
        0 <= row < self.entries.len()
    }

    /// The state after a step of the focus: one row up or down, or unchanged
    /// at the first and at the last row.
    pub open spec fn moved(self, step: FocusMove) -> SelectorModel {
        match step {
            FocusMove::Previous => if self.focus > 0 {
                SelectorModel { focus: self.focus - 1, ..self }
            } else {
                self
            },
            FocusMove::Next => if self.focus + 1 < self.entries.len() {
                SelectorModel { focus: self.focus + 1, ..self }
            } else {
                self
            },
        }
    }

    /// The state after the host put the focus on `row`; unchanged if there
    /// is no such row.
    pub open spec fn focused_on(self, row: int) -> SelectorModel {
        if self.has_row(row) {
            SelectorModel { focus: row, ..self }
        } else {
            self
        }
    }

    /// A press at `now` is the second of a pair: there is a press to pair
    /// with, and less than the window lies between the two.
    pub open spec fn is_double_press(self, now: u64) -> bool {
        self.last_press matches Some(last) && now - last < self.window
    }

    /// The directory that a double press on row `row` enters.
    pub open spec fn target(self, row: int) -> Seq<char> {
        target_among(self.entries[row], parent_of(self.dir), joined(self.dir, self.entries[row]))
    }

    /// The state after a press on `row` at `now`. The pressed row has the
    /// focus. The second press of a pair uses the pair up; any other press
    /// is one to pair with. A press on no row changes nothing.
    pub open spec fn pressed(self, row: int, now: u64) -> SelectorModel {
        if !self.has_row(row) {
            self
        } else if self.is_double_press(now) {
            SelectorModel { focus: row, last_press: None, ..self }
        } else {
            SelectorModel { focus: row, last_press: Some(now), ..self }
        }
    }

    /// What a press on `row` at `now` asks of the host: to read the target
    /// if the press is the second of a pair, else nothing.
    pub open spec fn press_action(self, row: int, now: u64) -> ActionModel {
        if self.has_row(row) && self.is_double_press(now) {
            ActionModel::Load(self.target(row))
        } else {
            ActionModel::NoOp
        }
    }

    /// The state after a descent failed with `message`: as before, with the
    /// message, and with no press to pair with.
    pub open spec fn failed(self, message: Seq<char>) -> SelectorModel {
        SelectorModel { error: Some(message), last_press: None, ..self }
    }

    /// The two changes that move the emphasis from row `from` to row `to`:
    /// first `from` unstyled, then `to` emphasized.
    pub open spec fn recolored(self, from: int, to: int) -> Seq<RenderModel> {
        seq![
            RenderModel::RowPlain { row: from, text: self.entries[from] },
            RenderModel::RowEmphasized { row: to, text: self.entries[to] },
        ]
    }

    /// The changes to show after a step of the focus: none if the focus
    /// stayed, else the emphasis moves with it.
    pub open spec fn step_changes(self, step: FocusMove) -> Seq<RenderModel> {
        if self.moved(step).focus == self.focus {
            Seq::empty()
        } else {
            self.recolored(self.focus, self.moved(step).focus)
        }
    }

    /// The changes to show after the host put the focus on `row`: the
    /// emphasis moves there, also where it was there already; none if there
    /// is no such row.
    pub open spec fn row_changes(self, row: int) -> Seq<RenderModel> {
        if self.has_row(row) {
            self.recolored(self.focus, row)
        } else {
            Seq::empty()
        }
    }

    /// The state after an event.
    pub open spec fn after(self, event: InputEvent) -> SelectorModel {
        match event {
            InputEvent::FocusPrevious => self.moved(FocusMove::Previous),
            InputEvent::FocusNext => self.moved(FocusMove::Next),
            InputEvent::FocusAt { row } => self.focused_on(row as int),
            InputEvent::Press { row, now } => self.pressed(row as int, now),
        }
    }

    /// The changes to show after an event.
    pub open spec fn changes_on(self, event: InputEvent) -> Seq<RenderModel> {
        match event {
            InputEvent::FocusPrevious => self.step_changes(FocusMove::Previous),
            InputEvent::FocusNext => self.step_changes(FocusMove::Next),
            InputEvent::FocusAt { row } => self.row_changes(row as int),
            InputEvent::Press { row, .. } => self.row_changes(row as int),
        }
    }

    /// What an event asks of the host: only a press asks for anything.
    pub open spec fn action_on(self, event: InputEvent) -> ActionModel {
        match event {
            InputEvent::Press { row, now } => self.press_action(row as int, now),
            _ => ActionModel::NoOp,
        }
    }

    /// How row `row` is shown: emphasized if it has the focus, else unstyled.
    pub open spec fn row_shown(self, row: int) -> RenderModel {
        if row == self.focus {
            RenderModel::RowEmphasized { row, text: self.entries[row] }
        } else {
            RenderModel::RowPlain { row, text: self.entries[row] }
        }
    }

    /// Everything the host shows: the banner, the rows from the first to the
    /// last, the status line.
    pub open spec fn rendered(self) -> Seq<RenderModel> {
        Seq::new(
            self.entries.len() + 2,
            |i: int|
                if i == 0 {
                    RenderModel::Banner { text: self.dir }
                } else if i <= self.entries.len() {
                    self.row_shown(i - 1)
                } else {
                    RenderModel::Status { message: self.error }
                },
        )
    }
}

/// No event breaks a state: the entries stay in listing order and the focus
/// stays on a row.
pub proof fn lemma_events_keep_wf(s: SelectorModel, event: InputEvent, message: Seq<char>)
    requires
        s.wf(),
    ensures
        s.after(event).wf(),
        s.failed(message).wf(),
        s.after(event).dir == s.dir,
        s.after(event).entries == s.entries,
        s.after(event).error == s.error,
        s.after(event).window == s.window,
{
}

/// The focus does not wrap: a step down from the last row and a step up from
/// the first row change nothing.
pub proof fn lemma_focus_stops_at_ends(s: SelectorModel)
    requires
        s.wf(),
    ensures
        s.focus == s.entries.len() - 1 ==> s.moved(FocusMove::Next) == s,
        s.focus == 0 ==> s.moved(FocusMove::Previous) == s,
        s.entries.len() == 0 ==> s.moved(FocusMove::Next) == s,
{
}

/// Away from the ends the focus moves by one row, and a step back undoes a
/// step forth.
pub proof fn lemma_focus_steps_by_one(s: SelectorModel)
    requires
        s.wf(),
    ensures
        s.focus + 1 < s.entries.len() ==> s.moved(FocusMove::Next).focus == s.focus + 1,
        s.focus > 0 ==> s.moved(FocusMove::Previous).focus == s.focus - 1,
        s.focus + 1 < s.entries.len() ==> s.moved(FocusMove::Next).moved(FocusMove::Previous)
            == s,
        s.focus > 0 ==> s.moved(FocusMove::Previous).moved(FocusMove::Next) == s,
{
}

/// Two presses on one row, the first of which pairs with nothing earlier: the
/// second asks to enter the row's target if and only if it comes less than
/// the window after the first. If it comes later, it changes nothing but the
/// time to pair with.
pub proof fn lemma_second_press_decides(s: SelectorModel, row: int, first: u64, second: u64)
    requires
        s.wf(),
        s.has_row(row),
        !s.is_double_press(first),
    ensures
        s.press_action(row, first) == ActionModel::NoOp,
        second - first < s.window ==> s.pressed(row, first).press_action(row, second)
            == ActionModel::Load(s.target(row)),
        second - first >= s.window ==> s.pressed(row, first).press_action(row, second)
            == ActionModel::NoOp,
        second - first >= s.window ==> s.pressed(row, first).pressed(row, second)
            == (SelectorModel { last_press: Some(second), ..s.pressed(row, first) }),
        s.pressed(row, first).pressed(row, second).last_press is None <==> second - first
            < s.window,
{
}

/// A double press on `..` in a directory that has a parent asks for the
/// parent, and the state on opening it is rooted there with the focus on the
/// first row.
pub proof fn lemma_double_press_on_sentinel(
    s: SelectorModel,
    row: int,
    now: u64,
    entries: Seq<Seq<char>>,
)
    requires
        s.wf(),
        s.has_row(row),
        s.is_double_press(now),
        s.entries[row] == sentinel(),
        parent_of(s.dir) is Some,
    ensures
        s.press_action(row, now) == ActionModel::Load(parent_of(s.dir)->0),
        SelectorModel::opened(s.target(row), entries, s.window).dir == parent_of(s.dir)->0,
        SelectorModel::opened(s.target(row), entries, s.window).focus == 0,
{
}

/// A double press on any other entry asks for that entry joined to the open
/// directory. So does one on `..` where the directory has no parent.
pub proof fn lemma_double_press_on_entry(
    s: SelectorModel,
    row: int,
    now: u64,
    entries: Seq<Seq<char>>,
)
    requires
        s.wf(),
        s.has_row(row),
        s.is_double_press(now),
        s.entries[row] != sentinel() || parent_of(s.dir) is None,
    ensures
        s.press_action(row, now) == ActionModel::Load(joined(s.dir, s.entries[row])),
        SelectorModel::opened(s.target(row), entries, s.window).dir == joined(
            s.dir,
            s.entries[row],
        ),
        SelectorModel::opened(s.target(row), entries, s.window).focus == 0,
{
}

/// A failed descent leaves the directory, its entries and the focus as they
/// were, and its message holds the target and the reason, each word for word.
pub proof fn lemma_failure_keeps_place(s: SelectorModel, target: Seq<char>, reason: Seq<char>)
    ensures
        s.failed(failure_message(target, reason)).dir == s.dir,
        s.failed(failure_message(target, reason)).entries == s.entries,
        s.failed(failure_message(target, reason)).focus == s.focus,
        s.failed(failure_message(target, reason)).window == s.window,
        ({
            let message = failure_message(target, reason);
            let a = "failed to enter dir `"@.len() as int;
            let b = a + target.len() + "`, reason: \""@.len();
            &&& message.subrange(a, a + target.len()) == target
            &&& message.subrange(b, b + reason.len()) == reason
        }),
{
    let message = failure_message(target, reason);
    let a = "failed to enter dir `"@.len() as int;
    let b = a + target.len() + "`, reason: \""@.len();
    assert(message.subrange(a, a + target.len()) =~= target);
    assert(message.subrange(b, b + reason.len()) =~= reason);
}

/// What is shown after the change `change` was made to `screen`, where
/// `screen` is laid out as `SelectorModel::rendered` lays it out: the banner,
/// the rows, the status line. A change to a row that is not there is dropped.
pub open spec fn patched(screen: Seq<RenderModel>, change: RenderModel) -> Seq<RenderModel> {
    match change {
        RenderModel::RowPlain { row, .. } | RenderModel::RowEmphasized { row, .. } => if 0 <= row
            < screen.len() - 2 {
            screen.update(row + 1, change)
        } else {
            screen
        },
        RenderModel::Banner { .. } => screen.update(0, change),
        RenderModel::Status { .. } => screen.update(screen.len() - 1, change),
    }
}

/// What is shown after the changes `changes` were made to `screen`, one
/// after the other.
pub open spec fn patched_all(screen: Seq<RenderModel>, changes: Seq<RenderModel>) -> Seq<
    RenderModel,
>
    decreases changes.len(),
{
    if changes.len() == 0 {
        screen
    } else {
        patched_all(patched(screen, changes[0]), changes.drop_first())
    }
}

/// The changes keep the screen true to the state: what an event answers
/// with, made to what was shown before, gives what is to be shown after; and
/// so does the message of a failed descent, put in the status line.
pub proof fn lemma_changes_keep_screen(s: SelectorModel, event: InputEvent, message: Seq<char>)
    requires
        s.wf(),
    ensures
        patched_all(s.rendered(), s.changes_on(event)) == s.after(event).rendered(),
        patched(s.rendered(), RenderModel::Status { message: Some(message) }) == s.failed(
            message,
        ).rendered(),
{
    let changes = s.changes_on(event);
    let before = s.rendered();
    let after = s.after(event).rendered();
    if changes.len() == 0 {
        assert(s.after(event).focus == s.focus);
        assert(before =~= after);
    } else {
        let from = s.focus;
        let to = s.after(event).focus;
        assert(changes == s.recolored(from, to));
        let first = patched(before, changes[0]);
        let rest = changes.drop_first();
        let second = patched(first, rest[0]);
        assert(rest.drop_first().len() == 0);
        assert(patched_all(second, rest.drop_first()) == second);
        assert(patched_all(first, rest) == patched_all(second, rest.drop_first()));
        assert(patched_all(before, changes) == second);
        assert(second =~= after);
    }
    assert(patched(before, RenderModel::Status { message: Some(message) }) =~= s.failed(
        message,
    ).rendered());
}

} // verus!
