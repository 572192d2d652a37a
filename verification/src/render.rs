//! What the browser hands its host: after an event, what to do next; and the
//! changes to what is shown.

use vstd::prelude::*;
use crate::model::{ActionModel, RenderModel};

verus! {

/// What the browser tells its host after an event.
#[derive(Debug, PartialEq, Eq)]
pub enum Action {
    /// Nothing to do.
    NoOp,
    /// Read this directory, and hand what was read to `PathSelector::descend`.
    Load(String),
    /// The browser now shows this directory.
    Descended(String),
    /// The directory could not be entered; this is the message to show.
    Failed(String),
}

impl View for Action {
    type V = ActionModel;

    open spec fn view(&self) -> ActionModel {
        match self {
            Action::NoOp => ActionModel::NoOp,
            Action::Load(target) => ActionModel::Load(target@),
            Action::Descended(dir) => ActionModel::Descended(dir@),
            Action::Failed(message) => ActionModel::Failed(message@),
        }
    }
}

/// One change to what the host shows.
#[derive(Debug, PartialEq, Eq)]
pub enum RenderCommand {
    /// Row `row` reads `text`, unstyled.
    RowPlain { row: usize, text: String },
    /// Row `row` reads `text`, emphasized: it has the focus.
    RowEmphasized { row: usize, text: String },
    /// The banner reads `text`: the open directory.
    Banner { text: String },
    /// The status line reads `message`, or is empty.
    Status { message: Option<String> },
}

impl View for RenderCommand {
    type V = RenderModel;

    open spec fn view(&self) -> RenderModel {
        match self {
            RenderCommand::RowPlain { row, text } => RenderModel::RowPlain {
                row: *row as int,
                text: text@,
            },
            RenderCommand::RowEmphasized { row, text } => RenderModel::RowEmphasized {
                row: *row as int,
                text: text@,
            },
            RenderCommand::Banner { text } => RenderModel::Banner { text: text@ },
            RenderCommand::Status { message } => RenderModel::Status {
                message: match message {
                    Some(t) => Some(t@),
                    None => None,
                },
            },
        }
    }
}

/// The changes that `commands` holds, as text, in the same order.
pub open spec fn shown(commands: Seq<RenderCommand>) -> Seq<RenderModel> {
    Seq::new(commands.len(), |i: int| commands[i]@)
}

} // verus!
