//! What a build asks for and what it is told.
//!
//! A build never reads or writes the file system itself, and it never runs
//! the templating engine. It hands out an [`Action`], the caller carries it
//! out and answers with an [`Event`], and the build decides from the answer
//! what comes next.

use crate::error::{SchabloneError, SchabloneErrorView};
use vstd::prelude::*;

verus! {

/// An entry of a directory as it was listed: its name and whether it is a
/// directory itself.
#[derive(Debug, PartialEq, Eq)]
pub struct Child {
    pub name: String,
    pub is_dir: bool,
}

/// A [`Child`] as contracts see it.
pub struct ChildView {
    pub name: Seq<char>,
    pub is_dir: bool,
}

impl View for Child {
    type V = ChildView;

    open spec fn view(&self) -> ChildView {
        ChildView { name: self.name@, is_dir: self.is_dir }
    }
}

/// A file of the source tree: its path and what it holds.
#[derive(Debug, PartialEq, Eq)]
pub struct Source {
    pub path: String,
    pub content: String,
}

/// A [`Source`] as contracts see it.
pub struct SourceView {
    pub path: Seq<char>,
    pub content: Seq<char>,
}

impl View for Source {
    type V = SourceView;

    open spec fn view(&self) -> SourceView {
        SourceView { path: self.path@, content: self.content@ }
    }
}

/// A template before it is compiled: the key it is to be stored under and
/// its text.
#[derive(Debug, PartialEq, Eq)]
pub struct Template {
    pub key: String,
    pub text: String,
}

/// A [`Template`] as contracts see it.
pub struct TemplateView {
    pub key: Seq<char>,
    pub text: Seq<char>,
}

impl View for Template {
    type V = TemplateView;

    open spec fn view(&self) -> TemplateView {
        TemplateView { key: self.key@, text: self.text@ }
    }
}

/// The views of the items of a list, in the same order.
pub open spec fn views<T: View>(items: Seq<T>) -> Seq<T::V> {
    Seq::new(items.len(), |i: int| items[i]@)
}

/// What the caller is asked to do next.
#[derive(Debug, PartialEq, Eq)]
pub enum Action {
    /// Render the text of `path` as a one-off template.
    RenderName { path: String },
    /// Render the compiled template that is stored under `key`.
    RenderContent { key: String },
    /// Create the directory `target`. It must not exist yet.
    CreateDir { target: String },
    /// Read the file at `path` as text.
    ReadFile { path: String },
    /// Read every file at or below `root`.
    ReadSources { root: String },
    /// Compile these templates together, into an engine that holds no
    /// others, and store each under its key.
    Compile { templates: Vec<Template> },
    /// List the entries of the directory `source`.
    ListDir { source: String },
    /// Create the file `target` and write `content` into it.
    WriteFile { target: String, content: String },
    /// Log `error`: an entry was skipped because of it.
    Report { error: SchabloneError },
    /// Nothing is left to visit.
    Done,
    /// End the process with `code`.
    Exit { code: i32 },
}

/// An [`Action`] as contracts see it.
pub enum ActionView {
    RenderName { path: Seq<char> },
    RenderContent { key: Seq<char> },
    CreateDir { target: Seq<char> },
    ReadFile { path: Seq<char> },
    ReadSources { root: Seq<char> },
    Compile { templates: Seq<TemplateView> },
    ListDir { source: Seq<char> },
    WriteFile { target: Seq<char>, content: Seq<char> },
    Report { error: SchabloneErrorView },
    Done,
    Exit { code: i32 },
}

impl View for Action {
    type V = ActionView;

    open spec fn view(&self) -> ActionView {
        match self {
            Action::RenderName { path } => ActionView::RenderName { path: path@ },
            Action::RenderContent { key } => ActionView::RenderContent { key: key@ },
            Action::CreateDir { target } => ActionView::CreateDir { target: target@ },
            Action::ReadFile { path } => ActionView::ReadFile { path: path@ },
            Action::ReadSources { root } => ActionView::ReadSources { root: root@ },
            Action::Compile { templates } => ActionView::Compile { templates: views(templates@) },
            Action::ListDir { source } => ActionView::ListDir { source: source@ },
            Action::WriteFile { target, content } => ActionView::WriteFile {
                target: target@,
                content: content@,
            },
            Action::Report { error } => ActionView::Report { error: error@ },
            Action::Done => ActionView::Done,
            Action::Exit { code } => ActionView::Exit { code: *code },
        }
    }
}

impl ActionView {
    /// Whether the action asks the templating engine to render something.
    pub open spec fn is_render(self) -> bool {
        self is RenderName || self is RenderContent
    }

    /// Whether the action changes the file system.
    pub open spec fn is_mutation(self) -> bool {
        self is CreateDir || self is WriteFile
    }
}

/// How the last action went.
#[derive(Debug, PartialEq, Eq)]
pub enum Event {
    /// Nothing to tell: the build begins, or goes on after a report.
    Resume,
    /// The engine rendered a template, or failed to.
    Rendered(Option<String>),
    /// The directory was created, or could not be.
    Created(bool),
    /// The file was read, or could not be.
    FileRead(Option<String>),
    /// The source files were read, or could not be.
    SourcesRead(Option<Vec<Source>>),
    /// The engine compiled the templates, or refused them.
    Compiled(bool),
    /// The directory was listed.
    Listed(Vec<Child>),
    /// The file was created and written, or could not be.
    Written(bool),
}

/// An [`Event`] as contracts see it.
pub enum EventView {
    Resume,
    Rendered(Option<Seq<char>>),
    Created(bool),
    FileRead(Option<Seq<char>>),
    SourcesRead(Option<Seq<SourceView>>),
    Compiled(bool),
    Listed(Seq<ChildView>),
    Written(bool),
}

impl View for Event {
    type V = EventView;

    open spec fn view(&self) -> EventView {
        match self {
            Event::Resume => EventView::Resume,
            Event::Rendered(Some(text)) => EventView::Rendered(Some(text@)),
            Event::Rendered(None) => EventView::Rendered(None),
            Event::Created(done) => EventView::Created(*done),
            Event::FileRead(Some(text)) => EventView::FileRead(Some(text@)),
            Event::FileRead(None) => EventView::FileRead(None),
            Event::SourcesRead(Some(files)) => EventView::SourcesRead(Some(views(files@))),
            Event::SourcesRead(None) => EventView::SourcesRead(None),
            Event::Compiled(done) => EventView::Compiled(*done),
            Event::Listed(children) => EventView::Listed(views(children@)),
            Event::Written(done) => EventView::Written(*done),
        }
    }
}

} // verus!
