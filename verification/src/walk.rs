//! The walk over the source tree.
//!
//! Every entry that a listing names is visited, a directory before what it
//! holds and the entries of a directory in the order in which they were
//! listed. For a directory the walk has its path rendered, the target
//! directory created and the source directory listed. For a file it has its
//! path and its content rendered and the target file written. In a dry run
//! everything is rendered and nothing is created or written.
//!
//! An entry that fails is reported and left behind, with all that lies below
//! it; the walk then goes on with the next entry.
//!
//! The walk does none of this itself. It asks for one thing at a time and
//! goes on from the answer, so it can stand wherever the file system or the
//! engine has to be asked.

use crate::error::{SchabloneError, SchabloneErrorView};
use crate::path::{
    child, child_path, final_component, is_under, join_path, joined, lemma_child_is_under,
    relative, template_key,
};
use crate::protocol::{views, Action, ActionView, Child, ChildView, Event, EventView};
use crate::templates::{content_result, pathname_result, render_content, template_pathname};
use vstd::prelude::*;

verus! {

/// What a walk is waiting for.
#[derive(Clone, Copy, Debug, PartialEq, Eq, Structural)]
pub enum Stage {
    /// Nothing: the next entry can be visited.
    Idle,
    /// The rendered path of the directory that is visited.
    DirectoryName,
    /// The creation of its target directory.
    DirectoryCreation,
    /// The list of its entries.
    DirectoryListing,
    /// The rendered path of the file that is visited.
    FileName,
    /// The rendered content of that file.
    FileContent,
    /// The writing of its target file.
    FileWriting,
}

/// An entry of the source tree that is still to be visited.
pub struct Entry {
    pub path: String,
    pub is_dir: bool,
}

/// An [`Entry`] as contracts see it.
pub struct EntryView {
    pub path: Seq<char>,
    pub is_dir: bool,
}

impl View for Entry {
    type V = EntryView;

    open spec fn view(&self) -> EntryView {
        EntryView { path: self.path@, is_dir: self.is_dir }
    }
}

/// The walk over one source tree.
pub struct Walk {
    source_root: String,
    target_root: String,
    dry_run: bool,
    /// The entries still to be visited. The last one is visited next.
    pending: Vec<Entry>,
    stage: Stage,
    /// The path of the entry that is visited.
    current: String,
    /// Its rendered path.
    rendered: String,
}

/// A [`Walk`] as contracts see it.
pub struct WalkView {
    pub source_root: Seq<char>,
    pub target_root: Seq<char>,
    pub dry_run: bool,
    /// The entries still to be visited, the next one first.
    pub pending: Seq<EntryView>,
    pub stage: Stage,
    /// The path of the entry that is visited. It has a meaning in every
    /// stage but `Idle`.
    pub current: Seq<char>,
    /// The rendered path of that entry. It has a meaning once the path was
    /// rendered.
    pub rendered: Seq<char>,
}

/// The entries that a listing of the directory `dir` gives, in the order of
/// the listing.
pub open spec fn entries_of(dir: Seq<char>, children: Seq<ChildView>) -> Seq<EntryView> {
    Seq::new(
        children.len(),
        |i: int| EntryView { path: child(dir, children[i].name), is_dir: children[i].is_dir },
    )
}

impl WalkView {
    /// The walk before anything was visited: only the source root waits, as
    /// a directory.
    pub open spec fn start(source_root: Seq<char>, target_root: Seq<char>, dry_run: bool) -> WalkView {
        WalkView {
            source_root,
            target_root,
            dry_run,
            pending: seq![EntryView { path: source_root, is_dir: true }],
            stage: Stage::Idle,
            current: Seq::empty(),
            rendered: Seq::empty(),
        }
    }

    /// Every entry that the walk knows of lies at or below the source root.
    pub open spec fn wf(self) -> bool {
        &&& forall|i: int|
            0 <= i < self.pending.len() ==> is_under(
                #[trigger] self.pending[i].path,
                self.source_root,
            )
        &&& self.stage != Stage::Idle ==> is_under(self.current, self.source_root)
    }

    /// The walk with the visit of the current entry at its end.
    pub open spec fn idle(self) -> WalkView {
        WalkView { stage: Stage::Idle, ..self }
    }

    /// The walk with the entries of the current directory put in front of
    /// those that wait.
    pub open spec fn entered(self, children: Seq<ChildView>) -> WalkView {
        WalkView { pending: entries_of(self.current, children) + self.pending, ..self }
    }

    /// The visit of the next entry begins: its path is to be rendered. Where
    /// none waits, the walk is done.
    pub open spec fn visit_next(self) -> (WalkView, ActionView) {
        if self.pending.len() == 0 {
            (self.idle(), ActionView::Done)
        } else {
            let entry = self.pending[0];
            (
                WalkView {
                    pending: self.pending.skip(1),
                    stage: if entry.is_dir {
                        Stage::DirectoryName
                    } else {
                        Stage::FileName
                    },
                    current: entry.path,
                    ..self
                },
                ActionView::RenderName { path: entry.path },
            )
        }
    }

    /// The visit of the current entry fails: it is reported and the entry is
    /// left behind.
    pub open spec fn fail(self, error: SchabloneErrorView) -> (WalkView, ActionView) {
        (self.idle(), ActionView::Report { error })
    }

    /// How the visit of a directory goes on from `event`: its path is
    /// rendered, then its target is created, then it is listed, then its
    /// entries wait in front of all others. A dry run creates nothing. A
    /// path that does not render is a `ProcessingError` that names its last
    /// component; a target that cannot be created is one that names the
    /// rendered path. `None` where `event` is no answer to what was asked.
    pub open spec fn directory_step(self, event: EventView) -> Option<(WalkView, ActionView)> {
        match (self.stage, event) {
            (Stage::DirectoryName, EventView::Rendered(rendered)) => match pathname_result(
                self.current,
                rendered,
            ) {
                Ok(name) => if self.dry_run {
                    Some(
                        (
                            WalkView { stage: Stage::DirectoryListing, rendered: name, ..self },
                            ActionView::ListDir { source: self.current },
                        ),
                    )
                } else {
                    Some(
                        (
                            WalkView { stage: Stage::DirectoryCreation, rendered: name, ..self },
                            ActionView::CreateDir { target: joined(self.target_root, name) },
                        ),
                    )
                },
                Err(error) => Some(self.fail(error)),
            },
            (Stage::DirectoryCreation, EventView::Created(true)) => Some(
                (
                    WalkView { stage: Stage::DirectoryListing, ..self },
                    ActionView::ListDir { source: self.current },
                ),
            ),
            (Stage::DirectoryCreation, EventView::Created(false)) => Some(
                self.fail(SchabloneErrorView::ProcessingError { name: self.rendered }),
            ),
            (Stage::DirectoryListing, EventView::Listed(children)) => Some(
                self.entered(children).visit_next(),
            ),
            _ => None,
        }
    }

    /// How the visit of a file goes on from `event`: its path is rendered,
    /// then its content, under the path as seen from the source root, then
    /// its target is written. A dry run writes nothing. A path that does
    /// not render is a `ProcessingError` that names its last component, a
    /// content that does not render is a `TemplateError`, and a target that
    /// cannot be written is a `FileError`. `None` where `event` is no answer
    /// to what was asked.
    pub open spec fn file_step(self, event: EventView) -> Option<(WalkView, ActionView)> {
        match (self.stage, event) {
            (Stage::FileName, EventView::Rendered(rendered)) => match pathname_result(
                self.current,
                rendered,
            ) {
                Ok(name) => Some(
                    (
                        WalkView { stage: Stage::FileContent, rendered: name, ..self },
                        ActionView::RenderContent {
                            key: relative(self.current, self.source_root)->0,
                        },
                    ),
                ),
                Err(error) => Some(self.fail(error)),
            },
            (Stage::FileContent, EventView::Rendered(rendered)) => match content_result(
                rendered,
            ) {
                Ok(content) => if self.dry_run {
                    Some(self.visit_next())
                } else {
                    Some(
                        (
                            WalkView { stage: Stage::FileWriting, ..self },
                            ActionView::WriteFile {
                                target: joined(self.target_root, self.rendered),
                                content,
                            },
                        ),
                    )
                },
                Err(error) => Some(self.fail(error)),
            },
            (Stage::FileWriting, EventView::Written(true)) => Some(self.visit_next()),
            (Stage::FileWriting, EventView::Written(false)) => Some(
                self.fail(SchabloneErrorView::FileError),
            ),
            _ => None,
        }
    }

    /// How the walk goes on from `event`: the walk after it and what is
    /// asked next. `None` where `event` is no answer to what was asked.
    pub open spec fn step(self, event: EventView) -> Option<(WalkView, ActionView)> {
        match self.stage {
            Stage::Idle => if event is Resume {
                Some(self.visit_next())
            } else {
                None
            },
            Stage::DirectoryName | Stage::DirectoryCreation | Stage::DirectoryListing => {
                self.directory_step(event)
            },
            Stage::FileName | Stage::FileContent | Stage::FileWriting => self.file_step(event),
        }
    }

    /// The walk after `event`: as it was where `event` is no answer to what
    /// was asked.
    pub open spec fn next(self, event: EventView) -> WalkView {
        match self.step(event) {
            Some((walk, _)) => walk,
            None => self,
        }
    }

    /// What is asked after `event`, where `event` is an answer to what was
    /// asked before.
    pub open spec fn asked(self, event: EventView) -> ActionView {
        match self.step(event) {
            Some((_, action)) => action,
            None => ActionView::Done,
        }
    }

    /// Whether the walk waits for the engine to render something.
    pub open spec fn awaits_rendering(self) -> bool {
        self.stage == Stage::DirectoryName || self.stage == Stage::FileName || self.stage
            == Stage::FileContent
    }
}

/// A step keeps the roots and the mode of the walk, and every entry it
/// knows of stays at or below the source root.
pub proof fn lemma_step_keeps_walk(walk: WalkView, event: EventView)
    requires
        walk.wf(),
        walk.step(event) is Some,
    ensures
        walk.next(event).wf(),
        walk.next(event).source_root == walk.source_root,
        walk.next(event).target_root == walk.target_root,
        walk.next(event).dry_run == walk.dry_run,
{
    if walk.stage == Stage::DirectoryListing {
        let children = event->Listed_0;
        let entered = walk.entered(children);
        assert forall|i: int| 0 <= i < entered.pending.len() implies is_under(
            #[trigger] entered.pending[i].path,
            walk.source_root,
        ) by {
            if i < children.len() {
                lemma_child_is_under(walk.current, children[i].name, walk.source_root);
            } else {
                assert(entered.pending[i] == walk.pending[i - children.len()]);
            }
        }
        assert(entered.wf());
        lemma_visit_next_keeps_walk(entered);
    } else {
        lemma_visit_next_keeps_walk(walk);
    }
}

/// Beginning the next visit keeps the entries at or below the source root.
pub proof fn lemma_visit_next_keeps_walk(walk: WalkView)
    requires
        forall|i: int|
            0 <= i < walk.pending.len() ==> is_under(
                #[trigger] walk.pending[i].path,
                walk.source_root,
            ),
    ensures
        walk.visit_next().0.wf(),
{
    let next = walk.visit_next().0;
    if walk.pending.len() > 0 {
        assert(is_under(walk.pending[0].path, walk.source_root));
        assert forall|i: int| 0 <= i < next.pending.len() implies is_under(
            #[trigger] next.pending[i].path,
            next.source_root,
        ) by {
            assert(next.pending[i] == walk.pending[i + 1]);
        }
    }
}

/// In a dry run no step asks for a directory to be created or for a file to
/// be written.
pub proof fn lemma_dry_run_changes_nothing(walk: WalkView, event: EventView)
    requires
        walk.dry_run,
        walk.step(event) is Some,
    ensures
        !walk.asked(event).is_mutation(),
        walk.next(event).dry_run,
{
}

/// The engine is asked to render exactly where the walk waits for a
/// rendering, and the walk asks for nothing that only a build asks for.
pub proof fn lemma_rendering_is_awaited(walk: WalkView, event: EventView)
    requires
        walk.step(event) is Some,
    ensures
        walk.asked(event).is_render() <==> walk.next(event).awaits_rendering(),
        walk.asked(event) !is Exit,
        walk.asked(event) !is ReadFile,
        walk.asked(event) !is ReadSources,
        walk.asked(event) !is Compile,
{
}

/// A walk that waits for a rendering takes every answer of the engine, and
/// no other event.
pub proof fn lemma_rendering_is_taken(walk: WalkView, event: EventView)
    requires
        walk.awaits_rendering(),
    ensures
        walk.step(event) is Some <==> event is Rendered,
{
}

/// The error that is reported when the rendering that the walk waits for
/// fails.
pub open spec fn rendering_error(walk: WalkView) -> SchabloneErrorView {
    if walk.stage == Stage::FileContent {
        SchabloneErrorView::TemplateError
    } else {
        SchabloneErrorView::ProcessingError { name: final_component(walk.current) }
    }
}

/// A rendering that fails is met in a dry run exactly as in a real run: the
/// same error is reported, and the same entries are left to visit.
pub proof fn lemma_dry_run_detects_failures(walk: WalkView)
    requires
        walk.awaits_rendering(),
    ensures
        (WalkView { dry_run: true, ..walk }).asked(EventView::Rendered(None)) == (
            ActionView::Report { error: rendering_error(walk) }
        ),
        (WalkView { dry_run: false, ..walk }).asked(EventView::Rendered(None)) == (
            ActionView::Report { error: rendering_error(walk) }
        ),
        (WalkView { dry_run: true, ..walk }).next(EventView::Rendered(None)).pending
            == walk.pending,
        (WalkView { dry_run: false, ..walk }).next(EventView::Rendered(None)).pending
            == walk.pending,
{
}

/// A file whose content does not render is reported as a `TemplateError`,
/// and nothing is asked to be written for it, in either mode.
pub proof fn lemma_failed_content_writes_nothing(walk: WalkView)
    requires
        walk.stage == Stage::FileContent,
    ensures
        walk.asked(EventView::Rendered(None)) == (
            ActionView::Report { error: SchabloneErrorView::TemplateError }
        ),
        walk.next(EventView::Rendered(None)) == walk.idle(),
{
}

/// An entry that fails is skipped and nothing else: the entries that waited
/// still wait, in the same order, none of the failed entry's own was added,
/// and the walk goes on with the first of them.
pub proof fn lemma_failure_skips_one_entry(walk: WalkView, event: EventView)
    requires
        walk.step(event) is Some,
        walk.asked(event) is Report,
    ensures
        walk.next(event).pending == walk.pending,
        walk.next(event).stage == Stage::Idle,
        walk.next(event).step(EventView::Resume) == Some(walk.idle().visit_next()),
{
    let next = walk.next(event);
    if walk.stage == Stage::DirectoryListing {
        let entered = walk.entered(event->Listed_0);
        assert(!(entered.visit_next().1 is Report));
    }
    assert(!(walk.visit_next().1 is Report));
    assert(next == walk.idle());
}

/// The entries of a list as the walk sees them: the last one is the next.
pub open spec fn stacked(entries: Seq<Entry>) -> Seq<EntryView> {
    Seq::new(entries.len(), |i: int| entries[entries.len() - 1 - i]@)
}

impl View for Walk {
    type V = WalkView;

    closed spec fn view(&self) -> WalkView {
        WalkView {
            source_root: self.source_root@,
            target_root: self.target_root@,
            dry_run: self.dry_run,
            pending: stacked(self.pending@),
            stage: self.stage,
            current: self.current@,
            rendered: self.rendered@,
        }
    }
}

/// What a step gave: the walk after it and the action, or nothing.
pub open spec fn outcome(walk: WalkView, action: Option<Action>) -> Option<(WalkView, ActionView)> {
    match action {
        Some(action) => Some((walk, action@)),
        None => None,
    }
}

impl Walk {
    /// A walk over the tree at `source_root` that builds below `target_root`.
    pub fn new(source_root: &str, target_root: &str, dry_run: bool) -> (walk: Walk)
        ensures
            walk@ == WalkView::start(source_root@, target_root@, dry_run),
            walk@.wf(),
    {
        let mut pending: Vec<Entry> = Vec::new();
        pending.push(Entry { path: source_root.to_owned(), is_dir: true });
        let walk = Walk {
            source_root: source_root.to_owned(),
            target_root: target_root.to_owned(),
            dry_run,
            pending,
            stage: Stage::Idle,
            current: String::new(),
            rendered: String::new(),
        };
        proof {
            crate::path::lemma_root_is_under_itself(source_root@);
            assert(walk@.pending =~= seq![EntryView { path: source_root@, is_dir: true }]);
        }
        walk
    }

    /// Whether nothing is left to visit and nothing is waited for.
    pub fn is_done(&self) -> (done: bool)
        ensures
            done == (self@.stage == Stage::Idle && self@.pending.len() == 0),
    {
        self.stage == Stage::Idle && self.pending.len() == 0
    }

    /// Whether this is a dry run.
    pub fn is_dry_run(&self) -> (dry: bool)
        ensures
            dry == self@.dry_run,
    {
        self.dry_run
    }

    /// Begins the visit of the next entry.
    fn visit_next(&mut self) -> (action: Action)
        ensures
            (final(self)@, action@) == old(self)@.visit_next(),
    {
        let ghost before = self@;
        match self.pending.pop() {
            Some(entry) => {
                self.stage = if entry.is_dir {
                    Stage::DirectoryName
                } else {
                    Stage::FileName
                };
                self.current = entry.path.clone();
                assert(self@.pending =~= before.pending.skip(1));
                Action::RenderName { path: entry.path }
            },
            None => {
                self.stage = Stage::Idle;
                assert(self@.pending =~= before.pending);
                Action::Done
            },
        }
    }

    /// Ends the visit of the current entry with a report of `error`.
    fn fail(&mut self, error: SchabloneError) -> (action: Action)
        ensures
            (final(self)@, action@) == old(self)@.fail(error@),
    {
        self.stage = Stage::Idle;
        Action::Report { error }
    }

    /// Puts the entries of the current directory in front of those that
    /// wait.
    fn enter(&mut self, children: Vec<Child>)
        ensures
            final(self)@ == old(self)@.entered(views(children@)),
    {
        let ghost before = self@;
        let ghost listed = entries_of(before.current, views(children@));
        let mut i: usize = children.len();
        assert(listed.skip(i as int) + before.pending =~= before.pending);
        while i > 0
            invariant
                i <= children.len(),
                listed == entries_of(before.current, views(children@)),
                self@ == (WalkView { pending: listed.skip(i as int) + before.pending, ..before }),
            decreases i,
        {
            i -= 1;
            let ghost waiting = self@.pending;
            let path = child_path(self.current.as_str(), children[i].name.as_str());
            self.pending.push(Entry { path, is_dir: children[i].is_dir });
            assert(self@.pending =~= seq![listed[i as int]] + waiting);
            assert(seq![listed[i as int]] + (listed.skip(i + 1) + before.pending) =~= listed.skip(
                i as int,
            ) + before.pending);
        }
        assert(listed.skip(0) =~= listed);
    }

    /// Goes on with the visit of a directory from `event`.
    ///
    /// The path of the directory is rendered first; then its target is
    /// created, unless this is a dry run; then it is listed, and its entries
    /// are visited before all that waited. A failure ends the visit with a
    /// report, and nothing below the directory is visited. `None` where the
    /// walk visits no directory or `event` is no answer to what was asked;
    /// the walk is then as it was.
    pub fn process_directory(&mut self, event: Event) -> (action: Option<Action>)
        requires
            old(self)@.wf(),
        ensures
            outcome(final(self)@, action) == old(self)@.directory_step(event@),
            action is None ==> final(self)@ == old(self)@,
            final(self)@.wf(),
    {
        let ghost before = self@;
        let action = match (self.stage, event) {
            (Stage::DirectoryName, Event::Rendered(rendered)) => {
                match template_pathname(self.current.as_str(), rendered) {
                    Ok(name) => {
                        if self.dry_run {
                            self.stage = Stage::DirectoryListing;
                            self.rendered = name;
                            Some(Action::ListDir { source: self.current.clone() })
                        } else {
                            let target = join_path(self.target_root.as_str(), name.as_str());
                            self.stage = Stage::DirectoryCreation;
                            self.rendered = name;
                            Some(Action::CreateDir { target })
                        }
                    },
                    Err(error) => Some(self.fail(error)),
                }
            },
            (Stage::DirectoryCreation, Event::Created(true)) => {
                self.stage = Stage::DirectoryListing;
                Some(Action::ListDir { source: self.current.clone() })
            },
            (Stage::DirectoryCreation, Event::Created(false)) => {
                let name = self.rendered.clone();
                Some(self.fail(SchabloneError::ProcessingError { name }))
            },
            (Stage::DirectoryListing, Event::Listed(children)) => {
                self.enter(children);
                Some(self.visit_next())
            },
            _ => None,
        };
        proof {
            if action is Some {
                lemma_step_keeps_walk(before, event@);
            }
        }
        action
    }

    /// Goes on with the visit of a file from `event`.
    ///
    /// The path of the file is rendered first; then its content, under the
    /// path as seen from the source root; then its target is written,
    /// unless this is a dry run. A failure ends the visit with a report.
    /// `None` where the walk visits no file or `event` is no answer to what
    /// was asked; the walk is then as it was.
    pub fn process_file(&mut self, event: Event) -> (action: Option<Action>)
        requires
            old(self)@.wf(),
        ensures
            outcome(final(self)@, action) == old(self)@.file_step(event@),
            action is None ==> final(self)@ == old(self)@,
            final(self)@.wf(),
    {
        let ghost before = self@;
        let action = match (self.stage, event) {
            (Stage::FileName, Event::Rendered(rendered)) => {
                match template_pathname(self.current.as_str(), rendered) {
                    Ok(name) => {
                        match template_key(self.current.as_str(), self.source_root.as_str()) {
                            Some(key) => {
                                self.stage = Stage::FileContent;
                                self.rendered = name;
                                Some(Action::RenderContent { key })
                            },
                            None => {
                                proof {
                                    assert(is_under(self@.current, self@.source_root));
                                }
                                None
                            },
                        }
                    },
                    Err(error) => Some(self.fail(error)),
                }
            },
            (Stage::FileContent, Event::Rendered(rendered)) => {
                match render_content(rendered) {
                    Ok(content) => {
                        if self.dry_run {
                            Some(self.visit_next())
                        } else {
                            let target = join_path(
                                self.target_root.as_str(),
                                self.rendered.as_str(),
                            );
                            self.stage = Stage::FileWriting;
                            Some(Action::WriteFile { target, content })
                        }
                    },
                    Err(error) => Some(self.fail(error)),
                }
            },
            (Stage::FileWriting, Event::Written(true)) => Some(self.visit_next()),
            (Stage::FileWriting, Event::Written(false)) => Some(
                self.fail(SchabloneError::FileError),
            ),
            _ => None,
        };
        proof {
            if action is Some {
                lemma_step_keeps_walk(before, event@);
            }
        }
        action
    }

    /// Goes on from `event` and says what is to be done next.
    ///
    /// `None` where `event` is no answer to what was asked last; the walk is
    /// then as it was.
    pub fn step(&mut self, event: Event) -> (action: Option<Action>)
        requires
            old(self)@.wf(),
        ensures
            outcome(final(self)@, action) == old(self)@.step(event@),
            action is None ==> final(self)@ == old(self)@,
            final(self)@.wf(),
    {
        let ghost before = self@;
        let action = match self.stage {
            Stage::Idle => match event {
                Event::Resume => Some(self.visit_next()),
                _ => None,
            },
            Stage::DirectoryName | Stage::DirectoryCreation | Stage::DirectoryListing => {
                self.process_directory(event)
            },
            Stage::FileName | Stage::FileContent | Stage::FileWriting => self.process_file(event),
        };
        proof {
            if action is Some {
                lemma_step_keeps_walk(before, event@);
            }
        }
        action
    }
}

} // verus!
