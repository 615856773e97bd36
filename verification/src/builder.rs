//! A build from its first step to the exit code.
//!
//! The target root is created first, and it must not exist yet. Then the
//! parameters are put together, then every file of the source tree is
//! compiled, then the tree is walked. Where the target root cannot be created
//! or the templates do not compile, the build ends at once with a failure.
//! What fails during the walk is reported and skipped, and the build ends
//! as a success.

use crate::context::{
    context_entries, file_entries, inline_entries, merge, merged_entries, new_context,
    no_entries, parse_parameters, parse_parameters_file,
};
use crate::protocol::{Action, ActionView, Event, EventView};
use crate::templates::{key_sources, keyed};
use crate::walk::{lemma_dry_run_changes_nothing, lemma_step_keeps_walk, Walk, WalkView};
use tera::Context;
use vstd::prelude::*;

verus! {

/// The exit code of a build that went through.
pub const EXIT_SUCCESS: i32 = 0;

/// The exit code of a build that had to be given up.
pub const EXIT_FAILURE: i32 = 1;

/// How far a build has come.
#[derive(Clone, Copy, Debug, PartialEq, Eq, Structural)]
pub enum Phase {
    /// Nothing was done yet.
    Start,
    /// The target root is being created.
    Root,
    /// The parameters file is being read.
    Parameters,
    /// The files of the source tree are being read.
    Sources,
    /// The templates are being compiled.
    Compiling,
    /// The source tree is being walked.
    Walking,
    /// The build has ended.
    Finished,
}

/// A build: what was asked for, how far it has come, and what it has put
/// together on the way.
pub struct Build {
    source: String,
    target: String,
    parameters: String,
    parameters_file: String,
    phase: Phase,
    code: i32,
    context: Context,
    walk: Walk,
}

/// A [`Build`] as contracts see it.
pub struct BuildView {
    /// The root of the source tree.
    pub source: Seq<char>,
    /// The root of the target tree.
    pub target: Seq<char>,
    /// The parameters given inline, as `KEY=VALUE` pairs.
    pub parameters: Seq<char>,
    /// The path of the parameters file.
    pub parameters_file: Seq<char>,
    pub phase: Phase,
    /// The exit code. It has a meaning once the build has ended.
    pub code: i32,
    /// The parameters that every rendering is to be given.
    pub context: Map<Seq<char>, Seq<char>>,
    pub walk: WalkView,
}

impl View for Build {
    type V = BuildView;

    closed spec fn view(&self) -> BuildView {
        BuildView {
            source: self.source@,
            target: self.target@,
            parameters: self.parameters@,
            parameters_file: self.parameters_file@,
            phase: self.phase,
            code: self.code,
            context: context_entries(self.context),
            walk: self.walk@,
        }
    }
}

impl BuildView {
    /// A build before its first step.
    pub open spec fn start(
        source: Seq<char>,
        target: Seq<char>,
        parameters: Seq<char>,
        parameters_file: Seq<char>,
        dry_run: bool,
    ) -> BuildView {
        BuildView {
            source,
            target,
            parameters,
            parameters_file,
            phase: Phase::Start,
            code: EXIT_SUCCESS,
            context: no_entries(),
            walk: WalkView::start(source, target, dry_run),
        }
    }

    /// The walk of the build is in order, it is the one over its own trees,
    /// and it stands at its start until the build begins to walk.
    pub open spec fn wf(self) -> bool {
        &&& self.walk.wf()
        &&& self.walk.source_root == self.source
        &&& self.walk.target_root == self.target
        &&& self.phase != Phase::Walking && self.phase != Phase::Finished ==> self.walk
            == WalkView::start(self.source, self.target, self.walk.dry_run)
    }

    /// Whether this is a dry run.
    pub open spec fn dry_run(self) -> bool {
        self.walk.dry_run
    }

    /// The build ends with `code`.
    pub open spec fn ended(self, code: i32) -> (BuildView, ActionView) {
        (BuildView { phase: Phase::Finished, code, ..self }, ActionView::Exit { code })
    }

    /// The walk goes on from `event`, and the build asks for what the walk
    /// asks for. When the walk is done, the build ends as a success.
    pub open spec fn walked(self, event: EventView) -> Option<(BuildView, ActionView)> {
        match self.walk.step(event) {
            Some((walk, asked)) => if asked is Done {
                Some((BuildView { walk, ..self }).ended(EXIT_SUCCESS))
            } else {
                Some((BuildView { phase: Phase::Walking, walk, ..self }, asked))
            },
            None => None,
        }
    }

    /// What a build does when it is told of `event`: the build after it and
    /// what it asks for. `None` where `event` is no answer to what was asked
    /// before.
    ///
    /// - At the start the target root is to be created, in a dry run too.
    /// - Where that fails the build ends as a failure. Else the parameters
    ///   file is to be read.
    /// - Whatever came of that, the parameters are those of the file and
    ///   those given inline, the inline ones first. Then the files of the
    ///   source tree are to be read.
    /// - Where they cannot be read the build ends as a failure. Else each
    ///   file at or below the source root is to be compiled, under its path
    ///   as seen from the source root.
    /// - Where the engine refuses them the build ends as a failure. Else
    ///   the walk begins.
    /// - The walk goes on until nothing is left, and the build ends as a
    ///   success.
    /// - A build that has ended says so again.
    pub open spec fn step(self, event: EventView) -> Option<(BuildView, ActionView)> {
        match (self.phase, event) {
            (Phase::Start, EventView::Resume) => Some(
                (
                    BuildView { phase: Phase::Root, ..self },
                    ActionView::CreateDir { target: self.target },
                ),
            ),
            (Phase::Root, EventView::Created(true)) => Some(
                (
                    BuildView { phase: Phase::Parameters, ..self },
                    ActionView::ReadFile { path: self.parameters_file },
                ),
            ),
            (Phase::Root, EventView::Created(false)) => Some(self.ended(EXIT_FAILURE)),
            (Phase::Parameters, EventView::FileRead(content)) => Some(
                (
                    BuildView {
                        phase: Phase::Sources,
                        context: merged_entries(
                            file_entries(content),
                            inline_entries(self.parameters),
                        ),
                        ..self
                    },
                    ActionView::ReadSources { root: self.source },
                ),
            ),
            (Phase::Sources, EventView::SourcesRead(Some(files))) => Some(
                (
                    BuildView { phase: Phase::Compiling, ..self },
                    ActionView::Compile { templates: keyed(files, self.source) },
                ),
            ),
            (Phase::Sources, EventView::SourcesRead(None)) => Some(self.ended(EXIT_FAILURE)),
            (Phase::Compiling, EventView::Compiled(true)) => self.walked(EventView::Resume),
            (Phase::Compiling, EventView::Compiled(false)) => Some(self.ended(EXIT_FAILURE)),
            (Phase::Walking, _) => self.walked(event),
            (Phase::Finished, EventView::Resume) => Some(
                (self, ActionView::Exit { code: self.code }),
            ),
            _ => None,
        }
    }

    /// The build after `event`: as it was where `event` is no answer to what
    /// was asked.
    pub open spec fn next(self, event: EventView) -> BuildView {
        match self.step(event) {
            Some((build, _)) => build,
            None => self,
        }
    }

    /// What is asked after `event`, where `event` is an answer to what was
    /// asked before.
    pub open spec fn asked(self, event: EventView) -> ActionView {
        match self.step(event) {
            Some((_, action)) => action,
            None => ActionView::Done,
        }
    }
}

/// A step keeps a build in order, and it keeps what the build was asked
/// for.
pub proof fn lemma_step_keeps_build(build: BuildView, event: EventView)
    requires
        build.wf(),
    ensures
        build.next(event).wf(),
        build.next(event).source == build.source,
        build.next(event).target == build.target,
        build.next(event).parameters == build.parameters,
        build.next(event).parameters_file == build.parameters_file,
        build.next(event).dry_run() == build.dry_run(),
{
    if build.phase == Phase::Walking {
        if build.walk.step(event) is Some {
            lemma_step_keeps_walk(build.walk, event);
        }
    } else if build.phase == Phase::Compiling {
        lemma_step_keeps_walk(build.walk, EventView::Resume);
    }
}

/// In a dry run nothing is created or written but the target root, which is
/// created at the very start.
pub proof fn lemma_dry_run_builds_nothing(build: BuildView, event: EventView)
    requires
        build.dry_run(),
        build.step(event) is Some,
    ensures
        build.next(event).dry_run(),
        build.asked(event).is_mutation() ==> build.phase == Phase::Start && build.asked(event) == (
            ActionView::CreateDir { target: build.target }
        ),
{
    if build.phase == Phase::Walking {
        lemma_dry_run_changes_nothing(build.walk, event);
    } else if build.phase == Phase::Compiling && event == EventView::Compiled(true) {
        lemma_dry_run_changes_nothing(build.walk, EventView::Resume);
    }
}

/// A parameters file that cannot be read is no error: the build has the
/// inline parameters and goes on to read the source tree.
pub proof fn lemma_missing_parameters_file_is_no_error(build: BuildView)
    requires
        build.phase == Phase::Parameters,
    ensures
        build.next(EventView::FileRead(None)).context == inline_entries(build.parameters),
        build.next(EventView::FileRead(None)).phase == Phase::Sources,
        build.asked(EventView::FileRead(None)) == (ActionView::ReadSources { root: build.source }),
{
    assert(merged_entries(file_entries(None), inline_entries(build.parameters))
        =~= inline_entries(build.parameters));
}

/// The parameters are put together once. From then on no step changes them.
pub proof fn lemma_parameters_are_built_once(build: BuildView, event: EventView)
    requires
        build.phase != Phase::Parameters,
    ensures
        build.next(event).context == build.context,
{
}

/// A target root that cannot be created, as one that exists already, ends
/// the build as a failure before anything else is done.
pub proof fn lemma_target_root_must_be_new(build: BuildView)
    requires
        build.phase == Phase::Root,
    ensures
        build.asked(EventView::Created(false)) == (ActionView::Exit { code: EXIT_FAILURE }),
        build.next(EventView::Created(false)).phase == Phase::Finished,
        build.next(EventView::Created(false)).walk == build.walk,
        build.next(EventView::Created(false)).context == build.context,
{
}

/// Templates that the engine refuses end the build as a failure, and the
/// walk has not begun.
pub proof fn lemma_compile_failure_ends_the_build(build: BuildView)
    requires
        build.phase == Phase::Compiling,
    ensures
        build.asked(EventView::Compiled(false)) == (ActionView::Exit { code: EXIT_FAILURE }),
        build.next(EventView::Compiled(false)).phase == Phase::Finished,
        build.next(EventView::Compiled(false)).walk == build.walk,
{
}

/// Once the engine has taken the templates the walk begins, at the source
/// root: the first thing asked for is the rendering of its path.
pub proof fn lemma_walk_begins_at_the_source_root(build: BuildView)
    requires
        build.wf(),
        build.phase == Phase::Compiling,
    ensures
        build.asked(EventView::Compiled(true)) == (ActionView::RenderName { path: build.source }),
        build.next(EventView::Compiled(true)).phase == Phase::Walking,
        build.next(EventView::Compiled(true)).walk == WalkView::start(
            build.source,
            build.target,
            build.dry_run(),
        ).next(EventView::Resume),
{
}

/// Until the templates are compiled the walk stands still, and nothing is
/// asked to be created but the target root.
pub proof fn lemma_nothing_is_built_before_the_walk(build: BuildView, event: EventView)
    requires
        build.phase != Phase::Walking,
        build.phase != Phase::Finished,
        !(build.phase == Phase::Compiling && event == EventView::Compiled(true)),
    ensures
        build.next(event).walk == build.walk,
        build.next(event).phase != Phase::Walking,
        build.asked(event).is_mutation() ==> build.phase == Phase::Start && build.asked(event) == (
            ActionView::CreateDir { target: build.target }
        ),
{
}

/// A build that has ended stays ended, with the same code.
pub proof fn lemma_finished_build_stays_finished(build: BuildView, event: EventView)
    requires
        build.phase == Phase::Finished,
    ensures
        build.next(event) == build,
        build.step(event) is Some ==> build.asked(event) == (ActionView::Exit { code: build.code }),
{
}

/// What a step gave: the build after it and the action, or nothing.
pub open spec fn outcome(build: BuildView, action: Option<Action>) -> Option<
    (BuildView, ActionView),
> {
    match action {
        Some(action) => Some((build, action@)),
        None => None,
    }
}

/// Starts a build of the tree at `name` into `target`.
///
/// `parameters` are `KEY=VALUE` pairs separated by commas,
/// `parameters_file` is the path of a JSON file with more of them, and in a
/// dry run nothing is created below the target root. The build does
/// nothing by itself: [`Build::advance`] says what is to be done.
pub fn build_schablone(
    name: &str,
    target: &str,
    parameters: &str,
    parameters_file: &str,
    dry_run: bool,
) -> (build: Build)
    ensures
        build@ == BuildView::start(name@, target@, parameters@, parameters_file@, dry_run),
        build@.wf(),
{
    Build {
        source: name.to_owned(),
        target: target.to_owned(),
        parameters: parameters.to_owned(),
        parameters_file: parameters_file.to_owned(),
        phase: Phase::Start,
        code: EXIT_SUCCESS,
        context: new_context(),
        walk: Walk::new(name, target, dry_run),
    }
}

impl Build {
    /// How far the build has come.
    pub fn phase(&self) -> (phase: Phase)
        ensures
            phase == self@.phase,
    {
        self.phase
    }

    /// The parameters that every rendering is to be given.
    pub fn context(&self) -> (context: &Context)
        ensures
            context_entries(*context) == self@.context,
    {
        &self.context
    }

    /// Ends the build with `code`.
    fn end(&mut self, code: i32) -> (action: Option<Action>)
        ensures
            outcome(final(self)@, action) == Some(old(self)@.ended(code)),
    {
        self.phase = Phase::Finished;
        self.code = code;
        Some(Action::Exit { code })
    }

    /// Lets the walk go on from `event`.
    fn walk(&mut self, event: Event) -> (action: Option<Action>)
        requires
            old(self)@.walk.wf(),
        ensures
            outcome(final(self)@, action) == old(self)@.walked(event@),
            action is None ==> final(self)@ == old(self)@,
    {
        match self.walk.step(event) {
            Some(Action::Done) => {
                self.phase = Phase::Finished;
                self.code = EXIT_SUCCESS;
                Some(Action::Exit { code: EXIT_SUCCESS })
            },
            Some(action) => {
                self.phase = Phase::Walking;
                Some(action)
            },
            None => None,
        }
    }

    /// Takes in how the last action went and says what is to be done next.
    ///
    /// `None` where `event` is no answer to what was asked last; the build
    /// is then as it was.
    pub fn advance(&mut self, event: Event) -> (action: Option<Action>)
        requires
            old(self)@.wf(),
        ensures
            outcome(final(self)@, action) == old(self)@.step(event@),
            action is None ==> final(self)@ == old(self)@,
            final(self)@.wf(),
    {
        let ghost before = self@;
        let ghost told = event@;
        proof {
            lemma_step_keeps_build(before, told);
        }
        match (self.phase, event) {
            (Phase::Start, Event::Resume) => {
                self.phase = Phase::Root;
                Some(Action::CreateDir { target: self.target.clone() })
            },
            (Phase::Root, Event::Created(true)) => {
                self.phase = Phase::Parameters;
                Some(Action::ReadFile { path: self.parameters_file.clone() })
            },
            (Phase::Root, Event::Created(false)) => self.end(EXIT_FAILURE),
            (Phase::Parameters, Event::FileRead(content)) => {
                let file = match &content {
                    Some(text) => parse_parameters_file(Some(text.as_str())),
                    None => parse_parameters_file(None),
                };
                let inline = parse_parameters(self.parameters.as_str());
                self.context = merge(file, inline);
                self.phase = Phase::Sources;
                Some(Action::ReadSources { root: self.source.clone() })
            },
            (Phase::Sources, Event::SourcesRead(Some(files))) => {
                let templates = key_sources(&files, self.source.as_str());
                self.phase = Phase::Compiling;
                Some(Action::Compile { templates })
            },
            (Phase::Sources, Event::SourcesRead(None)) => self.end(EXIT_FAILURE),
            (Phase::Compiling, Event::Compiled(true)) => self.walk(Event::Resume),
            (Phase::Compiling, Event::Compiled(false)) => self.end(EXIT_FAILURE),
            (Phase::Walking, event) => self.walk(event),
            (Phase::Finished, Event::Resume) => Some(Action::Exit { code: self.code }),
            _ => None,
        }
    }
}

} // verus!
