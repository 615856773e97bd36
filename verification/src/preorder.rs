//! The walk and the recursion it stands for.
//!
//! A tree is built most simply by recursion: visit a directory, then each of
//! its entries in turn, and so on down. The walk of this library keeps a
//! list of waiting entries instead, so that it can stop whenever the file
//! system has to be asked. This module says what the recursion would ask
//! for, and proves that the walk asks for the same, in the same order,
//! whatever the tree holds and however the engine and the file system
//! answer.

use crate::error::SchabloneErrorView;
use crate::path::{child, joined, relative};
use crate::protocol::{ActionView, ChildView, EventView};
use crate::templates::{content_result, pathname_result};
use crate::walk::{entries_of, EntryView, Stage, WalkView};
use vstd::prelude::*;

verus! {

/// A source tree as it lies on disk.
pub enum Tree {
    File { name: Seq<char> },
    Directory { name: Seq<char>, entries: Seq<Tree> },
}

impl Tree {
    /// The name of the entry at the top of the tree.
    pub open spec fn name(self) -> Seq<char> {
        match self {
            Tree::File { name } => name,
            Tree::Directory { name, .. } => name,
        }
    }

    /// What the tree holds directly: nothing, for a file.
    pub open spec fn entries(self) -> Seq<Tree> {
        match self {
            Tree::File { .. } => Seq::empty(),
            Tree::Directory { entries, .. } => entries,
        }
    }

    /// The tree as its directory lists it.
    pub open spec fn listed(self) -> ChildView {
        ChildView { name: self.name(), is_dir: self is Directory }
    }
}

/// What a listing of a directory with these entries gives.
pub open spec fn listing(entries: Seq<Tree>) -> Seq<ChildView> {
    Seq::new(entries.len(), |i: int| entries[i].listed())
}

/// How the engine and the file system answer.
pub struct World {
    /// What the engine makes of the text of a path: `None` where it fails.
    pub names: spec_fn(Seq<char>) -> Option<Seq<char>>,
    /// What the engine makes of the template stored under a key: `None`
    /// where it fails.
    pub contents: spec_fn(Seq<char>) -> Option<Seq<char>>,
    /// Whether a directory can be created.
    pub creates: spec_fn(Seq<char>) -> bool,
    /// Whether a file can be written.
    pub writes: spec_fn(Seq<char>) -> bool,
}

/// What the recursion asks for when it visits `tree`, which lies at `path`,
/// one action after the other. The roots and the mode are those of `walk`.
///
/// The path is rendered first. For a directory the target is created and
/// the source is listed, and then each entry is visited in turn. For a file
/// the content is rendered and the target is written. A dry run creates
/// and writes nothing. What fails is reported, and the visit of this tree
/// ends there.
pub open spec fn visit(tree: Tree, path: Seq<char>, walk: WalkView, world: World) -> Seq<
    ActionView,
>
    decreases tree,
{
    let name = seq![ActionView::RenderName { path }];
    match pathname_result(path, (world.names)(path)) {
        Err(error) => name + seq![ActionView::Report { error }],
        Ok(rendered) => {
            let target = joined(walk.target_root, rendered);
            match tree {
                Tree::Directory { entries, .. } => {
                    let below = seq![ActionView::ListDir { source: path }] + visit_all(
                        entries,
                        path,
                        walk,
                        world,
                    );
                    if walk.dry_run {
                        name + below
                    } else if (world.creates)(target) {
                        name + seq![ActionView::CreateDir { target }] + below
                    } else {
                        name + seq![
                            ActionView::CreateDir { target },
                            ActionView::Report {
                                error: SchabloneErrorView::ProcessingError { name: rendered },
                            },
                        ]
                    }
                },
                Tree::File { .. } => {
                    let key = relative(path, walk.source_root)->0;
                    let asked = name + seq![ActionView::RenderContent { key }];
                    match content_result((world.contents)(key)) {
                        Err(error) => asked + seq![ActionView::Report { error }],
                        Ok(content) => {
                            if walk.dry_run {
                                asked
                            } else if (world.writes)(target) {
                                asked + seq![ActionView::WriteFile { target, content }]
                            } else {
                                asked + seq![
                                    ActionView::WriteFile { target, content },
                                    ActionView::Report { error: SchabloneErrorView::FileError },
                                ]
                            }
                        },
                    }
                },
            }
        },
    }
}

/// What the recursion asks for when it visits the entries of the directory
/// `dir`, one after the other.
pub open spec fn visit_all(entries: Seq<Tree>, dir: Seq<char>, walk: WalkView, world: World) -> Seq<
    ActionView,
>
    decreases entries,
{
    if entries.len() == 0 {
        Seq::empty()
    } else {
        visit(entries[0], child(dir, entries[0].name()), walk, world) + visit_all(
            entries.skip(1),
            dir,
            walk,
            world,
        )
    }
}

/// What the walk is told when it has asked for `asked` while it visits
/// `current`.
pub open spec fn answer(asked: ActionView, current: Tree, world: World) -> EventView {
    match asked {
        ActionView::RenderName { path } => EventView::Rendered((world.names)(path)),
        ActionView::RenderContent { key } => EventView::Rendered((world.contents)(key)),
        ActionView::CreateDir { target } => EventView::Created((world.creates)(target)),
        ActionView::WriteFile { target, .. } => EventView::Written((world.writes)(target)),
        ActionView::ListDir { .. } => EventView::Listed(listing(current.entries())),
        _ => EventView::Resume,
    }
}

/// Whether `trace` is what the walk asks for from here to its end: it has
/// just asked for `asked`, it visits `current`, the trees in `waiting` are
/// those of the entries that wait, and every action is answered as the
/// world answers it.
pub open spec fn runs(
    walk: WalkView,
    asked: ActionView,
    current: Tree,
    waiting: Seq<Tree>,
    world: World,
    trace: Seq<ActionView>,
) -> bool
    decreases trace.len(),
{
    &&& trace.len() > 0
    &&& trace[0] == asked
    &&& if asked is Done {
        trace.len() == 1
    } else {
        let found = if asked is ListDir {
            current.entries() + waiting
        } else {
            waiting
        };
        match walk.step(answer(asked, current, world)) {
            Some((next, then)) => {
                if then is RenderName && found.len() > 0 {
                    runs(next, then, found[0], found.skip(1), world, trace.skip(1))
                } else {
                    runs(next, then, current, found, world, trace.skip(1))
                }
            },
            None => false,
        }
    }
}

/// Whether the trees in `waiting` are those of the entries in `pending`,
/// one for one.
pub open spec fn paired(pending: Seq<EntryView>, waiting: Seq<Tree>) -> bool {
    &&& pending.len() == waiting.len()
    &&& forall|i: int|
        0 <= i < pending.len() ==> #[trigger] pending[i].is_dir == (waiting[i] is Directory)
}

/// What the recursion asks for when it visits the trees in `waiting`, which
/// lie at the paths in `pending`, one after the other.
pub open spec fn visit_each(
    waiting: Seq<Tree>,
    pending: Seq<EntryView>,
    walk: WalkView,
    world: World,
) -> Seq<ActionView>
    decreases waiting,
{
    if waiting.len() == 0 || pending.len() == 0 {
        Seq::empty()
    } else {
        visit(waiting[0], pending[0].path, walk, world) + visit_each(
            waiting.skip(1),
            pending.skip(1),
            walk,
            world,
        )
    }
}

/// Whether `trace` is what the walk asks for when it begins the next visit
/// from `after`.
pub open spec fn goes_on(
    after: WalkView,
    current: Tree,
    waiting: Seq<Tree>,
    world: World,
    trace: Seq<ActionView>,
) -> bool {
    let (next, then) = after.visit_next();
    if waiting.len() > 0 {
        runs(next, then, waiting[0], waiting.skip(1), world, trace)
    } else {
        runs(next, then, current, waiting, world, trace)
    }
}

/// Whether `after` is `walk` but for what the walk has left behind.
pub open spec fn same_walk(after: WalkView, walk: WalkView, pending: Seq<EntryView>) -> bool {
    &&& after.source_root == walk.source_root
    &&& after.target_root == walk.target_root
    &&& after.dry_run == walk.dry_run
    &&& after.pending == pending
}

/// Whether `trace` is what the walk asks for once it has only `pending`
/// left, with the trees in `waiting`.
pub open spec fn ends_with(
    walk: WalkView,
    pending: Seq<EntryView>,
    waiting: Seq<Tree>,
    world: World,
    trace: Seq<ActionView>,
) -> bool {
    forall|after: WalkView, current: Tree|
        same_walk(after, walk, pending) ==> #[trigger] goes_on(
            after,
            current,
            waiting,
            world,
            trace,
        )
}

/// One step of a run.
proof fn lemma_run_step(
    walk: WalkView,
    asked: ActionView,
    current: Tree,
    waiting: Seq<Tree>,
    world: World,
    tail: Seq<ActionView>,
)
    requires
        asked !is Done,
        walk.step(answer(asked, current, world)) is Some,
        ({
            let found = if asked is ListDir {
                current.entries() + waiting
            } else {
                waiting
            };
            let next = walk.next(answer(asked, current, world));
            let then = walk.asked(answer(asked, current, world));
            if then is RenderName && found.len() > 0 {
                runs(next, then, found[0], found.skip(1), world, tail)
            } else {
                runs(next, then, current, found, world, tail)
            }
        }),
    ensures
        runs(walk, asked, current, waiting, world, seq![asked] + tail),
{
    let trace = seq![asked] + tail;
    assert(trace.skip(1) =~= tail);
}

/// The step from a report to the next visit.
proof fn lemma_run_report(
    walk: WalkView,
    error: SchabloneErrorView,
    current: Tree,
    pending: Seq<EntryView>,
    waiting: Seq<Tree>,
    world: World,
    rest: Seq<ActionView>,
)
    requires
        walk.stage == Stage::Idle,
        walk.pending == pending,
        paired(pending, waiting),
        ends_with(walk, pending, waiting, world, rest),
    ensures
        runs(
            walk,
            ActionView::Report { error },
            current,
            waiting,
            world,
            seq![ActionView::Report { error }] + rest,
        ),
{
    assert(same_walk(walk, walk, pending));
    assert(goes_on(walk, current, waiting, world, rest));
    if waiting.len() > 0 {
        assert(pending[0].is_dir == (waiting[0] is Directory));
    }
    lemma_run_step(walk, ActionView::Report { error }, current, waiting, world, rest);
}

/// The step from the end of a visit to the next one.
proof fn lemma_run_on(
    walk: WalkView,
    asked: ActionView,
    current: Tree,
    pending: Seq<EntryView>,
    waiting: Seq<Tree>,
    world: World,
    rest: Seq<ActionView>,
)
    requires
        asked is RenderContent && walk.stage == Stage::FileContent && walk.dry_run
            && (world.contents)(asked->key) is Some || asked is WriteFile && walk.stage
            == Stage::FileWriting && (world.writes)(asked->WriteFile_target),
        walk.pending == pending,
        paired(pending, waiting),
        ends_with(walk, pending, waiting, world, rest),
    ensures
        runs(walk, asked, current, waiting, world, seq![asked] + rest),
{
    let after = walk.idle();
    assert(same_walk(after, walk, pending));
    assert(goes_on(after, current, waiting, world, rest));
    assert(after.visit_next() == walk.visit_next());
    if waiting.len() > 0 {
        assert(pending[0].is_dir == (waiting[0] is Directory));
    }
    lemma_run_step(walk, asked, current, waiting, world, rest);
}

/// The walk, when it has just begun to visit `tree`, asks for what the
/// recursion asks for on `tree`, and then for what it asks for on the
/// entries that waited.
proof fn lemma_visit(
    tree: Tree,
    walk: WalkView,
    waiting: Seq<Tree>,
    world: World,
    rest: Seq<ActionView>,
)
    requires
        walk.stage == (if tree is Directory {
            Stage::DirectoryName
        } else {
            Stage::FileName
        }),
        paired(walk.pending, waiting),
        ends_with(walk, walk.pending, waiting, world, rest),
    ensures
        runs(
            walk,
            ActionView::RenderName { path: walk.current },
            tree,
            waiting,
            world,
            visit(tree, walk.current, walk, world) + rest,
        ),
    decreases tree,
{
    let path = walk.current;
    let pending = walk.pending;
    let name = ActionView::RenderName { path };
    match pathname_result(path, (world.names)(path)) {
        Err(error) => {
            let report = ActionView::Report { error };
            lemma_run_report(walk.idle(), error, tree, pending, waiting, world, rest);
            lemma_run_step(walk, name, tree, waiting, world, seq![report] + rest);
            assert(visit(tree, path, walk, world) + rest =~= seq![name] + (seq![report] + rest));
        },
        Ok(rendered) => {
            let target = joined(walk.target_root, rendered);
            match tree {
                Tree::Directory { entries, .. } => {
                    let list = ActionView::ListDir { source: path };
                    let listing_walk = WalkView {
                        stage: Stage::DirectoryListing,
                        rendered,
                        ..walk
                    };
                    let below = visit_all(entries, path, walk, world);
                    // From the listing on: the entries come first.
                    let children = entries_of(path, listing(entries));
                    let entered = listing_walk.entered(listing(entries));
                    assert(entered.pending == children + pending);
                    lemma_visit_all_is_visit_each(entries, path, entered, world);
                    lemma_visit_all_same(entries, path, walk, entered, world);
                    lemma_visit_each(
                        entries,
                        children,
                        entered,
                        tree,
                        pending,
                        waiting,
                        world,
                        rest,
                    );
                    assert(same_walk(entered, entered, children + pending));
                    assert(goes_on(entered, tree, entries + waiting, world, below + rest));
                    if (entries + waiting).len() > 0 {
                        lemma_paired_concat(children, entries, pending, waiting);
                        assert((children + pending)[0].is_dir == ((entries + waiting)[0]
                            is Directory));
                    }
                    lemma_run_step(listing_walk, list, tree, waiting, world, below + rest);
                    if walk.dry_run {
                        lemma_run_step(walk, name, tree, waiting, world, seq![list] + (below + rest));
                        assert(visit(tree, path, walk, world) + rest =~= seq![name] + (seq![list]
                            + (below + rest)));
                    } else {
                        let create = ActionView::CreateDir { target };
                        let creating = WalkView {
                            stage: Stage::DirectoryCreation,
                            rendered,
                            ..walk
                        };
                        if (world.creates)(target) {
                            lemma_run_step(
                                creating,
                                create,
                                tree,
                                waiting,
                                world,
                                seq![list] + (below + rest),
                            );
                            lemma_run_step(
                                walk,
                                name,
                                tree,
                                waiting,
                                world,
                                seq![create] + (seq![list] + (below + rest)),
                            );
                            assert(visit(tree, path, walk, world) + rest =~= seq![name] + (
                            seq![create] + (seq![list] + (below + rest))));
                        } else {
                            let error = SchabloneErrorView::ProcessingError { name: rendered };
                            let report = ActionView::Report { error };
                            lemma_run_report(
                                creating.idle(),
                                error,
                                tree,
                                pending,
                                waiting,
                                world,
                                rest,
                            );
                            lemma_run_step(
                                creating,
                                create,
                                tree,
                                waiting,
                                world,
                                seq![report] + rest,
                            );
                            lemma_run_step(
                                walk,
                                name,
                                tree,
                                waiting,
                                world,
                                seq![create] + (seq![report] + rest),
                            );
                            assert(visit(tree, path, walk, world) + rest =~= seq![name] + (
                            seq![create] + (seq![report] + rest)));
                        }
                    }
                },
                Tree::File { .. } => {
                    let key = relative(path, walk.source_root)->0;
                    let render = ActionView::RenderContent { key };
                    let rendering = WalkView { stage: Stage::FileContent, rendered, ..walk };
                    match content_result((world.contents)(key)) {
                        Err(error) => {
                            let report = ActionView::Report { error };
                            lemma_run_report(
                                rendering.idle(),
                                error,
                                tree,
                                pending,
                                waiting,
                                world,
                                rest,
                            );
                            lemma_run_step(
                                rendering,
                                render,
                                tree,
                                waiting,
                                world,
                                seq![report] + rest,
                            );
                            lemma_run_step(
                                walk,
                                name,
                                tree,
                                waiting,
                                world,
                                seq![render] + (seq![report] + rest),
                            );
                            assert(visit(tree, path, walk, world) + rest =~= seq![name] + (
                            seq![render] + (seq![report] + rest)));
                        },
                        Ok(content) => {
                            if walk.dry_run {
                                lemma_run_on(
                                    rendering,
                                    render,
                                    tree,
                                    pending,
                                    waiting,
                                    world,
                                    rest,
                                );
                                lemma_run_step(
                                    walk,
                                    name,
                                    tree,
                                    waiting,
                                    world,
                                    seq![render] + rest,
                                );
                                assert(visit(tree, path, walk, world) + rest =~= seq![name] + (
                                seq![render] + rest));
                            } else {
                                let write = ActionView::WriteFile { target, content };
                                let writing = WalkView { stage: Stage::FileWriting, ..rendering };
                                if (world.writes)(target) {
                                    lemma_run_on(
                                        writing,
                                        write,
                                        tree,
                                        pending,
                                        waiting,
                                        world,
                                        rest,
                                    );
                                    lemma_run_step(
                                        rendering,
                                        render,
                                        tree,
                                        waiting,
                                        world,
                                        seq![write] + rest,
                                    );
                                    lemma_run_step(
                                        walk,
                                        name,
                                        tree,
                                        waiting,
                                        world,
                                        seq![render] + (seq![write] + rest),
                                    );
                                    assert(visit(tree, path, walk, world) + rest =~= seq![name]
                                        + (seq![render] + (seq![write] + rest)));
                                } else {
                                    let error = SchabloneErrorView::FileError;
                                    let report = ActionView::Report { error };
                                    lemma_run_report(
                                        writing.idle(),
                                        error,
                                        tree,
                                        pending,
                                        waiting,
                                        world,
                                        rest,
                                    );
                                    lemma_run_step(
                                        writing,
                                        write,
                                        tree,
                                        waiting,
                                        world,
                                        seq![report] + rest,
                                    );
                                    lemma_run_step(
                                        rendering,
                                        render,
                                        tree,
                                        waiting,
                                        world,
                                        seq![write] + (seq![report] + rest),
                                    );
                                    lemma_run_step(
                                        walk,
                                        name,
                                        tree,
                                        waiting,
                                        world,
                                        seq![render] + (seq![write] + (seq![report] + rest)),
                                    );
                                    assert(visit(tree, path, walk, world) + rest =~= seq![name]
                                        + (seq![render] + (seq![write] + (seq![report]
                                        + rest))));
                                }
                            }
                        },
                    }
                },
            }
        },
    }
}

/// The walk, when the entries of a directory wait in front of all others,
/// asks for what the recursion asks for on each of them in turn, and then
/// for what it asks for on the others.
proof fn lemma_visit_each(
    entries: Seq<Tree>,
    children: Seq<EntryView>,
    walk: WalkView,
    current: Tree,
    pending: Seq<EntryView>,
    waiting: Seq<Tree>,
    world: World,
    rest: Seq<ActionView>,
)
    requires
        paired(children, entries),
        paired(pending, waiting),
        ends_with(walk, pending, waiting, world, rest),
    ensures
        ends_with(
            walk,
            children + pending,
            entries + waiting,
            world,
            visit_each(entries, children, walk, world) + rest,
        ),
    decreases entries,
{
    let trace = visit_each(entries, children, walk, world) + rest;
    assert forall|after: WalkView, at: Tree| same_walk(after, walk, children + pending) implies
        #[trigger] goes_on(after, at, entries + waiting, world, trace) by {
        if entries.len() == 0 {
            assert(children + pending =~= pending);
            assert(entries + waiting =~= waiting);
            assert(trace =~= rest);
            assert(same_walk(after, walk, pending));
            assert(goes_on(after, at, waiting, world, rest));
        } else {
            let first = entries[0];
            let others = entries.skip(1);
            let left = children.skip(1);
            let (next, then) = after.visit_next();
            let later = visit_each(others, left, walk, world) + rest;
            assert((children + pending)[0] == children[0]);
            assert(children[0].is_dir == (entries[0] is Directory));
            assert((children + pending).skip(1) =~= left + pending);
            assert((entries + waiting).skip(1) =~= others + waiting);
            assert((entries + waiting)[0] == first);
            assert(paired(left, others)) by {
                assert forall|i: int| 0 <= i < left.len() implies #[trigger] left[i].is_dir == (
                others[i] is Directory) by {
                    assert(children[i + 1].is_dir == (entries[i + 1] is Directory));
                }
            }
            lemma_visit_each(others, left, walk, current, pending, waiting, world, rest);
            lemma_paired_concat(left, others, pending, waiting);
            lemma_ends_with_same(walk, next, left + pending, others + waiting, world, later);
            lemma_visit(first, next, others + waiting, world, later);
            lemma_visit_same(first, children[0].path, next, walk, world);
            assert(trace =~= visit(first, children[0].path, walk, world) + later);
        }
    }
}

/// What is left of a walk asks for the same, whichever of two walks with
/// the same roots and mode it is taken from.
proof fn lemma_ends_with_same(
    walk: WalkView,
    other: WalkView,
    pending: Seq<EntryView>,
    waiting: Seq<Tree>,
    world: World,
    trace: Seq<ActionView>,
)
    requires
        ends_with(walk, pending, waiting, world, trace),
        other.source_root == walk.source_root,
        other.target_root == walk.target_root,
        other.dry_run == walk.dry_run,
    ensures
        ends_with(other, pending, waiting, world, trace),
{
    assert forall|after: WalkView, current: Tree| same_walk(after, other, pending) implies
        #[trigger] goes_on(after, current, waiting, world, trace) by {
        assert(same_walk(after, walk, pending));
    }
}

/// What the recursion asks for depends on the roots and the mode of the
/// walk alone.
proof fn lemma_visit_same(
    tree: Tree,
    path: Seq<char>,
    walk: WalkView,
    other: WalkView,
    world: World,
)
    requires
        other.source_root == walk.source_root,
        other.target_root == walk.target_root,
        other.dry_run == walk.dry_run,
    ensures
        visit(tree, path, walk, world) == visit(tree, path, other, world),
    decreases tree,
{
    if tree is Directory {
        lemma_visit_all_same(tree.entries(), path, walk, other, world);
    }
}

/// The same for the entries of a directory.
proof fn lemma_visit_all_same(
    entries: Seq<Tree>,
    dir: Seq<char>,
    walk: WalkView,
    other: WalkView,
    world: World,
)
    requires
        other.source_root == walk.source_root,
        other.target_root == walk.target_root,
        other.dry_run == walk.dry_run,
    ensures
        visit_all(entries, dir, walk, world) == visit_all(entries, dir, other, world),
    decreases entries,
{
    if entries.len() > 0 {
        lemma_visit_same(entries[0], child(dir, entries[0].name()), walk, other, world);
        lemma_visit_all_same(entries.skip(1), dir, walk, other, world);
    }
}

/// Trees that are paired with entries stay so when two such lists are put
/// together.
proof fn lemma_paired_concat(
    children: Seq<EntryView>,
    entries: Seq<Tree>,
    pending: Seq<EntryView>,
    waiting: Seq<Tree>,
)
    requires
        paired(children, entries),
        paired(pending, waiting),
    ensures
        paired(children + pending, entries + waiting),
{
    assert forall|i: int| 0 <= i < (children + pending).len() implies #[trigger] (children
        + pending)[i].is_dir == ((entries + waiting)[i] is Directory) by {
        if i < children.len() {
            assert(children[i].is_dir == (entries[i] is Directory));
        } else {
            assert(pending[i - children.len()].is_dir == (waiting[i - children.len()]
                is Directory));
        }
    }
}

/// The entries of a directory are visited at the paths that its listing
/// gives them.
proof fn lemma_visit_all_is_visit_each(
    entries: Seq<Tree>,
    dir: Seq<char>,
    walk: WalkView,
    world: World,
)
    ensures
        visit_all(entries, dir, walk, world) == visit_each(
            entries,
            entries_of(dir, listing(entries)),
            walk,
            world,
        ),
        paired(entries_of(dir, listing(entries)), entries),
    decreases entries,
{
    if entries.len() > 0 {
        lemma_visit_all_is_visit_each(entries.skip(1), dir, walk, world);
        assert(entries_of(dir, listing(entries)).skip(1) =~= entries_of(
            dir,
            listing(entries.skip(1)),
        ));
    }
}

/// The walk asks for what the recursion asks for.
///
/// Take any tree under a directory, any roots, either mode, and any way the
/// engine and the file system may answer. Then the actions that the walk
/// asks for from its start to its end, each answered in that way, are the
/// actions of the recursive visit of the tree, in the same order, and then
/// `Done`.
pub proof fn lemma_walk_is_preorder(
    tree: Tree,
    source_root: Seq<char>,
    target_root: Seq<char>,
    dry_run: bool,
    world: World,
)
    requires
        tree is Directory,
    ensures
        ({
            let start = WalkView::start(source_root, target_root, dry_run);
            start.step(EventView::Resume) is Some && runs(
                start.next(EventView::Resume),
                start.asked(EventView::Resume),
                tree,
                Seq::empty(),
                world,
                visit(tree, source_root, start, world) + seq![ActionView::Done],
            )
        }),
{
    let start = WalkView::start(source_root, target_root, dry_run);
    let first = start.next(EventView::Resume);
    let none = Seq::<EntryView>::empty();
    let nothing = Seq::<Tree>::empty();
    let done = seq![ActionView::Done];
    assert(first.pending =~= none);
    assert forall|after: WalkView, current: Tree| same_walk(after, first, none) implies
        #[trigger] goes_on(after, current, nothing, world, done) by {
        assert(after.visit_next() == (after.idle(), ActionView::Done));
    }
    lemma_visit(tree, first, nothing, world, done);
    lemma_visit_same(tree, source_root, first, start, world);
}

/// Whether no action of the trace changes the file system.
pub open spec fn changes_nothing(trace: Seq<ActionView>) -> bool {
    forall|i: int| 0 <= i < trace.len() ==> !(#[trigger] trace[i]).is_mutation()
}

/// Two traces that change nothing change nothing together.
proof fn lemma_changes_nothing_concat(first: Seq<ActionView>, second: Seq<ActionView>)
    requires
        changes_nothing(first),
        changes_nothing(second),
    ensures
        changes_nothing(first + second),
{
    assert forall|i: int| 0 <= i < (first + second).len() implies !(#[trigger] (first
        + second)[i]).is_mutation() by {
        if i < first.len() {
            assert((first + second)[i] == first[i]);
        } else {
            assert((first + second)[i] == second[i - first.len()]);
        }
    }
}

/// In a dry run the visit of a tree changes nothing: whatever the tree
/// holds and whatever renders or fails, no directory is created and no file
/// is written.
pub proof fn lemma_dry_visit_changes_nothing(
    tree: Tree,
    path: Seq<char>,
    walk: WalkView,
    world: World,
)
    requires
        walk.dry_run,
    ensures
        changes_nothing(visit(tree, path, walk, world)),
    decreases tree,
{
    let name = seq![ActionView::RenderName { path }];
    match pathname_result(path, (world.names)(path)) {
        Err(error) => {},
        Ok(rendered) => {
            match tree {
                Tree::Directory { entries, .. } => {
                    let list = seq![ActionView::ListDir { source: path }];
                    lemma_dry_visit_all_changes_nothing(entries, path, walk, world);
                    lemma_changes_nothing_concat(list, visit_all(entries, path, walk, world));
                    lemma_changes_nothing_concat(
                        name,
                        list + visit_all(entries, path, walk, world),
                    );
                },
                Tree::File { .. } => {},
            }
        },
    }
}

/// The same for the entries of a directory.
pub proof fn lemma_dry_visit_all_changes_nothing(
    entries: Seq<Tree>,
    dir: Seq<char>,
    walk: WalkView,
    world: World,
)
    requires
        walk.dry_run,
    ensures
        changes_nothing(visit_all(entries, dir, walk, world)),
    decreases entries,
{
    if entries.len() > 0 {
        lemma_dry_visit_changes_nothing(entries[0], child(dir, entries[0].name()), walk, world);
        lemma_dry_visit_all_changes_nothing(entries.skip(1), dir, walk, world);
        lemma_changes_nothing_concat(
            visit(entries[0], child(dir, entries[0].name()), walk, world),
            visit_all(entries.skip(1), dir, walk, world),
        );
    }
}

/// A file whose path or content does not render is not written: its visit
/// changes nothing, in either mode, and ends with the report of the error.
pub proof fn lemma_failed_file_is_not_written(
    name: Seq<char>,
    path: Seq<char>,
    walk: WalkView,
    world: World,
)
    requires
        (world.names)(path) is None || (world.contents)(relative(path, walk.source_root)->0)
            is None,
    ensures
        changes_nothing(visit(Tree::File { name }, path, walk, world)),
        visit(Tree::File { name }, path, walk, world).last() is Report,
{
}

/// Every entry of a directory is visited, whatever becomes of the others:
/// the visit of the directory's entries is made of the visits of those
/// before the entry, the visit of the entry itself, and the visits of those
/// behind it, none of them cut short by a failure in another.
pub proof fn lemma_every_entry_is_visited(
    entries: Seq<Tree>,
    dir: Seq<char>,
    walk: WalkView,
    world: World,
    at: int,
)
    requires
        0 <= at < entries.len(),
    ensures
        visit_all(entries, dir, walk, world) == visit_all(entries.take(at), dir, walk, world)
            + visit(entries[at], child(dir, entries[at].name()), walk, world) + visit_all(
            entries.skip(at + 1),
            dir,
            walk,
            world,
        ),
    decreases at,
{
    let first = visit(entries[0], child(dir, entries[0].name()), walk, world);
    if at == 0 {
        assert(entries.take(0) =~= Seq::<Tree>::empty());
        assert(visit_all(entries.take(0), dir, walk, world) + first =~= first);
    } else {
        let rest = entries.skip(1);
        lemma_every_entry_is_visited(rest, dir, walk, world, at - 1);
        assert(rest.take(at - 1) =~= entries.take(at).skip(1));
        assert(rest.skip(at) =~= entries.skip(at + 1));
        assert(rest[at - 1] == entries[at]);
        assert(entries.take(at)[0] == entries[0]);
        let before = visit_all(rest.take(at - 1), dir, walk, world);
        let here = visit(entries[at], child(dir, entries[at].name()), walk, world);
        let behind = visit_all(entries.skip(at + 1), dir, walk, world);
        assert(visit_all(entries.take(at), dir, walk, world) == first + before);
        assert(first + (before + here + behind) =~= (first + before) + here + behind);
    }
}

/// Whether an action is asked for in a dry run as in a real run: everything
/// but the changes to the file system and the report of a file that could
/// not be written.
pub open spec fn is_dry(action: ActionView) -> bool {
    !action.is_mutation() && action != (ActionView::Report {
        error: SchabloneErrorView::FileError,
    })
}

/// What is left of a trace in a dry run.
pub open spec fn dry_part(trace: Seq<ActionView>) -> Seq<ActionView>
    decreases trace.len(),
{
    if trace.len() == 0 {
        Seq::empty()
    } else if is_dry(trace[0]) {
        seq![trace[0]] + dry_part(trace.skip(1))
    } else {
        dry_part(trace.skip(1))
    }
}

/// What is left of a single action.
proof fn lemma_dry_part_one(action: ActionView)
    ensures
        dry_part(seq![action]) == if is_dry(action) {
            seq![action]
        } else {
            Seq::<ActionView>::empty()
        },
{
    reveal_with_fuel(dry_part, 2);
    assert(seq![action].skip(1) =~= Seq::<ActionView>::empty());
    assert(seq![action] + Seq::<ActionView>::empty() =~= seq![action]);
}

/// What is left of two traces is what is left of each.
proof fn lemma_dry_part_concat(first: Seq<ActionView>, second: Seq<ActionView>)
    ensures
        dry_part(first + second) == dry_part(first) + dry_part(second),
    decreases first.len(),
{
    if first.len() == 0 {
        assert(first + second =~= second);
        assert(dry_part(first) + dry_part(second) =~= dry_part(second));
    } else {
        lemma_dry_part_concat(first.skip(1), second);
        assert((first + second).skip(1) =~= first.skip(1) + second);
        assert((first + second)[0] == first[0]);
        assert((seq![first[0]] + dry_part(first.skip(1))) + dry_part(second) =~= seq![first[0]]
            + (dry_part(first.skip(1)) + dry_part(second)));
    }
}

/// A dry run visits what the real run visits. Where every directory of the
/// real run can be created, the dry run asks for the same renderings and
/// listings and reports the same failed renderings, in the same order: its
/// trace is that of the real run without the changes to the file system and
/// without the reports of files that could not be written.
pub proof fn lemma_dry_visit_is_the_real_visit(
    tree: Tree,
    path: Seq<char>,
    walk: WalkView,
    world: World,
)
    requires
        forall|target: Seq<char>| #[trigger] (world.creates)(target),
    ensures
        visit(tree, path, WalkView { dry_run: true, ..walk }, world) == dry_part(
            visit(tree, path, WalkView { dry_run: false, ..walk }, world),
        ),
    decreases tree,
{
    let dry = WalkView { dry_run: true, ..walk };
    let actual = WalkView { dry_run: false, ..walk };
    let name = ActionView::RenderName { path };
    lemma_dry_part_one(name);
    match pathname_result(path, (world.names)(path)) {
        Err(error) => {
            let report = ActionView::Report { error };
            lemma_dry_part_one(report);
            lemma_dry_part_concat(seq![name], seq![report]);
        },
        Ok(rendered) => {
            let target = joined(walk.target_root, rendered);
            match tree {
                Tree::Directory { entries, .. } => {
                    let create = ActionView::CreateDir { target };
                    let list = ActionView::ListDir { source: path };
                    let below = visit_all(entries, path, actual, world);
                    lemma_dry_visit_all_is_the_real_visit(entries, path, walk, world);
                    lemma_dry_part_one(create);
                    lemma_dry_part_one(list);
                    assert((world.creates)(target));
                    lemma_dry_part_concat(seq![list], below);
                    lemma_dry_part_concat(seq![name] + seq![create], seq![list] + below);
                    lemma_dry_part_concat(seq![name], seq![create]);
                    assert(seq![name] + seq![create] + (seq![list] + below) =~= visit(
                        tree,
                        path,
                        actual,
                        world,
                    ));
                    assert(seq![name] + Seq::<ActionView>::empty() + (seq![list] + dry_part(below))
                        =~= visit(tree, path, dry, world));
                },
                Tree::File { .. } => {
                    let key = relative(path, walk.source_root)->0;
                    let render = ActionView::RenderContent { key };
                    lemma_dry_part_one(render);
                    lemma_dry_part_concat(seq![name], seq![render]);
                    match content_result((world.contents)(key)) {
                        Err(error) => {
                            let report = ActionView::Report { error };
                            lemma_dry_part_one(report);
                            lemma_dry_part_concat(seq![name] + seq![render], seq![report]);
                        },
                        Ok(content) => {
                            let write = ActionView::WriteFile { target, content };
                            let report = ActionView::Report {
                                error: SchabloneErrorView::FileError,
                            };
                            lemma_dry_part_one(write);
                            lemma_dry_part_one(report);
                            lemma_dry_part_concat(seq![name] + seq![render], seq![write]);
                            lemma_dry_part_concat(seq![write], seq![report]);
                            lemma_dry_part_concat(
                                seq![name] + seq![render],
                                seq![write] + seq![report],
                            );
                            assert(seq![write] + seq![report] =~= seq![write, report]);
                            assert(seq![name] + seq![render] + Seq::<ActionView>::empty()
                                =~= seq![name] + seq![render]);
                            assert(seq![name] + seq![render] + (Seq::<ActionView>::empty()
                                + Seq::<ActionView>::empty()) =~= seq![name] + seq![render]);
                        },
                    }
                },
            }
        },
    }
}

/// The same for the entries of a directory.
pub proof fn lemma_dry_visit_all_is_the_real_visit(
    entries: Seq<Tree>,
    dir: Seq<char>,
    walk: WalkView,
    world: World,
)
    requires
        forall|target: Seq<char>| #[trigger] (world.creates)(target),
    ensures
        visit_all(entries, dir, WalkView { dry_run: true, ..walk }, world) == dry_part(
            visit_all(entries, dir, WalkView { dry_run: false, ..walk }, world),
        ),
    decreases entries,
{
    let actual = WalkView { dry_run: false, ..walk };
    if entries.len() > 0 {
        lemma_dry_visit_is_the_real_visit(entries[0], child(dir, entries[0].name()), walk, world);
        lemma_dry_visit_all_is_the_real_visit(entries.skip(1), dir, walk, world);
        lemma_dry_part_concat(
            visit(entries[0], child(dir, entries[0].name()), actual, world),
            visit_all(entries.skip(1), dir, actual, world),
        );
    }
}

/// Whether `target` is what some path rendered to, seen from the target
/// root.
pub open spec fn is_rendered_target(target: Seq<char>, walk: WalkView, world: World) -> bool {
    exists|path: Seq<char>|
        (#[trigger] (world.names)(path)) is Some && target == joined(
            walk.target_root,
            (world.names)(path)->0,
        )
}

/// Whether the trace creates and writes nothing but rendered paths, seen
/// from the target root.
pub open spec fn builds_rendered_paths(trace: Seq<ActionView>, walk: WalkView, world: World) -> bool {
    forall|i: int|
        0 <= i < trace.len() ==> match #[trigger] trace[i] {
            ActionView::CreateDir { target } => is_rendered_target(target, walk, world),
            ActionView::WriteFile { target, .. } => is_rendered_target(target, walk, world),
            _ => true,
        }
}

/// Two traces that build rendered paths do so together.
proof fn lemma_builds_rendered_paths_concat(
    first: Seq<ActionView>,
    second: Seq<ActionView>,
    walk: WalkView,
    world: World,
)
    requires
        builds_rendered_paths(first, walk, world),
        builds_rendered_paths(second, walk, world),
    ensures
        builds_rendered_paths(first + second, walk, world),
{
    assert forall|i: int| 0 <= i < (first + second).len() implies match #[trigger] (first
        + second)[i] {
        ActionView::CreateDir { target } => is_rendered_target(target, walk, world),
        ActionView::WriteFile { target, .. } => is_rendered_target(target, walk, world),
        _ => true,
    } by {
        if i < first.len() {
            assert((first + second)[i] == first[i]);
        } else {
            assert((first + second)[i] == second[i - first.len()]);
        }
    }
}

/// Whatever a visit creates or writes lies where a rendered path says, seen
/// from the target root: nothing is built at a place that no path of the
/// source tree rendered to.
pub proof fn lemma_visit_builds_rendered_paths(
    tree: Tree,
    path: Seq<char>,
    walk: WalkView,
    world: World,
)
    ensures
        builds_rendered_paths(visit(tree, path, walk, world), walk, world),
    decreases tree,
{
    let name = seq![ActionView::RenderName { path }];
    match pathname_result(path, (world.names)(path)) {
        Err(error) => {},
        Ok(rendered) => {
            let target = joined(walk.target_root, rendered);
            assert((world.names)(path) is Some);
            assert(is_rendered_target(target, walk, world));
            match tree {
                Tree::Directory { entries, .. } => {
                    let create = seq![ActionView::CreateDir { target }];
                    let list = seq![ActionView::ListDir { source: path }];
                    let below = visit_all(entries, path, walk, world);
                    lemma_visit_all_builds_rendered_paths(entries, path, walk, world);
                    lemma_builds_rendered_paths_concat(list, below, walk, world);
                    lemma_builds_rendered_paths_concat(name, list + below, walk, world);
                    lemma_builds_rendered_paths_concat(name, create, walk, world);
                    lemma_builds_rendered_paths_concat(name + create, list + below, walk, world);
                },
                Tree::File { .. } => {},
            }
        },
    }
}

/// The same for the entries of a directory.
pub proof fn lemma_visit_all_builds_rendered_paths(
    entries: Seq<Tree>,
    dir: Seq<char>,
    walk: WalkView,
    world: World,
)
    ensures
        builds_rendered_paths(visit_all(entries, dir, walk, world), walk, world),
    decreases entries,
{
    if entries.len() > 0 {
        lemma_visit_builds_rendered_paths(entries[0], child(dir, entries[0].name()), walk, world);
        lemma_visit_all_builds_rendered_paths(entries.skip(1), dir, walk, world);
        lemma_builds_rendered_paths_concat(
            visit(entries[0], child(dir, entries[0].name()), walk, world),
            visit_all(entries.skip(1), dir, walk, world),
            walk,
            world,
        );
    }
}

} // verus!
