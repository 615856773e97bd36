use schablone::error::SchabloneError;
use schablone::protocol::{Action, Child, Event};
use schablone::walk::Walk;

fn child(name: &str, is_dir: bool) -> Child {
    Child { name: name.to_string(), is_dir }
}

fn rendered(text: &str) -> Event {
    Event::Rendered(Some(text.to_string()))
}

fn render_name(path: &str) -> Option<Action> {
    Some(Action::RenderName { path: path.to_string() })
}

/// A walk that has listed the root `tmpl` with the given entries and has
/// begun to visit the first of them.
fn walk_into(children: Vec<Child>, dry_run: bool) -> (Walk, Option<Action>) {
    let mut walk = Walk::new("tmpl", "out", dry_run);
    assert_eq!(walk.step(Event::Resume), render_name("tmpl"));
    if dry_run {
        assert_eq!(
            walk.step(rendered("tmpl")),
            Some(Action::ListDir { source: "tmpl".to_string() })
        );
    } else {
        assert_eq!(
            walk.step(rendered("tmpl")),
            Some(Action::CreateDir { target: "out/tmpl".to_string() })
        );
        assert_eq!(
            walk.step(Event::Created(true)),
            Some(Action::ListDir { source: "tmpl".to_string() })
        );
    }
    let first = walk.step(Event::Listed(children));
    (walk, first)
}

#[test]
fn walk_begins_with_the_source_root() {
    let mut walk = Walk::new("tmpl", "out", false);
    assert!(!walk.is_done());
    assert!(!walk.is_dry_run());
    assert_eq!(walk.step(Event::Resume), render_name("tmpl"));
}

#[test]
fn directory_is_rendered_created_and_listed() {
    let mut walk = Walk::new("tmpl/{{p}}", "out", false);
    assert_eq!(walk.step(Event::Resume), render_name("tmpl/{{p}}"));
    assert_eq!(
        walk.step(rendered("tmpl/acme")),
        Some(Action::CreateDir { target: "out/tmpl/acme".to_string() })
    );
    assert_eq!(
        walk.step(Event::Created(true)),
        Some(Action::ListDir { source: "tmpl/{{p}}".to_string() })
    );
    assert_eq!(walk.step(Event::Listed(vec![])), Some(Action::Done));
    assert!(walk.is_done());
}

#[test]
fn file_is_rendered_twice_and_written() {
    let (mut walk, first) = walk_into(vec![child("{{p}}.md", false)], false);
    assert_eq!(first, render_name("tmpl/{{p}}.md"));
    assert_eq!(
        walk.step(rendered("tmpl/acme.md")),
        Some(Action::RenderContent { key: "{{p}}.md".to_string() })
    );
    assert_eq!(
        walk.step(rendered("# Acme")),
        Some(Action::WriteFile {
            target: "out/tmpl/acme.md".to_string(),
            content: "# Acme".to_string()
        })
    );
    assert_eq!(walk.step(Event::Written(true)), Some(Action::Done));
    assert!(walk.is_done());
}

#[test]
fn entries_are_visited_in_listed_order_and_depth_first() {
    let (mut walk, first) =
        walk_into(vec![child("a", true), child("b.md", false), child("c", true)], true);
    assert_eq!(first, render_name("tmpl/a"));
    assert_eq!(walk.step(rendered("tmpl/a")), Some(Action::ListDir { source: "tmpl/a".to_string() }));
    assert_eq!(
        walk.step(Event::Listed(vec![child("x.md", false), child("y.md", false)])),
        render_name("tmpl/a/x.md")
    );
    assert_eq!(
        walk.step(rendered("tmpl/a/x.md")),
        Some(Action::RenderContent { key: "a/x.md".to_string() })
    );
    assert_eq!(walk.step(rendered("x")), render_name("tmpl/a/y.md"));
    assert_eq!(
        walk.step(rendered("tmpl/a/y.md")),
        Some(Action::RenderContent { key: "a/y.md".to_string() })
    );
    assert_eq!(walk.step(rendered("y")), render_name("tmpl/b.md"));
    assert_eq!(
        walk.step(rendered("tmpl/b.md")),
        Some(Action::RenderContent { key: "b.md".to_string() })
    );
    assert_eq!(walk.step(rendered("b")), render_name("tmpl/c"));
    assert_eq!(walk.step(rendered("tmpl/c")), Some(Action::ListDir { source: "tmpl/c".to_string() }));
    assert_eq!(walk.step(Event::Listed(vec![])), Some(Action::Done));
}

#[test]
fn dry_run_creates_and_writes_nothing() {
    let (mut walk, first) = walk_into(vec![child("a.md", false), child("sub", true)], true);
    assert!(walk.is_dry_run());
    assert_eq!(first, render_name("tmpl/a.md"));
    assert_eq!(
        walk.step(rendered("tmpl/a.md")),
        Some(Action::RenderContent { key: "a.md".to_string() })
    );
    assert_eq!(walk.step(rendered("content")), render_name("tmpl/sub"));
    assert_eq!(
        walk.step(rendered("tmpl/sub")),
        Some(Action::ListDir { source: "tmpl/sub".to_string() })
    );
    assert_eq!(walk.step(Event::Listed(vec![])), Some(Action::Done));
}

#[test]
fn failed_directory_name_skips_the_subtree() {
    let (mut walk, first) = walk_into(vec![child("{{x}}", true), child("b.md", false)], false);
    assert_eq!(first, render_name("tmpl/{{x}}"));
    let error = SchabloneError::ProcessingError { name: "{{x}}".to_string() };
    assert_eq!(walk.step(Event::Rendered(None)), Some(Action::Report { error }));
    assert_eq!(walk.step(Event::Resume), render_name("tmpl/b.md"));
}

#[test]
fn failed_directory_creation_names_the_rendered_path() {
    let (mut walk, first) = walk_into(vec![child("{{p}}", true), child("b.md", false)], false);
    assert_eq!(first, render_name("tmpl/{{p}}"));
    assert_eq!(
        walk.step(rendered("tmpl/acme")),
        Some(Action::CreateDir { target: "out/tmpl/acme".to_string() })
    );
    assert_eq!(
        walk.step(Event::Created(false)),
        Some(Action::Report {
            error: SchabloneError::ProcessingError { name: "tmpl/acme".to_string() }
        })
    );
    assert_eq!(walk.step(Event::Resume), render_name("tmpl/b.md"));
}

#[test]
fn failed_content_skips_the_file_only() {
    let (mut walk, first) = walk_into(vec![child("a.md", false), child("b.md", false)], false);
    assert_eq!(first, render_name("tmpl/a.md"));
    assert_eq!(
        walk.step(rendered("tmpl/a.md")),
        Some(Action::RenderContent { key: "a.md".to_string() })
    );
    assert_eq!(
        walk.step(Event::Rendered(None)),
        Some(Action::Report { error: SchabloneError::TemplateError })
    );
    assert_eq!(walk.step(Event::Resume), render_name("tmpl/b.md"));
}

#[test]
fn failed_write_is_a_file_error() {
    let (mut walk, first) = walk_into(vec![child("a.md", false), child("b.md", false)], false);
    assert_eq!(first, render_name("tmpl/a.md"));
    assert!(walk.step(rendered("tmpl/a.md")).is_some());
    assert!(walk.step(rendered("content")).is_some());
    assert_eq!(
        walk.step(Event::Written(false)),
        Some(Action::Report { error: SchabloneError::FileError })
    );
    assert_eq!(walk.step(Event::Resume), render_name("tmpl/b.md"));
}

#[test]
fn failure_is_met_in_a_dry_run_as_in_a_real_run() {
    for dry_run in [true, false] {
        let (mut walk, first) = walk_into(vec![child("a.md", false), child("b.md", false)], dry_run);
        assert_eq!(first, render_name("tmpl/a.md"));
        assert!(walk.step(rendered("tmpl/a.md")).is_some());
        assert_eq!(
            walk.step(Event::Rendered(None)),
            Some(Action::Report { error: SchabloneError::TemplateError })
        );
        assert_eq!(walk.step(Event::Resume), render_name("tmpl/b.md"));
    }
}

#[test]
fn event_that_is_no_answer_is_refused() {
    let mut walk = Walk::new("tmpl", "out", false);
    assert_eq!(walk.step(Event::Created(true)), None);
    assert_eq!(walk.step(Event::Written(true)), None);
    assert_eq!(walk.step(rendered("x")), None);
    assert_eq!(walk.step(Event::Listed(vec![])), None);
    assert_eq!(walk.step(Event::FileRead(None)), None);
    assert_eq!(walk.step(Event::SourcesRead(None)), None);
    assert_eq!(walk.step(Event::Compiled(true)), None);
    assert_eq!(walk.step(Event::Resume), render_name("tmpl"));
    assert_eq!(walk.step(Event::Resume), None);
    assert_eq!(walk.step(Event::Created(true)), None);
    assert_eq!(
        walk.step(rendered("tmpl")),
        Some(Action::CreateDir { target: "out/tmpl".to_string() })
    );
    assert_eq!(walk.step(rendered("tmpl")), None);
    assert_eq!(walk.step(Event::Listed(vec![])), None);
}

#[test]
fn finished_walk_stays_done() {
    let (mut walk, first) = walk_into(vec![], false);
    assert_eq!(first, Some(Action::Done));
    assert!(walk.is_done());
    assert_eq!(walk.step(Event::Resume), Some(Action::Done));
    assert!(walk.is_done());
}

#[test]
fn rendered_path_from_the_root_replaces_the_target_root() {
    let mut walk = Walk::new("/abs/tmpl", "out", false);
    assert_eq!(walk.step(Event::Resume), render_name("/abs/tmpl"));
    assert_eq!(
        walk.step(rendered("/abs/tmpl")),
        Some(Action::CreateDir { target: "/abs/tmpl".to_string() })
    );
}

#[test]
fn failed_file_name_names_the_file() {
    let (mut walk, first) = walk_into(vec![child("{{x}}.md", false), child("b.md", false)], false);
    assert_eq!(first, render_name("tmpl/{{x}}.md"));
    assert_eq!(
        walk.step(Event::Rendered(None)),
        Some(Action::Report {
            error: SchabloneError::ProcessingError { name: "{{x}}.md".to_string() }
        })
    );
    assert_eq!(walk.step(Event::Resume), render_name("tmpl/b.md"));
}

#[test]
fn directory_visit_takes_no_answer_meant_for_a_file() {
    let (mut walk, first) = walk_into(vec![child("sub", true)], false);
    assert_eq!(first, render_name("tmpl/sub"));
    assert_eq!(walk.process_file(rendered("tmpl/sub")), None);
    assert_eq!(
        walk.process_directory(rendered("tmpl/sub")),
        Some(Action::CreateDir { target: "out/tmpl/sub".to_string() })
    );
    assert_eq!(walk.process_file(Event::Written(true)), None);
    assert_eq!(
        walk.process_directory(Event::Created(true)),
        Some(Action::ListDir { source: "tmpl/sub".to_string() })
    );
}

#[test]
fn file_visit_takes_no_answer_meant_for_a_directory() {
    let (mut walk, first) = walk_into(vec![child("a.md", false)], false);
    assert_eq!(first, render_name("tmpl/a.md"));
    assert_eq!(walk.process_directory(rendered("tmpl/a.md")), None);
    assert_eq!(
        walk.process_file(rendered("tmpl/a.md")),
        Some(Action::RenderContent { key: "a.md".to_string() })
    );
    assert_eq!(walk.process_directory(Event::Listed(vec![])), None);
    assert_eq!(
        walk.process_file(rendered("a")),
        Some(Action::WriteFile { target: "out/tmpl/a.md".to_string(), content: "a".to_string() })
    );
    assert_eq!(walk.process_file(Event::Written(true)), Some(Action::Done));
}
