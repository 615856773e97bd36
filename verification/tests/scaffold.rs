use schablone::builder::{build_schablone, Phase, EXIT_FAILURE, EXIT_SUCCESS};
use schablone::error::SchabloneError;
use schablone::protocol::{Action, Child, Event, Source};
use schablone::Build;
use serde_json::Value;
use std::collections::{BTreeMap, BTreeSet};

/// A file system that lives in memory: the source tree, the text files
/// beside it and what was built.
struct World {
    source_dirs: BTreeMap<String, Vec<(String, bool)>>,
    source_files: BTreeMap<String, String>,
    texts: BTreeMap<String, String>,
    dirs: BTreeSet<String>,
    files: BTreeMap<String, String>,
    read_only: BTreeSet<String>,
    actions: Vec<String>,
    engine: tera::Tera,
}

impl World {
    fn new() -> World {
        World {
            source_dirs: BTreeMap::new(),
            source_files: BTreeMap::new(),
            texts: BTreeMap::new(),
            dirs: BTreeSet::new(),
            files: BTreeMap::new(),
            read_only: BTreeSet::new(),
            actions: Vec::new(),
            engine: tera::Tera::default(),
        }
    }

    fn parent(path: &str) -> Option<&str> {
        path.rfind('/').map(|at| &path[..at])
    }

    fn source_dir(mut self, path: &str) -> World {
        self.source_dirs.entry(path.to_string()).or_default();
        if let Some(parent) = World::parent(path) {
            let name = path[parent.len() + 1..].to_string();
            self.source_dirs.entry(parent.to_string()).or_default().push((name, true));
        }
        self
    }

    fn source_file(mut self, path: &str, content: &str) -> World {
        let parent = World::parent(path).unwrap();
        let name = path[parent.len() + 1..].to_string();
        self.source_dirs.entry(parent.to_string()).or_default().push((name, false));
        self.source_files.insert(path.to_string(), content.to_string());
        self
    }

    fn text(mut self, path: &str, content: &str) -> World {
        self.texts.insert(path.to_string(), content.to_string());
        self
    }

    fn create_dir(&mut self, path: &str) -> bool {
        let parent_exists = match World::parent(path) {
            Some(parent) => self.dirs.contains(parent),
            None => true,
        };
        if !parent_exists || self.dirs.contains(path) || self.read_only.contains(path) {
            return false;
        }
        self.dirs.insert(path.to_string());
        true
    }

    fn write(&mut self, path: &str, content: String) -> bool {
        let parent_exists = match World::parent(path) {
            Some(parent) => self.dirs.contains(parent),
            None => true,
        };
        if !parent_exists || self.read_only.contains(path) {
            return false;
        }
        self.files.insert(path.to_string(), content);
        true
    }

    fn sources(&self, root: &str) -> Vec<Source> {
        let below = format!("{}/", root);
        self.source_files
            .iter()
            .filter(|(path, _)| path.starts_with(&below))
            .map(|(path, content)| Source { path: path.clone(), content: content.clone() })
            .collect()
    }

    fn list(&self, dir: &str) -> Vec<Child> {
        self.source_dirs[dir]
            .iter()
            .map(|(name, is_dir)| Child { name: name.clone(), is_dir: *is_dir })
            .collect()
    }
}

/// Carries out what the build asks for until it ends. Gives back the exit
/// code and what was reported on the way.
fn run(build: &mut Build, world: &mut World) -> (i32, Vec<SchabloneError>) {
    let mut reported = Vec::new();
    let mut event = Event::Resume;
    loop {
        let action = build.advance(event).unwrap();
        event = match action {
            Action::CreateDir { target } => {
                world.actions.push(format!("mkdir {}", target));
                Event::Created(world.create_dir(&target))
            },
            Action::ReadFile { path } => Event::FileRead(world.texts.get(&path).cloned()),
            Action::ReadSources { root } => Event::SourcesRead(Some(world.sources(&root))),
            Action::Compile { templates } => {
                world.engine = tera::Tera::default();
                let pairs = templates.iter().map(|t| (t.key.as_str(), t.text.as_str()));
                Event::Compiled(world.engine.add_raw_templates(pairs).is_ok())
            },
            Action::RenderName { path } => {
                Event::Rendered(world.engine.render_str(&path, build.context()).ok())
            },
            Action::RenderContent { key } => {
                Event::Rendered(world.engine.render(&key, build.context()).ok())
            },
            Action::ListDir { source } => Event::Listed(world.list(&source)),
            Action::WriteFile { target, content } => {
                world.actions.push(format!("write {}", target));
                Event::Written(world.write(&target, content))
            },
            Action::Report { error } => {
                reported.push(error);
                Event::Resume
            },
            Action::Exit { code } => return (code, reported),
            Action::Done => panic!("a build ends with an exit code"),
        };
    }
}

fn acme() -> World {
    World::new()
        .source_dir("tmpl")
        .source_dir("tmpl/{{project}}")
        .source_file("tmpl/{{project}}/{{project}}.md", "# {{title}}")
}

#[test]
fn tree_is_built_with_rendered_names_and_content() {
    let mut world = acme();
    let mut build = build_schablone("tmpl", "out", "project=acme,title=Acme", "", false);
    assert_eq!(run(&mut build, &mut world), (EXIT_SUCCESS, vec![]));
    assert!(world.dirs.contains("out"));
    assert!(world.dirs.contains("out/tmpl/acme"));
    assert_eq!(world.files.get("out/tmpl/acme/acme.md"), Some(&"# Acme".to_string()));
    assert_eq!(world.files.len(), 1);
    assert_eq!(
        world.actions,
        vec!["mkdir out", "mkdir out/tmpl", "mkdir out/tmpl/acme", "write out/tmpl/acme/acme.md"]
    );
    assert_eq!(build.phase(), Phase::Finished);
}

#[test]
fn parameters_come_from_the_file_and_the_line() {
    let mut world = acme().text("p.json", "{\"project\": \"from-file\", \"title\": \"Acme\"}");
    let mut build = build_schablone("tmpl", "out", "project=acme", "p.json", false);
    assert_eq!(run(&mut build, &mut world), (EXIT_SUCCESS, vec![]));
    assert_eq!(world.files.get("out/tmpl/acme/acme.md"), Some(&"# Acme".to_string()));
    assert_eq!(build.context().get("project"), Some(&Value::String("acme".to_string())));
    assert_eq!(build.context().get("title"), Some(&Value::String("Acme".to_string())));
}

#[test]
fn missing_parameters_file_does_not_stop_the_build() {
    let mut world = acme();
    let mut build = build_schablone("tmpl", "out", "project=acme,title=Acme", "nowhere.json", false);
    assert_eq!(run(&mut build, &mut world), (EXIT_SUCCESS, vec![]));
    assert_eq!(world.files.get("out/tmpl/acme/acme.md"), Some(&"# Acme".to_string()));
}

#[test]
fn malformed_parameters_file_does_not_stop_the_build() {
    let mut world = acme().text("p.json", "{\"project\": ");
    let mut build = build_schablone("tmpl", "out", "project=acme,title=Acme", "p.json", false);
    assert_eq!(run(&mut build, &mut world), (EXIT_SUCCESS, vec![]));
    assert_eq!(world.files.get("out/tmpl/acme/acme.md"), Some(&"# Acme".to_string()));
}

#[test]
fn dry_run_creates_only_the_target_root() {
    let mut world = acme();
    let mut build = build_schablone("tmpl", "out", "project=acme,title=Acme", "", true);
    assert_eq!(run(&mut build, &mut world), (EXIT_SUCCESS, vec![]));
    assert_eq!(world.actions, vec!["mkdir out"]);
    assert_eq!(world.dirs.len(), 1);
    assert!(world.files.is_empty());
}

#[test]
fn dry_run_reports_what_a_real_run_reports() {
    let tree = || acme().source_file("tmpl/broken.md", "{{ missing }}");
    let mut world = tree();
    let mut build = build_schablone("tmpl", "out", "project=acme,title=Acme", "", false);
    let real = run(&mut build, &mut world);
    let mut dry_world = tree();
    let mut dry_build = build_schablone("tmpl", "out", "project=acme,title=Acme", "", true);
    let dry = run(&mut dry_build, &mut dry_world);
    assert_eq!(real, (EXIT_SUCCESS, vec![SchabloneError::TemplateError]));
    assert_eq!(dry, real);
    assert_eq!(dry_world.actions, vec!["mkdir out"]);
}

#[test]
fn dry_run_fails_on_templates_that_do_not_compile() {
    let mut world = acme().source_file("tmpl/broken.md", "# {{ title");
    let mut build = build_schablone("tmpl", "out", "project=acme,title=Acme", "", true);
    assert_eq!(run(&mut build, &mut world), (EXIT_FAILURE, vec![]));
    assert_eq!(world.actions, vec!["mkdir out"]);
}

#[test]
fn second_build_into_the_same_target_fails_at_once() {
    let mut world = acme();
    let mut build = build_schablone("tmpl", "out", "project=acme,title=Acme", "", false);
    assert_eq!(run(&mut build, &mut world), (EXIT_SUCCESS, vec![]));
    let built = world.actions.len();
    let mut again = build_schablone("tmpl", "out", "project=acme,title=Acme", "", false);
    assert_eq!(run(&mut again, &mut world), (EXIT_FAILURE, vec![]));
    assert_eq!(world.actions[built..], ["mkdir out"]);
    assert_eq!(world.files.len(), 1);
}

#[test]
fn target_root_that_cannot_be_created_ends_the_build() {
    let mut world = acme();
    world.read_only.insert("out".to_string());
    let mut build = build_schablone("tmpl", "out", "project=acme,title=Acme", "", false);
    assert_eq!(build.advance(Event::Resume), Some(Action::CreateDir { target: "out".to_string() }));
    assert_eq!(build.advance(Event::Created(false)), Some(Action::Exit { code: EXIT_FAILURE }));
    assert_eq!(build.phase(), Phase::Finished);
    assert_eq!(build.advance(Event::Resume), Some(Action::Exit { code: EXIT_FAILURE }));
    assert!(world.dirs.is_empty());
}

#[test]
fn compile_failure_ends_the_build_before_anything_is_built() {
    let mut world = acme().source_file("tmpl/broken.md", "# {{ title");
    let mut build = build_schablone("tmpl", "out", "project=acme,title=Acme", "", false);
    assert_eq!(run(&mut build, &mut world), (EXIT_FAILURE, vec![]));
    assert_eq!(world.actions, vec!["mkdir out"]);
    assert_eq!(world.dirs.len(), 1);
    assert!(world.files.is_empty());
}

#[test]
fn sources_that_cannot_be_read_end_the_build() {
    let mut build = build_schablone("tmpl", "out", "", "", false);
    assert!(build.advance(Event::Resume).is_some());
    assert_eq!(
        build.advance(Event::Created(true)),
        Some(Action::ReadFile { path: String::new() })
    );
    assert_eq!(
        build.advance(Event::FileRead(None)),
        Some(Action::ReadSources { root: "tmpl".to_string() })
    );
    assert_eq!(build.advance(Event::SourcesRead(None)), Some(Action::Exit { code: EXIT_FAILURE }));
}

#[test]
fn file_that_fails_to_render_is_skipped_and_its_siblings_are_built() {
    let mut world = World::new()
        .source_dir("tmpl")
        .source_file("tmpl/a.md", "a {{ title }}")
        .source_file("tmpl/broken.md", "{{ missing }}")
        .source_dir("tmpl/sub")
        .source_file("tmpl/sub/c.md", "c {{ title }}")
        .source_file("tmpl/z.md", "z");
    let mut build = build_schablone("tmpl", "out", "title=Acme", "", false);
    assert_eq!(run(&mut build, &mut world), (EXIT_SUCCESS, vec![SchabloneError::TemplateError]));
    assert_eq!(world.files.get("out/tmpl/a.md"), Some(&"a Acme".to_string()));
    assert_eq!(world.files.get("out/tmpl/sub/c.md"), Some(&"c Acme".to_string()));
    assert_eq!(world.files.get("out/tmpl/z.md"), Some(&"z".to_string()));
    assert_eq!(world.files.get("out/tmpl/broken.md"), None);
    assert_eq!(world.files.len(), 3);
}

#[test]
fn directory_whose_name_fails_to_render_is_skipped_with_all_below() {
    let mut world = World::new()
        .source_dir("tmpl")
        .source_dir("tmpl/{{ missing }}")
        .source_file("tmpl/{{ missing }}/inner.md", "inner")
        .source_file("tmpl/z.md", "z");
    let mut build = build_schablone("tmpl", "out", "", "", false);
    assert_eq!(
        run(&mut build, &mut world),
        (
            EXIT_SUCCESS,
            vec![SchabloneError::ProcessingError { name: "{{ missing }}".to_string() }]
        )
    );
    assert_eq!(world.files.len(), 1);
    assert_eq!(world.files.get("out/tmpl/z.md"), Some(&"z".to_string()));
    assert_eq!(world.actions, vec!["mkdir out", "mkdir out/tmpl", "write out/tmpl/z.md"]);
}

#[test]
fn directory_that_cannot_be_created_is_skipped_with_all_below() {
    let mut world = World::new()
        .source_dir("tmpl")
        .source_dir("tmpl/sub")
        .source_file("tmpl/sub/inner.md", "inner")
        .source_file("tmpl/z.md", "z");
    world.read_only.insert("out/tmpl/sub".to_string());
    let mut build = build_schablone("tmpl", "out", "", "", false);
    assert_eq!(
        run(&mut build, &mut world),
        (EXIT_SUCCESS, vec![SchabloneError::ProcessingError { name: "tmpl/sub".to_string() }])
    );
    assert_eq!(world.files.len(), 1);
    assert_eq!(world.files.get("out/tmpl/z.md"), Some(&"z".to_string()));
}

#[test]
fn file_that_cannot_be_written_is_reported_and_the_build_goes_on() {
    let mut world =
        World::new().source_dir("tmpl").source_file("tmpl/a.md", "a").source_file("tmpl/z.md", "z");
    world.read_only.insert("out/tmpl/a.md".to_string());
    let mut build = build_schablone("tmpl", "out", "", "", false);
    assert_eq!(run(&mut build, &mut world), (EXIT_SUCCESS, vec![SchabloneError::FileError]));
    assert_eq!(world.files.get("out/tmpl/z.md"), Some(&"z".to_string()));
    assert_eq!(world.files.len(), 1);
}

#[test]
fn file_name_that_fails_to_render_names_the_file() {
    let mut world = World::new()
        .source_dir("tmpl")
        .source_file("tmpl/{{ missing }}.md", "text")
        .source_file("tmpl/z.md", "z");
    let mut build = build_schablone("tmpl", "out", "", "", false);
    assert_eq!(
        run(&mut build, &mut world),
        (
            EXIT_SUCCESS,
            vec![SchabloneError::ProcessingError { name: "{{ missing }}.md".to_string() }]
        )
    );
    assert_eq!(world.files.len(), 1);
}

#[test]
fn build_refuses_an_event_that_is_no_answer() {
    let mut build = build_schablone("tmpl", "out", "", "", false);
    assert_eq!(build.phase(), Phase::Start);
    assert_eq!(build.advance(Event::Created(true)), None);
    assert_eq!(build.advance(Event::FileRead(None)), None);
    assert_eq!(build.phase(), Phase::Start);
    assert_eq!(build.advance(Event::Resume), Some(Action::CreateDir { target: "out".to_string() }));
    assert_eq!(build.phase(), Phase::Root);
    assert_eq!(build.advance(Event::Resume), None);
    assert_eq!(build.advance(Event::Listed(vec![])), None);
    assert!(build.advance(Event::Created(true)).is_some());
    assert_eq!(build.phase(), Phase::Parameters);
    assert_eq!(build.advance(Event::SourcesRead(Some(vec![]))), None);
    assert!(build.advance(Event::FileRead(Some("{}".to_string()))).is_some());
    assert_eq!(build.phase(), Phase::Sources);
    assert_eq!(build.advance(Event::Written(true)), None);
    assert_eq!(
        build.advance(Event::SourcesRead(Some(vec![]))),
        Some(Action::Compile { templates: vec![] })
    );
    assert_eq!(build.phase(), Phase::Compiling);
    assert_eq!(build.advance(Event::Resume), None);
    assert_eq!(build.advance(Event::Rendered(None)), None);
    assert_eq!(
        build.advance(Event::Compiled(true)),
        Some(Action::RenderName { path: "tmpl".to_string() })
    );
    assert_eq!(build.phase(), Phase::Walking);
    assert_eq!(build.advance(Event::Written(true)), None);
    assert_eq!(build.advance(Event::Compiled(true)), None);
    assert_eq!(build.phase(), Phase::Walking);
    assert_eq!(
        build.advance(Event::Rendered(Some("tmpl".to_string()))),
        Some(Action::CreateDir { target: "out/tmpl".to_string() })
    );
}

#[test]
fn empty_tree_is_built_as_an_empty_directory() {
    let mut world = World::new().source_dir("tmpl");
    let mut build = build_schablone("tmpl", "out", "", "", false);
    assert_eq!(run(&mut build, &mut world), (EXIT_SUCCESS, vec![]));
    assert_eq!(world.actions, vec!["mkdir out", "mkdir out/tmpl"]);
    assert_eq!(build.advance(Event::Resume), Some(Action::Exit { code: EXIT_SUCCESS }));
}

#[test]
fn engine_is_given_each_file_under_its_key() {
    let mut build = build_schablone("tmpl", "out", "", "", false);
    assert!(build.advance(Event::Resume).is_some());
    assert!(build.advance(Event::Created(true)).is_some());
    assert!(build.advance(Event::FileRead(None)).is_some());
    let files = vec![
        Source { path: "tmpl/a.md".to_string(), content: "a".to_string() },
        Source { path: "tmpl/sub/b.md".to_string(), content: "{{ b }}".to_string() },
        Source { path: "elsewhere/c.md".to_string(), content: "c".to_string() },
    ];
    assert_eq!(
        build.advance(Event::SourcesRead(Some(files))),
        Some(Action::Compile {
            templates: vec![
                schablone::protocol::Template { key: "a.md".to_string(), text: "a".to_string() },
                schablone::protocol::Template {
                    key: "sub/b.md".to_string(),
                    text: "{{ b }}".to_string()
                },
            ]
        })
    );
    assert_eq!(build.advance(Event::Compiled(false)), Some(Action::Exit { code: EXIT_FAILURE }));
    assert_eq!(build.phase(), Phase::Finished);
}

#[test]
fn parameters_do_not_change_once_they_are_put_together() {
    let mut world = acme().text("p.json", "{\"title\": \"Acme\"}");
    let mut build = build_schablone("tmpl", "out", "project=acme", "p.json", false);
    assert!(build.advance(Event::Resume).is_some());
    assert!(build.advance(Event::Created(true)).is_some());
    assert!(build.advance(Event::FileRead(world.texts.get("p.json").cloned())).is_some());
    let put_together = build.context().clone();
    let mut event = Event::SourcesRead(Some(world.sources("tmpl")));
    while let Some(action) = build.advance(event) {
        assert_eq!(build.context(), &put_together);
        event = match action {
            Action::Compile { .. } => Event::Compiled(true),
            Action::RenderName { path } => Event::Rendered(Some(path)),
            Action::RenderContent { key } => Event::Rendered(Some(key)),
            Action::CreateDir { .. } => Event::Created(true),
            Action::ListDir { source } => Event::Listed(world.list(&source)),
            Action::WriteFile { .. } => Event::Written(true),
            Action::Exit { .. } => break,
            _ => Event::Resume,
        };
    }
    world.actions.clear();
    assert_eq!(build.phase(), Phase::Finished);
    assert_eq!(build.context(), &put_together);
}
