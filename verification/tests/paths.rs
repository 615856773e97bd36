use schablone::error::SchabloneError;
use schablone::path::{child_path, join_path, last_component, template_key};

#[test]
fn child_path_puts_one_separator_between() {
    assert_eq!(child_path("tmpl", "a.txt"), "tmpl/a.txt");
    assert_eq!(child_path("tmpl/", "a.txt"), "tmpl/a.txt");
    assert_eq!(child_path("", "a.txt"), "a.txt");
    assert_eq!(child_path("/", "a.txt"), "/a.txt");
    assert_eq!(child_path("tmpl/{{project}}", "{{project}}.md"), "tmpl/{{project}}/{{project}}.md");
}

#[test]
fn join_path_keeps_a_path_from_the_root() {
    assert_eq!(join_path("out", "tmpl/acme"), "out/tmpl/acme");
    assert_eq!(join_path("out/", "tmpl"), "out/tmpl");
    assert_eq!(join_path("out", "/abs/tmpl"), "/abs/tmpl");
    assert_eq!(join_path("", "tmpl"), "tmpl");
    assert_eq!(join_path("out", ""), "out/");
}

#[test]
fn template_key_is_the_path_seen_from_the_root() {
    assert_eq!(template_key("tmpl/a.txt", "tmpl"), Some("a.txt".to_string()));
    assert_eq!(template_key("tmpl/sub/a.txt", "tmpl"), Some("sub/a.txt".to_string()));
    assert_eq!(template_key("tmpl/a.txt", "tmpl/"), Some("a.txt".to_string()));
    assert_eq!(template_key("/a.txt", "/"), Some("a.txt".to_string()));
    assert_eq!(template_key("a.txt", ""), Some("a.txt".to_string()));
    assert_eq!(template_key("tmpl", "tmpl"), Some(String::new()));
}

#[test]
fn template_key_needs_the_root_as_ancestor() {
    assert_eq!(template_key("other/a.txt", "tmpl"), None);
    assert_eq!(template_key("tmplx/a.txt", "tmpl"), None);
    assert_eq!(template_key("tm", "tmpl"), None);
}

#[test]
fn template_key_of_a_child_extends_the_key_of_its_directory() {
    let dir = child_path("tmpl", "sub");
    let file = child_path(&dir, "a.txt");
    let dir_key = template_key(&dir, "tmpl").unwrap();
    assert_eq!(template_key(&file, "tmpl"), Some(child_path(&dir_key, "a.txt")));
}

#[test]
fn last_component_names_the_entry() {
    assert_eq!(last_component("tmpl/sub/a.txt"), "a.txt");
    assert_eq!(last_component("a.txt"), "a.txt");
    assert_eq!(last_component("tmpl/sub/"), "sub");
    assert_eq!(last_component("tmpl/sub///"), "sub");
    assert_eq!(last_component("/"), "");
    assert_eq!(last_component(""), "");
    assert_eq!(last_component("tmpl/{{ project }}"), "{{ project }}");
    assert_eq!(last_component("täst/größe"), "größe");
}

#[test]
fn errors_have_their_messages() {
    assert_eq!(SchabloneError::TemplateError.message(), "Failed to template");
    assert_eq!(
        SchabloneError::ProcessingError { name: "a.txt".to_string() }.message(),
        "Failed to process file or directory: a.txt"
    );
    assert_eq!(SchabloneError::FileError.message(), "Failed to create file or directory");
}

#[test]
fn errors_can_be_cloned() {
    let error = SchabloneError::ProcessingError { name: "a.txt".to_string() };
    assert_eq!(error.clone(), error);
    assert_eq!(SchabloneError::FileError.clone(), SchabloneError::FileError);
    assert_ne!(SchabloneError::FileError.clone(), SchabloneError::TemplateError);
}
