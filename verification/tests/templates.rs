use schablone::error::SchabloneError;
use schablone::protocol::{Source, Template};
use schablone::templates::{key_sources, render_content, template_pathname};

fn source(path: &str, content: &str) -> Source {
    Source { path: path.to_string(), content: content.to_string() }
}

fn template(key: &str, text: &str) -> Template {
    Template { key: key.to_string(), text: text.to_string() }
}

#[test]
fn files_are_keyed_by_their_path_seen_from_the_root() {
    let files = vec![source("tmpl/a.md", "# {{ title }}"), source("tmpl/sub/b.md", "{{ title }}!")];
    assert_eq!(
        key_sources(&files, "tmpl"),
        vec![template("a.md", "# {{ title }}"), template("sub/b.md", "{{ title }}!")]
    );
}

#[test]
fn files_keep_their_order_and_their_text() {
    let files = vec![source("t/z", "last"), source("t/a", ""), source("t/m/{{x}}", "{{ open")];
    assert_eq!(
        key_sources(&files, "t"),
        vec![template("z", "last"), template("a", ""), template("m/{{x}}", "{{ open")]
    );
}

#[test]
fn files_outside_the_root_are_left_out() {
    let files = vec![source("tmpl/a.md", "a"), source("other/b.md", "b"), source("tmplx/c", "c")];
    assert_eq!(key_sources(&files, "tmpl"), vec![template("a.md", "a")]);
}

#[test]
fn root_with_a_separator_at_its_end_gives_the_same_keys() {
    let files = vec![source("tmpl/a.md", "a"), source("tmpl/sub/b.md", "b")];
    assert_eq!(key_sources(&files, "tmpl/"), vec![template("a.md", "a"), template("sub/b.md", "b")]);
}

#[test]
fn no_files_give_no_templates() {
    assert_eq!(key_sources(&vec![], "tmpl"), vec![]);
}

#[test]
fn rendered_pathname_is_kept() {
    assert_eq!(
        template_pathname("tmpl/{{p}}", Some("tmpl/acme".to_string())),
        Ok("tmpl/acme".to_string())
    );
    assert_eq!(template_pathname("tmpl/a", Some(String::new())), Ok(String::new()));
}

#[test]
fn failed_pathname_names_the_last_component() {
    assert_eq!(
        template_pathname("tmpl/sub/{{ missing }}.md", None),
        Err(SchabloneError::ProcessingError { name: "{{ missing }}.md".to_string() })
    );
    assert_eq!(
        template_pathname("tmpl/{{ open/", None),
        Err(SchabloneError::ProcessingError { name: "{{ open".to_string() })
    );
    assert_eq!(
        template_pathname("", None),
        Err(SchabloneError::ProcessingError { name: String::new() })
    );
}

#[test]
fn rendered_content_is_kept() {
    assert_eq!(render_content(Some("# Acme".to_string())), Ok("# Acme".to_string()));
    assert_eq!(render_content(Some(String::new())), Ok(String::new()));
}

#[test]
fn failed_content_is_a_template_error() {
    assert_eq!(render_content(None), Err(SchabloneError::TemplateError));
}
