//! What the templating engine is given and what is made of its answers.
//!
//! The content of every file is compiled once, before anything is visited,
//! and stored under the file's path as seen from the source root. The text
//! of a path is rendered as a one-off template, as it is met.
//!
//! The engine itself is run by the caller and not here: there are templates
//! on which it panics or never comes back, and nothing in this library may
//! do that. Here stands what the engine is handed and how a build goes on
//! from whatever it answered.

use crate::error::{SchabloneError, SchabloneErrorView};
use crate::path::{final_component, last_component, relative, template_key};
use crate::protocol::{views, Source, SourceView, Template, TemplateView};
use vstd::prelude::*;

verus! {

/// The templates that the files of a source tree give: one for each file at
/// or below `root`, in the same order, stored under the file's path as seen
/// from `root`.
pub open spec fn keyed(files: Seq<SourceView>, root: Seq<char>) -> Seq<TemplateView>
    decreases files.len(),
{
    if files.len() == 0 {
        Seq::empty()
    } else {
        let before = keyed(files.drop_last(), root);
        match relative(files.last().path, root) {
            Some(key) => before.push(TemplateView { key, text: files.last().content }),
            None => before,
        }
    }
}

/// Gives each file at or below `root` its key. A file that lies elsewhere is
/// no part of the source tree and is left out.
pub fn key_sources(files: &Vec<Source>, root: &str) -> (templates: Vec<Template>)
    ensures
        views(templates@) == keyed(views(files@), root@),
{
    let mut templates: Vec<Template> = Vec::new();
    let mut i: usize = 0;
    while i < files.len()
        invariant
            i <= files.len(),
            views(templates@) == keyed(views(files@).take(i as int), root@),
        decreases files.len() - i,
    {
        let ghost before = views(templates@);
        assert(views(files@).take(i + 1).drop_last() =~= views(files@).take(i as int));
        match template_key(files[i].path.as_str(), root) {
            Some(key) => {
                let ghost added = TemplateView { key: key@, text: files@[i as int].content@ };
                templates.push(Template { key, text: files[i].content.clone() });
                assert(views(templates@) =~= before.push(added));
            },
            None => {},
        }
        i += 1;
    }
    assert(views(files@).take(i as int) =~= views(files@));
    templates
}

/// What a build makes of the engine's answer to the text of `path`: the
/// rendered text, or a [`SchabloneError::ProcessingError`] that names the
/// last component of `path`.
pub open spec fn pathname_result(path: Seq<char>, rendered: Option<Seq<char>>) -> Result<
    Seq<char>,
    SchabloneErrorView,
> {
    match rendered {
        Some(text) => Ok(text),
        None => Err(SchabloneErrorView::ProcessingError { name: final_component(path) }),
    }
}

/// What a build makes of the engine's answer to a stored template: the
/// rendered text, or a [`SchabloneError::TemplateError`].
pub open spec fn content_result(rendered: Option<Seq<char>>) -> Result<
    Seq<char>,
    SchabloneErrorView,
> {
    match rendered {
        Some(text) => Ok(text),
        None => Err(SchabloneErrorView::TemplateError),
    }
}

/// A result as contracts see it.
pub open spec fn result_view(result: Result<String, SchabloneError>) -> Result<
    Seq<char>,
    SchabloneErrorView,
> {
    match result {
        Ok(text) => Ok(text@),
        Err(error) => Err(error@),
    }
}

/// The text that the engine rendered, if it did, as contracts see it.
pub open spec fn rendered_view(rendered: Option<String>) -> Option<Seq<char>> {
    match rendered {
        Some(text) => Some(text@),
        None => None,
    }
}

/// Turns the engine's answer to the text of `path`, the whole of it rendered
/// as a one-off template, into the build's: `None` stands for a rendering
/// that failed.
///
/// The same is done for the path of a directory and for that of a file.
pub fn template_pathname(path: &str, rendered: Option<String>) -> (outcome: Result<
    String,
    SchabloneError,
>)
    ensures
        result_view(outcome) == pathname_result(path@, rendered_view(rendered)),
{
    match rendered {
        Some(text) => Ok(text),
        None => Err(SchabloneError::ProcessingError { name: last_component(path) }),
    }
}

/// Takes in the engine's rendering of a file's content, the template stored
/// under the file's key, and gives the build's: `None` stands for a
/// rendering that failed, and that is a [`SchabloneError::TemplateError`].
pub fn render_content(rendered: Option<String>) -> (outcome: Result<String, SchabloneError>)
    ensures
        result_view(outcome) == content_result(rendered_view(rendered)),
{
    match rendered {
        Some(text) => Ok(text),
        None => Err(SchabloneError::TemplateError),
    }
}

} // verus!
