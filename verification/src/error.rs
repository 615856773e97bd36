//! The failures a build can meet.

use vstd::prelude::*;

verus! {

/// Errors raised while a tree is built.
#[derive(Debug, PartialEq, Eq)]
pub enum SchabloneError {
    /// The templating engine could not compile or render a template.
    TemplateError,
    /// A path could not be rendered, or its directory could not be created.
    ProcessingError { name: String },
    /// A target file could not be created or written.
    FileError,
}

/// A [`SchabloneError`] as contracts see it.
pub enum SchabloneErrorView {
    TemplateError,
    ProcessingError { name: Seq<char> },
    FileError,
}

impl View for SchabloneError {
    type V = SchabloneErrorView;

    open spec fn view(&self) -> SchabloneErrorView {
        match self {
            SchabloneError::TemplateError => SchabloneErrorView::TemplateError,
            SchabloneError::ProcessingError { name } => SchabloneErrorView::ProcessingError {
                name: name@,
            },
            SchabloneError::FileError => SchabloneErrorView::FileError,
        }
    }
}

impl SchabloneErrorView {
    /// The text shown for this error.
    pub open spec fn message(self) -> Seq<char> {
        match self {
            SchabloneErrorView::TemplateError => "Failed to template"@,
            SchabloneErrorView::ProcessingError { name } => {
                "Failed to process file or directory: "@ + name
            },
            SchabloneErrorView::FileError => "Failed to create file or directory"@,
        }
    }
}

impl SchabloneError {
    /// The text shown for this error.
    pub fn message(&self) -> (text: String)
        ensures
            text@ == self@.message(),
    {
        match self {
            SchabloneError::TemplateError => "Failed to template".to_owned(),
            SchabloneError::ProcessingError { name } => {
                let mut text = "Failed to process file or directory: ".to_owned();
                text.append(name.as_str());
                text
            },
            SchabloneError::FileError => "Failed to create file or directory".to_owned(),
        }
    }

}

impl Clone for SchabloneError {
    fn clone(&self) -> (copy: SchabloneError)
        ensures
            copy@ == self@,
    {
        match self {
            SchabloneError::TemplateError => SchabloneError::TemplateError,
            SchabloneError::ProcessingError { name } => SchabloneError::ProcessingError {
                name: name.clone(),
            },
            SchabloneError::FileError => SchabloneError::FileError,
        }
    }
}

} // verus!
