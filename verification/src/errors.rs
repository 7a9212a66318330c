use vstd::prelude::*;
use vstd::string::StringExecFns;

verus! {

/// Why a single document failed to parse.
#[derive(Debug, Clone, PartialEq, Eq, Structural)]
pub enum ParseError {
    /// The document does not open with a front-matter delimiter line.
    MissingFrontMatter,
    /// The opening front-matter delimiter is never closed.
    UnclosedFrontMatter,
    /// A line of the front-matter block fits no known `key: value` form.
    MalformedLine,
    /// The same front-matter key is given twice.
    DuplicateKey,
    /// A required front-matter field (title, date or slug) is absent.
    MissingField,
}

/// The description text of each parse failure.
pub open spec fn parse_error_text(e: ParseError) -> Seq<char> {
    match e {
        ParseError::MissingFrontMatter => "no front matter found"@,
        ParseError::UnclosedFrontMatter => "front matter is not closed"@,
        ParseError::MalformedLine => "malformed front matter line"@,
        ParseError::DuplicateKey => "duplicate front matter key"@,
        ParseError::MissingField => "missing front matter field"@,
    }
}

impl ParseError {
    /// A human-readable description of the failure: exactly
    /// [`parse_error_text`].
    pub fn message(&self) -> (r: String)
        ensures
            r@ == parse_error_text(*self),
    {
        match self {
            ParseError::MissingFrontMatter => String::from_str("no front matter found"),
            ParseError::UnclosedFrontMatter => String::from_str("front matter is not closed"),
            ParseError::MalformedLine => String::from_str("malformed front matter line"),
            ParseError::DuplicateKey => String::from_str("duplicate front matter key"),
            ParseError::MissingField => String::from_str("missing front matter field"),
        }
    }
}

/// Why a whole load pass failed: the first offending document's path and
/// what went wrong with it.
#[derive(Debug, PartialEq, Eq)]
pub struct LoadError {
    pub path: String,
    pub error: ParseError,
}

impl LoadError {
    /// A human-readable description naming the offending path, then the
    /// parse failure.
    pub fn message(&self) -> (r: String)
        ensures
            r@ == "failed to parse file "@ + self.path@ + ": "@ + parse_error_text(self.error),
    {
        let m = String::from_str("failed to parse file ").concat(self.path.as_str());
        m.concat(": ").concat(self.error.message().as_str())
    }
}

/// Why a build failed.
#[derive(Debug, PartialEq, Eq)]
pub enum BuildError {
    /// A document could not be loaded.
    Load(LoadError),
    /// A template could not be added to the renderer.
    Template { name: String },
    /// Rendering through a template failed (absent template or a
    /// reference to a field the data does not carry).
    Render { template: String },
    /// Two posts share one slug, so one output page would silently
    /// overwrite the other.
    DuplicateSlug { slug: String },
}

/// The description text of each build failure, naming the offending
/// path, template or slug.
pub open spec fn build_error_text(e: BuildError) -> Seq<char> {
    match e {
        BuildError::Load(le) => "failed to parse file "@ + le.path@ + ": "@ + parse_error_text(
            le.error,
        ),
        BuildError::Template { name } => "bad template "@ + name@,
        BuildError::Render { template } => "failed to render "@ + template@,
        BuildError::DuplicateSlug { slug } => "duplicate slug "@ + slug@,
    }
}

impl BuildError {
    /// A human-readable description of the failure: exactly
    /// [`build_error_text`].
    pub fn message(&self) -> (r: String)
        ensures
            r@ == build_error_text(*self),
    {
        match self {
            BuildError::Load(e) => e.message(),
            BuildError::Template { name } => String::from_str("bad template ").concat(
                name.as_str(),
            ),
            BuildError::Render { template } => String::from_str("failed to render ").concat(
                template.as_str(),
            ),
            BuildError::DuplicateSlug { slug } => String::from_str("duplicate slug ").concat(
                slug.as_str(),
            ),
        }
    }
}

} // verus!
