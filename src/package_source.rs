//! Where a package comes from, as the first field of a package id says.

use crate::text::same_text;
use vstd::prelude::*;

verus! {

/// What a package source is.
pub enum SourceView {
    Registry,
    Path,
    Git,
    Unsupported(Seq<char>),
}

/// Crate source from a package id.
#[derive(Debug)]
pub enum PackageSource {
    /// Crate from the registry
    Registry,
    /// Local crate, i.e. workspace member
    Path,
    /// Crate from a git repository
    Git,
    /// Unsupported source, with its text
    Unsupported(String),
}

impl View for PackageSource {
    type V = SourceView;

    open spec fn view(&self) -> SourceView {
        match self {
            PackageSource::Registry => SourceView::Registry,
            PackageSource::Path => SourceView::Path,
            PackageSource::Git => SourceView::Git,
            PackageSource::Unsupported(s) => SourceView::Unsupported(s@),
        }
    }
}

/// The source that a source text names.
pub open spec fn source_kind(s: Seq<char>) -> SourceView {
    if s == "registry"@ {
        SourceView::Registry
    } else if s == "path"@ {
        SourceView::Path
    } else if s == "git"@ {
        SourceView::Git
    } else {
        SourceView::Unsupported(s)
    }
}

/// The text that names a source.
pub open spec fn source_text(s: SourceView) -> Seq<char> {
    match s {
        SourceView::Registry => "registry"@,
        SourceView::Path => "path"@,
        SourceView::Git => "git"@,
        SourceView::Unsupported(t) => t,
    }
}

impl PackageSource {
    /// The source that `s` names: `registry`, `path`, `git`, or any other
    /// text kept as it is.
    pub fn from_text(s: &str) -> (r: PackageSource)
        ensures
            r@ == source_kind(s@),
    {
        if same_text(s, "registry") {
            PackageSource::Registry
        } else if same_text(s, "path") {
            PackageSource::Path
        } else if same_text(s, "git") {
            PackageSource::Git
        } else {
            PackageSource::Unsupported(s.to_owned())
        }
    }

    /// The text that names this source.
    pub fn as_str(&self) -> (r: &str)
        ensures
            r@ == source_text(self@),
    {
        match self {
            PackageSource::Registry => "registry",
            PackageSource::Path => "path",
            PackageSource::Git => "git",
            PackageSource::Unsupported(source) => source.as_str(),
        }
    }

    /// A copy of this source.
    pub fn copy(&self) -> (r: PackageSource)
        ensures
            r@ == self@,
    {
        match self {
            PackageSource::Registry => PackageSource::Registry,
            PackageSource::Path => PackageSource::Path,
            PackageSource::Git => PackageSource::Git,
            PackageSource::Unsupported(source) => PackageSource::Unsupported(source.clone()),
        }
    }

    /// Whether this is a local source.
    pub fn is_path(&self) -> (r: bool)
        ensures
            r == (self@ is Path),
    {
        match self {
            PackageSource::Path => true,
            _ => false,
        }
    }
}

} // verus!
