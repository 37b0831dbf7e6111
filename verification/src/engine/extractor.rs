//! Unpacking fetched archives into the source directory.

use crate::engine::fetcher::FetchedArtifact;
use crate::engine::{EngineSettings, EngineSettingsView};
use crate::paths;
use crate::text::{chars_of, ends_with, has_suffix};
use std::sync::Arc;
use vstd::prelude::*;

verus! {

/// The kind of an archive.
#[derive(Debug, Copy, Clone, PartialEq, Eq, Structural)]
pub enum Archive {
    Zip,
    Tar,
}

/// How an archive is compressed.
#[derive(Debug, Copy, Clone, PartialEq, Eq, Structural)]
pub enum Compression {
    Uncompressed,
    Gzip,
    Xz,
    Bz,
}

/// What the name of a file says of its kind. The endings are tried in this
/// order, and the first that fits decides: `.tar.gz`, `.tar.xz`, `.tar.bz`,
/// `.tar`, `.zip`.
pub open spec fn guessed(name: Seq<char>) -> Option<(Archive, Compression)> {
    if has_suffix(name, ".tar.gz"@) {
        Some((Archive::Tar, Compression::Gzip))
    } else if has_suffix(name, ".tar.xz"@) {
        Some((Archive::Tar, Compression::Xz))
    } else if has_suffix(name, ".tar.bz"@) {
        Some((Archive::Tar, Compression::Bz))
    } else if has_suffix(name, ".tar"@) {
        Some((Archive::Tar, Compression::Uncompressed))
    } else if has_suffix(name, ".zip"@) {
        Some((Archive::Zip, Compression::Uncompressed))
    } else {
        None
    }
}

/// What the path of a file says of its kind: what its file name says, and
/// nothing where it has none.
pub open spec fn guessed_for_path(path: Seq<char>) -> Option<(Archive, Compression)> {
    match paths::file_name_of(path) {
        Some(name) => guessed(name),
        None => None,
    }
}

/// What is to be unpacked, and how.
#[derive(Debug, PartialEq, Eq)]
pub struct Unpack {
    pub source: String,
    pub archive: Archive,
    pub compression: Compression,
}

pub struct UnpackView {
    pub source: Seq<char>,
    pub archive: Archive,
    pub compression: Compression,
}

impl View for Unpack {
    type V = UnpackView;

    open spec fn view(&self) -> UnpackView {
        UnpackView { source: self.source@, archive: self.archive, compression: self.compression }
    }
}

/// The extraction of one artifact: the directory `target` is made first; then
/// the archive is unpacked into it, or the build ends with `failure`.
#[derive(Debug, PartialEq, Eq)]
pub struct Extraction {
    pub target: String,
    pub unpack: Option<Unpack>,
    pub failure: Option<&'static str>,
}

pub struct ExtractionView {
    pub target: Seq<char>,
    pub unpack: Option<UnpackView>,
    pub failure: Option<Seq<char>>,
}

impl View for Extraction {
    type V = ExtractionView;

    open spec fn view(&self) -> ExtractionView {
        ExtractionView {
            target: self.target@,
            unpack: match self.unpack {
                Some(u) => Some(u@),
                None => None,
            },
            failure: self.failure.deep_view(),
        }
    }
}

impl DeepView for Extraction {
    type V = ExtractionView;

    open spec fn deep_view(&self) -> ExtractionView {
        self@
    }
}

/// The extraction of the file at `source` into the directory `relative` of
/// the source directory.
pub open spec fn extraction_of(
    settings: EngineSettingsView,
    source: Seq<char>,
    relative: Seq<char>,
) -> ExtractionView {
    let target = paths::joined(settings.source(), relative);
    match guessed_for_path(source) {
        Some((archive, compression)) => ExtractionView {
            target,
            unpack: Some(UnpackView { source, archive, compression }),
            failure: None,
        },
        None => ExtractionView {
            target,
            unpack: None,
            failure: Some("couldn't guess archive type"@),
        },
    }
}

/// What the file name `name` says of the kind of the file.
pub fn guess_format(name: &str) -> (r: Option<(Archive, Compression)>)
    ensures
        r == guessed(name@),
{
    let chars = chars_of(name);
    if ends_with(&chars, &chars_of(".tar.gz")) {
        Some((Archive::Tar, Compression::Gzip))
    } else if ends_with(&chars, &chars_of(".tar.xz")) {
        Some((Archive::Tar, Compression::Xz))
    } else if ends_with(&chars, &chars_of(".tar.bz")) {
        Some((Archive::Tar, Compression::Bz))
    } else if ends_with(&chars, &chars_of(".tar")) {
        Some((Archive::Tar, Compression::Uncompressed))
    } else if ends_with(&chars, &chars_of(".zip")) {
        Some((Archive::Zip, Compression::Uncompressed))
    } else {
        None
    }
}

/// Decides how archives are unpacked.
#[derive(Debug, PartialEq, Eq)]
pub struct Extractor {
    pub settings: Arc<EngineSettings>,
}

impl View for Extractor {
    type V = EngineSettingsView;

    open spec fn view(&self) -> EngineSettingsView {
        self.settings@
    }
}

impl Extractor {
    /// An extractor with the settings `settings`.
    pub fn new(settings: Arc<EngineSettings>) -> (r: Extractor)
        ensures
            r@ == settings@,
    {
        Extractor { settings }
    }

    /// How `artifact` is unpacked into the directory `path` of the source
    /// directory.
    pub fn extract(&self, artifact: &FetchedArtifact, path: &str) -> (r: Extraction)
        ensures
            r@ == extraction_of(self@, artifact@.path, path@),
    {
        let target = paths::join(self.settings.source_path().as_str(), path);
        let found = match paths::file_name(artifact.path.as_str()) {
            Some(name) => guess_format(name.as_str()),
            None => None,
        };
        match found {
            Some((archive, compression)) => Extraction {
                target,
                unpack: Some(Unpack { source: artifact.path.clone(), archive, compression }),
                failure: None,
            },
            None => Extraction {
                target,
                unpack: None,
                failure: Some("couldn't guess archive type"),
            },
        }
    }

    /// The path at which the entry `name` of a zip archive is written below
    /// `target`.
    pub fn entry_path(target: &str, name: &str) -> (r: String)
        ensures
            r@ == paths::joined(target@, name@),
    {
        paths::join(target, name)
    }
}

} // verus!
