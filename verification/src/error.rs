use vstd::prelude::*;

verus! {

/// The fatal failures of a conversion run. Recoverable problems (a manifest
/// item missing an attribute, an unresolvable itemref, a bad `playOrder`)
/// never surface here: they only shrink the content list, whose emptiness is
/// itself one of these errors.
#[derive(Clone, Copy, Debug, PartialEq, Eq, Structural)]
pub enum EpubError {
    /// The byte source is not a readable zip archive.
    ArchiveInvalid,
    /// A path that was already resolved names no entry of the archive.
    EntryNotFound,
    /// An archive entry exists but its bytes could not be read back.
    EntryCorrupt,
    /// The container descriptor holds no rootfile element.
    NoRootfile,
    /// The rootfile element has no full-path attribute.
    NoFullPath,
    /// The package document declares no title.
    NoTitle,
    /// The spine resolved to an empty content list.
    EmptySpine,
    /// The navigation map resolved to an empty content list.
    EmptyNav,
}

/// The human-readable cause carried by each error.
pub open spec fn message_spec(e: EpubError) -> Seq<char> {
    match e {
        EpubError::ArchiveInvalid => "invalid zip archive"@,
        EpubError::EntryNotFound => "entry not found in archive"@,
        EpubError::EntryCorrupt => "archive entry could not be read"@,
        EpubError::NoRootfile => "No found <rootfile>."@,
        EpubError::NoFullPath => "No `full-path` in container."@,
        EpubError::NoTitle => "No found <dc:title>"@,
        EpubError::EmptySpine => "spine list is empty!"@,
        EpubError::EmptyNav => "nav list is empty!"@,
    }
}

impl EpubError {
    /// The human-readable cause, for reporting at the process boundary.
    pub fn message(&self) -> (r: &'static str)
        ensures
            r@ == message_spec(*self),
    {
        match self {
            EpubError::ArchiveInvalid => "invalid zip archive",
            EpubError::EntryNotFound => "entry not found in archive",
            EpubError::EntryCorrupt => "archive entry could not be read",
            EpubError::NoRootfile => "No found <rootfile>.",
            EpubError::NoFullPath => "No `full-path` in container.",
            EpubError::NoTitle => "No found <dc:title>",
            EpubError::EmptySpine => "spine list is empty!",
            EpubError::EmptyNav => "nav list is empty!",
        }
    }
}

} // verus!
