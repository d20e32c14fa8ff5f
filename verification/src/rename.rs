//! The renamer's decision: from the tag values read out of a file and the
//! file's current name, either the new name `Title - Artist.ext` or the
//! reason the file is left untouched.

use vstd::prelude::*;

use crate::text::{
    extension_of, extension_spec, format_track_name, sanitize, sanitize_spec, track_name_spec,
};

verus! {

/// The tag values the renamer consults, as read from a file's metadata
/// block: the value lists stored under the `artist` and the `title` key.
pub struct TagValues {
    /// The values under the `artist` key, or `None` when the key is absent.
    pub artist: Option<Vec<String>>,
    /// The values under the `title` key, or `None` when the key is absent.
    pub title: Option<Vec<String>>,
}

/// Why a file with readable tag metadata is left untouched by the renamer.
/// (A file whose metadata cannot be read at all never reaches the decision:
/// the caller reports the tag reader's own error and moves on.)
#[derive(Debug, Clone, Copy, PartialEq, Eq, Structural)]
pub enum SkipReason {
    /// The tag has no `artist` key.
    ArtistMissing,
    /// The tag's `artist` key holds an empty value list.
    ArtistEmpty,
    /// The tag has no `title` key.
    TitleMissing,
    /// The tag's `title` key holds an empty value list.
    TitleEmpty,
    /// The file name carries no extension to keep.
    NoExtension,
}

impl SkipReason {
    /// The report shown for a file skipped for this reason.
    pub open spec fn message_spec(self) -> Seq<char> {
        match self {
            SkipReason::ArtistMissing => "failed to get artist name"@,
            SkipReason::ArtistEmpty => "artist tag holds no value"@,
            SkipReason::TitleMissing => "failed to get song title"@,
            SkipReason::TitleEmpty => "title tag holds no value"@,
            SkipReason::NoExtension => "failed to get file extension"@,
        }
    }

    /// The report shown for a file skipped for this reason.
    pub fn message(&self) -> (m: String)
        ensures
            m@ == self.message_spec(),
    {
        match self {
            SkipReason::ArtistMissing => "failed to get artist name".to_owned(),
            SkipReason::ArtistEmpty => "artist tag holds no value".to_owned(),
            SkipReason::TitleMissing => "failed to get song title".to_owned(),
            SkipReason::TitleEmpty => "title tag holds no value".to_owned(),
            SkipReason::NoExtension => "failed to get file extension".to_owned(),
        }
    }
}

/// The renamer's decision on one file, over the values read from its tag:
/// the artist is required first, then the title — the key present and its
/// value list non-empty — then an extension on the current name; when all
/// three hold, the new name is built from the first title and artist values,
/// both sanitized, and the extension kept.
pub open spec fn decide_spec(
    artist: Option<Seq<Seq<char>>>,
    title: Option<Seq<Seq<char>>>,
    name: Seq<char>,
) -> Result<Seq<char>, SkipReason> {
    match artist {
        Option::None => Err(SkipReason::ArtistMissing),
        Option::Some(avals) => if avals.len() == 0 {
            Err(SkipReason::ArtistEmpty)
        } else {
            match title {
                Option::None => Err(SkipReason::TitleMissing),
                Option::Some(tvals) => if tvals.len() == 0 {
                    Err(SkipReason::TitleEmpty)
                } else {
                    match extension_spec(name) {
                        Option::None => Err(SkipReason::NoExtension),
                        Option::Some(e) => Ok(
                            track_name_spec(
                                sanitize_spec(tvals[0]),
                                sanitize_spec(avals[0]),
                                e,
                            ),
                        ),
                    }
                },
            }
        },
    }
}

/// Decides the fate of one root-level file from its tag values: the new
/// name `Title - Artist.ext` — both parts sanitized — or the reason the
/// file is skipped.
pub fn rename_decision(tags: &TagValues, name: &String) -> (r: Result<String, SkipReason>)
    ensures
        r matches Ok(n) ==> decide_spec(tags.artist.deep_view(), tags.title.deep_view(), name@)
            == Ok::<Seq<char>, SkipReason>(n@),
        r matches Err(sk) ==> decide_spec(tags.artist.deep_view(), tags.title.deep_view(), name@)
            == Err::<Seq<char>, SkipReason>(sk),
{
    let avals = match &tags.artist {
        Option::None => {
            return Err(SkipReason::ArtistMissing);
        },
        Option::Some(a) => a,
    };
    if avals.len() == 0 {
        return Err(SkipReason::ArtistEmpty);
    }
    let tvals = match &tags.title {
        Option::None => {
            return Err(SkipReason::TitleMissing);
        },
        Option::Some(t) => t,
    };
    if tvals.len() == 0 {
        return Err(SkipReason::TitleEmpty);
    }
    let ext = match extension_of(name.as_str()) {
        Option::None => {
            return Err(SkipReason::NoExtension);
        },
        Option::Some(e) => e,
    };
    let title = sanitize(tvals[0].as_str());
    let artist = sanitize(avals[0].as_str());
    proof {
        assert(tvals.deep_view()[0] == tvals@[0]@);
        assert(avals.deep_view()[0] == avals@[0]@);
    }
    Ok(format_track_name(title.as_str(), artist.as_str(), ext.as_str()))
}

/// A file whose tag lacks the artist or the title — the key absent, or its
/// value list empty — is never renamed.
pub proof fn lemma_missing_tag_never_renamed(
    artist: Option<Seq<Seq<char>>>,
    title: Option<Seq<Seq<char>>>,
    name: Seq<char>,
)
    requires
        artist is None || title is None || artist.unwrap().len() == 0 || title.unwrap().len()
            == 0,
    ensures
        decide_spec(artist, title, name) is Err,
{
}

} // verus!
