use music_cleaner::rename::{rename_decision, SkipReason, TagValues};

/// The values the binary hands the library for one tag, read the same way:
/// the `artist` and `title` vorbis comment lists, if present.
fn tag_values_of(tag: &metaflac::Tag) -> TagValues {
    TagValues {
        artist: tag
            .get_vorbis("artist")
            .map(|vals| vals.map(|v| v.to_string()).collect()),
        title: tag
            .get_vorbis("title")
            .map(|vals| vals.map(|v| v.to_string()).collect()),
    }
}

fn tag_with(artist: Option<Vec<&str>>, title: Option<Vec<&str>>) -> metaflac::Tag {
    let mut tag = metaflac::Tag::new();
    if let Some(vals) = artist {
        tag.set_vorbis("artist", vals);
    }
    if let Some(vals) = title {
        tag.set_vorbis("title", vals);
    }
    tag
}

#[test]
fn renames_from_a_real_tag() {
    let tag = tag_with(Some(vec!["C:D"]), Some(vec!["A/B"]));
    let r = rename_decision(&tag_values_of(&tag), &"01.flac".to_string());
    assert_eq!(r, Ok("AB - CD.flac".to_string()));
}

#[test]
fn real_tag_without_artist_is_skipped() {
    let tag = tag_with(None, Some(vec!["Song"]));
    let r = rename_decision(&tag_values_of(&tag), &"01.flac".to_string());
    assert_eq!(r, Err(SkipReason::ArtistMissing));
    assert_eq!(r.unwrap_err().message(), "failed to get artist name");
}

#[test]
fn real_tag_without_title_is_skipped() {
    let tag = tag_with(Some(vec!["Band"]), None);
    let r = rename_decision(&tag_values_of(&tag), &"01.flac".to_string());
    assert_eq!(r, Err(SkipReason::TitleMissing));
    assert_eq!(r.unwrap_err().message(), "failed to get song title");
}

#[test]
fn real_tag_with_file_lacking_extension_is_skipped() {
    let tag = tag_with(Some(vec!["Band"]), Some(vec!["Song"]));
    let r = rename_decision(&tag_values_of(&tag), &"noext".to_string());
    assert_eq!(r, Err(SkipReason::NoExtension));
}

#[test]
fn tag_survives_a_write_and_read_round_trip() {
    let mut tag = tag_with(Some(vec!["Band"]), Some(vec!["Song"]));
    let mut bytes: Vec<u8> = Vec::new();
    tag.write_to(&mut bytes).unwrap();
    let reread = metaflac::Tag::read_from(&mut &bytes[..]).unwrap();
    let r = rename_decision(&tag_values_of(&reread), &"01.flac".to_string());
    assert_eq!(r, Ok("Song - Band.flac".to_string()));
}

#[test]
fn vorbis_keys_are_found_case_insensitively() {
    // The vorbis comment convention stores keys upper-cased; the lookup the
    // renamer's caller relies on must still find them from the lower-case
    // names.
    let mut tag = metaflac::Tag::new();
    tag.set_vorbis("ARTIST", vec!["Band"]);
    tag.set_vorbis("TITLE", vec!["Song"]);
    let r = rename_decision(&tag_values_of(&tag), &"01.flac".to_string());
    assert_eq!(r, Ok("Song - Band.flac".to_string()));
}
