use music_cleaner::rename::{rename_decision, SkipReason, TagValues};
use music_cleaner::text::{extension_of, format_track_name, sanitize};

fn tags(artist: Option<&[&str]>, title: Option<&[&str]>) -> TagValues {
    TagValues {
        artist: artist.map(|vs| vs.iter().map(|v| v.to_string()).collect()),
        title: title.map(|vs| vs.iter().map(|v| v.to_string()).collect()),
    }
}

#[test]
fn sanitize_strips_every_special_character() {
    assert_eq!(sanitize("<a>b:c\"d/e\\f|g?h*i"), "abcdefghi");
    assert_eq!(sanitize("plain name"), "plain name");
    assert_eq!(sanitize(""), "");
    assert_eq!(sanitize("???"), "");
}

#[test]
fn extension_of_reads_the_final_dot() {
    assert_eq!(extension_of("foo.flac"), Some("flac".to_string()));
    assert_eq!(extension_of("a.tar.gz"), Some("gz".to_string()));
    assert_eq!(extension_of("trailing."), Some("".to_string()));
    assert_eq!(extension_of(".gitignore"), None);
    assert_eq!(extension_of("noext"), None);
    assert_eq!(extension_of(""), None);
}

#[test]
fn format_builds_title_dash_artist_dot_ext() {
    assert_eq!(format_track_name("Song", "Band", "flac"), "Song - Band.flac");
}

#[test]
fn missing_artist_is_skipped() {
    let t = tags(None, Some(&["Song"]));
    let r = rename_decision(&t, &"x.flac".to_string());
    assert_eq!(r, Err(SkipReason::ArtistMissing));
}

#[test]
fn missing_title_is_skipped() {
    let t = tags(Some(&["Band"]), None);
    let r = rename_decision(&t, &"x.flac".to_string());
    assert_eq!(r, Err(SkipReason::TitleMissing));
}

#[test]
fn empty_value_lists_are_skipped_distinctly() {
    let r = rename_decision(&tags(Some(&[]), Some(&["Song"])), &"x.flac".to_string());
    assert_eq!(r, Err(SkipReason::ArtistEmpty));
    let r = rename_decision(&tags(Some(&["Band"]), Some(&[])), &"x.flac".to_string());
    assert_eq!(r, Err(SkipReason::TitleEmpty));
}

#[test]
fn file_without_extension_is_skipped() {
    let t = tags(Some(&["Band"]), Some(&["Song"]));
    let r = rename_decision(&t, &"noext".to_string());
    assert_eq!(r, Err(SkipReason::NoExtension));
}

#[test]
fn rename_sanitizes_both_parts() {
    let t = tags(Some(&["C:D"]), Some(&["A/B"]));
    let r = rename_decision(&t, &"x.flac".to_string());
    assert_eq!(r, Ok("AB - CD.flac".to_string()));
}

#[test]
fn rename_uses_first_value_of_each_key() {
    let t = tags(Some(&["First Artist", "Second Artist"]), Some(&["First Title", "Second Title"]));
    let r = rename_decision(&t, &"x.mp3".to_string());
    assert_eq!(r, Ok("First Title - First Artist.mp3".to_string()));
}

#[test]
fn skip_reasons_report_as_the_tool_does() {
    assert_eq!(SkipReason::ArtistMissing.message(), "failed to get artist name");
    assert_eq!(SkipReason::TitleMissing.message(), "failed to get song title");
    assert_eq!(SkipReason::NoExtension.message(), "failed to get file extension");
    assert_eq!(SkipReason::ArtistEmpty.message(), "artist tag holds no value");
    assert_eq!(SkipReason::TitleEmpty.message(), "title tag holds no value");
}
