use cyprus::tag::{
    get_author, get_book_name, get_chapter_title, select_cover_picture, Picture, PictureKind, Tag,
    TagEntry, TagKey,
};

fn tag_of(entries: Vec<(TagKey, &str)>) -> Tag {
    Tag {
        entries: entries
            .into_iter()
            .map(|(key, value)| TagEntry {
                key,
                value: String::from(value),
            })
            .collect(),
        pictures: Vec::new(),
    }
}

#[test]
fn empty_tag_resolves_to_defaults() {
    let tag = tag_of(vec![]);
    assert_eq!(get_chapter_title(&tag), "Unnamed Chapter");
    assert_eq!(get_author(&tag), "Uncredited Author");
    assert_eq!(get_book_name(&tag), "Untitled Book");
}

#[test]
fn low_priority_author_field_beats_the_default() {
    // Only "track artist" is set: resolution must return it, not the
    // default.
    let tag = tag_of(vec![(TagKey::TrackArtist, "Jane Doe")]);
    assert_eq!(get_author(&tag), "Jane Doe");
}

#[test]
fn high_priority_author_field_wins() {
    let tag = tag_of(vec![
        (TagKey::TrackArtist, "Narrator"),
        (TagKey::AlbumArtist, "Author"),
    ]);
    assert_eq!(get_author(&tag), "Author");
}

#[test]
fn empty_values_do_not_match() {
    let tag = tag_of(vec![
        (TagKey::AlbumArtist, ""),
        (TagKey::TrackArtist, "Fallback"),
    ]);
    assert_eq!(get_author(&tag), "Fallback");
}

#[test]
fn book_name_falls_back_to_track_title() {
    let tag = tag_of(vec![(TagKey::TrackTitle, "Some Track")]);
    assert_eq!(get_book_name(&tag), "Some Track");
    assert_eq!(get_chapter_title(&tag), "Some Track");
}

#[test]
fn cover_picture_priority() {
    let tag = Tag {
        entries: Vec::new(),
        pictures: vec![
            Picture {
                kind: PictureKind::Illustration,
                data: vec![1],
            },
            Picture {
                kind: PictureKind::Other,
                data: vec![2],
            },
        ],
    };
    // "Other" outranks "Illustration".
    assert_eq!(select_cover_picture(&tag), Some(1));
}

#[test]
fn cover_picture_falls_back_to_first() {
    let tag = Tag {
        entries: Vec::new(),
        pictures: vec![
            Picture {
                kind: PictureKind::Unrecognized,
                data: vec![1],
            },
            Picture {
                kind: PictureKind::Unrecognized,
                data: vec![2],
            },
        ],
    };
    assert_eq!(select_cover_picture(&tag), Some(0));
}

#[test]
fn no_pictures_no_cover() {
    let tag = tag_of(vec![]);
    assert_eq!(select_cover_picture(&tag), None);
}
