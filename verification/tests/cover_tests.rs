use cyprus::cover::{cover_art_path, locate_extracted_cover_art, plan_cover_art, CoverAction};
use cyprus::error::BookError;
use cyprus::tag::{Picture, PictureKind, Tag};

#[test]
fn cover_path_sits_beside_the_book() {
    let p = cover_art_path("Tress", "/books/tress.m4b", true).unwrap();
    assert_eq!(p, "/books/cover_Tress.jpg");
}

#[test]
fn cover_path_for_bare_file_name() {
    let p = cover_art_path("Tress", "tress.m4b", true).unwrap();
    assert_eq!(p, "cover_Tress.jpg");
}

#[test]
fn cover_path_requires_a_file() {
    assert_eq!(
        cover_art_path("X", "/books", false),
        Err(BookError::NotAFile)
    );
}

#[test]
fn cover_path_requires_a_parent() {
    assert_eq!(
        cover_art_path("X", "/", true),
        Err(BookError::NoParentDirectory)
    );
}

#[test]
fn locate_finds_only_existing_covers() {
    let found = locate_extracted_cover_art("B", "/a/b.m4b", true, true).unwrap();
    assert_eq!(found, Some(String::from("/a/cover_B.jpg")));
    let missing = locate_extracted_cover_art("B", "/a/b.m4b", true, false).unwrap();
    assert_eq!(missing, None);
}

fn tag_with_front_cover() -> Tag {
    Tag {
        entries: Vec::new(),
        pictures: vec![
            Picture {
                kind: PictureKind::Icon,
                data: vec![9, 9],
            },
            Picture {
                kind: PictureKind::CoverFront,
                data: vec![1, 2, 3],
            },
        ],
    }
}

#[test]
fn extraction_writes_once_then_reuses() {
    let tag = tag_with_front_cover();
    // First pass: nothing cached yet, so the plan is to write the front
    // cover's bytes to the target path.
    let (cover1, action1) = plan_cover_art(&tag, "B", "/a/b.m4b", true, false).unwrap();
    assert_eq!(cover1, Some(String::from("/a/cover_B.jpg")));
    match action1 {
        CoverAction::Write(path, data) => {
            assert_eq!(path, "/a/cover_B.jpg");
            assert_eq!(data, vec![1, 2, 3]);
        }
        CoverAction::Nothing => panic!("first pass must plan a write"),
    }
    // Second pass: the cache now exists; same path, and nothing is
    // rewritten.
    let (cover2, action2) = plan_cover_art(&tag, "B", "/a/b.m4b", true, true).unwrap();
    assert_eq!(cover2, cover1);
    assert!(matches!(action2, CoverAction::Nothing));
}

#[test]
fn no_picture_means_no_cover() {
    let tag = Tag {
        entries: Vec::new(),
        pictures: Vec::new(),
    };
    let (cover, action) = plan_cover_art(&tag, "B", "/a/b.m4b", true, false).unwrap();
    assert_eq!(cover, None);
    assert!(matches!(action, CoverAction::Nothing));
}
