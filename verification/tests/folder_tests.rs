use cyprus::container::ContainerScan;
use cyprus::error::BookError;
use cyprus::pathname::has_mp3_extension;
use cyprus::ingest::{build_from_file, build_from_folder, FileSource, FolderSource, TagScan};
use cyprus::tag::{Tag, TagEntry, TagKey};
use cyprus::timespan::TimeSpan;

fn mp3_source(path: &str, name: &str, author: &str, track_title: &str, secs: u64) -> FileSource {
    FileSource {
        path: String::from(path),
        is_file: true,
        tag: TagScan::Present(Tag {
            entries: vec![
                TagEntry {
                    key: TagKey::AlbumTitle,
                    value: String::from(name),
                },
                TagEntry {
                    key: TagKey::AlbumArtist,
                    value: String::from(author),
                },
                TagEntry {
                    key: TagKey::TrackTitle,
                    value: String::from(track_title),
                },
            ],
            pictures: Vec::new(),
        }),
        media_duration: TimeSpan::from_secs(secs),
        container: ContainerScan::Unreadable,
        cover_target_exists: false,
    }
}

fn junk_entry(path: &str, is_file: bool) -> FileSource {
    FileSource {
        path: String::from(path),
        is_file,
        tag: TagScan::Missing,
        media_duration: TimeSpan::zero(),
        container: ContainerScan::Unreadable,
        cover_target_exists: false,
    }
}

#[test]
fn not_a_directory_fails() {
    let folder = FolderSource {
        is_dir: false,
        entries: Vec::new(),
    };
    assert_eq!(
        build_from_folder(folder).map(|_| ()),
        Err(BookError::NotADirectory)
    );
}

#[test]
fn folder_without_chapter_files_is_empty() {
    let folder = FolderSource {
        is_dir: true,
        entries: vec![
            junk_entry("/b/notes.txt", true),
            junk_entry("/b/subdir", false),
            // A directory whose name ends in .mp3 still does not qualify.
            junk_entry("/b/oddly_named.mp3", false),
        ],
    };
    assert_eq!(
        build_from_folder(folder).map(|_| ()),
        Err(BookError::EmptyFolder)
    );
}

#[test]
fn folder_of_one_file_equals_the_file_build() {
    let folder = FolderSource {
        is_dir: true,
        entries: vec![
            junk_entry("/b/notes.txt", true),
            mp3_source("/b/only.mp3", "Book", "Author", "Part 1", 90),
        ],
    };
    let (folder_book, _) = build_from_folder(folder).unwrap();
    let single = mp3_source("/b/only.mp3", "Book", "Author", "Part 1", 90);
    let (file_book, _) = build_from_file(&single).unwrap();
    assert!(folder_book.same_as(&file_book));
}

#[test]
fn mixed_folders_fail_with_no_book() {
    let folder = FolderSource {
        is_dir: true,
        entries: vec![
            mp3_source("/b/1.mp3", "Book", "Author One", "Part 1", 10),
            mp3_source("/b/2.mp3", "Book", "Author Two", "Part 2", 10),
        ],
    };
    assert_eq!(
        build_from_folder(folder).map(|_| ()),
        Err(BookError::MixedFilesInFolder)
    );
}

#[test]
fn folder_files_are_processed_in_path_order() {
    // Listed out of order on purpose: the build sorts by path.
    let folder = FolderSource {
        is_dir: true,
        entries: vec![
            mp3_source("/b/02.mp3", "Book", "Author", "Part 2", 20),
            mp3_source("/b/01.mp3", "Book", "Author", "Part 1", 10),
        ],
    };
    let (book, _) = build_from_folder(folder).unwrap();
    assert_eq!(book.files.len(), 2);
    assert_eq!(book.files[0].path, "/b/01.mp3");
    assert_eq!(book.files[1].path, "/b/02.mp3");
    assert_eq!(book.files[0].chapters[0].title, "Part 1");
    assert_eq!(book.files[1].chapters[0].title, "Part 2");
    // Total recomputed across both files.
    assert_eq!(book.duration.micros, 30_000_000);
}

#[test]
fn extension_match_ignores_case() {
    let folder = FolderSource {
        is_dir: true,
        entries: vec![mp3_source("/b/LOUD.MP3", "Book", "Author", "Part 1", 5)],
    };
    let (book, _) = build_from_folder(folder).unwrap();
    assert_eq!(book.name, "Book");
    assert_eq!(book.duration.micros, 5_000_000);
}

#[test]
fn extension_edges() {
    assert!(has_mp3_extension("/b/a.mp3"));
    assert!(has_mp3_extension("/b/a.tar.mp3"));
    assert!(has_mp3_extension("b.MP3"));
    // A hidden file named ".mp3" has no extension at all.
    assert!(!has_mp3_extension("/b/.mp3"));
    assert!(!has_mp3_extension("/b/amp3"));
    assert!(!has_mp3_extension("/b/a.mp3x"));
    assert!(!has_mp3_extension("/b/a.mp"));
}

#[test]
fn hidden_mp3_file_does_not_qualify() {
    let folder = FolderSource {
        is_dir: true,
        entries: vec![junk_entry("/b/.mp3", true)],
    };
    assert_eq!(
        build_from_folder(folder).map(|_| ()),
        Err(BookError::EmptyFolder)
    );
}
