use cyprus::container::{ContainerScan, Sample, Track};
use cyprus::cover::CoverAction;
use cyprus::error::BookError;
use cyprus::ingest::{build_from_container, build_from_file, FileSource, TagScan};
use cyprus::tag::{Tag, TagEntry, TagKey};
use cyprus::timespan::TimeSpan;

fn tag_of(entries: Vec<(TagKey, &str)>) -> Tag {
    Tag {
        entries: entries
            .into_iter()
            .map(|(key, value)| TagEntry {
                key,
                value: String::from(value),
            })
            .collect(),
        pictures: Vec::new(),
    }
}

fn container_source(samples: Vec<Option<Sample>>, total: TimeSpan) -> FileSource {
    FileSource {
        path: String::from("/books/book.m4b"),
        is_file: true,
        tag: TagScan::Present(tag_of(vec![
            (TagKey::AlbumTitle, "The Book"),
            (TagKey::AlbumArtist, "The Author"),
        ])),
        media_duration: total,
        container: ContainerScan::Tracks(vec![
            Track {
                media_type_ok: true,
                samples: Vec::new(),
            },
            Track {
                media_type_ok: false,
                samples,
            },
        ]),
        cover_target_exists: false,
    }
}

#[test]
fn zero_duration_sample_uses_total_minus_start() {
    // Container-reported total 3600.000 s, sample start-time 3500.000 s,
    // explicit duration 0 => chapter duration 100.000 s.
    let source = container_source(
        vec![Some(Sample {
            bytes: Vec::new(),
            duration_ms: 0,
            start_time_ms: 3_500_000,
        })],
        TimeSpan::from_secs(3600),
    );
    let (book, _) = build_from_file(&source).unwrap();
    assert_eq!(book.duration.micros, 100_000_000);
    assert_eq!(book.files.len(), 1);
    assert_eq!(book.files[0].chapters.len(), 1);
    assert_eq!(book.files[0].chapters[0].title, "Chapter 1");
    assert_eq!(book.name, "The Book");
    assert_eq!(book.author, "The Author");
    assert_eq!(book.cover_art_path, None);
}

#[test]
fn explicit_sample_duration_is_milliseconds() {
    let source = container_source(
        vec![Some(Sample {
            bytes: Vec::new(),
            duration_ms: 5000,
            start_time_ms: 0,
        })],
        TimeSpan::from_secs(3600),
    );
    let (book, _) = build_from_file(&source).unwrap();
    assert_eq!(book.duration.micros, 5_000_000);
}

#[test]
fn sample_payload_is_stripped_of_its_envelope() {
    // 2 leading bytes and 12 trailing bytes around the UTF-8 title.
    let mut bytes = vec![0u8, 5];
    bytes.extend_from_slice(b"Hello");
    bytes.extend_from_slice(&[0u8; 12]);
    let source = container_source(
        vec![Some(Sample {
            bytes,
            duration_ms: 1000,
            start_time_ms: 0,
        })],
        TimeSpan::from_secs(10),
    );
    let (book, _) = build_from_file(&source).unwrap();
    assert_eq!(book.files[0].chapters[0].title, "Hello");
}

#[test]
fn malformed_titles_degrade_to_positional_names() {
    let invalid = {
        let mut b = vec![0u8, 5];
        b.extend_from_slice(&[0xFF, 0xFE]);
        b.extend_from_slice(&[0u8; 12]);
        b
    };
    let short = vec![1u8, 2, 3];
    let source = container_source(
        vec![
            Some(Sample {
                bytes: invalid,
                duration_ms: 1000,
                start_time_ms: 0,
            }),
            Some(Sample {
                bytes: short,
                duration_ms: 1000,
                start_time_ms: 0,
            }),
        ],
        TimeSpan::from_secs(10),
    );
    let (book, _) = build_from_file(&source).unwrap();
    assert_eq!(book.files[0].chapters[0].title, "Chapter 1");
    assert_eq!(book.files[0].chapters[1].title, "Chapter 2");
}

#[test]
fn book_duration_is_recomputed_from_chapters() {
    let source = container_source(
        vec![
            Some(Sample {
                bytes: Vec::new(),
                duration_ms: 1500,
                start_time_ms: 0,
            }),
            Some(Sample {
                bytes: Vec::new(),
                duration_ms: 2500,
                start_time_ms: 0,
            }),
        ],
        // The container claims an hour; the chapters say 4 s, and the
        // chapters win.
        TimeSpan::from_secs(3600),
    );
    let (book, _) = build_from_file(&source).unwrap();
    assert_eq!(book.duration.micros, 4_000_000);
}

#[test]
fn no_failing_track_means_no_chapter_track() {
    let mut source = container_source(Vec::new(), TimeSpan::from_secs(10));
    source.container = ContainerScan::Tracks(vec![Track {
        media_type_ok: true,
        samples: Vec::new(),
    }]);
    assert_eq!(
        build_from_container(&source).map(|_| ()),
        Err(BookError::NoChapterTrack)
    );
}

#[test]
fn unreadable_sample_is_a_container_error() {
    let source = container_source(vec![None], TimeSpan::from_secs(10));
    assert_eq!(
        build_from_container(&source).map(|_| ()),
        Err(BookError::ContainerFormat)
    );
}

#[test]
fn container_failure_falls_back_to_single_track() {
    let source = FileSource {
        path: String::from("/books/one.mp3"),
        is_file: true,
        tag: TagScan::Present(tag_of(vec![
            (TagKey::AlbumTitle, "The Book"),
            (TagKey::AlbumArtist, "The Author"),
            (TagKey::TrackTitle, "Part One"),
        ])),
        media_duration: TimeSpan::from_secs(100),
        container: ContainerScan::Unreadable,
        cover_target_exists: false,
    };
    let (book, action) = build_from_file(&source).unwrap();
    assert_eq!(book.name, "The Book");
    assert_eq!(book.author, "The Author");
    assert_eq!(book.duration.micros, 100_000_000);
    assert_eq!(book.files.len(), 1);
    assert_eq!(book.files[0].chapters.len(), 1);
    assert_eq!(book.files[0].chapters[0].title, "Part One");
    assert_eq!(book.cover_art_path, None);
    assert!(matches!(action, CoverAction::Nothing));
}

#[test]
fn missing_primary_tag_fails() {
    let source = FileSource {
        path: String::from("/books/one.mp3"),
        is_file: true,
        tag: TagScan::Missing,
        media_duration: TimeSpan::from_secs(100),
        container: ContainerScan::Unreadable,
        cover_target_exists: false,
    };
    assert_eq!(
        build_from_file(&source).map(|_| ()),
        Err(BookError::PrimaryTagMissing)
    );
}

#[test]
fn unreadable_tag_fails() {
    let source = FileSource {
        path: String::from("/books/one.mp3"),
        is_file: true,
        tag: TagScan::Unreadable,
        media_duration: TimeSpan::from_secs(100),
        container: ContainerScan::Unreadable,
        cover_target_exists: false,
    };
    assert_eq!(
        build_from_file(&source).map(|_| ()),
        Err(BookError::TagFormat)
    );
}
