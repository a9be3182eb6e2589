use cyprus::book::{build_chapters, calculate_duration, Book, BookFile, Chapter, ChapterBuilder};
use cyprus::error::BookError;
use cyprus::timespan::TimeSpan;

#[test]
fn scratch() -> Result<(), BookError> {
    Ok(())
}

#[test]
fn untitled_builders_get_positional_titles() {
    let builders = vec![
        ChapterBuilder {
            title: Some(String::from("Intro")),
            duration: TimeSpan::from_secs(10),
        },
        ChapterBuilder {
            title: None,
            duration: TimeSpan::from_secs(20),
        },
        ChapterBuilder {
            title: None,
            duration: TimeSpan::from_secs(30),
        },
    ];
    let chapters = build_chapters(builders);
    assert_eq!(chapters.len(), 3);
    assert_eq!(chapters[0].title, "Intro");
    assert_eq!(chapters[1].title, "Chapter 2");
    assert_eq!(chapters[2].title, "Chapter 3");
    assert_eq!(chapters[0].duration.micros, 10_000_000);
    assert_eq!(chapters[1].duration.micros, 20_000_000);
    assert_eq!(chapters[2].duration.micros, 30_000_000);
}

#[test]
fn positional_titles_reach_two_digits() {
    let mut builders = Vec::new();
    for _ in 0..12 {
        builders.push(ChapterBuilder {
            title: None,
            duration: TimeSpan::zero(),
        });
    }
    let chapters = build_chapters(builders);
    assert_eq!(chapters[9].title, "Chapter 10");
    assert_eq!(chapters[11].title, "Chapter 12");
}

#[test]
fn duration_is_the_sum_of_chapters() {
    let chapters = vec![
        Chapter {
            title: String::from("One"),
            duration: TimeSpan::from_secs(1),
        },
        Chapter {
            title: String::from("Two"),
            duration: TimeSpan::from_millis(2500),
        },
    ];
    let total = calculate_duration(&chapters);
    assert_eq!(total.micros, 3_500_000);
}

#[test]
fn duration_saturates_instead_of_wrapping() {
    let chapters = vec![
        Chapter {
            title: String::from("One"),
            duration: TimeSpan::from_micros(u64::MAX),
        },
        Chapter {
            title: String::from("Two"),
            duration: TimeSpan::from_micros(7),
        },
    ];
    let total = calculate_duration(&chapters);
    assert_eq!(total.micros, u64::MAX);
}

#[test]
fn timespan_conversions_are_exact() {
    assert_eq!(TimeSpan::from_millis(1500).micros, 1_500_000);
    assert_eq!(TimeSpan::from_secs(2).micros, 2_000_000);
    assert_eq!(TimeSpan::from_millis(u64::MAX).micros, u64::MAX);
    assert_eq!(TimeSpan::from_secs(1).sub(TimeSpan::from_secs(2)).micros, 0);
    assert_eq!(
        TimeSpan::from_micros(u64::MAX).add(TimeSpan::from_micros(1)).micros,
        u64::MAX
    );
}

#[test]
fn chapters_flattens_files_in_order() {
    let book = Book {
        name: String::from("N"),
        author: String::from("A"),
        duration: TimeSpan::zero(),
        cover_art_path: None,
        files: vec![
            BookFile {
                chapters: vec![Chapter {
                    title: String::from("c1"),
                    duration: TimeSpan::from_secs(1),
                }],
                path: String::from("a.mp3"),
            },
            BookFile {
                chapters: vec![
                    Chapter {
                        title: String::from("c2"),
                        duration: TimeSpan::from_secs(2),
                    },
                    Chapter {
                        title: String::from("c3"),
                        duration: TimeSpan::from_secs(3),
                    },
                ],
                path: String::from("b.mp3"),
            },
        ],
    };
    let chapters = book.chapters();
    let titles: Vec<&str> = chapters.iter().map(|c| c.title.as_str()).collect();
    assert_eq!(titles, vec!["c1", "c2", "c3"]);
}

#[test]
fn same_as_compares_whole_books() {
    let make = |micros: u64| Book {
        name: String::from("N"),
        author: String::from("A"),
        duration: TimeSpan::from_micros(micros),
        cover_art_path: Some(String::from("/c.jpg")),
        files: vec![BookFile {
            chapters: vec![Chapter {
                title: String::from("c1"),
                duration: TimeSpan::from_micros(micros),
            }],
            path: String::from("a.mp3"),
        }],
    };
    assert!(make(5).same_as(&make(5)));
    assert!(!make(5).same_as(&make(6)));
}
