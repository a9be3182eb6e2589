use cyprus::records::{pg_interval_to_std_time_duration, Book, PlaybackLocation, User};
use cyprus::timespan::TimeSpan;

#[test]
fn book_record_keeps_its_fields() {
    let book = Book::new(
        String::from("Tress"),
        TimeSpan::from_secs(3600),
        String::from("/books/tress.m4b"),
    );
    assert_eq!(book.name, "Tress");
    assert_eq!(book.length.micros, 3_600_000_000);
    assert_eq!(book.file_location, "/books/tress.m4b");
}

#[test]
fn book_record_from_path_uses_placeholders() {
    let book = Book::new_from_path(String::from("/books/new.m4b"));
    assert_eq!(book.name, "name_parsing_not_yet_implemented");
    assert_eq!(book.length.micros, 42_000_000);
    assert_eq!(book.file_location, "/books/new.m4b");
}

#[test]
fn user_record_keeps_its_name() {
    let user = User::new(String::from("tom"));
    assert_eq!(user.username, "tom");
}

#[test]
fn playback_location_keeps_its_fields() {
    let loc = PlaybackLocation::new(
        String::from("Tress"),
        String::from("tom"),
        TimeSpan::from_millis(42),
    );
    assert_eq!(loc.book_name, "Tress");
    assert_eq!(loc.user_name, "tom");
    assert_eq!(loc.time.micros, 42_000);
}

#[test]
fn interval_conversion_is_lossless() {
    let span = pg_interval_to_std_time_duration(0, 1, 500);
    assert_eq!(span.micros, 86_400_000_500);
    let plain = pg_interval_to_std_time_duration(0, 0, 1_234_567);
    assert_eq!(plain.micros, 1_234_567);
}
