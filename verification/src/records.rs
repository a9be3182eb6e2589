//! The flat records handed to the storage collaborator.
//!
//! The storage layer keeps one row per book (name, length, file location),
//! one per user, and one playback position per (book, user) pair.  Durations
//! cross that boundary as microsecond counts, converted losslessly from the
//! storage layer's native interval representation.

use crate::timespan::TimeSpan;
use vstd::prelude::*;

verus! {

/// One stored book row: its display name, its total length, and where its
/// audio lives on disk.
#[derive(Debug)]
pub struct Book {
    pub name: String,
    pub length: TimeSpan,
    pub file_location: String,
}

impl Book {
    pub fn new(name: String, length: TimeSpan, file_location: String) -> (r: Book)
        ensures
            r.name@ == name@,
            r.length == length,
            r.file_location@ == file_location@,
    {
        Book { name, length, file_location }
    }

    /// A placeholder record for a file nothing has parsed yet: the name and
    /// length are fixed stand-ins until a real parse fills them.
    pub fn new_from_path(file_location: String) -> (r: Book)
        ensures
            r.name@ == "name_parsing_not_yet_implemented"@,
            r.length.micros == 42_000_000,
            r.file_location@ == file_location@,
    {
        Book {
            name: String::from_str("name_parsing_not_yet_implemented"),
            length: TimeSpan::from_micros(42_000_000),
            file_location,
        }
    }
}

/// One stored user row.
#[derive(Debug)]
pub struct User {
    pub username: String,
}

impl User {
    pub fn new(username: String) -> (r: User)
        ensures
            r.username@ == username@,
    {
        User { username }
    }
}

/// How far one user has listened into one book.
#[derive(Debug)]
pub struct PlaybackLocation {
    pub book_name: String,
    pub user_name: String,
    pub time: TimeSpan,
}

impl PlaybackLocation {
    pub fn new(book_name: String, user_name: String, time: TimeSpan) -> (r: PlaybackLocation)
        ensures
            r.book_name@ == book_name@,
            r.user_name@ == user_name@,
            r.time == time,
    {
        PlaybackLocation { book_name, user_name, time }
    }
}

/// Convert the storage layer's interval representation — months, days, and
/// microseconds — to a [`TimeSpan`], preserving microsecond precision
/// losslessly.  Month-bearing intervals have no fixed microsecond value and
/// are not accepted; the total must be representable.
pub fn pg_interval_to_std_time_duration(months: i32, days: i32, microseconds: i64) -> (r: TimeSpan)
    requires
        months == 0,
        0 <= days * 86_400_000_000i64 + microseconds <= u64::MAX,
    ensures
        r.micros == days * 86_400_000_000i64 + microseconds,
{
    let total: i128 = (days as i128) * 86_400_000_000 + (microseconds as i128);
    TimeSpan::from_micros(total as u64)
}

} // verus!
