//! Cover-art resolution.
//!
//! Embedded cover art is cached next to the book as `cover_{name}.jpg`.
//! This module decides everything about that cache deterministically — the
//! target path, whether an existing file is reused, and which embedded
//! picture would be written — and hands the caller a [`CoverAction`] to
//! carry out.  The file system itself is only reported to these functions
//! (`path_is_file`, `target_exists`), never touched.

use crate::error::BookError;
use crate::pathname::dir_prefix;
use crate::pathname::dir_prefix_of;
use crate::pathname::has_parent;
use crate::pathname::path_has_parent;
use crate::tag::cover_picture_index;
use crate::tag::select_cover_picture;
use crate::tag::Tag;
use crate::tag::TagV;
use vstd::prelude::*;

verus! {

/// The pending side effect of a cover-art decision.
#[derive(Debug)]
pub enum CoverAction {
    /// Nothing to do: either no picture was found or the cache already
    /// exists.
    Nothing,
    /// Write these bytes to this path.
    Write(String, Vec<u8>),
}

pub enum CoverActionV {
    Nothing,
    Write(Seq<char>, Seq<u8>),
}

impl View for CoverAction {
    type V = CoverActionV;

    open spec fn view(&self) -> CoverActionV {
        match self {
            CoverAction::Nothing => CoverActionV::Nothing,
            CoverAction::Write(p, d) => CoverActionV::Write(p@, d@),
        }
    }
}

impl DeepView for CoverAction {
    type V = CoverActionV;

    open spec fn deep_view(&self) -> CoverActionV {
        self.view()
    }
}

/// Where the cover art of a book named `name` is cached: beside the book
/// file, as `cover_{name}.jpg`.
pub open spec fn cover_target(name: Seq<char>, path: Seq<char>) -> Seq<char> {
    dir_prefix(path) + "cover_"@ + name + ".jpg"@
}

/// The cover-art target path for a book, or why there is none: the book
/// path must be a regular file and must have a parent directory.
pub open spec fn cover_path_spec(name: Seq<char>, path: Seq<char>, path_is_file: bool) -> Result<
    Seq<char>,
    BookError,
> {
    if !path_is_file {
        Err(BookError::NotAFile)
    } else if !has_parent(path) {
        Err(BookError::NoParentDirectory)
    } else {
        Ok(cover_target(name, path))
    }
}

/// Compute the cover-art target path for a book named `name` stored at
/// `book_file_path`.  `path_is_file` reports whether that path is a regular
/// file.
pub fn cover_art_path(name: &str, book_file_path: &str, path_is_file: bool) -> (r: Result<
    String,
    BookError,
>)
    ensures
        match r {
            Ok(p) => cover_path_spec(name@, book_file_path@, path_is_file) == Ok::<_, BookError>(
                p@,
            ),
            Err(e) => cover_path_spec(name@, book_file_path@, path_is_file) == Err::<Seq<char>, _>(
                e,
            ),
        },
{
    if !path_is_file {
        return Err(BookError::NotAFile);
    }
    if !path_has_parent(book_file_path) {
        return Err(BookError::NoParentDirectory);
    }
    let mut p = String::from_str(dir_prefix_of(book_file_path));
    p.append("cover_");
    p.append(name);
    p.append(".jpg");
    proof {
        assert(p@ =~= cover_target(name@, book_file_path@));
    }
    Ok(p)
}

/// What locating a previously cached cover yields: the target path when the
/// cache file is already there.
pub open spec fn locate_cover_spec(
    name: Seq<char>,
    path: Seq<char>,
    path_is_file: bool,
    target_exists: bool,
) -> Result<Option<Seq<char>>, BookError> {
    match cover_path_spec(name, path, path_is_file) {
        Err(e) => Err(e),
        Ok(target) => if target_exists {
            Ok(Some(target))
        } else {
            Ok(None)
        },
    }
}

/// Check for previously extracted cover art.  `target_exists` reports
/// whether the cover-art target path already names a file on disk.
pub fn locate_extracted_cover_art(
    name: &str,
    book_file_path: &str,
    path_is_file: bool,
    target_exists: bool,
) -> (r: Result<Option<String>, BookError>)
    ensures
        match r {
            Ok(p) => locate_cover_spec(name@, book_file_path@, path_is_file, target_exists) == Ok::<
                _,
                BookError,
            >(p.deep_view()),
            Err(e) => locate_cover_spec(name@, book_file_path@, path_is_file, target_exists)
                == Err::<Option<Seq<char>>, _>(e),
        },
{
    let target = match cover_art_path(name, book_file_path, path_is_file) {
        Ok(t) => t,
        Err(e) => {
            return Err(e);
        },
    };
    if target_exists {
        Ok(Some(target))
    } else {
        Ok(None)
    }
}

/// The full cover-art decision: reuse the cached file when it exists;
/// otherwise pick the best embedded picture and plan to write it; with no
/// picture at all the book simply has no cover.
pub open spec fn cover_plan_spec(
    t: TagV,
    name: Seq<char>,
    path: Seq<char>,
    path_is_file: bool,
    target_exists: bool,
) -> Result<(Option<Seq<char>>, CoverActionV), BookError> {
    match cover_path_spec(name, path, path_is_file) {
        Err(e) => Err(e),
        Ok(target) => if target_exists {
            Ok((Some(target), CoverActionV::Nothing))
        } else {
            match cover_picture_index(t) {
                Some(i) => Ok(
                    (Some(target), CoverActionV::Write(target, t.pictures[i].data)),
                ),
                None => Ok((None, CoverActionV::Nothing)),
            }
        },
    }
}

/// Copy a byte vector.
fn copy_bytes(v: &Vec<u8>) -> (r: Vec<u8>)
    ensures
        r@ == v@,
{
    let n: usize = v.len();
    let mut r: Vec<u8> = Vec::new();
    let mut i: usize = 0;
    while i < n
        invariant
            0 <= i <= n,
            n == v@.len(),
            r@ == v@.take(i as int),
        decreases n - i,
    {
        r.push(v[i]);
        proof {
            assert(v@.take(i + 1) =~= v@.take(i as int).push(v@[i as int]));
        }
        i = i + 1;
    }
    proof {
        assert(v@.take(n as int) =~= v@);
    }
    r
}

/// Decide the cover art for a book named `name` at `book_file_path`, whose
/// primary tag is `tag`.  The two booleans report the file system: whether
/// the book path is a regular file, and whether the cover-art target already
/// exists.  On success the first component is the book's cover-art path and
/// the second the action left to carry out.
pub fn plan_cover_art(
    tag: &Tag,
    name: &str,
    book_file_path: &str,
    path_is_file: bool,
    target_exists: bool,
) -> (r: Result<(Option<String>, CoverAction), BookError>)
    ensures
        match r {
            Ok(pair) => cover_plan_spec(tag@, name@, book_file_path@, path_is_file, target_exists)
                == Ok::<_, BookError>((pair.0.deep_view(), pair.1@)),
            Err(e) => cover_plan_spec(tag@, name@, book_file_path@, path_is_file, target_exists)
                == Err::<(Option<Seq<char>>, CoverActionV), _>(e),
        },
{
    let target = match cover_art_path(name, book_file_path, path_is_file) {
        Ok(t) => t,
        Err(e) => {
            return Err(e);
        },
    };
    if target_exists {
        return Ok((Some(target), CoverAction::Nothing));
    }
    match select_cover_picture(tag) {
        Some(i) => {
            let data = copy_bytes(&tag.pictures[i].data);
            proof {
                assert(tag@.pictures[i as int] == tag.pictures@[i as int]@);
            }
            let path_copy = target.clone();
            Ok((Some(target), CoverAction::Write(path_copy, data)))
        },
        None => Ok((None, CoverAction::Nothing)),
    }
}

/// Cover-art extraction is idempotent: once a first decision has produced a
/// cover path (whether found or written), deciding again with the cache now
/// present yields the same path and writes nothing.
pub proof fn lemma_cover_plan_idempotent(
    t: TagV,
    name: Seq<char>,
    path: Seq<char>,
    path_is_file: bool,
)
    ensures
        (match cover_plan_spec(t, name, path, path_is_file, false) {
            Ok(pair) => pair.0 matches Some(p) ==> cover_plan_spec(t, name, path, path_is_file, true)
                == Ok::<_, BookError>((Some(p), CoverActionV::Nothing)),
            Err(e) => cover_plan_spec(t, name, path, path_is_file, true) == Err::<
                (Option<Seq<char>>, CoverActionV),
                _,
            >(e),
        }),
{
}

} // verus!
