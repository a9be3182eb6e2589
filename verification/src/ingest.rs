//! Building books from scanned sources.
//!
//! A [`FileSource`] is everything one pass over a file on disk can report:
//! its path, its primary tag, its media duration, and what probing it as a
//! chaptered container produced.  A [`FolderSource`] is a directory listing
//! of such scans.  The builders here turn those plain scans into [`Book`]s:
//! the container decoder first, the single-track decoder as the fallback,
//! and the folder aggregator on top of both.

use crate::book::build_chapters;
use crate::book::build_chapters_spec;
use crate::book::calculate_duration;
use crate::book::flat_chapters;
use crate::book::sum_chapter_micros;
use crate::book::Book;
use crate::book::BookFile;
use crate::book::BookFileV;
use crate::book::BookV;
use crate::book::ChapterV;
use crate::container::chapter_track_index;
use crate::container::decode_chapter_samples;
use crate::container::decode_samples;
use crate::container::select_chapter_track;
use crate::container::ContainerScan;
use crate::container::ContainerScanV;
use crate::cover::cover_plan_spec;
use crate::cover::plan_cover_art;
use crate::cover::CoverAction;
use crate::cover::CoverActionV;
use crate::error::BookError;
use crate::pathname::has_mp3_extension;
use crate::pathname::is_mp3_path;
use crate::pathname::lex_lt;
use crate::pathname::str_lex_lt;
use crate::tag::author_of;
use crate::tag::book_name_of;
use crate::tag::chapter_title_of;
use crate::tag::get_author;
use crate::tag::get_book_name;
use crate::tag::get_chapter_title;
use crate::tag::Tag;
use crate::tag::TagV;
use crate::timespan::clamp_span;
use crate::timespan::TimeSpan;
use vstd::prelude::*;

verus! {

/// What reading a file's metadata tag produced: the read failed outright,
/// succeeded but found no primary tag, or yielded the primary tag.
#[derive(Debug)]
pub enum TagScan {
    Unreadable,
    Missing,
    Present(Tag),
}

pub enum TagScanV {
    Unreadable,
    Missing,
    Present(TagV),
}

impl View for TagScan {
    type V = TagScanV;

    open spec fn view(&self) -> TagScanV {
        match self {
            TagScan::Unreadable => TagScanV::Unreadable,
            TagScan::Missing => TagScanV::Missing,
            TagScan::Present(t) => TagScanV::Present(t@),
        }
    }
}

impl DeepView for TagScan {
    type V = TagScanV;

    open spec fn deep_view(&self) -> TagScanV {
        self.view()
    }
}

/// Everything one pass over a file reports to the decoders.
#[derive(Debug)]
pub struct FileSource {
    /// The file's path.
    pub path: String,
    /// Whether the path names a regular file.
    pub is_file: bool,
    /// What reading the file's tag produced.
    pub tag: TagScan,
    /// The total duration the file's media properties report.
    pub media_duration: TimeSpan,
    /// What probing the file as a chaptered container produced.
    pub container: ContainerScan,
    /// Whether the cover-art target path already names a file.
    pub cover_target_exists: bool,
}

pub struct FileSourceV {
    pub path: Seq<char>,
    pub is_file: bool,
    pub tag: TagScanV,
    pub media_duration: int,
    pub container: ContainerScanV,
    pub cover_target_exists: bool,
}

impl View for FileSource {
    type V = FileSourceV;

    open spec fn view(&self) -> FileSourceV {
        FileSourceV {
            path: self.path@,
            is_file: self.is_file,
            tag: self.tag@,
            media_duration: self.media_duration.micros as int,
            container: self.container@,
            cover_target_exists: self.cover_target_exists,
        }
    }
}

impl DeepView for FileSource {
    type V = FileSourceV;

    open spec fn deep_view(&self) -> FileSourceV {
        self.view()
    }
}

/// One directory listing, with every immediate entry scanned.
#[derive(Debug)]
pub struct FolderSource {
    /// Whether the listed path is a directory at all.
    pub is_dir: bool,
    /// One scan per immediate directory entry.
    pub entries: Vec<FileSource>,
}

pub struct FolderSourceV {
    pub is_dir: bool,
    pub entries: Seq<FileSourceV>,
}

impl View for FolderSource {
    type V = FolderSourceV;

    open spec fn view(&self) -> FolderSourceV {
        FolderSourceV { is_dir: self.is_dir, entries: self.entries.deep_view() }
    }
}

impl DeepView for FolderSource {
    type V = FolderSourceV;

    open spec fn deep_view(&self) -> FolderSourceV {
        self.view()
    }
}

/// What the single-track decoder returns: one chapter holding the whole
/// file, titled from the tag, with no cover art.
pub open spec fn single_book_spec(fs: FileSourceV) -> Result<BookV, BookError> {
    match fs.tag {
        TagScanV::Unreadable => Err(BookError::TagFormat),
        TagScanV::Missing => Err(BookError::PrimaryTagMissing),
        TagScanV::Present(t) => Ok(
            BookV {
                name: book_name_of(t),
                author: author_of(t),
                micros: fs.media_duration,
                cover_art_path: None,
                files: seq![
                    BookFileV {
                        chapters: seq![
                            ChapterV { title: chapter_title_of(t), micros: fs.media_duration }
                        ],
                        path: fs.path,
                    }
                ],
            },
        ),
    }
}

/// What the container decoder returns: the chapter track decoded sample by
/// sample, the total recomputed from the chapters, names resolved from the
/// tag, and the cover-art decision.
pub open spec fn container_book_spec(fs: FileSourceV) -> Result<(BookV, CoverActionV), BookError> {
    match fs.tag {
        TagScanV::Unreadable => Err(BookError::TagFormat),
        TagScanV::Missing => Err(BookError::PrimaryTagMissing),
        TagScanV::Present(t) => match fs.container {
            ContainerScanV::Unreadable => Err(BookError::ContainerFormat),
            ContainerScanV::Tracks(ts) => match chapter_track_index(ts) {
                None => Err(BookError::NoChapterTrack),
                Some(ti) => match decode_samples(ts[ti].samples, fs.media_duration) {
                    None => Err(BookError::ContainerFormat),
                    Some(builders) => {
                        let chapters = build_chapters_spec(builders);
                        let name = book_name_of(t);
                        match cover_plan_spec(
                            t,
                            name,
                            fs.path,
                            fs.is_file,
                            fs.cover_target_exists,
                        ) {
                            Err(e) => Err(e),
                            Ok(pair) => Ok(
                                (
                                    BookV {
                                        name,
                                        author: author_of(t),
                                        micros: clamp_span(sum_chapter_micros(chapters)),
                                        cover_art_path: pair.0,
                                        files: seq![BookFileV { chapters, path: fs.path }],
                                    },
                                    pair.1,
                                ),
                            ),
                        }
                    },
                },
            },
        },
    }
}

/// What building from one file returns: the container decoder's book, or on
/// any structural failure the single-track decoder's.
pub open spec fn file_book_spec(fs: FileSourceV) -> Result<(BookV, CoverActionV), BookError> {
    match container_book_spec(fs) {
        Ok(pair) => Ok(pair),
        Err(_) => match single_book_spec(fs) {
            Ok(b) => Ok((b, CoverActionV::Nothing)),
            Err(e) => Err(e),
        },
    }
}

/// Decode one scanned file as a chaptered container.
pub fn build_from_container(source: &FileSource) -> (r: Result<(Book, CoverAction), BookError>)
    ensures
        match r {
            Ok(pair) => container_book_spec(source@) == Ok::<_, BookError>((pair.0@, pair.1@)),
            Err(e) => container_book_spec(source@) == Err::<(BookV, CoverActionV), _>(e),
        },
{
    let tag: &Tag = match &source.tag {
        TagScan::Unreadable => {
            return Err(BookError::TagFormat);
        },
        TagScan::Missing => {
            return Err(BookError::PrimaryTagMissing);
        },
        TagScan::Present(t) => t,
    };
    let tracks: &Vec<crate::container::Track> = match &source.container {
        ContainerScan::Unreadable => {
            return Err(BookError::ContainerFormat);
        },
        ContainerScan::Tracks(ts) => ts,
    };
    proof {
        assert(source@.tag == TagScanV::Present(tag@));
        assert(source@.container == ContainerScanV::Tracks(tracks.deep_view()));
    }
    let ti: usize = match select_chapter_track(tracks) {
        None => {
            return Err(BookError::NoChapterTrack);
        },
        Some(i) => i,
    };
    proof {
        assert(tracks.deep_view()[ti as int] == tracks@[ti as int]@);
    }
    let builders = match decode_chapter_samples(&tracks[ti].samples, source.media_duration) {
        Ok(bs) => bs,
        Err(e) => {
            return Err(e);
        },
    };
    let chapters = build_chapters(builders);
    let chapter_slice: &[crate::book::Chapter] = chapters.as_slice();
    proof {
        assert(chapter_slice.deep_view() =~= chapters.deep_view());
    }
    let duration = calculate_duration(chapter_slice);
    let name = get_book_name(tag);
    let author = get_author(tag);
    let (cover, action) = match plan_cover_art(
        tag,
        name.as_str(),
        source.path.as_str(),
        source.is_file,
        source.cover_target_exists,
    ) {
        Ok(pair) => pair,
        Err(e) => {
            return Err(e);
        },
    };
    let ghost chapters_v = chapters.deep_view();
    let book_file = BookFile { chapters, path: source.path.clone() };
    let mut files: Vec<BookFile> = Vec::new();
    let ghost bf_g = book_file;
    let ghost files_pre = files;
    files.push(book_file);
    proof {
        crate::book::lemma_deep_view_push(files_pre, files, bf_g);
        assert(files.deep_view() =~= seq![BookFileV { chapters: chapters_v, path: source@.path }]);
    }
    let book = Book { name, author, duration, cover_art_path: cover, files };
    Ok((book, action))
}

/// Decode one scanned file as a single-chapter track.
pub fn build_from_single(source: &FileSource) -> (r: Result<Book, BookError>)
    ensures
        match r {
            Ok(b) => single_book_spec(source@) == Ok::<_, BookError>(b@),
            Err(e) => single_book_spec(source@) == Err::<BookV, _>(e),
        },
{
    let tag: &Tag = match &source.tag {
        TagScan::Unreadable => {
            return Err(BookError::TagFormat);
        },
        TagScan::Missing => {
            return Err(BookError::PrimaryTagMissing);
        },
        TagScan::Present(t) => t,
    };
    proof {
        assert(source@.tag == TagScanV::Present(tag@));
    }
    let name = get_book_name(tag);
    let author = get_author(tag);
    let chapter_title = get_chapter_title(tag);
    let duration = source.media_duration;
    let chapter = crate::book::Chapter { title: chapter_title, duration };
    let mut chapters: Vec<crate::book::Chapter> = Vec::new();
    let ghost ch_g = chapter;
    let ghost chapters_pre = chapters;
    chapters.push(chapter);
    proof {
        crate::book::lemma_deep_view_push(chapters_pre, chapters, ch_g);
        assert(chapters.deep_view() =~= seq![
            ChapterV { title: chapter_title_of(tag@), micros: source@.media_duration }
        ]);
    }
    let book_file = BookFile { chapters, path: source.path.clone() };
    let mut files: Vec<BookFile> = Vec::new();
    let ghost bf_g = book_file;
    let ghost files_pre = files;
    files.push(book_file);
    proof {
        crate::book::lemma_deep_view_push(files_pre, files, bf_g);
        assert(files.deep_view() =~= single_book_spec(source@)->Ok_0.files);
    }
    Ok(Book { name, author, duration, cover_art_path: None, files })
}

/// Build a book from one scanned file: try the container decoder, and on
/// any of its structural failures fall back to the single-track decoder.
pub fn build_from_file(source: &FileSource) -> (r: Result<(Book, CoverAction), BookError>)
    ensures
        match r {
            Ok(pair) => file_book_spec(source@) == Ok::<_, BookError>((pair.0@, pair.1@)),
            Err(e) => file_book_spec(source@) == Err::<(BookV, CoverActionV), _>(e),
        },
{
    match build_from_container(source) {
        Ok(pair) => Ok(pair),
        Err(_) => match build_from_single(source) {
            Ok(b) => Ok((b, CoverAction::Nothing)),
            Err(e) => Err(e),
        },
    }
}

/// Whether a directory entry takes part in a folder build: it must be a
/// regular file in the single-chapter format.
pub open spec fn qualifies(fs: FileSourceV) -> bool {
    fs.is_file && is_mp3_path(fs.path)
}

/// The qualifying entries of a directory listing, in listing order.
pub open spec fn qualifying(entries: Seq<FileSourceV>) -> Seq<FileSourceV>
    decreases entries.len(),
{
    if entries.len() == 0 {
        entries
    } else {
        let rest = qualifying(entries.drop_first());
        if qualifies(entries[0]) {
            seq![entries[0]] + rest
        } else {
            rest
        }
    }
}

/// Insert a source into a path-sorted run, after every entry whose path
/// does not come lexicographically after `x`'s (so equal paths keep their
/// relative order).
pub open spec fn insert_by_path(x: FileSourceV, s: Seq<FileSourceV>) -> Seq<FileSourceV>
    decreases s.len(),
{
    if s.len() == 0 {
        seq![x]
    } else if lex_lt(x.path, s[0].path) {
        seq![x] + s
    } else {
        seq![s[0]] + insert_by_path(x, s.drop_first())
    }
}

/// Stable insertion sort of sources by path.
pub open spec fn sort_by_path(s: Seq<FileSourceV>) -> Seq<FileSourceV>
    decreases s.len(),
{
    if s.len() == 0 {
        s
    } else {
        insert_by_path(s[0], sort_by_path(s.drop_first()))
    }
}

/// The files a folder build processes, in order: the qualifying entries,
/// sorted by path.
pub open spec fn folder_queue(entries: Seq<FileSourceV>) -> Seq<FileSourceV> {
    sort_by_path(qualifying(entries))
}

/// Appending a book to the accumulator: the (name, author) pairs must
/// agree, and then the new book's files follow the accumulator's.
pub open spec fn merge_spec(acc: BookV, b: BookV) -> Result<BookV, BookError> {
    if b.author == acc.author && b.name == acc.name {
        Ok(BookV { files: acc.files + b.files, ..acc })
    } else {
        Err(BookError::MixedFilesInFolder)
    }
}

/// Folding the remaining sources into the accumulator, one merge per file.
pub open spec fn fold_books_spec(acc: BookV, rest: Seq<FileSourceV>) -> Result<BookV, BookError>
    decreases rest.len(),
{
    if rest.len() == 0 {
        Ok(acc)
    } else {
        match file_book_spec(rest[0]) {
            Err(e) => Err(e),
            Ok(pair) => match merge_spec(acc, pair.0) {
                Err(e) => Err(e),
                Ok(acc2) => fold_books_spec(acc2, rest.drop_first()),
            },
        }
    }
}

/// What building from a folder returns.  A single qualifying file delegates
/// to the single-file build; several are built in path order, checked for
/// consistent (name, author), merged, and the total duration recomputed
/// over every chapter now held.
pub open spec fn folder_book_spec(f: FolderSourceV) -> Result<(BookV, CoverActionV), BookError> {
    if !f.is_dir {
        Err(BookError::NotADirectory)
    } else {
        let q = folder_queue(f.entries);
        if q.len() == 0 {
            Err(BookError::EmptyFolder)
        } else if q.len() == 1 {
            file_book_spec(q[0])
        } else {
            match file_book_spec(q[0]) {
                Err(e) => Err(e),
                Ok(pair) => match fold_books_spec(pair.0, q.drop_first()) {
                    Err(e) => Err(e),
                    Ok(b) => Ok(
                        (
                            BookV {
                                micros: clamp_span(sum_chapter_micros(flat_chapters(b.files))),
                                ..b
                            },
                            pair.1,
                        ),
                    ),
                },
            }
        }
    }
}

/// Where `insert_by_path` puts the new element, given the position of the
/// first entry whose path comes after it.
proof fn lemma_insert_by_path_at(x: FileSourceV, s: Seq<FileSourceV>, p: int)
    requires
        0 <= p <= s.len(),
        forall|k: int| 0 <= k < p ==> !lex_lt(x.path, s[k].path),
        p < s.len() ==> lex_lt(x.path, s[p].path),
    ensures
        insert_by_path(x, s) == s.take(p) + seq![x] + s.skip(p),
    decreases s.len(),
{
    if s.len() == 0 {
        assert(insert_by_path(x, s) =~= s.take(p) + seq![x] + s.skip(p));
    } else if lex_lt(x.path, s[0].path) {
        assert(p == 0);
        assert(seq![x] + s =~= s.take(0) + seq![x] + s.skip(0));
    } else {
        assert(p >= 1);
        let rest = s.drop_first();
        assert(forall|k: int| 0 <= k < p - 1 ==> rest[k] == s[k + 1]);
        assert(p - 1 < rest.len() ==> lex_lt(x.path, rest[p - 1].path));
        lemma_insert_by_path_at(x, rest, p - 1);
        assert(seq![s[0]] + (rest.take(p - 1) + seq![x] + rest.skip(p - 1)) =~= s.take(p)
            + seq![x] + s.skip(p));
    }
}

/// Insert one source into a path-sorted vector.
fn insert_source_sorted(run: Vec<FileSource>, x: FileSource) -> (r: Vec<FileSource>)
    ensures
        r.deep_view() == insert_by_path(x.deep_view(), run.deep_view()),
{
    let ghost s = run.deep_view();
    let ghost xv = x.deep_view();
    let mut v = run;
    let n: usize = v.len();
    let mut pos: usize = 0;
    loop
        invariant
            0 <= pos <= n,
            n == v.len(),
            v.deep_view() == s,
            xv == x.deep_view(),
            forall|k: int| 0 <= k < pos ==> !lex_lt(xv.path, s[k].path),
        ensures
            0 <= pos <= n,
            n == v.len(),
            v.deep_view() == s,
            forall|k: int| 0 <= k < pos ==> !lex_lt(xv.path, s[k].path),
            pos < n ==> lex_lt(xv.path, s[pos as int].path),
        decreases n - pos,
    {
        if pos == n {
            break ;
        }
        proof {
            assert(s[pos as int] == v@[pos as int].deep_view());
        }
        if str_lex_lt(x.path.as_str(), v[pos].path.as_str()) {
            break ;
        }
        pos = pos + 1;
    }
    proof {
        lemma_insert_by_path_at(xv, s, pos as int);
    }
    let ghost x_g = x;
    let ghost v_pre = v;
    v.insert(pos, x);
    proof {
        assert(v@ == v_pre@.insert(pos as int, x_g));
        assert forall|j: int|
            0 <= j < v.deep_view().len() implies v.deep_view()[j] == (s.take(pos as int) + seq![xv]
            + s.skip(pos as int))[j] by {
            if j < pos as int {
                assert(v@[j] == v_pre@[j]);
            } else if j == pos as int {
                assert(v@[j] == x_g);
            } else {
                assert(v@[j] == v_pre@[j - 1]);
            }
        }
        assert(v.deep_view() =~= s.take(pos as int) + seq![xv] + s.skip(pos as int));
    }
    v
}

/// Build a book from a whole folder of single-chapter files: keep the
/// qualifying entries, sort them by path, build each, check that they all
/// agree on (name, author), merge their files, and recompute the total
/// duration.
pub fn build_from_folder(folder: FolderSource) -> (r: Result<(Book, CoverAction), BookError>)
    ensures
        match r {
            Ok(pair) => folder_book_spec(folder@) == Ok::<_, BookError>((pair.0@, pair.1@)),
            Err(e) => folder_book_spec(folder@) == Err::<(BookV, CoverActionV), _>(e),
        },
{
    let ghost fv = folder@;
    if !folder.is_dir {
        return Err(BookError::NotADirectory);
    }
    // Keep the qualifying entries, in listing order.
    let mut rest = folder.entries;
    let ghost entries_v = rest.deep_view();
    proof {
        assert(entries_v == fv.entries);
    }
    let mut qual: Vec<FileSource> = Vec::new();
    proof {
        assert(qual.deep_view() + qualifying(rest.deep_view()) =~= qualifying(entries_v));
    }
    while rest.len() > 0
        invariant
            qualifying(entries_v) == qual.deep_view() + qualifying(rest.deep_view()),
        decreases rest.len(),
    {
        let ghost rest_pre = rest;
        let e = rest.remove(0);
        proof {
            assert(e == rest_pre@[0]);
            assert(rest.deep_view() =~= rest_pre.deep_view().drop_first());
            assert(e.deep_view() == rest_pre.deep_view()[0]);
        }
        let is_q = e.is_file && has_mp3_extension(e.path.as_str());
        proof {
            assert(is_q == qualifies(e@));
        }
        if is_q {
            let ghost e_g = e;
            let ghost qual_pre = qual;
            qual.push(e);
            proof {
                crate::book::lemma_deep_view_push(qual_pre, qual, e_g);
                assert(qual.deep_view() + qualifying(rest.deep_view()) =~= qual_pre.deep_view() + (
                seq![e_g.deep_view()] + qualifying(rest.deep_view())));
            }
        }
    }
    proof {
        assert(qual.deep_view() + qualifying(rest.deep_view()) =~= qual.deep_view());
        assert(qual.deep_view() == qualifying(entries_v));
    }
    // Sort them by path.
    let ghost qual_full = qual.deep_view();
    let mut sorted: Vec<FileSource> = Vec::new();
    proof {
        assert(qual_full.skip(qual_full.len() as int) =~= Seq::<FileSourceV>::empty());
    }
    while qual.len() > 0
        invariant
            qual@.len() <= qual_full.len(),
            qual.deep_view() =~= qual_full.take(qual@.len() as int),
            sorted.deep_view() == sort_by_path(qual_full.skip(qual@.len() as int)),
        decreases qual.len(),
    {
        let ghost len_pre = qual@.len() as int;
        let popped = qual.pop();
        let x = popped.unwrap();
        proof {
            assert(x.deep_view() == qual_full.take(len_pre)[len_pre - 1]);
            assert(x.deep_view() == qual_full[len_pre - 1]);
            assert(qual.deep_view() =~= qual_full.take(len_pre - 1));
            assert(qual_full.skip(len_pre - 1)[0] == qual_full[len_pre - 1]);
            assert(qual_full.skip(len_pre - 1).drop_first() =~= qual_full.skip(len_pre));
        }
        sorted = insert_source_sorted(sorted, x);
    }
    proof {
        assert(qual_full.skip(0) =~= qual_full);
        assert(sorted.deep_view() == sort_by_path(qual_full));
    }
    let ghost q = folder_queue(fv.entries);
    proof {
        assert(q == sorted.deep_view());
    }
    let n: usize = sorted.len();
    proof {
        assert(q.len() == n as int);
    }
    if n == 0 {
        return Err(BookError::EmptyFolder);
    }
    if n == 1 {
        proof {
            assert(sorted@[0].deep_view() == q[0]);
        }
        return build_from_file(&sorted[0]);
    }
    // Build the first file as the accumulator.
    proof {
        assert(sorted@[0].deep_view() == q[0]);
    }
    let (mut acc, action) = match build_from_file(&sorted[0]) {
        Ok(pair) => pair,
        Err(e) => {
            return Err(e);
        },
    };
    let ghost b0 = acc@;
    let ghost act0 = action@;
    let ghost target = fold_books_spec(b0, q.skip(1));
    let mut i: usize = 1;
    while i < n
        invariant
            1 <= i <= n,
            n == sorted.len(),
            q == sorted.deep_view(),
            n == q.len(),
            n >= 2,
            fv == folder@,
            fv.is_dir,
            q == folder_queue(fv.entries),
            file_book_spec(q[0]) == Ok::<_, BookError>((b0, act0)),
            target == fold_books_spec(b0, q.skip(1)),
            target == fold_books_spec(acc@, q.skip(i as int)),
        decreases n - i,
    {
        proof {
            assert(sorted@[i as int].deep_view() == q[i as int]);
            assert(q.skip(i as int)[0] == q[i as int]);
            assert(q.skip(i as int).drop_first() =~= q.skip(i + 1));
        }
        let mut nb = match build_from_file(&sorted[i]) {
            Ok(pair) => pair.0,
            Err(e) => {
                proof {
                    assert(fold_books_spec(acc@, q.skip(i as int)) == Err::<BookV, _>(e));
                    assert(q.drop_first() =~= q.skip(1));
                    assert(folder_book_spec(fv) == Err::<(BookV, CoverActionV), _>(e));
                }
                return Err(e);
            },
        };
        let author_match = nb.author == acc.author;
        let name_match = nb.name == acc.name;
        if !(author_match && name_match) {
            proof {
                assert(merge_spec(acc@, nb@) == Err::<BookV, _>(BookError::MixedFilesInFolder));
                assert(fold_books_spec(acc@, q.skip(i as int)) == Err::<BookV, _>(
                    BookError::MixedFilesInFolder,
                ));
                assert(q.drop_first() =~= q.skip(1));
                assert(folder_book_spec(fv) == Err::<(BookV, CoverActionV), _>(
                    BookError::MixedFilesInFolder,
                ));
            }
            return Err(BookError::MixedFilesInFolder);
        }
        let ghost acc_pre = acc@;
        let ghost nb_v = nb@;
        let ghost files_pre = acc.files;
        let ghost nbf_pre = nb.files;
        acc.files.append(&mut nb.files);
        proof {
            crate::book::lemma_deep_view_concat(files_pre, nbf_pre, acc.files);
            assert(acc@ == (BookV { files: acc_pre.files + nb_v.files, ..acc_pre }));
            assert(merge_spec(acc_pre, nb_v) == Ok::<_, BookError>(acc@));
        }
        i = i + 1;
    }
    proof {
        assert(q.skip(n as int) =~= Seq::<FileSourceV>::empty());
        assert(target == Ok::<_, BookError>(acc@));
    }
    // The duration so far reflects only the first file: recompute it over
    // every chapter now held.
    let all_chapters = acc.chapters();
    let chapter_slice: &[crate::book::Chapter] = all_chapters.as_slice();
    proof {
        assert(chapter_slice.deep_view() =~= all_chapters.deep_view());
    }
    let total = calculate_duration(chapter_slice);
    let ghost acc_folded = acc@;
    acc.duration = total;
    proof {
        assert(acc@ == (BookV {
            micros: clamp_span(sum_chapter_micros(flat_chapters(acc_folded.files))),
            ..acc_folded
        }));
        assert(q.drop_first() =~= q.skip(1));
        assert(folder_book_spec(fv) == Ok::<_, BookError>((acc@, act0)));
    }
    Ok((acc, action))
}

} // verus!
