//! The canonical description of one audiobook.
//!
//! A [`Book`] owns an ordered list of [`BookFile`]s, each the chapters
//! contributed by one on-disk audio file.  The total duration is always
//! recomputed from the chapters, never trusted from a container format.

use crate::decimal::dec_str;
use crate::timespan::clamp_span;
use crate::timespan::TimeSpan;
use vstd::prelude::*;

verus! {

/// A named span of the audio: one chapter.
#[derive(Debug)]
pub struct Chapter {
    pub title: String,
    pub duration: TimeSpan,
}

pub struct ChapterV {
    pub title: Seq<char>,
    pub micros: int,
}

impl View for Chapter {
    type V = ChapterV;

    open spec fn view(&self) -> ChapterV {
        ChapterV { title: self.title@, micros: self.duration.micros as int }
    }
}

impl DeepView for Chapter {
    type V = ChapterV;

    open spec fn deep_view(&self) -> ChapterV {
        self.view()
    }
}

/// The chapters contributed by one physical audio file.
#[derive(Debug)]
pub struct BookFile {
    pub chapters: Vec<Chapter>,
    pub path: String,
}

pub struct BookFileV {
    pub chapters: Seq<ChapterV>,
    pub path: Seq<char>,
}

impl View for BookFile {
    type V = BookFileV;

    open spec fn view(&self) -> BookFileV {
        BookFileV { chapters: self.chapters.deep_view(), path: self.path@ }
    }
}

impl DeepView for BookFile {
    type V = BookFileV;

    open spec fn deep_view(&self) -> BookFileV {
        self.view()
    }
}

/// The canonical description of one audiobook.
#[derive(Debug)]
pub struct Book {
    pub name: String,
    pub author: String,
    pub duration: TimeSpan,
    pub cover_art_path: Option<String>,
    pub files: Vec<BookFile>,
}

pub struct BookV {
    pub name: Seq<char>,
    pub author: Seq<char>,
    pub micros: int,
    pub cover_art_path: Option<Seq<char>>,
    pub files: Seq<BookFileV>,
}

impl View for Book {
    type V = BookV;

    open spec fn view(&self) -> BookV {
        BookV {
            name: self.name@,
            author: self.author@,
            micros: self.duration.micros as int,
            cover_art_path: self.cover_art_path.deep_view(),
            files: self.files.deep_view(),
        }
    }
}

impl DeepView for Book {
    type V = BookV;

    open spec fn deep_view(&self) -> BookV {
        self.view()
    }
}

/// A chapter while it is being decoded: the title may still be missing.
#[derive(Debug)]
pub struct ChapterBuilder {
    pub title: Option<String>,
    pub duration: TimeSpan,
}

pub struct ChapterBuilderV {
    pub title: Option<Seq<char>>,
    pub micros: int,
}

impl View for ChapterBuilder {
    type V = ChapterBuilderV;

    open spec fn view(&self) -> ChapterBuilderV {
        ChapterBuilderV { title: self.title.deep_view(), micros: self.duration.micros as int }
    }
}

impl DeepView for ChapterBuilder {
    type V = ChapterBuilderV;

    open spec fn deep_view(&self) -> ChapterBuilderV {
        self.view()
    }
}

/// Pushing onto a vector appends one element to its deep view.
pub proof fn lemma_deep_view_push<T: DeepView>(pre: Vec<T>, post: Vec<T>, x: T)
    requires
        post@ == pre@.push(x),
    ensures
        post.deep_view() =~= pre.deep_view().push(x.deep_view()),
{
    assert(post.deep_view().len() == pre.deep_view().len() + 1);
    assert forall|j: int| 0 <= j < post.deep_view().len() implies post.deep_view()[j]
        == pre.deep_view().push(x.deep_view())[j] by {
        if j < pre@.len() {
            assert(post@[j] == pre@[j]);
        } else {
            assert(post@[j] == x);
        }
    }
}

/// Concatenating two vectors concatenates their deep views.
pub proof fn lemma_deep_view_concat<T: DeepView>(a: Vec<T>, b: Vec<T>, post: Vec<T>)
    requires
        post@ == a@ + b@,
    ensures
        post.deep_view() =~= a.deep_view() + b.deep_view(),
{
    assert forall|j: int| 0 <= j < post.deep_view().len() implies post.deep_view()[j] == (
    a.deep_view() + b.deep_view())[j] by {
        if j < a@.len() {
            assert(post@[j] == a@[j]);
        } else {
            assert(post@[j] == b@[j - a@.len()]);
        }
    }
}

/// The synthesized title of the chapter at 1-based position `n`.
pub open spec fn default_chapter_title(n: int) -> Seq<char> {
    "Chapter "@ + dec_str(n)
}

/// What a builder at 0-based position `i` resolves to.
pub open spec fn resolved_chapter(b: ChapterBuilderV, i: int) -> ChapterV {
    ChapterV {
        title: match b.title {
            Some(t) => t,
            None => default_chapter_title(i + 1),
        },
        micros: b.micros,
    }
}

/// All builders resolved, each by its position.
pub open spec fn build_chapters_spec(bs: Seq<ChapterBuilderV>) -> Seq<ChapterV> {
    Seq::new(bs.len(), |i: int| resolved_chapter(bs[i], i))
}

/// The chapters of all files, in order.
pub open spec fn flat_chapters(files: Seq<BookFileV>) -> Seq<ChapterV>
    decreases files.len(),
{
    if files.len() == 0 {
        Seq::empty()
    } else {
        flat_chapters(files.drop_last()) + files.last().chapters
    }
}

/// The mathematical sum of the chapters' durations, in microseconds.
pub open spec fn sum_chapter_micros(chs: Seq<ChapterV>) -> int
    decreases chs.len(),
{
    if chs.len() == 0 {
        0
    } else {
        sum_chapter_micros(chs.drop_last()) + chs.last().micros
    }
}

/// The duration invariant of a built book: the stored total is the clamped
/// sum of every chapter's duration across every file.
pub open spec fn book_duration_ok(b: BookV) -> bool {
    b.micros == clamp_span(sum_chapter_micros(flat_chapters(b.files)))
}

/// Resolve chapter builders into chapters: an entry without a title receives
/// the synthesized title "Chapter {1-based position}".
pub fn build_chapters(chapter_builders: Vec<ChapterBuilder>) -> (r: Vec<Chapter>)
    ensures
        r.deep_view() == build_chapters_spec(chapter_builders.deep_view()),
{
    let ghost bs = chapter_builders.deep_view();
    let n: usize = chapter_builders.len();
    let mut r: Vec<Chapter> = Vec::new();
    let mut i: usize = 0;
    while i < n
        invariant
            0 <= i <= n,
            n == chapter_builders.len(),
            bs == chapter_builders.deep_view(),
            r.deep_view().len() == i as int,
            forall|j: int| 0 <= j < i ==> r.deep_view()[j] == resolved_chapter(bs[j], j),
        decreases n - i,
    {
        let title: String = match &chapter_builders[i].title {
            Some(t) => t.clone(),
            None => {
                let mut t = String::from_str("Chapter ");
                let num = crate::decimal::u64_to_dec_string((i as u64) + 1);
                t.append(num.as_str());
                t
            },
        };
        let ch = Chapter { title, duration: chapter_builders[i].duration };
        proof {
            assert(bs[i as int] == chapter_builders@[i as int].deep_view());
            assert(ch@ == resolved_chapter(bs[i as int], i as int));
        }
        let ghost ch_g = ch;
        let ghost r_pre = r;
        r.push(ch);
        proof {
            lemma_deep_view_push(r_pre, r, ch_g);
        }
        i = i + 1;
    }
    proof {
        assert(r.deep_view() =~= build_chapters_spec(bs));
    }
    r
}

/// An entry without an explicit title resolves to "Chapter {i}", where `i`
/// is its 1-based position; one with a title keeps it.  Durations are kept
/// either way.
pub proof fn lemma_chapter_title_resolution(bs: Seq<ChapterBuilderV>, i: int)
    requires
        0 <= i < bs.len(),
    ensures
        bs[i].title is None ==> build_chapters_spec(bs)[i].title == default_chapter_title(i + 1),
        bs[i].title matches Some(t) ==> build_chapters_spec(bs)[i].title == t,
        build_chapters_spec(bs)[i].micros == bs[i].micros,
{
}

/// Sum up the chapter durations, saturating at the representable maximum.
pub fn calculate_duration(chapters: &[Chapter]) -> (r: TimeSpan)
    ensures
        r.micros == clamp_span(sum_chapter_micros(chapters.deep_view())),
{
    let ghost chs = chapters.deep_view();
    let n: usize = chapters.len();
    let mut total = TimeSpan::zero();
    let mut i: usize = 0;
    while i < n
        invariant
            0 <= i <= n,
            n == chapters@.len(),
            chs == chapters.deep_view(),
            total.micros == clamp_span(sum_chapter_micros(chs.take(i as int))),
        decreases n - i,
    {
        total = total.add(chapters[i].duration);
        proof {
            assert(chs.take(i + 1).drop_last() =~= chs.take(i as int));
            assert(chs.take(i + 1).last() == chs[i as int]);
            assert(chs[i as int].micros == chapters@[i as int].duration.micros as int);
        }
        i = i + 1;
    }
    proof {
        assert(chs.take(n as int) =~= chs);
    }
    total
}

/// Compare two optional strings by contents.
fn opt_string_eq(a: &Option<String>, b: &Option<String>) -> (r: bool)
    ensures
        r == (a.deep_view() == b.deep_view()),
{
    match (a, b) {
        (Some(x), Some(y)) => {
            let e = *x == *y;
            proof {
                assert(a.deep_view() == Some(x@));
                assert(b.deep_view() == Some(y@));
            }
            e
        },
        (None, None) => true,
        (Some(x), None) => {
            proof {
                assert(a.deep_view() == Some(x@));
                assert(b.deep_view() is None);
            }
            false
        },
        (None, Some(y)) => {
            proof {
                assert(a.deep_view() is None);
                assert(b.deep_view() == Some(y@));
            }
            false
        },
    }
}

/// Copy one chapter.
fn clone_chapter(c: &Chapter) -> (r: Chapter)
    ensures
        r@ == c@,
{
    Chapter { title: c.title.clone(), duration: c.duration }
}

impl Book {
    /// All chapters of the book, across its files, in order.
    pub fn chapters(&self) -> (r: Vec<Chapter>)
        ensures
            r.deep_view() == flat_chapters(self@.files),
    {
        let ghost files = self@.files;
        let n: usize = self.files.len();
        let mut r: Vec<Chapter> = Vec::new();
        let mut i: usize = 0;
        proof {
            assert(flat_chapters(files.take(0)) =~= Seq::<ChapterV>::empty());
        }
        while i < n
            invariant
                0 <= i <= n,
                n == self.files.len(),
                files == self@.files,
                r.deep_view() == flat_chapters(files.take(i as int)),
            decreases n - i,
        {
            let m: usize = self.files[i].chapters.len();
            let mut j: usize = 0;
            while j < m
                invariant
                    0 <= j <= m,
                    0 <= i < n,
                    n == self.files.len(),
                    m == self.files[i as int].chapters.len(),
                    files == self@.files,
                    r.deep_view() == flat_chapters(files.take(i as int)) + files[i as int].chapters.take(
                        j as int,
                    ),
                decreases m - j,
            {
                let c = clone_chapter(&self.files[i].chapters[j]);
                proof {
                    assert(files[i as int] == self.files@[i as int]@);
                    assert(files[i as int].chapters[j as int] == self.files@[i as int].chapters@[
                        j as int
                    ]@);
                    assert(c@ == files[i as int].chapters[j as int]);
                }
                let ghost c_g = c;
                let ghost r_pre = r;
                r.push(c);
                proof {
                    lemma_deep_view_push(r_pre, r, c_g);
                    assert(files[i as int].chapters.take(j + 1) =~= files[i as int].chapters.take(
                        j as int,
                    ).push(files[i as int].chapters[j as int]));
                    assert(r.deep_view() =~= flat_chapters(files.take(i as int))
                        + files[i as int].chapters.take(j + 1));
                }
                j = j + 1;
            }
            proof {
                assert(files[i as int].chapters.take(m as int) =~= files[i as int].chapters);
                assert(files.take(i + 1).drop_last() =~= files.take(i as int));
                assert(files.take(i + 1).last() == files[i as int]);
                assert(r.deep_view() =~= flat_chapters(files.take(i + 1)));
            }
            i = i + 1;
        }
        proof {
            assert(files.take(n as int) =~= files);
        }
        r
    }

    /// Drop the cover-art path, keeping everything else.
    pub fn without_cover_art(self) -> (r: Book)
        ensures
            r@ == (BookV { cover_art_path: None, ..self@ }),
    {
        Book {
            name: self.name,
            author: self.author,
            duration: self.duration,
            cover_art_path: None,
            files: self.files,
        }
    }

    /// Whether two books describe exactly the same record.
    pub fn same_as(&self, other: &Book) -> (r: bool)
        ensures
            r == (self@ == other@),
    {
        if !(self.name == other.name) {
            return false;
        }
        if !(self.author == other.author) {
            return false;
        }
        if self.duration.micros != other.duration.micros {
            return false;
        }
        let cover_eq: bool = opt_string_eq(&self.cover_art_path, &other.cover_art_path);
        if !cover_eq {
            return false;
        }
        let n: usize = self.files.len();
        proof {
            assert(self@.files.len() == n as int);
            assert(other@.files.len() == other.files@.len());
        }
        if n != other.files.len() {
            return false;
        }
        let mut i: usize = 0;
        while i < n
            invariant
                0 <= i <= n,
                n == self.files.len(),
                n == other.files.len(),
                forall|j: int| 0 <= j < i ==> self@.files[j] == other@.files[j],
            decreases n - i,
        {
            proof {
                assert(self@.files[i as int] == self.files@[i as int]@);
                assert(other@.files[i as int] == other.files@[i as int]@);
            }
            if !(self.files[i].path == other.files[i].path) {
                proof {
                    assert(self@.files[i as int].path != other@.files[i as int].path);
                }
                return false;
            }
            let m: usize = self.files[i].chapters.len();
            proof {
                assert(self@.files[i as int].chapters.len() == m as int);
                assert(other@.files[i as int].chapters.len() == other.files@[
                    i as int
                ].chapters@.len());
            }
            if m != other.files[i].chapters.len() {
                return false;
            }
            let mut j: usize = 0;
            while j < m
                invariant
                    0 <= j <= m,
                    0 <= i < n,
                    n == self.files.len(),
                    n == other.files.len(),
                    m == self.files[i as int].chapters.len(),
                    m == other.files[i as int].chapters.len(),
                    forall|k: int|
                        0 <= k < j ==> self@.files[i as int].chapters[k] == other@.files[
                            i as int
                        ].chapters[k],
                decreases m - j,
            {
                proof {
                    assert(self@.files[i as int] == self.files@[i as int]@);
                    assert(other@.files[i as int] == other.files@[i as int]@);
                    assert(self@.files[i as int].chapters[j as int] == self.files@[
                        i as int
                    ].chapters@[j as int]@);
                    assert(other@.files[i as int].chapters[j as int] == other.files@[
                        i as int
                    ].chapters@[j as int]@);
                }
                if !(self.files[i].chapters[j].title == other.files[i].chapters[j].title) {
                    proof {
                        assert(self@.files[i as int].chapters[j as int].title != other@.files[
                            i as int
                        ].chapters[j as int].title);
                    }
                    return false;
                }
                let d1: u64 = self.files[i].chapters[j].duration.micros;
                let d2: u64 = other.files[i].chapters[j].duration.micros;
                if d1 != d2 {
                    proof {
                        assert(self@.files[i as int].chapters[j as int].micros != other@.files[
                            i as int
                        ].chapters[j as int].micros);
                    }
                    return false;
                }
                j = j + 1;
            }
            proof {
                assert(self@.files[i as int].chapters =~= other@.files[i as int].chapters);
                assert(self@.files[i as int] == other@.files[i as int]);
            }
            i = i + 1;
        }
        proof {
            assert(self@.files =~= other@.files);
            assert(self@ == other@);
        }
        true
    }
}

} // verus!
