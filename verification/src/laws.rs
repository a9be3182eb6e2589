//! The laws every build path obeys.
//!
//! These proofs state, over the specification functions the builders are
//! verified against, what callers may rely on: every built book's duration
//! is the sum of its chapters; a folder of one file builds exactly the book
//! its file builds; mixed folders and empty folders fail with their named
//! errors, returning no book.

use crate::book::book_duration_ok;
use crate::book::sum_chapter_micros;
use crate::book::BookFileV;
use crate::book::BookV;
use crate::book::ChapterV;
use crate::book::flat_chapters;
use crate::container::chapter_track_index;
use crate::container::decode_samples;
use crate::container::ContainerScanV;
use crate::cover::CoverActionV;
use crate::error::BookError;
use crate::ingest::container_book_spec;
use crate::ingest::file_book_spec;
use crate::ingest::fold_books_spec;
use crate::ingest::folder_book_spec;
use crate::ingest::folder_queue;
use crate::ingest::insert_by_path;
use crate::ingest::merge_spec;
use crate::ingest::qualifies;
use crate::ingest::qualifying;
use crate::ingest::single_book_spec;
use crate::ingest::sort_by_path;
use crate::ingest::FileSourceV;
use crate::ingest::FolderSourceV;
use crate::ingest::TagScanV;
use crate::pathname::lex_lt;
use crate::timespan::span_max;
use vstd::prelude::*;

verus! {

/// No later entry's path comes lexicographically before an earlier one's.
pub open spec fn sorted_by_path(s: Seq<FileSourceV>) -> bool {
    forall|i: int| 0 <= i < s.len() - 1 ==> !lex_lt((#[trigger] s[i + 1]).path, s[i].path)
}

/// Inserting keeps a run sorted, and only adds the new element.
proof fn lemma_insert_by_path_ordered(x: FileSourceV, s: Seq<FileSourceV>)
    requires
        sorted_by_path(s),
    ensures
        sorted_by_path(insert_by_path(x, s)),
        insert_by_path(x, s).to_multiset() == s.to_multiset().insert(x),
    decreases s.len(),
{
    broadcast use vstd::seq_lib::group_to_multiset_ensures;
    broadcast use vstd::seq_lib::lemma_multiset_commutative;

    let out = insert_by_path(x, s);
    if s.len() == 0 {
        assert(seq![x] =~= Seq::<FileSourceV>::empty().push(x));
        assert(out.to_multiset() =~= s.to_multiset().insert(x));
    } else if lex_lt(x.path, s[0].path) {
        assert(out == seq![x] + s);
        assert forall|i: int| 0 <= i < out.len() - 1 implies !lex_lt(
            (#[trigger] out[i + 1]).path,
            out[i].path,
        ) by {
            if i == 0 {
                assert(out[0] == x);
                assert(out[1] == s[0]);
                assert(!lex_lt(s[0].path, x.path)) by {
                    lemma_lex_lt_asymmetric(x.path, s[0].path);
                }
            } else {
                assert(out[i] == s[i - 1] && out[i + 1] == s[i]);
                let j: int = i - 1;
                assert(!lex_lt(s[j + 1].path, s[j].path));
            }
        }
        assert((seq![x] + s).to_multiset() =~= s.to_multiset().insert(x)) by {
            assert(seq![x] =~= Seq::<FileSourceV>::empty().push(x));
        }
    } else {
        let rest = s.drop_first();
        assert(sorted_by_path(rest)) by {
            assert(forall|i: int| 0 <= i < rest.len() ==> rest[i] == s[i + 1]);
        }
        lemma_insert_by_path_ordered(x, rest);
        let inner = insert_by_path(x, rest);
        assert(out == seq![s[0]] + inner);
        // The head stays in front: whatever now leads the inner run is
        // either `x` (which does not come before `s[0]`) or `rest[0]`.
        assert forall|i: int| 0 <= i < out.len() - 1 implies !lex_lt(
            (#[trigger] out[i + 1]).path,
            out[i].path,
        ) by {
            if i == 0 {
                assert(out[0] == s[0]);
                assert(out[1] == inner[0]);
                if rest.len() == 0 {
                    assert(inner == seq![x]);
                    assert(inner[0] == x);
                } else if lex_lt(x.path, rest[0].path) {
                    assert(inner == seq![x] + rest);
                    assert(inner[0] == x);
                } else {
                    assert(inner == seq![rest[0]] + insert_by_path(x, rest.drop_first()));
                    assert(inner[0] == rest[0]);
                    assert(rest[0] == s[1]);
                    let j: int = 0;
                    assert(!lex_lt(s[j + 1].path, s[j].path));
                }
            } else {
                assert(out[i] == inner[i - 1] && out[i + 1] == inner[i]);
                let j: int = i - 1;
                assert(!lex_lt(inner[j + 1].path, inner[j].path));
            }
        }
        assert(out.to_multiset() =~= s.to_multiset().insert(x)) by {
            assert(seq![s[0]] =~= Seq::<FileSourceV>::empty().push(s[0]));
            assert((seq![s[0]] + rest) =~= s);
        }
    }
}

/// Two paths cannot each come before the other.
proof fn lemma_lex_lt_asymmetric(a: Seq<char>, b: Seq<char>)
    requires
        lex_lt(a, b),
    ensures
        !lex_lt(b, a),
    decreases a.len(),
{
    if b.len() == 0 {
    } else if a.len() == 0 {
    } else if a[0] != b[0] {
    } else {
        lemma_lex_lt_asymmetric(a.drop_first(), b.drop_first());
    }
}

/// Sorting by path really sorts: the result is ordered by path and holds
/// exactly the entries it was given.  In particular the folder queue is a
/// reordering of the qualifying directory entries.
pub proof fn lemma_sort_by_path_sorts(s: Seq<FileSourceV>)
    ensures
        sorted_by_path(sort_by_path(s)),
        sort_by_path(s).to_multiset() == s.to_multiset(),
    decreases s.len(),
{
    broadcast use vstd::seq_lib::group_to_multiset_ensures;

    if s.len() == 0 {
    } else {
        let rest = s.drop_first();
        lemma_sort_by_path_sorts(rest);
        lemma_insert_by_path_ordered(s[0], sort_by_path(rest));
        assert(s =~= seq![s[0]] + rest);
        assert(s.to_multiset() =~= rest.to_multiset().insert(s[0])) by {
            vstd::seq_lib::lemma_multiset_commutative(seq![s[0]], rest);
            assert(seq![s[0]] =~= Seq::<FileSourceV>::empty().push(s[0]));
        }
    }
}

/// The book a successful single-file build yields (meaningful only where
/// `file_book_spec` succeeds).
pub open spec fn built_book(fs: FileSourceV) -> BookV {
    (file_book_spec(fs)->Ok_0).0
}

/// Whether the book built from `fs` disagrees with `acc` on the
/// (name, author) pair.
pub open spec fn mismatched_with(acc: BookV, fs: FileSourceV) -> bool {
    built_book(fs).name != acc.name || built_book(fs).author != acc.author
}

/// The chapters of a one-file book are that file's chapters.
proof fn lemma_flat_singleton(f: BookFileV)
    ensures
        flat_chapters(seq![f]) == f.chapters,
{
    let s = seq![f];
    assert(s.drop_last() =~= Seq::<BookFileV>::empty());
    assert(flat_chapters(s.drop_last()) + s.last().chapters =~= f.chapters);
}

/// The sum over one chapter is that chapter's duration.
proof fn lemma_sum_singleton(c: ChapterV)
    ensures
        sum_chapter_micros(seq![c]) == c.micros,
{
    let s = seq![c];
    assert(s.drop_last() =~= Seq::<ChapterV>::empty());
    assert(sum_chapter_micros(Seq::<ChapterV>::empty()) == 0);
    assert(sum_chapter_micros(s) == sum_chapter_micros(s.drop_last()) + s.last().micros);
}

/// Every book a single-file build returns carries the duration invariant:
/// its total is the (clamped) sum of its chapters' durations.
pub proof fn lemma_file_book_duration(fs: FileSourceV)
    requires
        0 <= fs.media_duration <= span_max(),
    ensures
        file_book_spec(fs) matches Ok(pair) ==> book_duration_ok(pair.0),
{
    if file_book_spec(fs) is Ok {
        match fs.tag {
            TagScanV::Present(t) => {
                if container_book_spec(fs) is Ok {
                    match fs.container {
                        ContainerScanV::Tracks(ts) => {
                            match chapter_track_index(ts) {
                                Some(ti) => {
                                    match decode_samples(ts[ti].samples, fs.media_duration) {
                                        Some(builders) => {
                                            let chapters = crate::book::build_chapters_spec(
                                                builders,
                                            );
                                            lemma_flat_singleton(
                                                BookFileV { chapters, path: fs.path },
                                            );
                                        },
                                        None => {},
                                    }
                                },
                                None => {},
                            }
                        },
                        ContainerScanV::Unreadable => {},
                    }
                } else {
                    let b = single_book_spec(fs)->Ok_0;
                    let ch = ChapterV {
                        title: crate::tag::chapter_title_of(t),
                        micros: fs.media_duration,
                    };
                    lemma_flat_singleton(BookFileV { chapters: seq![ch], path: fs.path });
                    lemma_sum_singleton(ch);
                }
            },
            TagScanV::Unreadable => {},
            TagScanV::Missing => {},
        }
    }
}

/// Every book a folder build returns carries the duration invariant too.
/// (The hypothesis holds of every queue whose scans were taken from real
/// files: a media duration read from a file always fits a `u64`.)
pub proof fn lemma_folder_book_duration(f: FolderSourceV)
    requires
        forall|i: int|
            0 <= i < folder_queue(f.entries).len() ==> 0 <= (#[trigger] folder_queue(f.entries)[i]).media_duration
                <= span_max(),
    ensures
        folder_book_spec(f) matches Ok(pair) ==> book_duration_ok(pair.0),
{
    let q = folder_queue(f.entries);
    if f.is_dir && q.len() == 1 {
        lemma_file_book_duration(q[0]);
    }
}

/// A folder holding exactly one qualifying file builds exactly the book
/// that file builds on its own.
pub proof fn lemma_folder_of_single_file(f: FolderSourceV)
    requires
        f.is_dir,
        folder_queue(f.entries).len() == 1,
    ensures
        folder_book_spec(f) == file_book_spec(folder_queue(f.entries)[0]),
{
}

/// Folding sources into an accumulator fails with `MixedFilesInFolder` as
/// soon as any of them builds a book whose (name, author) differs from the
/// accumulator's — provided every build itself succeeds.
proof fn lemma_fold_books_mixed(acc: BookV, rest: Seq<FileSourceV>)
    requires
        forall|i: int| 0 <= i < rest.len() ==> file_book_spec(#[trigger] rest[i]) is Ok,
        exists|i: int| 0 <= i < rest.len() && mismatched_with(acc, #[trigger] rest[i]),
    ensures
        fold_books_spec(acc, rest) == Err::<BookV, _>(BookError::MixedFilesInFolder),
    decreases rest.len(),
{
    let i = choose|i: int| 0 <= i < rest.len() && mismatched_with(acc, #[trigger] rest[i]);
    let b = built_book(rest[0]);
    if merge_spec(acc, b) is Err {
    } else {
        let acc2 = merge_spec(acc, b)->Ok_0;
        assert(acc2.name == acc.name && acc2.author == acc.author);
        assert(i >= 1);
        let rest2 = rest.drop_first();
        assert(forall|j: int|
            0 <= j < rest2.len() ==> file_book_spec(#[trigger] rest2[j]) is Ok) by {
            assert(forall|j: int| 0 <= j < rest2.len() ==> rest2[j] == rest[j + 1]);
        }
        assert(rest2[i - 1] == rest[i]);
        assert(mismatched_with(acc2, rest2[i - 1]));
        lemma_fold_books_mixed(acc2, rest2);
    }
}

/// A folder whose files disagree on the (name, author) pair fails with
/// `MixedFilesInFolder`, and no book is returned.
pub proof fn lemma_mixed_folder_fails(f: FolderSourceV)
    requires
        f.is_dir,
        folder_queue(f.entries).len() >= 2,
        forall|i: int|
            0 <= i < folder_queue(f.entries).len() ==> file_book_spec(
                #[trigger] folder_queue(f.entries)[i],
            ) is Ok,
        exists|i: int|
            0 <= i < folder_queue(f.entries).len() && mismatched_with(
                built_book(folder_queue(f.entries)[0]),
                #[trigger] folder_queue(f.entries)[i],
            ),
    ensures
        folder_book_spec(f) == Err::<(BookV, CoverActionV), _>(BookError::MixedFilesInFolder),
{
    let q = folder_queue(f.entries);
    let b0 = built_book(q[0]);
    let i = choose|i: int| 0 <= i < q.len() && mismatched_with(b0, #[trigger] q[i]);
    assert(i >= 1);
    let rest = q.drop_first();
    assert(forall|j: int| 0 <= j < rest.len() ==> file_book_spec(#[trigger] rest[j]) is Ok) by {
        assert(forall|j: int| 0 <= j < rest.len() ==> rest[j] == q[j + 1]);
    }
    assert(rest[i - 1] == q[i]);
    assert(mismatched_with(b0, rest[i - 1]));
    lemma_fold_books_mixed(b0, rest);
}

/// A listing none of whose entries qualifies has an empty queue.
proof fn lemma_qualifying_empty(entries: Seq<FileSourceV>)
    requires
        forall|i: int| 0 <= i < entries.len() ==> !qualifies(#[trigger] entries[i]),
    ensures
        qualifying(entries) == Seq::<FileSourceV>::empty(),
    decreases entries.len(),
{
    if entries.len() == 0 {
        assert(qualifying(entries) =~= Seq::<FileSourceV>::empty());
    } else {
        let rest = entries.drop_first();
        assert(forall|j: int| 0 <= j < rest.len() ==> rest[j] == entries[j + 1]);
        lemma_qualifying_empty(rest);
    }
}

/// A directory with no qualifying file fails with `EmptyFolder`, however
/// many other entries it holds, and no book is returned.
pub proof fn lemma_folder_without_chapter_files_fails(f: FolderSourceV)
    requires
        f.is_dir,
        forall|i: int| 0 <= i < f.entries.len() ==> !qualifies(#[trigger] f.entries[i]),
    ensures
        folder_book_spec(f) == Err::<(BookV, CoverActionV), _>(BookError::EmptyFolder),
{
    lemma_qualifying_empty(f.entries);
    assert(sort_by_path(Seq::<FileSourceV>::empty()) == Seq::<FileSourceV>::empty());
}

} // verus!

