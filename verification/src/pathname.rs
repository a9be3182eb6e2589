//! Path strings, viewed as sequences of characters.
//!
//! The library manipulates file paths as plain strings with `/` as the
//! directory separator: enough to split a path into its directory prefix and
//! file name, read a file name's extension, and order paths
//! lexicographically.  No file system is consulted here.

use vstd::prelude::*;

verus! {

/// Case-insensitive equality of two ASCII characters (exact equality for
/// anything outside the ASCII letters).
pub open spec fn ascii_eq_ci(a: char, b: char) -> bool {
    a == b || (('A' as u32) <= (a as u32) <= ('Z' as u32) && (b as u32) == (a as u32) + 32) || ((
    'a' as u32) <= (a as u32) <= ('z' as u32) && ((b as u32) + 32) == (a as u32))
}

/// Case-insensitive equality of two character sequences.
pub open spec fn seq_eq_ci(a: Seq<char>, b: Seq<char>) -> bool {
    a.len() == b.len() && (forall|i: int| 0 <= i < a.len() ==> ascii_eq_ci(a[i], b[i]))
}

/// Strict lexicographic order by Unicode code point; a proper prefix sorts
/// before its extensions.
pub open spec fn lex_lt(a: Seq<char>, b: Seq<char>) -> bool
    decreases a.len(),
{
    if b.len() == 0 {
        false
    } else if a.len() == 0 {
        true
    } else if a[0] != b[0] {
        (a[0] as u32) < (b[0] as u32)
    } else {
        lex_lt(a.drop_first(), b.drop_first())
    }
}

/// The directory part of a path, up to and including the last `/`; empty
/// when the path holds no `/`.
pub open spec fn dir_prefix(s: Seq<char>) -> Seq<char>
    decreases s.len(),
{
    if s.len() == 0 {
        s
    } else if s.last() == '/' {
        s
    } else {
        dir_prefix(s.drop_last())
    }
}

/// The file-name part of a path: everything after the last `/`.
pub open spec fn file_name(s: Seq<char>) -> Seq<char> {
    s.skip(dir_prefix(s).len() as int)
}

/// Whether a path names something that can have a parent directory: it must
/// hold at least one character besides `/`.
pub open spec fn has_parent(s: Seq<char>) -> bool {
    exists|i: int| 0 <= i < s.len() && s[i] != '/'
}

/// The extension of a file name: the text after its last `.`, provided that
/// dot is not the file name's first character.
pub open spec fn ext_of_name(name: Seq<char>) -> Option<Seq<char>>
    decreases name.len(),
{
    if name.len() < 2 {
        None
    } else if name.last() == '.' {
        Some(Seq::empty())
    } else {
        match ext_of_name(name.drop_last()) {
            None => None,
            Some(e) => Some(e.push(name.last())),
        }
    }
}

/// The extension of a path's file name.
pub open spec fn extension(s: Seq<char>) -> Option<Seq<char>> {
    ext_of_name(file_name(s))
}

/// Whether a path carries the single-chapter format's extension,
/// case-insensitively.
pub open spec fn is_mp3_path(s: Seq<char>) -> bool {
    match extension(s) {
        Some(e) => seq_eq_ci(e, "mp3"@),
        None => false,
    }
}

/// `dir_prefix` is a prefix of the path it was taken from.
pub proof fn lemma_dir_prefix_is_prefix(s: Seq<char>)
    ensures
        dir_prefix(s).len() <= s.len(),
        dir_prefix(s) == s.take(dir_prefix(s).len() as int),
    decreases s.len(),
{
    if s.len() == 0 {
        assert(dir_prefix(s) =~= s.take(dir_prefix(s).len() as int));
    } else if s.last() == '/' {
        assert(dir_prefix(s) =~= s.take(dir_prefix(s).len() as int));
    } else {
        lemma_dir_prefix_is_prefix(s.drop_last());
        assert(dir_prefix(s) == dir_prefix(s.drop_last()));
        assert(s.drop_last().take(dir_prefix(s).len() as int) =~= s.take(
            dir_prefix(s).len() as int,
        ));
    }
}

/// Where the last `/` of a path sits, the directory prefix ends just after it.
pub proof fn lemma_dir_prefix_at(s: Seq<char>, j: int)
    requires
        0 <= j < s.len(),
        s[j] == '/',
        forall|k: int| j < k < s.len() ==> s[k] != '/',
    ensures
        dir_prefix(s) == s.take(j + 1),
    decreases s.len(),
{
    if j == s.len() - 1 {
        assert(s.take(j + 1) =~= s);
    } else {
        assert(s.last() != '/');
        lemma_dir_prefix_at(s.drop_last(), j);
        assert(s.drop_last().take(j + 1) =~= s.take(j + 1));
    }
}

/// A path without `/` has an empty directory prefix.
pub proof fn lemma_dir_prefix_no_slash(s: Seq<char>)
    requires
        forall|k: int| 0 <= k < s.len() ==> s[k] != '/',
    ensures
        dir_prefix(s) == Seq::<char>::empty(),
    decreases s.len(),
{
    if s.len() == 0 {
        assert(dir_prefix(s) =~= Seq::<char>::empty());
    } else {
        lemma_dir_prefix_no_slash(s.drop_last());
    }
}

/// Where the last `.` of a file name sits after its first character, the
/// extension is everything after that dot.
pub proof fn lemma_ext_of_name_at(name: Seq<char>, j: int)
    requires
        1 <= j < name.len(),
        name[j] == '.',
        forall|k: int| j < k < name.len() ==> name[k] != '.',
    ensures
        ext_of_name(name) == Some(name.skip(j + 1)),
    decreases name.len(),
{
    if j == name.len() - 1 {
        assert(name.skip(j + 1) =~= Seq::<char>::empty());
    } else {
        assert(name.last() != '.');
        lemma_ext_of_name_at(name.drop_last(), j);
        assert(name.drop_last().skip(j + 1).push(name.last()) =~= name.skip(j + 1));
    }
}

/// A file name whose only possible `.` is its first character has no
/// extension.
pub proof fn lemma_ext_of_name_none(name: Seq<char>)
    requires
        forall|k: int| 1 <= k < name.len() ==> name[k] != '.',
    ensures
        ext_of_name(name) is None,
    decreases name.len(),
{
    if name.len() < 2 {
    } else {
        lemma_ext_of_name_none(name.drop_last());
    }
}

/// Strict lexicographic comparison of two strings.
pub fn str_lex_lt(a: &str, b: &str) -> (r: bool)
    ensures
        r == lex_lt(a@, b@),
{
    let a_len: usize = a.unicode_len();
    let b_len: usize = b.unicode_len();
    let mut i: usize = 0;
    proof {
        assert(a@.skip(0) =~= a@);
        assert(b@.skip(0) =~= b@);
    }
    loop
        invariant
            0 <= i <= a_len,
            0 <= i <= b_len,
            a_len == a@.len(),
            b_len == b@.len(),
            lex_lt(a@, b@) == lex_lt(a@.skip(i as int), b@.skip(i as int)),
        decreases a_len - i,
    {
        proof {
            assert(a@.skip(i as int).len() == a_len - i);
            assert(b@.skip(i as int).len() == b_len - i);
        }
        if i >= b_len {
            return false;
        }
        if i >= a_len {
            return true;
        }
        let ca = a.get_char(i);
        let cb = b.get_char(i);
        proof {
            assert(a@.skip(i as int)[0] == a@[i as int]);
            assert(b@.skip(i as int)[0] == b@[i as int]);
        }
        if ca as u32 != cb as u32 {
            proof {
                assert(ca != cb) by {
                    if ca == cb {
                        assert(ca as u32 == cb as u32);
                    }
                }
            }
            return (ca as u32) < (cb as u32);
        }
        proof {
            assert(a@.skip(i as int).drop_first() =~= a@.skip(i + 1));
            assert(b@.skip(i as int).drop_first() =~= b@.skip(i + 1));
        }
        i = i + 1;
    }
}

/// The directory part of a path, up to and including its last `/`.
pub fn dir_prefix_of<'a>(s: &'a str) -> (r: &'a str)
    ensures
        r@ == dir_prefix(s@),
{
    let n: usize = s.unicode_len();
    let mut i: usize = n;
    loop
        invariant
            0 <= i <= n,
            n == s@.len(),
            forall|k: int| i <= k < n ==> s@[k] != '/',
        decreases i,
    {
        if i == 0 {
            proof {
                lemma_dir_prefix_no_slash(s@);
            }
            return s.substring_char(0, 0);
        }
        let c = s.get_char(i - 1);
        if c == '/' {
            proof {
                lemma_dir_prefix_at(s@, i - 1);
            }
            return s.substring_char(0, i);
        }
        i = i - 1;
    }
}

/// Whether the path holds any character besides `/`.
pub fn path_has_parent(s: &str) -> (r: bool)
    ensures
        r == has_parent(s@),
{
    let n: usize = s.unicode_len();
    let mut i: usize = 0;
    loop
        invariant
            0 <= i <= n,
            n == s@.len(),
            forall|k: int| 0 <= k < i ==> s@[k] == '/',
        decreases n - i,
    {
        if i == n {
            return false;
        }
        let c = s.get_char(i);
        if c != '/' {
            return true;
        }
        i = i + 1;
    }
}

/// Whether the path's file name carries the `mp3` extension, ignoring ASCII
/// case.
pub fn has_mp3_extension(s: &str) -> (r: bool)
    ensures
        r == is_mp3_path(s@),
{
    let n: usize = s.unicode_len();
    let mut i: usize = n;
    let mut last_dot: usize = n;  // `n` stands for "none seen"
    loop
        invariant
            0 <= i <= n,
            n == s@.len(),
            forall|k: int| i <= k < n ==> s@[k] != '/',
            last_dot == n || (i <= last_dot < n && s@[last_dot as int] == '.' && forall|k: int|
                last_dot < k < n ==> s@[k] != '.'),
            last_dot == n ==> forall|k: int| i <= k < n ==> s@[k] != '.',
        ensures
            0 <= i <= n,
            n == s@.len(),
            forall|k: int| i <= k < n ==> s@[k] != '/',
            i == 0 || s@[i - 1] == '/',
            last_dot == n || (i <= last_dot < n && s@[last_dot as int] == '.' && forall|k: int|
                last_dot < k < n ==> s@[k] != '.'),
            last_dot == n ==> forall|k: int| i <= k < n ==> s@[k] != '.',
        decreases i,
    {
        if i == 0 {
            break ;
        }
        let c = s.get_char(i - 1);
        if c == '/' {
            break ;
        }
        if c == '.' && last_dot == n {
            last_dot = i - 1;
        }
        i = i - 1;
    }
    // Here the file name starts at `i`: either `i == 0`, or `s[i - 1] == '/'`
    // with no later slash.
    proof {
        if i == 0 {
            lemma_dir_prefix_no_slash(s@);
            assert(file_name(s@) =~= s@);
        } else {
            lemma_dir_prefix_at(s@, i - 1);
            lemma_dir_prefix_is_prefix(s@);
            assert(file_name(s@) =~= s@.skip(i as int));
        }
    }
    if last_dot == n || last_dot < i + 1 {
        // No dot in the file name past its first character.
        proof {
            let name = file_name(s@);
            assert(forall|k: int| 1 <= k < name.len() ==> name[k] != '.');
            lemma_ext_of_name_none(name);
        }
        return false;
    }
    proof {
        let name = file_name(s@);
        let j: int = last_dot - i;
        assert(name[j] == s@[last_dot as int]);
        assert(forall|k: int| j < k < name.len() ==> name[k] != '.');
        lemma_ext_of_name_at(name, j);
        assert(name.skip(j + 1) =~= s@.skip(last_dot + 1));
    }
    // The extension spans [last_dot + 1, n).
    if n - (last_dot + 1) != 3 {
        proof {
            reveal_strlit("mp3");
        }
        return false;
    }
    let c1 = s.get_char(last_dot + 1);
    let c2 = s.get_char(last_dot + 2);
    let c3 = s.get_char(last_dot + 3);
    let r = (c1 == 'm' || c1 == 'M') && (c2 == 'p' || c2 == 'P') && (c3 == '3');
    proof {
        reveal_strlit("mp3");
        let e = s@.skip(last_dot + 1);
        assert(e.len() == 3);
        assert(e[0] == c1 && e[1] == c2 && e[2] == c3);
        assert(seq_eq_ci(e, "mp3"@) == (ascii_eq_ci(e[0], 'm') && ascii_eq_ci(e[1], 'p')
            && ascii_eq_ci(e[2], '3'))) by {
            if ascii_eq_ci(e[0], 'm') && ascii_eq_ci(e[1], 'p') && ascii_eq_ci(e[2], '3') {
                assert(forall|k: int| 0 <= k < 3 ==> ascii_eq_ci(e[k], "mp3"@[k]));
            }
        }
    }
    r
}

} // verus!
