//! The library's model of a file's metadata tag.
//!
//! A tag is an ordered list of (key, value) text fields plus the embedded
//! pictures.  The caller reads the concrete tag format and hands the decoder
//! this plain shape; everything the decoder does with it — the fallback
//! chains for titles and authors, and the cover-picture choice — is verified
//! here.

use vstd::prelude::*;

verus! {

/// The metadata fields the decoders may consult.
#[derive(Clone, Copy, Debug, PartialEq, Eq, Structural)]
pub enum TagKey {
    AlbumTitle,
    AlbumTitleSortOrder,
    OriginalAlbumTitle,
    TrackTitle,
    TrackTitleSortOrder,
    TrackSubtitle,
    AlbumArtist,
    AlbumArtistSortOrder,
    OriginalArtist,
    TrackArtist,
    TrackArtistSortOrder,
}

/// How an embedded picture is labelled.
#[derive(Clone, Copy, Debug, PartialEq, Eq, Structural)]
pub enum PictureKind {
    CoverFront,
    Other,
    Icon,
    Illustration,
    Unrecognized,
}

/// One text field of a tag.
#[derive(Debug)]
pub struct TagEntry {
    pub key: TagKey,
    pub value: String,
}

pub struct TagEntryV {
    pub key: TagKey,
    pub value: Seq<char>,
}

impl View for TagEntry {
    type V = TagEntryV;

    open spec fn view(&self) -> TagEntryV {
        TagEntryV { key: self.key, value: self.value@ }
    }
}

impl DeepView for TagEntry {
    type V = TagEntryV;

    open spec fn deep_view(&self) -> TagEntryV {
        self.view()
    }
}

/// One picture embedded in a tag.
#[derive(Debug)]
pub struct Picture {
    pub kind: PictureKind,
    pub data: Vec<u8>,
}

pub struct PictureV {
    pub kind: PictureKind,
    pub data: Seq<u8>,
}

impl View for Picture {
    type V = PictureV;

    open spec fn view(&self) -> PictureV {
        PictureV { kind: self.kind, data: self.data@ }
    }
}

impl DeepView for Picture {
    type V = PictureV;

    open spec fn deep_view(&self) -> PictureV {
        self.view()
    }
}

/// A primary metadata tag: ordered fields and embedded pictures.
#[derive(Debug)]
pub struct Tag {
    pub entries: Vec<TagEntry>,
    pub pictures: Vec<Picture>,
}

pub struct TagV {
    pub entries: Seq<TagEntryV>,
    pub pictures: Seq<PictureV>,
}

impl View for Tag {
    type V = TagV;

    open spec fn view(&self) -> TagV {
        TagV { entries: self.entries.deep_view(), pictures: self.pictures.deep_view() }
    }
}

impl DeepView for Tag {
    type V = TagV;

    open spec fn deep_view(&self) -> TagV {
        self.view()
    }
}

/// The value of the first field carrying `key`, if any.
pub open spec fn tag_value(entries: Seq<TagEntryV>, key: TagKey) -> Option<Seq<char>>
    decreases entries.len(),
{
    if entries.len() == 0 {
        None
    } else if entries[0].key == key {
        Some(entries[0].value)
    } else {
        tag_value(entries.drop_first(), key)
    }
}

/// The first candidate key that is present with a non-empty value decides;
/// otherwise the default does.
pub open spec fn resolve_spec(entries: Seq<TagEntryV>, keys: Seq<TagKey>, default: Seq<char>) -> Seq<
    char,
>
    decreases keys.len(),
{
    if keys.len() == 0 {
        default
    } else {
        match tag_value(entries, keys[0]) {
            Some(v) => if v.len() > 0 {
                v
            } else {
                resolve_spec(entries, keys.drop_first(), default)
            },
            None => resolve_spec(entries, keys.drop_first(), default),
        }
    }
}

/// The candidate keys for a chapter title, in priority order.
pub open spec fn title_keys() -> Seq<TagKey> {
    seq![TagKey::TrackTitle, TagKey::TrackTitleSortOrder, TagKey::TrackSubtitle]
}

/// The candidate keys for an author, in priority order.
pub open spec fn author_keys() -> Seq<TagKey> {
    seq![
        TagKey::AlbumArtist,
        TagKey::AlbumArtistSortOrder,
        TagKey::OriginalArtist,
        TagKey::TrackArtist,
        TagKey::TrackArtistSortOrder,
    ]
}

/// The candidate keys for a book name, in priority order.
pub open spec fn book_name_keys() -> Seq<TagKey> {
    seq![
        TagKey::AlbumTitle,
        TagKey::AlbumTitleSortOrder,
        TagKey::OriginalAlbumTitle,
        TagKey::TrackTitle,
        TagKey::TrackTitleSortOrder,
        TagKey::TrackSubtitle,
    ]
}

pub open spec fn chapter_title_of(t: TagV) -> Seq<char> {
    resolve_spec(t.entries, title_keys(), "Unnamed Chapter"@)
}

pub open spec fn author_of(t: TagV) -> Seq<char> {
    resolve_spec(t.entries, author_keys(), "Uncredited Author"@)
}

pub open spec fn book_name_of(t: TagV) -> Seq<char> {
    resolve_spec(t.entries, book_name_keys(), "Untitled Book"@)
}

impl Tag {
    /// Look up the first field carrying `key`.
    pub fn get(&self, key: TagKey) -> (r: Option<&String>)
        ensures
            match r {
                Some(v) => tag_value(self@.entries, key) == Some(v@),
                None => tag_value(self@.entries, key) is None,
            },
    {
        let n: usize = self.entries.len();
        let mut i: usize = 0;
        proof {
            assert(self@.entries.skip(0) =~= self@.entries);
        }
        loop
            invariant
                0 <= i <= n,
                n == self.entries.len(),
                tag_value(self@.entries, key) == tag_value(
                    self@.entries.skip(i as int),
                    key,
                ),
            decreases n - i,
        {
            proof {
                assert(self@.entries.len() == n);
            }
            if i == n {
                return None;
            }
            proof {
                assert(self@.entries.skip(i as int)[0] == self@.entries[i as int]);
                assert(self@.entries.skip(i as int).drop_first() =~= self@.entries.skip(i + 1));
            }
            if self.entries[i].key == key {
                return Some(&self.entries[i].value);
            }
            i = i + 1;
        }
    }
}

/// Scan `candidate_keys` in priority order and return the first present,
/// non-empty value, or `default` when none matches.
pub fn resolve_field(tag: &Tag, candidate_keys: &Vec<TagKey>, default: &str) -> (r: String)
    ensures
        r@ == resolve_spec(tag@.entries, candidate_keys@, default@),
{
    let n: usize = candidate_keys.len();
    let mut i: usize = 0;
    proof {
        assert(candidate_keys@.skip(0) =~= candidate_keys@);
    }
    loop
        invariant
            0 <= i <= n,
            n == candidate_keys@.len(),
            resolve_spec(tag@.entries, candidate_keys@, default@) == resolve_spec(
                tag@.entries,
                candidate_keys@.skip(i as int),
                default@,
            ),
        decreases n - i,
    {
        if i == n {
            return String::from_str(default);
        }
        proof {
            assert(candidate_keys@.skip(i as int)[0] == candidate_keys@[i as int]);
            assert(candidate_keys@.skip(i as int).drop_first() =~= candidate_keys@.skip(i + 1));
        }
        match tag.get(candidate_keys[i]) {
            Some(v) => {
                if v.as_str().unicode_len() > 0 {
                    return v.clone();
                }
            },
            None => {},
        }
        i = i + 1;
    }
}

fn title_key_vec() -> (r: Vec<TagKey>)
    ensures
        r@ == title_keys(),
{
    let mut keys: Vec<TagKey> = Vec::new();
    keys.push(TagKey::TrackTitle);
    keys.push(TagKey::TrackTitleSortOrder);
    keys.push(TagKey::TrackSubtitle);
    proof {
        assert(keys@ =~= title_keys());
    }
    keys
}

fn author_key_vec() -> (r: Vec<TagKey>)
    ensures
        r@ == author_keys(),
{
    let mut keys: Vec<TagKey> = Vec::new();
    keys.push(TagKey::AlbumArtist);
    keys.push(TagKey::AlbumArtistSortOrder);
    keys.push(TagKey::OriginalArtist);
    keys.push(TagKey::TrackArtist);
    keys.push(TagKey::TrackArtistSortOrder);
    proof {
        assert(keys@ =~= author_keys());
    }
    keys
}

fn book_name_key_vec() -> (r: Vec<TagKey>)
    ensures
        r@ == book_name_keys(),
{
    let mut keys: Vec<TagKey> = Vec::new();
    keys.push(TagKey::AlbumTitle);
    keys.push(TagKey::AlbumTitleSortOrder);
    keys.push(TagKey::OriginalAlbumTitle);
    keys.push(TagKey::TrackTitle);
    keys.push(TagKey::TrackTitleSortOrder);
    keys.push(TagKey::TrackSubtitle);
    proof {
        assert(keys@ =~= book_name_keys());
    }
    keys
}

/// The chapter title recorded in a tag, or "Unnamed Chapter".
pub fn get_chapter_title(tag: &Tag) -> (r: String)
    ensures
        r@ == chapter_title_of(tag@),
{
    let keys = title_key_vec();
    resolve_field(tag, &keys, "Unnamed Chapter")
}

/// The author recorded in a tag, or "Uncredited Author".
pub fn get_author(tag: &Tag) -> (r: String)
    ensures
        r@ == author_of(tag@),
{
    let keys = author_key_vec();
    resolve_field(tag, &keys, "Uncredited Author")
}

/// The book name recorded in a tag, or "Untitled Book".
pub fn get_book_name(tag: &Tag) -> (r: String)
    ensures
        r@ == book_name_of(tag@),
{
    let keys = book_name_key_vec();
    resolve_field(tag, &keys, "Untitled Book")
}

/// The first picture labelled `kind`, by position.
pub open spec fn pic_of_kind(pics: Seq<PictureV>, kind: PictureKind) -> Option<int>
    decreases pics.len(),
{
    if pics.len() == 0 {
        None
    } else if pics[0].kind == kind {
        Some(0)
    } else {
        match pic_of_kind(pics.drop_first(), kind) {
            Some(i) => Some(i + 1),
            None => None,
        }
    }
}

/// Which embedded picture serves as the cover: the first front cover, then
/// the first of each weaker label, then any picture at all.
pub open spec fn cover_picture_index(t: TagV) -> Option<int> {
    match pic_of_kind(t.pictures, PictureKind::CoverFront) {
        Some(i) => Some(i),
        None => match pic_of_kind(t.pictures, PictureKind::Other) {
            Some(i) => Some(i),
            None => match pic_of_kind(t.pictures, PictureKind::Icon) {
                Some(i) => Some(i),
                None => match pic_of_kind(t.pictures, PictureKind::Illustration) {
                    Some(i) => Some(i),
                    None => if t.pictures.len() > 0 {
                        Some(0)
                    } else {
                        None
                    },
                },
            },
        },
    }
}

/// Find the first picture labelled `kind`.
fn find_picture(tag: &Tag, kind: PictureKind) -> (r: Option<usize>)
    ensures
        match r {
            Some(i) => pic_of_kind(tag@.pictures, kind) == Some(i as int) && i
                < tag.pictures.len(),
            None => pic_of_kind(tag@.pictures, kind) is None,
        },
{
    let n: usize = tag.pictures.len();
    let mut i: usize = 0;
    proof {
        assert(tag@.pictures.skip(0) =~= tag@.pictures);
    }
    loop
        invariant
            0 <= i <= n,
            n == tag.pictures.len(),
            n == tag@.pictures.len(),
            match pic_of_kind(tag@.pictures.skip(i as int), kind) {
                Some(j) => pic_of_kind(tag@.pictures, kind) == Some(j + i),
                None => pic_of_kind(tag@.pictures, kind) is None,
            },
        decreases n - i,
    {
        if i == n {
            return None;
        }
        proof {
            assert(tag@.pictures.skip(i as int)[0] == tag@.pictures[i as int]);
            assert(tag@.pictures.skip(i as int).drop_first() =~= tag@.pictures.skip(i + 1));
        }
        if tag.pictures[i].kind == kind {
            return Some(i);
        }
        i = i + 1;
    }
}

/// The index of the picture that serves as the cover, if any.
pub fn select_cover_picture(tag: &Tag) -> (r: Option<usize>)
    ensures
        match r {
            Some(i) => cover_picture_index(tag@) == Some(i as int) && i < tag.pictures.len(),
            None => cover_picture_index(tag@) is None,
        },
{
    match find_picture(tag, PictureKind::CoverFront) {
        Some(i) => Some(i),
        None => match find_picture(tag, PictureKind::Other) {
            Some(i) => Some(i),
            None => match find_picture(tag, PictureKind::Icon) {
                Some(i) => Some(i),
                None => match find_picture(tag, PictureKind::Illustration) {
                    Some(i) => Some(i),
                    None => if tag.pictures.len() > 0 {
                        Some(0)
                    } else {
                        None
                    },
                },
            },
        },
    }
}

/// A value recorded under a low-priority author key still wins over the
/// default: when every stronger author key is absent and some candidate key
/// holds a non-empty value, author resolution returns that value, never
/// "Uncredited Author".
pub proof fn lemma_author_fallback_field(t: TagV, v: Seq<char>)
    requires
        tag_value(t.entries, TagKey::AlbumArtist) is None,
        tag_value(t.entries, TagKey::AlbumArtistSortOrder) is None,
        tag_value(t.entries, TagKey::OriginalArtist) is None,
        tag_value(t.entries, TagKey::TrackArtist) == Some(v),
        v.len() > 0,
    ensures
        author_of(t) == v,
{
    let d = "Uncredited Author"@;
    let keys = author_keys();
    let k1 = keys.drop_first();
    let k2 = k1.drop_first();
    let k3 = k2.drop_first();
    assert(keys[0] == TagKey::AlbumArtist && k1[0] == TagKey::AlbumArtistSortOrder && k2[0]
        == TagKey::OriginalArtist && k3[0] == TagKey::TrackArtist);
    assert(resolve_spec(t.entries, keys, d) == resolve_spec(t.entries, k1, d));
    assert(resolve_spec(t.entries, k1, d) == resolve_spec(t.entries, k2, d));
    assert(resolve_spec(t.entries, k2, d) == resolve_spec(t.entries, k3, d));
    assert(resolve_spec(t.entries, k3, d) == v);
}

} // verus!
