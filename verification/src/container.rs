//! The library's model of a chaptered container file.
//!
//! A container is a list of tracks; each track either classifies as a known
//! media type (ordinary audio or video) or does not.  The one track whose
//! classification fails is, by construction of the format, the auxiliary
//! chapter track: its samples carry the chapter titles and durations.  The
//! caller reads the concrete container format and hands the decoder this
//! plain shape.

use crate::book::ChapterBuilder;
use crate::book::ChapterBuilderV;
use crate::error::BookError;
use crate::timespan::clamp_span;
use crate::timespan::TimeSpan;
use vstd::prelude::*;

verus! {

/// One sample of the chapter track, as read from the container: its payload
/// bytes, its explicit duration in milliseconds, and the offset of its start
/// from the beginning of the file.
#[derive(Debug)]
pub struct Sample {
    pub bytes: Vec<u8>,
    pub duration_ms: u32,
    pub start_time_ms: u64,
}

pub struct SampleV {
    pub bytes: Seq<u8>,
    pub duration_ms: int,
    pub start_time_ms: int,
}

impl View for Sample {
    type V = SampleV;

    open spec fn view(&self) -> SampleV {
        SampleV {
            bytes: self.bytes@,
            duration_ms: self.duration_ms as int,
            start_time_ms: self.start_time_ms as int,
        }
    }
}

impl DeepView for Sample {
    type V = SampleV;

    open spec fn deep_view(&self) -> SampleV {
        self.view()
    }
}

/// One track of the container.  `media_type_ok` records whether the track's
/// media-type classification succeeded; `samples` holds, for each sample of
/// the track in order, what reading it produced (`None` when the read
/// failed).
#[derive(Debug)]
pub struct Track {
    pub media_type_ok: bool,
    pub samples: Vec<Option<Sample>>,
}

pub struct TrackV {
    pub media_type_ok: bool,
    pub samples: Seq<Option<SampleV>>,
}

impl View for Track {
    type V = TrackV;

    open spec fn view(&self) -> TrackV {
        TrackV { media_type_ok: self.media_type_ok, samples: self.samples.deep_view() }
    }
}

impl DeepView for Track {
    type V = TrackV;

    open spec fn deep_view(&self) -> TrackV {
        self.view()
    }
}

/// What probing a file as a chaptered container produced: either the
/// container structure could not be read at all, or a list of tracks.
#[derive(Debug)]
pub enum ContainerScan {
    Unreadable,
    Tracks(Vec<Track>),
}

pub enum ContainerScanV {
    Unreadable,
    Tracks(Seq<TrackV>),
}

impl View for ContainerScan {
    type V = ContainerScanV;

    open spec fn view(&self) -> ContainerScanV {
        match self {
            ContainerScan::Unreadable => ContainerScanV::Unreadable,
            ContainerScan::Tracks(ts) => ContainerScanV::Tracks(ts.deep_view()),
        }
    }
}

impl DeepView for ContainerScan {
    type V = ContainerScanV;

    open spec fn deep_view(&self) -> ContainerScanV {
        self.view()
    }
}

/// The characters that a byte sequence decodes to under UTF-8, when it is
/// valid UTF-8.
pub uninterp spec fn utf8_chars(bytes: Seq<u8>) -> Option<Seq<char>>;

/// Relies on `str::from_utf8`: it accepts exactly the valid UTF-8 byte
/// sequences and decodes them to the characters they encode, a function of
/// the bytes alone; the empty sequence decodes to the empty string.
#[verifier::external_body]
fn decode_utf8(bytes: &[u8]) -> (r: Option<String>)
    ensures
        r.deep_view() == utf8_chars(bytes@) && (bytes@.len() == 0 ==> r.deep_view() == Some(
            Seq::<char>::empty(),
        )),
{
    match std::str::from_utf8(bytes) {
        Ok(s) => Some(s.to_owned()),
        Err(_) => None,
    }
}

/// The first track whose media-type classification fails, by position.
pub open spec fn chapter_track_index(tracks: Seq<TrackV>) -> Option<int>
    decreases tracks.len(),
{
    if tracks.len() == 0 {
        None
    } else if !tracks[0].media_type_ok {
        Some(0)
    } else {
        match chapter_track_index(tracks.drop_first()) {
            Some(i) => Some(i + 1),
            None => None,
        }
    }
}

/// Select the chapter track: the one track that does not classify as a
/// known media type.
pub fn select_chapter_track(tracks: &Vec<Track>) -> (r: Option<usize>)
    ensures
        match r {
            Some(i) => chapter_track_index(tracks.deep_view()) == Some(i as int) && i
                < tracks.len(),
            None => chapter_track_index(tracks.deep_view()) is None,
        },
{
    let ghost ts = tracks.deep_view();
    let n: usize = tracks.len();
    let mut i: usize = 0;
    proof {
        assert(ts.skip(0) =~= ts);
    }
    loop
        invariant
            0 <= i <= n,
            n == tracks.len(),
            ts == tracks.deep_view(),
            match chapter_track_index(ts.skip(i as int)) {
                Some(j) => chapter_track_index(ts) == Some(j + i),
                None => chapter_track_index(ts) is None,
            },
        decreases n - i,
    {
        if i == n {
            return None;
        }
        proof {
            assert(ts.skip(i as int)[0] == ts[i as int]);
            assert(ts[i as int] == tracks@[i as int].deep_view());
            assert(ts.skip(i as int).drop_first() =~= ts.skip(i + 1));
        }
        if !tracks[i].media_type_ok {
            return Some(i);
        }
        i = i + 1;
    }
}

/// The title carried by one sample payload: a non-empty payload is stripped
/// of its fixed envelope — the first 2 and the last 12 bytes — and decoded
/// as UTF-8.  An empty payload, one too short to hold the envelope, and one
/// whose remainder is not UTF-8 all yield no title.
pub open spec fn sample_title(bytes: Seq<u8>) -> Option<Seq<char>> {
    if bytes.len() < 14 {
        None
    } else {
        utf8_chars(bytes.subrange(2, bytes.len() - 12))
    }
}

/// The duration of one sample, in microseconds: its explicit duration when
/// that is non-zero, and otherwise the container-reported total duration
/// minus the sample's start-time offset.
pub open spec fn sample_duration_micros(s: SampleV, total_micros: int) -> int {
    if s.duration_ms == 0 {
        let start = clamp_span(s.start_time_ms * 1000);
        if total_micros >= start {
            total_micros - start
        } else {
            0
        }
    } else {
        clamp_span(s.duration_ms * 1000)
    }
}

/// What one readable sample decodes to.
pub open spec fn decode_sample(s: SampleV, total_micros: int) -> ChapterBuilderV {
    ChapterBuilderV {
        title: sample_title(s.bytes),
        micros: sample_duration_micros(s, total_micros),
    }
}

/// What a whole sample list decodes to: one builder per sample, or nothing
/// when any sample was unreadable.
pub open spec fn decode_samples(samples: Seq<Option<SampleV>>, total_micros: int) -> Option<
    Seq<ChapterBuilderV>,
>
    decreases samples.len(),
{
    if samples.len() == 0 {
        Some(Seq::empty())
    } else {
        match samples[0] {
            None => None,
            Some(s) => match decode_samples(samples.drop_first(), total_micros) {
                None => None,
                Some(rest) => Some(seq![decode_sample(s, total_micros)] + rest),
            },
        }
    }
}

/// Decode every sample of the chapter track into a chapter builder.
/// `total` is the container-reported total duration, used for samples whose
/// explicit duration is zero.
pub fn decode_chapter_samples(samples: &Vec<Option<Sample>>, total: TimeSpan) -> (r: Result<
    Vec<ChapterBuilder>,
    BookError,
>)
    ensures
        match r {
            Ok(bs) => decode_samples(samples.deep_view(), total.micros as int) == Some(
                bs.deep_view(),
            ),
            Err(e) => decode_samples(samples.deep_view(), total.micros as int) is None && e
                == BookError::ContainerFormat,
        },
{
    let ghost ss = samples.deep_view();
    let ghost t = total.micros as int;
    let n: usize = samples.len();
    let mut out: Vec<ChapterBuilder> = Vec::new();
    let mut i: usize = 0;
    proof {
        assert(ss.skip(0) =~= ss);
        assert(out.deep_view() =~= Seq::<ChapterBuilderV>::empty());
    }
    while i < n
        invariant
            0 <= i <= n,
            n == samples.len(),
            ss == samples.deep_view(),
            t == total.micros as int,
            out.deep_view().len() == i as int,
            match decode_samples(ss.skip(i as int), t) {
                None => decode_samples(ss, t) is None,
                Some(rest) => decode_samples(ss, t) == Some(out.deep_view() + rest),
            },
        decreases n - i,
    {
        proof {
            assert(ss.skip(i as int)[0] == ss[i as int]);
            assert(ss[i as int] == samples@[i as int].deep_view());
            assert(ss.skip(i as int).drop_first() =~= ss.skip(i + 1));
        }
        let builder: ChapterBuilder = match &samples[i] {
            None => {
                return Err(BookError::ContainerFormat);
            },
            Some(sample) => {
                let len: usize = sample.bytes.len();
                let title: Option<String> = if len < 14 {
                    None
                } else {
                    decode_utf8(&sample.bytes.as_slice()[2..len - 12])
                };
                let duration: TimeSpan = if sample.duration_ms == 0 {
                    total.sub(TimeSpan::from_millis(sample.start_time_ms))
                } else {
                    TimeSpan::from_millis(sample.duration_ms as u64)
                };
                proof {
                    assert(samples@[i as int] matches Some(smp) && smp@ == ss[
                        i as int
                    ]->Some_0);
                }
                ChapterBuilder { title, duration }
            },
        };
        proof {
            assert(builder@ == decode_sample(ss[i as int]->Some_0, t));
        }
        let ghost b_g = builder;
        let ghost out_pre = out;
        out.push(builder);
        proof {
            crate::book::lemma_deep_view_push(out_pre, out, b_g);
            let rest_next = decode_samples(ss.skip(i + 1), t);
            if rest_next is Some {
                assert(out.deep_view() + rest_next->Some_0 =~= out_pre.deep_view() + (seq![
                    decode_sample(ss[i as int]->Some_0, t)
                ] + rest_next->Some_0));
            }
        }
        i = i + 1;
    }
    proof {
        assert(ss.skip(n as int) =~= Seq::<Option<SampleV>>::empty());
        assert(decode_samples(ss, t) == Some(out.deep_view() + Seq::<ChapterBuilderV>::empty()));
        assert(out.deep_view() + Seq::<ChapterBuilderV>::empty() =~= out.deep_view());
    }
    Ok(out)
}

} // verus!
