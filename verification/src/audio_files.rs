use vstd::prelude::*;
use crate::effects::str_eq;
use crate::state::AudioBuffer;

verus! {

/// How the samples of a WAV file are stored.
#[derive(Clone, Copy, PartialEq, Eq, Structural, Debug)]
pub enum WavSampleKind {
    /// 32-bit floats, taken as they are.
    Float,
    /// 16-bit integers, scaled by `i16::MAX`.
    Int16,
    /// 24-bit integers, scaled by 2^23.
    Int24,
    /// 32-bit integers, scaled by `i32::MAX`.
    Int32,
}

/// How the samples of a WAV file are read: float samples as they are,
/// integer samples by their bit depth. Any other integer depth is refused,
/// and the error carries it.
pub open spec fn sample_kind(is_float: bool, bits_per_sample: u16) -> Result<WavSampleKind, u16> {
    if is_float {
        Ok(WavSampleKind::Float)
    } else if bits_per_sample == 16 {
        Ok(WavSampleKind::Int16)
    } else if bits_per_sample == 24 {
        Ok(WavSampleKind::Int24)
    } else if bits_per_sample == 32 {
        Ok(WavSampleKind::Int32)
    } else {
        Err(bits_per_sample)
    }
}

/// How the samples of a WAV file with this sample format and bit depth are
/// read (see `sample_kind`).
pub fn wav_sample_kind(is_float: bool, bits_per_sample: u16) -> (r: Result<WavSampleKind, u16>)
    ensures
        r == sample_kind(is_float, bits_per_sample),
{
    if is_float {
        Ok(WavSampleKind::Float)
    } else if bits_per_sample == 16 {
        Ok(WavSampleKind::Int16)
    } else if bits_per_sample == 24 {
        Ok(WavSampleKind::Int24)
    } else if bits_per_sample == 32 {
        Ok(WavSampleKind::Int32)
    } else {
        Err(bits_per_sample)
    }
}

/// The header fields of a WAV file that decide how it is read.
#[derive(Clone, Copy, PartialEq, Eq, Structural, Debug)]
pub struct WavHeader {
    pub is_float: bool,
    pub bits_per_sample: u16,
    pub channels: u16,
    pub sample_rate: u32,
}

/// What hound's `WavReader::new` makes of a WAV file: its header, or the text
/// of the error that refused it.
pub uninterp spec fn wav_header(bytes: Seq<u8>) -> Result<WavHeader, Seq<char>>;

/// Calls hound's `WavReader::new` on the bytes of a WAV file and reads the
/// header fields from `WavReader::spec`; a refused file gives the error's
/// text. Claimed: the outcome depends on the bytes alone and is named
/// `wav_header`; nothing more is claimed of it.
#[verifier::external_body]
fn parse_wav_header(bytes: &[u8]) -> (r: Result<WavHeader, String>)
    ensures
        match r {
            Ok(h) => wav_header(bytes@) == Ok::<WavHeader, Seq<char>>(h),
            Err(e) => wav_header(bytes@) == Err::<WavHeader, Seq<char>>(e@),
        },
{
    match hound::WavReader::new(bytes) {
        Ok(reader) => {
            let spec = reader.spec();
            let is_float = match spec.sample_format {
                hound::SampleFormat::Float => true,
                hound::SampleFormat::Int => false,
            };
            Ok(WavHeader { is_float, bits_per_sample: spec.bits_per_sample, channels: spec.channels, sample_rate: spec.sample_rate })
        },
        Err(e) => Err(e.to_string()),
    }
}

/// What hound reads as the integer samples of a WAV file (`WavReader::new`,
/// then every item of `samples::<i32>`): the interleaved samples, or the text
/// of the first error.
pub uninterp spec fn wav_int_samples(bytes: Seq<u8>) -> Result<Seq<i32>, Seq<char>>;

/// Calls hound's `WavReader::new` on the bytes of a WAV file and collects
/// `samples::<i32>`; an error gives its text. Claimed: the outcome depends on
/// the bytes alone and is named `wav_int_samples`; nothing more is claimed of
/// it.
#[verifier::external_body]
fn read_wav_ints(bytes: &[u8]) -> (r: Result<Vec<i32>, String>)
    ensures
        match r {
            Ok(v) => wav_int_samples(bytes@) == Ok::<Seq<i32>, Seq<char>>(v@),
            Err(e) => wav_int_samples(bytes@) == Err::<Seq<i32>, Seq<char>>(e@),
        },
{
    let mut reader = match hound::WavReader::new(bytes) {
        Ok(reader) => reader,
        Err(e) => return Err(e.to_string()),
    };
    match reader.samples::<i32>().collect::<Result<Vec<i32>, hound::Error>>() {
        Ok(v) => Ok(v),
        Err(e) => Err(e.to_string()),
    }
}

/// Why a WAV file is refused.
#[derive(Debug)]
pub enum WavError {
    /// The header could not be read; the text of hound's error.
    Header(String),
    /// Integer samples of a depth other than 16, 24 or 32 bits.
    BitDepth(u16),
    /// A sample could not be read; the text of hound's error.
    Samples(String),
}

/// How the samples of a WAV file are read, and their channel count and rate.
#[derive(Clone, Copy, PartialEq, Eq, Structural, Debug)]
pub struct WavLayout {
    pub kind: WavSampleKind,
    pub channels: u16,
    pub sample_rate: u32,
}

/// `r` is the layout that the header outcome `header` gives: a refused header
/// is refused with its text, an unsupported bit depth with the depth, and
/// otherwise the header's format, channel count and rate are kept.
pub open spec fn layout_follows(header: Result<WavHeader, Seq<char>>, r: Result<WavLayout, WavError>) -> bool {
    match header {
        Err(msg) => r matches Err(WavError::Header(m)) && m@ == msg,
        Ok(h) => match sample_kind(h.is_float, h.bits_per_sample) {
            Ok(k) => r == Ok::<WavLayout, WavError>(
                WavLayout { kind: k, channels: h.channels, sample_rate: h.sample_rate },
            ),
            Err(b) => r == Err::<WavLayout, WavError>(WavError::BitDepth(b)),
        },
    }
}

/// The header outcome with its error text taken as characters.
pub open spec fn header_view(header: Result<WavHeader, String>) -> Result<WavHeader, Seq<char>> {
    match header {
        Ok(h) => Ok(h),
        Err(e) => Err(e@),
    }
}

/// The layout of a WAV file from the outcome of reading its header.
pub fn wav_layout_of(header: Result<WavHeader, String>) -> (r: Result<WavLayout, WavError>)
    ensures
        layout_follows(header_view(header), r),
{
    match header {
        Err(msg) => Err(WavError::Header(msg)),
        Ok(h) => match wav_sample_kind(h.is_float, h.bits_per_sample) {
            Ok(kind) => Ok(WavLayout { kind, channels: h.channels, sample_rate: h.sample_rate }),
            Err(bits) => Err(WavError::BitDepth(bits)),
        },
    }
}

/// The layout of a WAV file from its bytes: its header is read by hound, then
/// judged by `wav_layout_of`.
pub fn wav_layout(bytes: &[u8]) -> (r: Result<WavLayout, WavError>)
    ensures
        layout_follows(wav_header(bytes@), r),
{
    wav_layout_of(parse_wav_header(bytes))
}

/// The integer samples of a WAV file, interleaved, as hound reads them; a
/// sample that cannot be read refuses the file with the error's text.
pub fn wav_integer_samples(bytes: &[u8]) -> (r: Result<Vec<i32>, WavError>)
    ensures
        match wav_int_samples(bytes@) {
            Ok(s) => r matches Ok(v) && v@ == s,
            Err(m) => r matches Err(WavError::Samples(e)) && e@ == m,
        },
{
    match read_wav_ints(bytes) {
        Ok(v) => Ok(v),
        Err(e) => Err(WavError::Samples(e)),
    }
}

/// minimp3's MP3 decoder, carried through as an opaque value.
#[verifier::external_type_specification]
#[verifier::external_body]
#[verifier::reject_recursive_types(R)]
pub struct ExMp3Decoder<R>(minimp3::Decoder<R>);

/// One decoded MP3 frame: its samples, channels interleaved, and its format.
#[derive(Debug)]
pub struct Mp3Frame {
    pub data: Vec<i16>,
    pub sample_rate: i32,
    pub channels: usize,
}

/// What the decoder gives when asked for the next frame.
pub enum Mp3Next {
    Frame(Mp3Frame),
    /// The input is used up.
    Eof,
    /// Decoding failed; the text of minimp3's error.
    Failed(String),
}

/// Makes a minimp3 `Decoder` that reads the bytes of an MP3 file.
#[verifier::external_body]
fn mp3_decoder(bytes: &[u8]) -> minimp3::Decoder<&[u8]> {
    minimp3::Decoder::new(bytes)
}

/// Calls minimp3's `Decoder::next_frame`: the next frame, the end of the
/// input, or another error by its text. What comes back depends on what the
/// decoder has read so far, and nothing is claimed of it.
#[verifier::external_body]
fn mp3_next_frame(decoder: &mut minimp3::Decoder<&[u8]>) -> (r: Mp3Next) {
    match decoder.next_frame() {
        Ok(f) => Mp3Next::Frame(Mp3Frame { data: f.data, sample_rate: f.sample_rate, channels: f.channels }),
        Err(minimp3::Error::Eof) => Mp3Next::Eof,
        Err(e) => Mp3Next::Failed(e.to_string()),
    }
}

/// The samples of the frames, one frame after another.
pub open spec fn frames_samples(frames: Seq<Mp3Frame>) -> Seq<i16>
    decreases frames.len(),
{
    if frames.len() == 0 {
        Seq::empty()
    } else {
        frames_samples(frames.drop_last()) + frames.last().data@
    }
}

/// Channel count and rate of a decoded file: taken from each frame, in order,
/// for as long as no channel count other than zero has been taken; `(0, 0)`
/// with no frame.
pub open spec fn frames_format(frames: Seq<Mp3Frame>) -> (u16, u32)
    decreases frames.len(),
{
    if frames.len() == 0 {
        (0, 0)
    } else {
        let before = frames_format(frames.drop_last());
        if before.0 == 0 {
            (frames.last().channels as u16, frames.last().sample_rate as u32)
        } else {
            before
        }
    }
}

/// `b` is the buffer that the frames decode to.
pub open spec fn is_mp3_buffer(b: AudioBuffer<i16>, frames: Seq<Mp3Frame>) -> bool {
    &&& b.samples@ == frames_samples(frames)
    &&& (b.channels, b.sample_rate) == frames_format(frames)
}

/// A first frame with channels gives the format of the whole file.
pub proof fn lemma_first_frame_format(frames: Seq<Mp3Frame>)
    requires
        frames.len() > 0,
        frames[0].channels as u16 != 0,
    ensures
        frames_format(frames) == (frames[0].channels as u16, frames[0].sample_rate as u32),
    decreases frames.len(),
{
    let before = frames.drop_last();
    if frames.len() > 1 {
        assert(before[0] == frames[0]);
        lemma_first_frame_format(before);
    } else {
        assert(frames_format(before) == (0u16, 0u32));
        assert(frames.last() == frames[0]);
    }
}

/// The buffer that decoded MP3 frames make: their samples in order, and the
/// format of the first frame with channels.
pub fn mp3_buffer(frames: &Vec<Mp3Frame>) -> (r: AudioBuffer<i16>)
    ensures
        is_mp3_buffer(r, frames@),
{
    let mut samples: Vec<i16> = Vec::new();
    let mut channels: u16 = 0;
    let mut sample_rate: u32 = 0;
    let mut i: usize = 0;
    while i < frames.len()
        invariant
            0 <= i <= frames.len(),
            samples@ == frames_samples(frames@.take(i as int)),
            (channels, sample_rate) == frames_format(frames@.take(i as int)),
        decreases frames.len() - i,
    {
        let frame = &frames[i];
        proof {
            assert(frames@.take(i + 1).drop_last() =~= frames@.take(i as int));
        }
        if channels == 0 {
            channels = frame.channels as u16;
            sample_rate = frame.sample_rate as u32;
        }
        let ghost before = samples@;
        let mut j: usize = 0;
        while j < frame.data.len()
            invariant
                0 <= j <= frame.data.len(),
                samples@ == before + frame.data@.take(j as int),
            decreases frame.data.len() - j,
        {
            samples.push(frame.data[j]);
            proof {
                assert(frame.data@.take(j + 1) =~= frame.data@.take(j as int).push(frame.data@[j as int]));
            }
            j = j + 1;
        }
        proof {
            assert(frame.data@.take(j as int) =~= frame.data@);
        }
        i = i + 1;
    }
    proof {
        assert(frames@.take(i as int) =~= frames@);
    }
    AudioBuffer { samples, channels, sample_rate }
}

/// How a read of an MP3 stream ended.
pub enum Mp3End {
    /// The decoder reached the end of the input.
    Eof,
    /// The decoder failed; the text of minimp3's error.
    Failed(String),
    /// The read stopped after one frame more than there are input bytes.
    Cut,
}

/// The frames read from an MP3 stream, in the order the decoder gave them,
/// and how the read ended.
pub struct Mp3Read {
    pub frames: Vec<Mp3Frame>,
    pub end: Mp3End,
}

/// Reads every frame of an MP3 file with minimp3, until the end of the input
/// or an error. Every decoded frame uses up input, so at most as many frames
/// as there are bytes precede the end; a read that goes on regardless is cut
/// after one frame more.
pub fn read_mp3(bytes: &[u8]) -> (r: Mp3Read)
    ensures
        r.end is Cut ==> r.frames@.len() == bytes@.len() + 1,
{
    let mut decoder = mp3_decoder(bytes);
    let mut frames: Vec<Mp3Frame> = Vec::new();
    let mut left: usize = bytes.len();
    loop
        invariant
            frames@.len() + left == bytes@.len(),
        decreases left,
    {
        match mp3_next_frame(&mut decoder) {
            Mp3Next::Frame(frame) => {
                frames.push(frame);
                if left == 0 {
                    return Mp3Read { frames, end: Mp3End::Cut };
                }
                left = left - 1;
            },
            Mp3Next::Eof => return Mp3Read { frames, end: Mp3End::Eof },
            Mp3Next::Failed(msg) => return Mp3Read { frames, end: Mp3End::Failed(msg) },
        }
    }
}

/// `r` is what a read of an MP3 file decodes to: the decoder's error if it
/// failed, and otherwise the buffer of every frame read, in order.
pub open spec fn decodes_to(read: Mp3Read, r: Result<AudioBuffer<i16>, String>) -> bool {
    match read.end {
        Mp3End::Failed(m) => r matches Err(e) && e@ == m@,
        _ => r matches Ok(b) && is_mp3_buffer(b, read.frames@),
    }
}

/// What a read of an MP3 file decodes to (see `decodes_to`).
pub fn mp3_outcome(read: Mp3Read) -> (r: Result<AudioBuffer<i16>, String>)
    ensures
        decodes_to(read, r),
{
    let Mp3Read { frames, end } = read;
    match end {
        Mp3End::Failed(msg) => Err(msg),
        _ => Ok(mp3_buffer(&frames)),
    }
}

/// Decodes an MP3 file from its bytes with minimp3: every frame up to the end
/// of the input, in order (see `read_mp3`); an error of the decoder refuses
/// the file with its text.
pub fn decode_mp3(bytes: &[u8]) -> (r: Result<AudioBuffer<i16>, String>)
    ensures
        r is Ok ==> exists|frames: Seq<Mp3Frame>| #[trigger] is_mp3_buffer(r->Ok_0, frames),
        exists|read: Mp3Read|
            (read.end is Cut ==> read.frames@.len() == bytes@.len() + 1) && #[trigger] decodes_to(read, r),
{
    let read = read_mp3(bytes);
    let ghost seen = read;
    let r = mp3_outcome(read);
    assert(decodes_to(seen, r));
    assert(r is Ok ==> is_mp3_buffer(r->Ok_0, seen.frames@));
    r
}

/// The samples of frames read one after another are the samples of the
/// first frames followed by those of the rest: no frame's samples are lost,
/// repeated or moved.
pub proof fn lemma_frames_samples_append(a: Seq<Mp3Frame>, b: Seq<Mp3Frame>)
    ensures
        frames_samples(a + b) == frames_samples(a) + frames_samples(b),
    decreases b.len(),
{
    if b.len() == 0 {
        assert(a + b =~= a);
        assert(frames_samples(a) + frames_samples(b) =~= frames_samples(a));
    } else {
        lemma_frames_samples_append(a, b.drop_last());
        assert((a + b).drop_last() =~= a + b.drop_last());
        assert((a + b).last() == b.last());
        assert(frames_samples(a + b) =~= frames_samples(a) + frames_samples(b));
    }
}

/// Each frame contributes exactly its own samples: the decoded samples are
/// as many as the frames' samples together, and frame `k`'s samples start
/// where those of the frames before it end.
pub proof fn lemma_frame_samples_in_place(fs: Seq<Mp3Frame>, k: int)
    requires
        0 <= k < fs.len(),
    ensures
        frames_samples(fs).subrange(
            frames_samples(fs.take(k)).len() as int,
            (frames_samples(fs.take(k)).len() + fs[k].data@.len()) as int,
        ) == fs[k].data@,
{
    lemma_frames_samples_append(fs.take(k), fs.skip(k));
    assert(fs.take(k) + fs.skip(k) =~= fs);
    lemma_frames_samples_append(seq![fs[k]], fs.skip(k + 1));
    assert(seq![fs[k]] + fs.skip(k + 1) =~= fs.skip(k));
    assert(seq![fs[k]].drop_last() =~= Seq::<Mp3Frame>::empty());
    assert(frames_samples(Seq::<Mp3Frame>::empty()) =~= Seq::<i16>::empty());
    assert(seq![fs[k]].last() == fs[k]);
    assert(frames_samples(seq![fs[k]]) =~= fs[k].data@);
    let pre = frames_samples(fs.take(k));
    let all = frames_samples(fs);
    assert(all == pre + (fs[k].data@ + frames_samples(fs.skip(k + 1))));
    assert(all.subrange(pre.len() as int, (pre.len() + fs[k].data@.len()) as int) =~= fs[k].data@);
}

/// The audio file formats the sampler can load.
#[derive(Clone, Copy, PartialEq, Eq, Structural, Debug)]
pub enum AudioFormat {
    Wav,
    Mp3,
}

/// The lowercase form of a text, as `str::to_lowercase` computes it.
pub uninterp spec fn lowercase(s: Seq<char>) -> Seq<char>;

/// Calls `str::to_lowercase`, the Unicode lowercase mapping of std. Its
/// result is claimed to depend on the text alone, and is named `lowercase`;
/// nothing more is claimed of it.
#[verifier::external_body]
fn to_lowercase(s: &str) -> (r: String)
    ensures
        r@ == lowercase(s@),
{
    s.to_lowercase()
}

/// The format that a lowercase extension names, if any.
pub open spec fn format_named(lower: Seq<char>) -> Option<AudioFormat> {
    if lower == "wav"@ {
        Some(AudioFormat::Wav)
    } else if lower == "mp3"@ {
        Some(AudioFormat::Mp3)
    } else {
        None
    }
}

/// The format of a file by its lowercased extension; an unknown extension is
/// refused, and the error carries it.
pub fn format_of_lowercase(lower: String) -> (r: Result<AudioFormat, String>)
    ensures
        match format_named(lower@) {
            Some(f) => r == Ok::<AudioFormat, String>(f),
            None => r == Err::<AudioFormat, String>(lower),
        },
{
    if str_eq(lower.as_str(), "wav") {
        Ok(AudioFormat::Wav)
    } else if str_eq(lower.as_str(), "mp3") {
        Ok(AudioFormat::Mp3)
    } else {
        Err(lower)
    }
}

/// The format of a file by its extension, read case-insensitively; an
/// unknown extension is refused, and the error carries it in lowercase.
pub fn audio_format(extension: &str) -> (r: Result<AudioFormat, String>)
    ensures
        match format_named(lowercase(extension@)) {
            Some(f) => r == Ok::<AudioFormat, String>(f),
            None => r matches Err(e) && e@ == lowercase(extension@),
        },
{
    format_of_lowercase(to_lowercase(extension))
}

} // verus!
