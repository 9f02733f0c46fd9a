//! The music bar's sample window: how captured samples are kept and when a window is
//! long enough to analyse.
use vstd::prelude::*;
use crate::config::{app_file_path, app_file_spec, opt_path_view};
use crate::paths::{plain_char, plain_name, PathText};

verus! {

pub const BAR_COUNT: usize = 42;

pub const FFT_WINDOW_SIZE: usize = 4096;

pub const RING_WINDOW_SIZE: usize = 8192;

/// The ring after new samples arrive: with none it is unchanged; otherwise they are
/// appended and only the newest `RING_WINDOW_SIZE` are kept.
pub open spec fn ring_after<T>(ring: Seq<T>, samples: Seq<T>) -> Seq<T> {
    if samples.len() == 0 {
        ring
    } else {
        let all = ring + samples;
        if all.len() > RING_WINDOW_SIZE {
            all.skip(all.len() - RING_WINDOW_SIZE)
        } else {
            all
        }
    }
}

/// Appends new samples to the ring, keeping only the newest `RING_WINDOW_SIZE`.
pub fn push_ring_samples<T>(ring: &mut Vec<T>, samples: Vec<T>)
    ensures
        final(ring)@ == ring_after(old(ring)@, samples@),
{
    if samples.len() == 0 {
        return;
    }
    let mut samples = samples;
    ring.append(&mut samples);
    if ring.len() > RING_WINDOW_SIZE {
        let remove_count = ring.len() - RING_WINDOW_SIZE;
        let tail = ring.split_off(remove_count);
        *ring = tail;
    }
}

/// Where the analysed window starts, when there is enough to analyse: the last
/// `FFT_WINDOW_SIZE` samples (or all of them when fewer), if that is at least 256 and the
/// sample rate is known.
pub open spec fn analysis_start_spec(ring_len: usize, sample_rate: u32) -> Option<usize> {
    let n = if ring_len < FFT_WINDOW_SIZE { ring_len } else { FFT_WINDOW_SIZE };
    if n < 256 || sample_rate == 0 {
        None
    } else {
        Some((ring_len - n) as usize)
    }
}

/// The window test of `analyse_ring_window`.
pub fn analysis_start(ring_len: usize, sample_rate: u32) -> (r: Option<usize>)
    ensures
        r == analysis_start_spec(ring_len, sample_rate),
{
    let n = if ring_len < FFT_WINDOW_SIZE { ring_len } else { FFT_WINDOW_SIZE };
    if n < 256 || sample_rate == 0 {
        None
    } else {
        Some(ring_len - n)
    }
}

/// How long the capture loop waits between payloads while sound arrives, and while quiet.
pub const EMIT_INTERVAL_MS: u128 = 33;

pub const QUIET_INTERVAL_MS: u128 = 100;

/// How recent the last packet must be for the window to count as active.
pub const ACTIVE_PACKET_MS: u128 = 250;

/// One turn's decision of the capture loop.
pub struct CaptureTick {
    /// Samples are held and a packet came within the last 250 ms.
    pub active: bool,
    /// A payload is due: 33 ms after the last one while active, 100 ms while quiet.
    pub emit: bool,
}

/// The decision of a capture loop turn, from the samples held and the whole milliseconds
/// since the last packet and since the last payload.
pub fn capture_tick(ring_len: usize, since_packet_ms: u128, since_emit_ms: u128) -> (t: CaptureTick)
    ensures
        t.active == (ring_len > 0 && since_packet_ms < ACTIVE_PACKET_MS),
        t.emit == if t.active {
            since_emit_ms >= EMIT_INTERVAL_MS
        } else {
            since_emit_ms >= QUIET_INTERVAL_MS
        },
{
    let active = ring_len > 0 && since_packet_ms < ACTIVE_PACKET_MS;
    let emit = if active {
        since_emit_ms >= EMIT_INTERVAL_MS
    } else {
        since_emit_ms >= QUIET_INTERVAL_MS
    };
    CaptureTick { active, emit }
}

/// Where the audio diagnostics are logged: `audio-diagnostics.log` in the application's
/// folder, else in the working folder.
pub fn audio_log_path(appdata: Option<PathText>) -> (p: PathText)
    ensures
        p@ == app_file_spec(opt_path_view(appdata), "audio-diagnostics.log"@, "audio-diagnostics.log"@),
{
    proof {
        reveal_strlit("audio-diagnostics.log");
        assert forall|i: int| 0 <= i < "audio-diagnostics.log"@.len() implies plain_char(
            "audio-diagnostics.log"@[i],
        ) by {}
        assert(plain_name("audio-diagnostics.log"@));
    }
    app_file_path(appdata, "audio-diagnostics.log", "audio-diagnostics.log")
}

// ------------------------------------------------------------ reading samples

/// How the device stores its samples.
#[derive(Clone, Copy, Debug, PartialEq, Eq, Structural)]
pub enum SampleFormatKind {
    Float,
    Pcm,
    Unknown,
}

/// What the bytes of one sample hold, before the sample is scaled to a level.
#[derive(Clone, Copy, Debug, PartialEq, Eq, Structural)]
pub enum RawSample {
    /// The bits of a 32-bit float, little-endian.
    FloatBits(u32),
    /// A 16-bit signed integer.
    Int16(i16),
    /// A 24-bit signed integer, sign-extended.
    Int24(i32),
    /// A 32-bit signed integer.
    Int32(i32),
    /// Nothing to read: the sample lies past the buffer, or its format is not read.
    Silent,
}

/// Bytes per sample: the bits over eight, at least one.
pub open spec fn sample_bytes(bits: u16) -> int {
    if bits / 8 == 0 {
        1
    } else {
        (bits / 8) as int
    }
}

/// `channel.saturating_mul(n)` in `usize`.
pub open spec fn saturating_product(channel: usize, n: int) -> int {
    if channel * n > usize::MAX {
        usize::MAX as int
    } else {
        channel * n
    }
}

/// Where a channel's sample starts in a frame.
pub open spec fn sample_offset(frame_start: usize, channel: usize, bits: u16) -> int {
    frame_start + saturating_product(channel, sample_bytes(bits))
}

/// The unsigned little-endian value of `n` bytes from `o`.
pub open spec fn le_value(b: Seq<u8>, o: int, n: nat) -> int
    decreases n,
{
    if n == 0 {
        0
    } else {
        b[o] + 256 * le_value(b, o + 1, (n - 1) as nat)
    }
}

/// The two's-complement reading of an unsigned value of `bits` bits.
pub open spec fn signed_value(u: int, half: int) -> int {
    if u >= half {
        u - 2 * half
    } else {
        u
    }
}

/// `read_sample` before scaling: a 32-bit float sample's bits, or a PCM sample of 16, 24
/// or 32 bits as a signed integer; nothing past the end of the buffer or in another format.
pub open spec fn raw_sample_spec(
    bytes: Seq<u8>,
    frame_start: usize,
    channel: usize,
    bits: u16,
    kind: SampleFormatKind,
) -> RawSample {
    let n = sample_bytes(bits);
    let o = sample_offset(frame_start, channel, bits);
    if o + n > bytes.len() {
        RawSample::Silent
    } else if kind == SampleFormatKind::Float && bits == 32 {
        RawSample::FloatBits(le_value(bytes, o, 4) as u32)
    } else if kind == SampleFormatKind::Pcm && bits == 16 {
        RawSample::Int16(signed_value(le_value(bytes, o, 2), 0x8000) as i16)
    } else if kind == SampleFormatKind::Pcm && bits == 24 {
        RawSample::Int24(signed_value(le_value(bytes, o, 3), 0x80_0000) as i32)
    } else if kind == SampleFormatKind::Pcm && bits == 32 {
        RawSample::Int32(signed_value(le_value(bytes, o, 4), 0x8000_0000) as i32)
    } else {
        RawSample::Silent
    }
}

/// The sample's position plus its size fits in `usize`.
pub open spec fn sample_in_address_range(frame_start: usize, channel: usize, bits: u16) -> bool {
    sample_offset(frame_start, channel, bits) + sample_bytes(bits) <= usize::MAX
}

proof fn lemma_le_values(b: Seq<u8>, o: int)
    requires
        0 <= o,
        o + 4 <= b.len(),
    ensures
        le_value(b, o, 2) == b[o] + 256 * b[o + 1],
        le_value(b, o, 3) == b[o] + 256 * b[o + 1] + 65536 * b[o + 2],
        le_value(b, o, 4) == b[o] + 256 * b[o + 1] + 65536 * b[o + 2] + 16777216 * b[o + 3],
{
    reveal_with_fuel(le_value, 5);
}

proof fn lemma_le_value_3(b: Seq<u8>, o: int)
    requires
        0 <= o,
        o + 3 <= b.len(),
    ensures
        le_value(b, o, 2) == b[o] + 256 * b[o + 1],
        le_value(b, o, 3) == b[o] + 256 * b[o + 1] + 65536 * b[o + 2],
{
    reveal_with_fuel(le_value, 4);
}

/// The bytes of one channel's sample in a frame, as `read_sample` reads them before it
/// scales them to a level.
pub fn raw_sample(
    bytes: &[u8],
    frame_start: usize,
    channel: usize,
    sample_bits: u16,
    kind: SampleFormatKind,
) -> (r: RawSample)
    requires
        sample_in_address_range(frame_start, channel, sample_bits),
    ensures
        r == raw_sample_spec(bytes@, frame_start, channel, sample_bits, kind),
{
    let bps: usize = if sample_bits / 8 == 0 {
        1
    } else {
        (sample_bits / 8) as usize
    };
    let step: usize = match channel.checked_mul(bps) {
        Some(v) => v,
        None => usize::MAX,
    };
    let offset = frame_start + step;
    if offset + bps > bytes.len() {
        return RawSample::Silent;
    }
    let o = offset;
    if kind == SampleFormatKind::Float && sample_bits == 32 {
        proof {
            lemma_le_values(bytes@, o as int);
        }
        let u: u32 = (bytes[o] as u32) + (bytes[o + 1] as u32) * 256 + (bytes[o + 2] as u32) * 65536
            + (bytes[o + 3] as u32) * 16777216;
        return RawSample::FloatBits(u);
    }
    if kind != SampleFormatKind::Pcm {
        return RawSample::Silent;
    }
    if sample_bits == 16 {
        proof {
            reveal_with_fuel(le_value, 3);
        }
        let u: i32 = (bytes[o] as i32) + (bytes[o + 1] as i32) * 256;
        let v: i32 = if u >= 0x8000 { u - 0x1_0000 } else { u };
        RawSample::Int16(v as i16)
    } else if sample_bits == 24 {
        proof {
            lemma_le_value_3(bytes@, o as int);
        }
        let u: i32 = (bytes[o] as i32) + (bytes[o + 1] as i32) * 256 + (bytes[o + 2] as i32) * 65536;
        let v: i32 = if u >= 0x80_0000 { u - 0x100_0000 } else { u };
        RawSample::Int24(v)
    } else if sample_bits == 32 {
        proof {
            lemma_le_values(bytes@, o as int);
        }
        let u: i64 = (bytes[o] as i64) + (bytes[o + 1] as i64) * 256 + (bytes[o + 2] as i64) * 65536
            + (bytes[o + 3] as i64) * 16777216;
        let v: i64 = if u >= 0x8000_0000 { u - 0x1_0000_0000 } else { u };
        RawSample::Int32(v as i32)
    } else {
        RawSample::Silent
    }
}

/// However samples arrive, a ring that starts within the window stays within it, and it
/// always ends with the newest samples.
pub proof fn law_ring_bounded<T>(ring: Seq<T>, samples: Seq<T>)
    requires
        ring.len() <= RING_WINDOW_SIZE,
    ensures
        ring_after(ring, samples).len() <= RING_WINDOW_SIZE,
        samples.len() <= RING_WINDOW_SIZE ==> ring_after(ring, samples).skip(
            ring_after(ring, samples).len() - samples.len(),
        ) == samples,
{
    let r = ring_after(ring, samples);
    if samples.len() > 0 && samples.len() <= RING_WINDOW_SIZE {
        let all = ring + samples;
        assert(r.skip(r.len() - samples.len()) =~= samples);
    } else if samples.len() == 0 {
        assert(r.skip(r.len() as int) =~= samples);
    }
}

/// Each channel of a frame is read from its own bytes: channel `ch` of a frame that starts
/// at `fs` starts `ch` samples further on, and its bytes are read little-endian. A 32-bit
/// float sample gives the four bytes' bits; a 16-, 24- or 32-bit PCM sample gives them as a
/// signed integer. A sample that runs past the buffer, or a format not read, gives nothing.
/// (A sample of fewer than 8 bits takes one byte.)
pub proof fn law_channel_samples(bytes: Seq<u8>, fs: usize, ch: usize, bits: u16, kind: SampleFormatKind)
    requires
        fs + ch * (if bits / 8 == 0 { 1 } else { bits / 8 }) + (if bits / 8 == 0 { 1 } else { bits / 8 })
            <= usize::MAX,
    ensures
        ({
            let n = if bits / 8 == 0 { 1 } else { (bits / 8) as int };
            let o = fs + ch * n;
            let b0 = bytes[o] as int;
            let b1 = bytes[o + 1] as int;
            let b2 = bytes[o + 2] as int;
            let b3 = bytes[o + 3] as int;
            let r = raw_sample_spec(bytes, fs, ch, bits, kind);
            &&& o + n > bytes.len() ==> r == RawSample::Silent
            &&& o + n <= bytes.len() && kind == SampleFormatKind::Float && bits == 32 ==> r
                == RawSample::FloatBits((b0 + 256 * b1 + 65536 * b2 + 16777216 * b3) as u32)
            &&& o + n <= bytes.len() && kind == SampleFormatKind::Pcm && bits == 16 ==> r
                == RawSample::Int16(
                (if b1 >= 128 {
                    b0 + 256 * b1 - 65536
                } else {
                    b0 + 256 * b1
                }) as i16,
            )
            &&& o + n <= bytes.len() && kind == SampleFormatKind::Pcm && bits == 24 ==> r
                == RawSample::Int24(
                (if b2 >= 128 {
                    b0 + 256 * b1 + 65536 * b2 - 16777216
                } else {
                    b0 + 256 * b1 + 65536 * b2
                }) as i32,
            )
            &&& o + n <= bytes.len() && kind == SampleFormatKind::Pcm && bits == 32 ==> r
                == RawSample::Int32(
                (if b3 >= 128 {
                    b0 + 256 * b1 + 65536 * b2 + 16777216 * b3 - 4294967296
                } else {
                    b0 + 256 * b1 + 65536 * b2 + 16777216 * b3
                }) as i32,
            )
            &&& kind == SampleFormatKind::Unknown ==> r == RawSample::Silent
        }),
{
    let n = if bits / 8 == 0 { 1 } else { (bits / 8) as int };
    let o = fs + ch * n;
    assert(ch * n <= usize::MAX) by (nonlinear_arith)
        requires
            fs + ch * n + n <= usize::MAX,
            fs >= 0,
            n > 0;
    assert(sample_bytes(bits) == n);
    assert(saturating_product(ch, n) == ch * n);
    if o + n <= bytes.len() {
        if n == 4 {
            lemma_le_values(bytes, o);
        } else if n == 3 {
            lemma_le_value_3(bytes, o);
        } else if n == 2 {
            reveal_with_fuel(le_value, 3);
        }
    }
}

} // verus!
