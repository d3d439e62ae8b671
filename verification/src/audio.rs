use vstd::prelude::*;

verus! {

/// Samples per millisecond of the voice stream (48 kHz, two channels).
pub const SAMPLES_PER_MS: usize = 96;

/// The least number of bytes of audio worth transcribing.
pub const MIN_STREAM_BYTES: usize = 120 * 1024;

/// The least peak amplitude of audio worth transcribing.
pub const MIN_PEAK: i32 = 1000;

pub open spec fn abs_i16(a: i16) -> int {
    if a < 0 {
        -a
    } else {
        a as int
    }
}

/// Whether a finished stretch of speech is long and loud enough to be sent
/// for transcription: at least `MIN_STREAM_BYTES` bytes of 16-bit samples,
/// and some sample of at least `MIN_PEAK` in magnitude.
pub open spec fn worth_sending(audio: Seq<i16>) -> bool {
    &&& audio.len() * 2 >= MIN_STREAM_BYTES
    &&& exists|i: int| 0 <= i < audio.len() && abs_i16(#[trigger] audio[i]) >= MIN_PEAK
}

/// Decides whether a stretch of speech goes to transcription.
pub fn worth_transcribing(audio: &Vec<i16>) -> (res: bool)
    requires
        forall|i: int| 0 <= i < audio@.len() ==> #[trigger] audio@[i] != i16::MIN,
    ensures
        res == worth_sending(audio@),
{
    if audio.len() < MIN_STREAM_BYTES / 2 {
        return false;
    }
    assert(audio@.len() * 2 >= MIN_STREAM_BYTES);
    let mut i: usize = 0;
    while i < audio.len()
        invariant
            i <= audio@.len(),
            audio@.len() * 2 >= MIN_STREAM_BYTES,
            forall|k: int| 0 <= k < i ==> abs_i16(#[trigger] audio@[k]) < MIN_PEAK,
        decreases audio@.len() - i,
    {
        let a = audio[i];
        let m: i32 = if a < 0 { -(a as i32) } else { a as i32 };
        if m >= MIN_PEAK {
            assert(abs_i16(audio@[i as int]) >= MIN_PEAK);
            return true;
        }
        i += 1;
    }
    false
}

/// The floor of the mean of two samples.
pub open spec fn mean_floor(a: i16, b: i16) -> int {
    (a + b) / 2
}

/// Two-channel audio folded to one channel: each pair of samples becomes the
/// floor of its mean; a lone last sample stays as it is.
pub open spec fn downmixed(s: Seq<i16>) -> Seq<i16> {
    Seq::new(
        ((s.len() + 1) / 2) as nat,
        |k: int|
            if 2 * k + 1 < s.len() {
                mean_floor(s[2 * k], s[2 * k + 1]) as i16
            } else {
                s[2 * k]
            },
    )
}

/// Folds two-channel audio to one channel.
///
/// The mean of two 16-bit samples is exact in integers, so the floor of the
/// halved sum is computed without floating point.
pub fn downmix(s: &Vec<i16>) -> (res: Vec<i16>)
    ensures
        res@ == downmixed(s@),
        forall|k: int| 0 <= k < res@.len() && 2 * k + 1 < s@.len() ==> #[trigger] res@[k] as int
            == mean_floor(s@[2 * k], s@[2 * k + 1]),
{
    let mut out: Vec<i16> = Vec::new();
    let mut i: usize = 0;
    while i + 1 < s.len()
        invariant
            i <= s@.len(),
            i % 2 == 0,
            out@.len() == i / 2,
            forall|k: int|
                0 <= k < out@.len() ==> 2 * k + 1 < s@.len() && #[trigger] out@[k] == mean_floor(
                    s@[2 * k],
                    s@[2 * k + 1],
                ) as i16,
        decreases s@.len() - i,
    {
        let sum: i32 = s[i] as i32 + s[i + 1] as i32;
        let t: i32 = sum + 65536;
        let m: i32 = t / 2 - 32768;
        assert(m == mean_floor(s@[i as int], s@[i + 1])) by (nonlinear_arith)
            requires
                sum == s@[i as int] + s@[i + 1],
                t == sum + 65536,
                t >= 0,
                m == t / 2 - 32768,
        ;
        out.push(m as i16);
        i += 2;
    }
    if i < s.len() {
        out.push(s[i]);
    }
    assert(out@ =~= downmixed(s@));
    out
}

/// How many silent samples to insert before a packet, given how many samples
/// the time since the last packet spans: the shortfall against the packet's
/// own length, and only where it exceeds fifty milliseconds.
pub open spec fn gap_samples(elapsed_samples: nat, packet_len: nat) -> nat {
    let fill = if elapsed_samples > packet_len { (elapsed_samples - packet_len) as nat } else { 0 };
    if fill > SAMPLES_PER_MS * 50 {
        fill
    } else {
        0
    }
}

/// The silence to insert before a packet.
pub fn gap_fill(elapsed_samples: usize, packet_len: usize) -> (res: usize)
    ensures
        res == gap_samples(elapsed_samples as nat, packet_len as nat),
{
    let fill = elapsed_samples.saturating_sub(packet_len);
    if fill > SAMPLES_PER_MS * 50 {
        fill
    } else {
        0
    }
}

} // verus!
