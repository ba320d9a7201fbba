//! Audio packets sent by the call client and their conversion to 16-bit PCM.
use vstd::prelude::*;
use vstd::arithmetic::power2::{pow2, lemma_pow2_pos, lemma_pow2_strictly_increases, lemma2_to64};
use vstd::arithmetic::div_mod::lemma_basic_div;
use vstd::bits::lemma_u32_shr_is_div;
use vstd::string::*;

use crate::text::{decimal, push_decimal, push_str};

verus! {

broadcast use vstd::string::group_string_axioms;

/// Which party of the call an audio packet carries.
#[derive(Debug, Clone, Copy, PartialEq, Eq, Structural)]
pub enum AudioChannel {
    Operator,
    Customer,
}

/// Failure while running a call.
#[derive(Debug)]
pub enum CallError {
    Asr(String),
    InvalidChannel(u8),
    Database(String),
}

/// Text of a call error, as it is reported to the client and in logs.
pub open spec fn call_error_text(e: CallError) -> Seq<char> {
    match e {
        CallError::Asr(m) => "ASR error: "@ + m@,
        CallError::InvalidChannel(b) => "invalid audio channel: "@ + decimal(b as nat),
        CallError::Database(m) => "database error: "@ + m@,
    }
}

impl CallError {
    /// The error's text.
    pub fn message(&self) -> (s: String)
        ensures
            s@ == call_error_text(*self),
    {
        match self {
            CallError::Asr(m) => {
                let mut s = String::from_str("ASR error: ");
                push_str(&mut s, m.as_str());
                s
            },
            CallError::InvalidChannel(b) => {
                let mut s = String::from_str("invalid audio channel: ");
                push_decimal(&mut s, *b as u64);
                s
            },
            CallError::Database(m) => {
                let mut s = String::from_str("database error: ");
                push_str(&mut s, m.as_str());
                s
            },
        }
    }
}

/// The channel that a packet's first byte names: `0` is the operator, `1` the
/// customer.
pub open spec fn channel_of(b: u8) -> Result<AudioChannel, CallError> {
    if b == 0 {
        Ok(AudioChannel::Operator)
    } else if b == 1 {
        Ok(AudioChannel::Customer)
    } else {
        Err(CallError::InvalidChannel(b))
    }
}

impl TryFrom<u8> for AudioChannel {
    type Error = CallError;

    fn try_from(value: u8) -> (r: Result<Self, Self::Error>) {
        if value == 0 {
            Ok(AudioChannel::Operator)
        } else if value == 1 {
            Ok(AudioChannel::Customer)
        } else {
            Err(CallError::InvalidChannel(value))
        }
    }
}

impl vstd::std_specs::convert::TryFromSpecImpl<u8> for AudioChannel {
    open spec fn obeys_try_from_spec() -> bool {
        true
    }

    open spec fn try_from_spec(v: u8) -> Result<Self, CallError> {
        channel_of(v)
    }
}

/// A decoded audio packet: its channel and 16-bit little-endian PCM samples.
#[derive(Debug)]
pub struct AudioPacket {
    pub channel: AudioChannel,
    pub pcm: Vec<u8>,
}

/// The IEEE-754 single-precision bit pattern stored little-endian at
/// `data[at..at + 4]`.
pub open spec fn f32_bits_at(data: Seq<u8>, at: int) -> u32 {
    (data[at] as int + data[at + 1] as int * 0x100 + data[at + 2] as int * 0x10000
        + data[at + 3] as int * 0x1000000) as u32
}

/// The 16-bit sample that `(x * 32768.0).clamp(-32768.0, 32767.0) as i16`
/// gives for the `f32` value `x` with bit pattern `bits`: `x * 2^15`
/// truncated toward zero and clamped to the `i16` range; NaN gives `0`.
///
/// With sign `s`, biased exponent `e` and fraction `f`, a finite `x` is
/// `m * 2^(e' - 150)` where `m = f + 2^23` and `e' = e` for normal numbers
/// and `m = f`, `e' = 1` for subnormal ones, so `x * 2^15 = m * 2^(e' - 135)`.
pub open spec fn pcm_sample(bits: u32) -> int {
    let negative = bits >= 0x8000_0000;
    let e = (bits / 0x80_0000) % 0x100;
    let f = bits % 0x80_0000;
    if e == 0xff {
        if f != 0 {
            0
        } else if negative {
            -32768
        } else {
            32767
        }
    } else {
        let m: nat = if e == 0 { f as nat } else { (f + 0x80_0000) as nat };
        let ee: nat = if e == 0 { 1 } else { e as nat };
        let magnitude: nat = if ee >= 135 {
            m * pow2((ee - 135) as nat)
        } else {
            m / pow2((135 - ee) as nat)
        };
        if negative {
            if magnitude > 32768 { -32768 } else { -magnitude }
        } else {
            if magnitude > 32767 { 32767 } else { magnitude as int }
        }
    }
}

/// Byte `k` (0 = low, 1 = high) of the little-endian two's-complement
/// encoding of the 16-bit sample `s`.
pub open spec fn sample_byte(s: int, k: int) -> u8 {
    let u = if s < 0 { s + 0x10000 } else { s };
    if k == 0 { (u % 0x100) as u8 } else { (u / 0x100) as u8 }
}

/// The PCM bytes for the `f32` samples in `samples` (whose length is a
/// multiple of 4): each sample becomes two bytes.
pub open spec fn pcm_of(samples: Seq<u8>) -> Seq<u8> {
    Seq::new(
        (samples.len() / 4 * 2) as nat,
        |i: int| sample_byte(pcm_sample(f32_bits_at(samples, 4 * (i / 2))), i % 2),
    )
}

/// What `parse_audio_packet` gives for a packet `data`: the channel byte,
/// three ignored bytes, then little-endian `f32` samples.
pub open spec fn audio_packet_outcome(data: Seq<u8>) -> Result<(AudioChannel, Seq<u8>), Seq<char>> {
    if data.len() < 4 {
        Err("packet too small: "@ + decimal(data.len()) + " bytes"@)
    } else if channel_of(data[0]) is Err {
        Err(call_error_text(channel_of(data[0])->Err_0))
    } else if (data.len() - 4) % 4 != 0 {
        Err("invalid audio data length: "@ + decimal((data.len() - 4) as nat))
    } else {
        Ok((channel_of(data[0])->Ok_0, pcm_of(data.skip(4))))
    }
}

proof fn lemma_pcm_of_at(data: Seq<u8>, k: int)
    requires
        data.len() >= 4,
        (data.len() - 4) % 4 == 0,
        0 <= k < (data.len() - 4) / 4,
    ensures
        pcm_of(data.skip(4)).len() == (data.len() - 4) / 4 * 2,
        pcm_of(data.skip(4))[2 * k] == sample_byte(pcm_sample(f32_bits_at(data, 4 + 4 * k)), 0),
        pcm_of(data.skip(4))[2 * k + 1] == sample_byte(
            pcm_sample(f32_bits_at(data, 4 + 4 * k)),
            1,
        ),
{
    let samples = data.skip(4);
    assert((2 * k) / 2 == k && (2 * k + 1) / 2 == k && (2 * k) % 2 == 0 && (2 * k + 1) % 2 == 1);
    assert(f32_bits_at(samples, 4 * k) == f32_bits_at(data, 4 + 4 * k));
}

/// The two PCM bytes for the `f32` sample stored at `data[at..at + 4]`.
fn sample_bytes(data: &[u8], at: usize) -> (r: (u8, u8))
    requires
        at + 4 <= data@.len(),
    ensures
        r.0 == sample_byte(pcm_sample(f32_bits_at(data@, at as int)), 0),
        r.1 == sample_byte(pcm_sample(f32_bits_at(data@, at as int)), 1),
{
    let bits: u32 = (data[at] as u32) + (data[at + 1] as u32) * 0x100 + (data[at + 2] as u32)
        * 0x10000 + (data[at + 3] as u32) * 0x1000000;
    let s = convert_sample(bits);
    let u: u16 = if s < 0 { (s as i32 + 0x10000) as u16 } else { s as u16 };
    ((u % 0x100) as u8, (u / 0x100) as u8)
}

/// Converts one `f32` sample, given by its bit pattern, to a 16-bit sample.
fn convert_sample(bits: u32) -> (s: i16)
    ensures
        s as int == pcm_sample(bits),
{
    let negative = bits >= 0x8000_0000;
    let e = (bits / 0x80_0000) % 0x100;
    let f = bits % 0x80_0000;
    if e == 0xff {
        if f != 0 {
            0
        } else if negative {
            -32768
        } else {
            32767
        }
    } else {
        let m: u32 = if e == 0 { f } else { f + 0x80_0000 };
        let ee: u32 = if e == 0 { 1 } else { e };
        let magnitude: u32 = if ee >= 135 {
            proof {
                lemma_pow2_pos((ee - 135) as nat);
                assert(m as nat * pow2((ee - 135) as nat) >= m) by (nonlinear_arith)
                    requires pow2((ee - 135) as nat) > 0;
            }
            40000
        } else {
            let shift: u32 = 135 - ee;
            if shift < 32 {
                proof {
                    lemma_u32_shr_is_div(m, shift);
                }
                m >> shift
            } else {
                proof {
                    lemma2_to64();
                    if shift > 32 {
                        lemma_pow2_strictly_increases(32, shift as nat);
                    }
                    lemma_basic_div(m as int, pow2(shift as nat) as int);
                }
                0
            }
        };
        if negative {
            if magnitude > 32768 {
                -32768
            } else {
                (0 - (magnitude as i32)) as i16
            }
        } else {
            if magnitude > 32767 {
                32767
            } else {
                magnitude as i16
            }
        }
    }
}

fn push_error_decimal(prefix: &str, n: usize, suffix: &str) -> (s: String)
    ensures
        s@ == prefix@ + decimal(n as nat) + suffix@,
{
    let mut s = String::from_str(prefix);
    push_decimal(&mut s, n as u64);
    push_str(&mut s, suffix);
    s
}

/// Decodes an audio packet from the call client: `[channel, 0, 0, 0,
/// f32 little-endian samples...]`, converting the samples to 16-bit PCM.
pub fn parse_audio_packet(data: &[u8]) -> (r: Result<AudioPacket, String>)
    ensures
        match (r, audio_packet_outcome(data@)) {
            (Ok(p), Ok((c, pcm))) => p.channel == c && p.pcm@ == pcm,
            (Err(m), Err(t)) => m@ == t,
            _ => false,
        },
{
    let len = data.len();
    if len < 4 {
        return Err(push_error_decimal("packet too small: ", len, " bytes"));
    }
    let channel = match AudioChannel::try_from(data[0]) {
        Ok(c) => c,
        Err(e) => return Err(e.message()),
    };
    let sample_len = len - 4;
    if sample_len % 4 != 0 {
        proof {
            reveal_strlit("");
        }
        return Err(push_error_decimal("invalid audio data length: ", sample_len, ""));
    }
    let count = sample_len / 4;
    let mut pcm: Vec<u8> = Vec::new();
    let mut k: usize = 0;
    while k < count
        invariant
            k <= count,
            count == sample_len / 4,
            sample_len == len - 4,
            sample_len % 4 == 0,
            len == data@.len(),
            pcm@.len() == 2 * k,
            forall|i: int| 0 <= i < 2 * k ==> #[trigger] pcm@[i] == pcm_of(data@.skip(4))[i],
        decreases count - k,
    {
        let (lo, hi) = sample_bytes(data, 4 + 4 * k);
        proof {
            lemma_pcm_of_at(data@, k as int);
        }
        pcm.push(lo);
        pcm.push(hi);
        k = k + 1;
    }
    proof {
        if count > 0 {
            lemma_pcm_of_at(data@, 0);
        }
    }
    assert(pcm@ =~= pcm_of(data@.skip(4)));
    Ok(AudioPacket { channel, pcm })
}

} // verus!
