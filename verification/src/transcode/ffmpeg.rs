//! The settings of the H.264 encoder of a rendition, and what its packets say.

use bytes::Bytes;
use vstd::prelude::*;
use vstd::string::*;

use crate::binary64::{
    quotients_are_near, round_53, rounding_is_near, to_53_bits, TWO_52, TWO_53,
};
use crate::buffer::{bytes_from_vec, bytes_len, bytes_seq};
use crate::common::error::TranscodeError;
use crate::common::types::FrameRate;
use crate::text;
use crate::text::decimal;
use crate::transcode::profile::SelectedRendition;
use crate::transcode::segment::EncodedPacket;

verus! {

/// The whole number nearest to `n / d`, halves rounded up.
pub open spec fn half_up(n: nat, d: nat) -> nat {
    (2 * n + d) / (2 * d)
}

/// Frames per group of pictures: two seconds, to the nearest frame, and at least one.
pub open spec fn group_of_pictures(rate: FrameRate) -> int {
    let frames = half_up(2 * rate.size().0, rate.size().1);
    if rate.below_zero() || frames < 1 {
        1
    } else if frames > u32::MAX {
        u32::MAX as int
    } else {
        frames as int
    }
}

/// Frames per thousand seconds, in double precision and to the nearest.
pub open spec fn rate_in_thousandths(rate: FrameRate) -> int {
    let n = half_up(to_53_bits(1000 * rate.size().0, 1), rate.size().1);
    if rate.below_zero() {
        if n > 0x8000_0000 {
            i32::MIN as int
        } else {
            -n
        }
    } else if n > i32::MAX {
        i32::MAX as int
    } else {
        n as int
    }
}

/// The parameters handed to the encoder as text: a keyframe at each interval, and nowhere else.
pub open spec fn x264_text(gop: nat) -> Seq<char> {
    "keyint="@ + decimal(gop) + ":min-keyint="@ + decimal(gop) + ":scenecut=0"@
}

/// The settings of the encoder of a rendition.
#[derive(Debug)]
pub struct EncoderSettings {
    pub width: u32,
    pub height: u32,
    /// Bits per second.
    pub bit_rate: u64,
    /// Bits per second in a burst.
    pub max_bit_rate: u64,
    /// Numerator of the frame rate, over 1000.
    pub frame_rate_num: i32,
    pub gop: u32,
    pub max_b_frames: u32,
    pub preset: String,
    pub x264_params: String,
}

impl EncoderSettings {
    /// The settings of a rendition of a source with the given frame rate: bursts of half as much
    /// again, a keyframe every two seconds, and no frame that refers to a later one.
    pub fn for_rendition(r: &SelectedRendition, frame_rate: FrameRate) -> (s: Self)
        ensures
            s.width == r.width,
            s.height == r.height,
            s.bit_rate == r.video_bitrate_kbps * 1000,
            s.max_bit_rate == r.video_bitrate_kbps * 1500,
            s.frame_rate_num == rate_in_thousandths(frame_rate),
            s.gop == group_of_pictures(frame_rate),
            s.max_b_frames == 0,
            s.preset@ == r.preset@,
            s.x264_params@ == x264_text(group_of_pictures(frame_rate) as nat),
    {
        let bit_rate: u64 = r.video_bitrate_kbps as u64 * 1000;
        let q = frame_rate.divide();
        let negative = frame_rate.is_negative();
        let frames: u128 = (4 * q.0 + q.1) / (2 * q.1);
        let gop: u64 = if negative || frames < 1 {
            1
        } else if frames > u32::MAX as u128 {
            u32::MAX as u64
        } else {
            frames as u64
        };
        let n: u128 = (2 * round_53(1000 * q.0) + q.1) / (2 * q.1);
        let frame_rate_num: i32 = if negative {
            if n > 0x8000_0000 {
                i32::MIN
            } else {
                (-(n as i64)) as i32
            }
        } else if n > 0x7fff_ffff {
            i32::MAX
        } else {
            n as i32
        };
        let mut x264_params = text::owned("keyint=");
        text::push_decimal(&mut x264_params, gop);
        x264_params.append(":min-keyint=");
        text::push_decimal(&mut x264_params, gop);
        x264_params.append(":scenecut=0");
        EncoderSettings {
            width: r.width,
            height: r.height,
            bit_rate,
            max_bit_rate: bit_rate * 3 / 2,
            frame_rate_num,
            gop: gop as u32,
            max_b_frames: 0,
            preset: r.preset.clone(),
            x264_params,
        }
    }
}

/// The reason given where the encoder of a rendition does not open.
pub open spec fn encoder_reason(r: SelectedRendition, cause: Seq<char>) -> Seq<char> {
    "x264 open ("@ + r.id.name() + " "@ + decimal(r.height as nat) + "p "@ + decimal(
        r.video_bitrate_kbps as nat,
    ) + "kbps): "@ + cause
}

/// The error where the encoder of a rendition does not open.
pub fn encoder_failure(r: &SelectedRendition, cause: &str) -> (e: TranscodeError)
    ensures
        e matches TranscodeError::FfmpegInit { reason } && reason@ == encoder_reason(*r, cause@),
{
    let mut s = text::owned("x264 open (");
    s.append(r.id.as_str());
    s.append(" ");
    text::push_decimal(&mut s, r.height as u64);
    s.append("p ");
    text::push_decimal(&mut s, r.video_bitrate_kbps as u64);
    s.append("kbps): ");
    s.append(cause);
    TranscodeError::FfmpegInit { reason: s }
}

/// The packet of an encoder: what it leaves out counts as 0 or as empty.
pub fn encoded_packet(
    pts: Option<i64>,
    dts: Option<i64>,
    keyframe: bool,
    data: Option<Bytes>,
) -> (r: EncodedPacket)
    ensures
        r.pts == pts.unwrap_or(0),
        r.dts == dts.unwrap_or(0),
        r.keyframe == keyframe,
        !r.is_audio,
        bytes_seq(r.data) == match data {
            Some(d) => bytes_seq(d),
            None => Seq::<u8>::empty(),
        },
{
    let data = match data {
        Some(d) => d,
        None => bytes_from_vec(Vec::new()),
    };
    EncodedPacket { pts: pts.unwrap_or(0), dts: dts.unwrap_or(0), keyframe, data, is_audio: false }
}

/// The packet of an audio stream that passes through as it is; `None` where it holds nothing.
pub fn passed_audio(pts: Option<i64>, dts: Option<i64>, data: Option<Bytes>) -> (r: Option<
    EncodedPacket,
>)
    ensures
        r is Some <==> (data matches Some(d) && bytes_seq(d).len() > 0),
        r matches Some(p) ==> {
            &&& p.pts == pts.unwrap_or(0)
            &&& p.dts == dts.unwrap_or(p.pts)
            &&& p.keyframe
            &&& p.is_audio
            &&& bytes_seq(p.data) == bytes_seq(data->0)
        },
{
    match data {
        Some(d) => {
            if bytes_len(&d) == 0 {
                return None;
            }
            let pts = pts.unwrap_or(0);
            Some(EncodedPacket { pts, dts: dts.unwrap_or(pts), keyframe: true, data: d, is_audio: true })
        },
        None => None,
    }
}

// ---------------------------------------------------------------------------
// Laws
// ---------------------------------------------------------------------------

proof fn lemma_half_up(n: nat, d: nat)
    requires
        d > 0,
    ensures
        2 * n - d <= 2 * (half_up(n, d) * d) <= 2 * n + d,
{
    let q = half_up(n, d) as int;
    let a = 2 * n + d;
    let b = 2 * d;
    vstd::arithmetic::div_mod::lemma_fundamental_div_mod(a as int, b as int);
    assert(b * q == 2 * (q * d)) by (nonlinear_arith)
        requires
            b == 2 * d,
    ;
}

/// A keyframe comes every two seconds, to the nearest frame, and at least with every frame.
pub proof fn keyframes_come_every_two_seconds(rate: FrameRate)
    requires
        rate.num > 0,
        rate.den > 0,
    ensures
        ({
            let g = group_of_pictures(rate);
            &&& g >= 1
            &&& g > 1 && g < u32::MAX ==> -rate.den <= 2 * (g * rate.den - 2 * rate.num)
                <= rate.den
            &&& g == 1 ==> 4 * rate.num <= 3 * rate.den
        }),
{
    quotients_are_near(rate.num as nat, rate.den as nat);
    let q = rate.size();
    let m = q.0 as int;
    let u = q.1 as int;
    let n = rate.num as int;
    let d = rate.den as int;
    let k = half_up(2 * q.0, q.1) as int;
    lemma_half_up(2 * q.0, q.1);
    lemma_nearest(k, 2, m, n, u, d, 0);
    if k <= 1 {
        assert(2 * (k * d - 2 * n) >= -d);
        assert(k * d <= d) by (nonlinear_arith)
            requires
                k <= 1,
                d > 0,
        ;
    }
}

/// `k` is the whole number nearest to `c * n / d`, where it is the nearest to `c * m / u`, give or
/// take `e / u`, and `m / u` is near enough to `n / d`.
proof fn lemma_nearest(k: int, c: int, m: int, n: int, u: int, d: int, e: int)
    requires
        0 < c <= 1000,
        0 <= e <= 1002,
        0 < n < 0x8000_0000,
        0 < d,
        0 < u,
        TWO_52 * d <= n * u,
        2 * (n * u) - d <= 2 * (m * d) <= 2 * (n * u) + d,
        2 * c * m - 2 * e - u <= 2 * (k * u) <= 2 * c * m + 2 * e + u,
    ensures
        -d <= 2 * (k * d - c * n) <= d,
{
    assert(u >= 0x10_0000 * d) by (nonlinear_arith)
        requires
            TWO_52 * d <= n * u,
            n < 0x8000_0000,
            u > 0,
            d > 0,
    ;
    let x = k * d - c * n;
    let ku = k * u;
    let md = m * d;
    let nu = n * u;
    assert(x * u == ku * d - c * nu) by (nonlinear_arith)
        requires
            x == k * d - c * n,
            ku == k * u,
            nu == n * u,
    ;
    assert(2 * (ku * d) <= 2 * (c * md) + 2 * (e * d) + u * d) by (nonlinear_arith)
        requires
            2 * ku <= 2 * c * m + 2 * e + u,
            md == m * d,
            d > 0,
    ;
    assert(2 * (ku * d) >= 2 * (c * md) - 2 * (e * d) - u * d) by (nonlinear_arith)
        requires
            2 * ku >= 2 * c * m - 2 * e - u,
            md == m * d,
            d > 0,
    ;
    assert(2 * (c * md) <= 2 * (c * nu) + c * d) by (nonlinear_arith)
        requires
            2 * md <= 2 * nu + d,
            c > 0,
    ;
    assert(2 * (c * md) >= 2 * (c * nu) - c * d) by (nonlinear_arith)
        requires
            2 * md >= 2 * nu - d,
            c > 0,
    ;
    assert((c + 2 * e) * d == c * d + 2 * (e * d)) by (nonlinear_arith);
    assert((c + 2 * e) * d < u) by (nonlinear_arith)
        requires
            c + 2 * e <= 3004,
            u >= 0x10_0000 * d,
            d > 0,
    ;
    assert(2 * x <= d) by (nonlinear_arith)
        requires
            2 * (x * u) < u * d + u,
            u > 0,
    ;
    assert(2 * x >= -d) by (nonlinear_arith)
        requires
            2 * (x * u) > -(u * d) - u,
            u > 0,
    ;
}

/// The encoder is told the frame rate in thousandths, to the nearest.
pub proof fn encoders_are_told_the_nearest_rate(rate: FrameRate)
    requires
        rate.num > 0,
        rate.den > 0,
        rate_in_thousandths(rate) < i32::MAX,
    ensures
        -rate.den <= 2 * (rate_in_thousandths(rate) * rate.den - 1000 * rate.num) <= rate.den,
{
    quotients_are_near(rate.num as nat, rate.den as nat);
    let q = rate.size();
    let m = q.0 as int;
    let u = q.1 as int;
    let n = rate.num as int;
    let d = rate.den as int;
    let p = to_53_bits(1000 * q.0, 1);
    let k = half_up(p, q.1) as int;
    lemma_half_up(p, q.1);
    rounding_is_near(1000 * q.0);
    assert(m <= TWO_53) by (nonlinear_arith)
        requires
            2 * (m * d) <= 2 * (n * u) + d,
            n * u < TWO_53 * d,
            d > 0,
    ;
    lemma_nearest(k, 1000, m, n, u, d, 1002);
}

} // verus!
