//! Fragmented MP4: initialization segments and media segments.
//!
//! Each box is described by a spec function over byte sequences, and written by a function of
//! the same shape.

use bytes::{Bytes, BytesMut};
use vstd::prelude::*;
use vstd::string::*;
use vstd::utf8::*;

use crate::buffer::{
    be16, be32, be64, buf_extend, buf_freeze, buf_new, buf_put_i32, buf_put_i64, buf_put_u16,
    buf_put_u32, buf_put_u8, buf_put_zeros, buf_seq, buf_slice, bytes_seq, bytes_slice, zeros,
};
use crate::common::error::PackageError;

verus! {

broadcast use is_ascii_spec_bytes;

// ---------------------------------------------------------------------------
// Box kinds: four ASCII characters each
// ---------------------------------------------------------------------------

/// "ftyp"
pub const FTYP: u32 = 0x66747970;

/// "moov"
pub const MOOV: u32 = 0x6d6f6f76;

/// "mvhd"
pub const MVHD: u32 = 0x6d766864;

/// "trak"
pub const TRAK: u32 = 0x7472616b;

/// "tkhd"
pub const TKHD: u32 = 0x746b6864;

/// "mdia"
pub const MDIA: u32 = 0x6d646961;

/// "mdhd"
pub const MDHD: u32 = 0x6d646864;

/// "hdlr"
pub const HDLR: u32 = 0x68646c72;

/// "vide"
pub const VIDE: u32 = 0x76696465;

/// "soun"
pub const SOUN: u32 = 0x736f756e;

/// "minf"
pub const MINF: u32 = 0x6d696e66;

/// "vmhd"
pub const VMHD: u32 = 0x766d6864;

/// "smhd"
pub const SMHD: u32 = 0x736d6864;

/// "dinf"
pub const DINF: u32 = 0x64696e66;

/// "dref"
pub const DREF: u32 = 0x64726566;

/// "url "
pub const URL: u32 = 0x75726c20;

/// "stbl"
pub const STBL: u32 = 0x7374626c;

/// "stsd"
pub const STSD: u32 = 0x73747364;

/// "stts"
pub const STTS: u32 = 0x73747473;

/// "stsc"
pub const STSC: u32 = 0x73747363;

/// "stsz"
pub const STSZ: u32 = 0x7374737a;

/// "stco"
pub const STCO: u32 = 0x7374636f;

/// "avc1"
pub const AVC1: u32 = 0x61766331;

/// "avcC"
pub const AVCC: u32 = 0x61766343;

/// "mp4a"
pub const MP4A: u32 = 0x6d703461;

/// "esds"
pub const ESDS: u32 = 0x65736473;

/// "mvex"
pub const MVEX: u32 = 0x6d766578;

/// "trex"
pub const TREX: u32 = 0x74726578;

/// "styp"
pub const STYP: u32 = 0x73747970;

/// "moof"
pub const MOOF: u32 = 0x6d6f6f66;

/// "mfhd"
pub const MFHD: u32 = 0x6d666864;

/// "traf"
pub const TRAF: u32 = 0x74726166;

/// "tfhd"
pub const TFHD: u32 = 0x74666864;

/// "tfdt"
pub const TFDT: u32 = 0x74666474;

/// "trun"
pub const TRUN: u32 = 0x7472756e;

/// "mdat"
pub const MDAT: u32 = 0x6d646174;

/// "isom"
pub const ISOM: u32 = 0x69736f6d;

/// "iso6"
pub const ISO6: u32 = 0x69736f36;

/// "mp41"
pub const MP41: u32 = 0x6d703431;

/// "msdh"
pub const MSDH: u32 = 0x6d736468;

/// "msix"
pub const MSIX: u32 = 0x6d736978;

// ---------------------------------------------------------------------------
// Box framing
// ---------------------------------------------------------------------------

/// `n` as a 32-bit field holds it.
pub open spec fn field32(n: int) -> u32 {
    (n % 0x1_0000_0000) as u32
}

/// `n` as a 16-bit field holds it.
pub open spec fn field16(n: int) -> u16 {
    (n % 0x1_0000) as u16
}

/// `n` as an 8-bit field holds it.
pub open spec fn field8(n: int) -> u8 {
    (n % 0x100) as u8
}

/// The low 24 bits of `n`, most significant byte first.
pub open spec fn be24(n: u32) -> Seq<u8> {
    seq![(n / 0x10000 % 0x100) as u8, (n / 0x100 % 0x100) as u8, (n % 0x100) as u8]
}

/// A box: its size, its kind, its content.
pub open spec fn mp4_box(kind: u32, content: Seq<u8>) -> Seq<u8> {
    be32(field32(content.len() + 8int)) + be32(kind) + content
}

/// A box whose content starts with a version and 24 bits of flags.
pub open spec fn mp4_full_box(kind: u32, version: u8, flags: u32, content: Seq<u8>) -> Seq<u8> {
    be32(field32(content.len() + 12int)) + be32(kind) + (seq![version] + be24(flags)) + content
}

fn size_field(len: usize, header: u64) -> (r: u32)
    requires
        header <= 12,
    ensures
        r == field32(len + header),
{
    let len64: u64 = len as u64;
    (((len64 % 0x1_0000_0000) + header) % 0x1_0000_0000) as u32
}

fn write_box(buf: &mut BytesMut, kind: u32, content: &[u8])
    ensures
        buf_seq(*final(buf)) == buf_seq(*old(buf)) + mp4_box(kind, content@),
{
    buf_put_u32(buf, size_field(content.len(), 8));
    buf_put_u32(buf, kind);
    buf_extend(buf, content);
    assert(buf_seq(*buf) =~= buf_seq(*old(buf)) + mp4_box(kind, content@));
}

fn write_full_box(buf: &mut BytesMut, kind: u32, version: u8, flags: u32, content: &[u8])
    ensures
        buf_seq(*final(buf)) == buf_seq(*old(buf)) + mp4_full_box(kind, version, flags, content@),
{
    buf_put_u32(buf, size_field(content.len(), 12));
    buf_put_u32(buf, kind);
    buf_put_u8(buf, version);
    buf_put_u8(buf, (flags / 0x10000 % 0x100) as u8);
    buf_put_u8(buf, (flags / 0x100 % 0x100) as u8);
    buf_put_u8(buf, (flags % 0x100) as u8);
    buf_extend(buf, content);
    assert(buf_seq(*buf) =~= buf_seq(*old(buf)) + mp4_full_box(kind, version, flags, content@));
}

/// A buffer that holds the four bytes of `n`.
fn start_u32(n: u32) -> (r: BytesMut)
    ensures
        buf_seq(r) == be32(n),
{
    let mut b = buf_new();
    buf_put_u32(&mut b, n);
    assert(buf_seq(b) =~= be32(n));
    b
}

/// A buffer that holds one byte.
fn start_u8(n: u8) -> (r: BytesMut)
    ensures
        buf_seq(r) == seq![n],
{
    let mut b = buf_new();
    buf_put_u8(&mut b, n);
    assert(buf_seq(b) =~= seq![n]);
    b
}

/// A buffer that holds `n` zero bytes.
fn start_zeros(n: usize) -> (r: BytesMut)
    ensures
        buf_seq(r) == zeros(n as nat),
{
    let mut b = buf_new();
    buf_put_zeros(&mut b, n);
    assert(buf_seq(b) =~= zeros(n as nat));
    b
}

// ---------------------------------------------------------------------------
// Initialization segment
// ---------------------------------------------------------------------------

/// What an initialization segment is made from.
#[derive(Debug)]
pub struct InitSegmentParams {
    pub width: u32,
    pub height: u32,
    pub video_timescale: u32,
    pub audio_timescale: u32,
    pub sps: Bytes,
    pub pps: Bytes,
    pub audio_specific_config: Option<Bytes>,
    pub has_audio: bool,
}

/// What an initialization segment says.
#[verifier::ext_equal]
pub struct InitModel {
    pub width: u32,
    pub height: u32,
    pub video_timescale: u32,
    pub audio_timescale: u32,
    pub sps: Seq<u8>,
    pub pps: Seq<u8>,
    pub audio_specific_config: Option<Seq<u8>>,
    pub has_audio: bool,
}

impl View for InitSegmentParams {
    type V = InitModel;

    open spec fn view(&self) -> InitModel {
        InitModel {
            width: self.width,
            height: self.height,
            video_timescale: self.video_timescale,
            audio_timescale: self.audio_timescale,
            sps: bytes_seq(self.sps),
            pps: bytes_seq(self.pps),
            audio_specific_config: match self.audio_specific_config {
                Some(b) => Some(bytes_seq(b)),
                None => None,
            },
            has_audio: self.has_audio,
        }
    }
}

/// The file type: major brand "isom", version 0x200, compatible with "isom", "iso6" and "mp41".
pub open spec fn ftyp_box() -> Seq<u8> {
    mp4_box(FTYP, ftyp_content())
}

/// Five four-byte brands and numbers.
#[verifier::opaque]
pub open spec fn ftyp_content() -> Seq<u8> {
    be32(ISOM) + be32(0x200) + be32(ISOM) + be32(ISO6) + be32(MP41)
}

/// The identity transformation matrix.
pub open spec fn identity_matrix() -> Seq<u8> {
    be32(0x00010000) + be32(0) + be32(0) + be32(0) + be32(0x00010000) + be32(0) + be32(0) + be32(0)
        + be32(0x40000000)
}

/// The movie header: creation and modification time 0, the timescale, unknown duration, rate and
/// volume 1, the identity matrix and the next track number.
pub open spec fn mvhd_box(timescale: u32) -> Seq<u8> {
    mp4_full_box(
        MVHD,
        0,
        0,
        be32(0) + be32(0) + be32(timescale) + be32(0) + be32(0x00010000) + be16(0x0100) + zeros(10)
            + identity_matrix() + zeros(24) + be32(2),
    )
}

/// A track header: enabled and in the movie, with volume 1 for audio, and width and height in
/// 16.16 fixed point.
pub open spec fn tkhd_box(track_id: u32, width: u32, height: u32, is_video: bool) -> Seq<u8> {
    mp4_full_box(
        TKHD,
        0,
        3,
        be32(0) + be32(0) + be32(track_id) + be32(0) + be32(0) + zeros(8) + be16(0) + be16(0)
            + be16(
            if is_video {
                0
            } else {
                0x0100
            },
        ) + be16(0) + identity_matrix() + be32(field32(width * 0x10000)) + be32(
            field32(height * 0x10000),
        ),
    )
}

/// The header of a track's media: timescale, language "und".
pub open spec fn mdhd_box(timescale: u32) -> Seq<u8> {
    mp4_full_box(
        MDHD,
        0,
        0,
        be32(0) + be32(0) + be32(timescale) + be32(0) + be16(0x55C4) + be16(0),
    )
}

/// The handler of a track: its type and its name, ended by a zero byte.
pub open spec fn hdlr_box(handler: u32, name: Seq<char>) -> Seq<u8> {
    mp4_full_box(HDLR, 0, 0, be32(0) + be32(handler) + zeros(12) + encode_utf8(name) + seq![0u8])
}

/// The video media header.
pub open spec fn vmhd_box() -> Seq<u8> {
    mp4_full_box(VMHD, 0, 1, zeros(8))
}

/// The sound media header.
pub open spec fn smhd_box() -> Seq<u8> {
    mp4_full_box(SMHD, 0, 0, zeros(4))
}

/// The data reference: one entry, the file itself.
pub open spec fn dinf_box() -> Seq<u8> {
    mp4_box(
        DINF,
        mp4_full_box(DREF, 0, 0, be32(1) + mp4_full_box(URL, 0, 1, Seq::<u8>::empty())),
    )
}

/// Byte `i` of the sequence parameter set, or a default where it is too short.
pub open spec fn sps_byte(sps: Seq<u8>, i: int, default: u8) -> u8 {
    if sps.len() > i {
        sps[i]
    } else {
        default
    }
}

/// The decoder configuration record: profile, compatibility and level out of the sequence
/// parameter set, 4-byte unit lengths, and both parameter sets.
pub open spec fn avcc_box(sps: Seq<u8>, pps: Seq<u8>) -> Seq<u8> {
    mp4_box(
        AVCC,
        seq![1u8].push(sps_byte(sps, 1, 100)).push(sps_byte(sps, 2, 0)).push(
            sps_byte(sps, 3, 41),
        ).push(0xFF).push(0xE1) + be16(field16(sps.len() as int)) + sps + seq![1u8] + be16(
            field16(pps.len() as int),
        ) + pps,
    )
}

/// The sample entry of an H.264 track.
pub open spec fn avc1_box(p: InitModel) -> Seq<u8> {
    mp4_box(
        AVC1,
        zeros(6) + be16(1) + zeros(16) + be16(field16(p.width as int)) + be16(
            field16(p.height as int),
        ) + be32(0x00480000) + be32(0x00480000) + be32(0) + be16(1) + zeros(32) + be16(0x0018)
            + be16(0xFFFF) + avcc_box(p.sps, p.pps),
    )
}

/// The sample table of a fragmented track: one sample entry, and no samples.
pub open spec fn stbl_box(entry: Seq<u8>) -> Seq<u8> {
    mp4_box(
        STBL,
        mp4_full_box(STSD, 0, 0, be32(1) + entry) + mp4_full_box(STTS, 0, 0, be32(0))
            + mp4_full_box(STSC, 0, 0, be32(0)) + mp4_full_box(STSZ, 0, 0, zeros(8))
            + mp4_full_box(STCO, 0, 0, be32(0)),
    )
}

/// The elementary stream descriptor that carries an AudioSpecificConfig.
pub open spec fn esds_box(asc: Seq<u8>) -> Seq<u8> {
    mp4_full_box(
        ESDS,
        0,
        0,
        (seq![0x03u8].push(field8(23int + asc.len())) + be16(1)).push(0).push(0x04).push(
            field8(15int + asc.len()),
        ).push(0x40).push(0x15).push(0).push(0).push(0).add(be32(128000)).add(be32(128000)).push(
            0x05,
        ).push(field8(0int + asc.len())).add(asc).push(0x06).push(1).push(0x02),
    )
}

/// The sample entry of an AAC track: stereo, 16 bits, the sample rate in 16.16 fixed point, and
/// the stream descriptor where there is a configuration.
pub open spec fn mp4a_box(p: InitModel) -> Seq<u8> {
    mp4_box(
        MP4A,
        zeros(6) + be16(1) + zeros(8) + be16(2) + be16(16) + be16(0) + be16(0) + be32(
            field32(p.audio_timescale * 0x10000),
        ) + match p.audio_specific_config {
            Some(asc) => esds_box(asc),
            None => Seq::<u8>::empty(),
        },
    )
}

/// The video track.
pub open spec fn video_trak_box(p: InitModel) -> Seq<u8> {
    mp4_box(
        TRAK,
        tkhd_box(1, p.width, p.height, true) + mp4_box(
            MDIA,
            mdhd_box(p.video_timescale) + hdlr_box(VIDE, "VideoHandler"@) + mp4_box(
                MINF,
                vmhd_box() + dinf_box() + stbl_box(avc1_box(p)),
            ),
        ),
    )
}

/// The audio track.
pub open spec fn audio_trak_box(p: InitModel) -> Seq<u8> {
    mp4_box(
        TRAK,
        tkhd_box(2, 0, 0, false) + mp4_box(
            MDIA,
            mdhd_box(p.audio_timescale) + hdlr_box(SOUN, "SoundHandler"@) + mp4_box(
                MINF,
                smhd_box() + dinf_box() + stbl_box(mp4a_box(p)),
            ),
        ),
    )
}

/// The defaults of one track's fragments.
pub open spec fn trex_box(track_id: u32) -> Seq<u8> {
    mp4_full_box(TREX, 0, 0, be32(track_id) + be32(1) + be32(0) + be32(0) + be32(0))
}

/// The defaults of all tracks.
pub open spec fn mvex_box(has_audio: bool) -> Seq<u8> {
    mp4_box(
        MVEX,
        trex_box(1) + if has_audio {
            trex_box(2)
        } else {
            Seq::<u8>::empty()
        },
    )
}

/// What stands inside the movie box.
#[verifier::opaque]
pub open spec fn moov_content(p: InitModel) -> Seq<u8> {
    mvhd_box(p.video_timescale) + video_trak_box(p) + (if p.has_audio {
        audio_trak_box(p)
    } else {
        Seq::<u8>::empty()
    }) + mvex_box(p.has_audio)
}

/// The initialization segment: file type, then the movie box.
pub open spec fn init_segment(p: InitModel) -> Seq<u8> {
    ftyp_box() + mp4_box(MOOV, moov_content(p))
}

/// Generates the initialization segment of a rendition.
pub fn generate_init_segment(params: &InitSegmentParams) -> (r: Result<Bytes, PackageError>)
    ensures
        r is Ok,
        bytes_seq(r->Ok_0) == init_segment(params@),
{
    let mut buf = buf_new();
    write_ftyp(&mut buf);
    let moov = build_moov(params);
    buf_extend(&mut buf, buf_slice(&moov));
    assert(buf_seq(buf) =~= init_segment(params@));
    Ok(buf_freeze(buf))
}

fn write_ftyp(buf: &mut BytesMut)
    ensures
        buf_seq(*final(buf)) == buf_seq(*old(buf)) + ftyp_box(),
{
    let mut content = start_u32(ISOM);
    buf_put_u32(&mut content, 0x200);
    buf_put_u32(&mut content, ISOM);
    buf_put_u32(&mut content, ISO6);
    buf_put_u32(&mut content, MP41);
    proof {
        reveal(ftyp_content);
    }
    write_box(buf, FTYP, buf_slice(&content));
}

fn build_moov(params: &InitSegmentParams) -> (r: BytesMut)
    ensures
        buf_seq(r) == mp4_box(MOOV, moov_content(params@)),
{
    let mut content = buf_new();
    build_mvhd(&mut content, params.video_timescale);
    assert(buf_seq(content) =~= mvhd_box(params.video_timescale));
    build_video_trak(&mut content, params);
    let ghost tracks = buf_seq(content);
    if params.has_audio {
        build_audio_trak(&mut content, params);
    } else {
        assert(tracks =~= tracks + Seq::<u8>::empty());
    }
    build_mvex(&mut content, params.has_audio);
    proof {
        reveal(moov_content);
    }
    let mut buf = buf_new();
    write_box(&mut buf, MOOV, buf_slice(&content));
    assert(buf_seq(buf) =~= mp4_box(MOOV, moov_content(params@)));
    buf
}

fn put_identity_matrix(buf: &mut BytesMut)
    ensures
        buf_seq(*final(buf)) == buf_seq(*old(buf)) + identity_matrix(),
{
    buf_put_u32(buf, 0x00010000);
    buf_put_u32(buf, 0);
    buf_put_u32(buf, 0);
    buf_put_u32(buf, 0);
    buf_put_u32(buf, 0x00010000);
    buf_put_u32(buf, 0);
    buf_put_u32(buf, 0);
    buf_put_u32(buf, 0);
    buf_put_u32(buf, 0x40000000);
    assert(buf_seq(*buf) =~= buf_seq(*old(buf)) + identity_matrix());
}

fn build_mvhd(buf: &mut BytesMut, timescale: u32)
    ensures
        buf_seq(*final(buf)) == buf_seq(*old(buf)) + mvhd_box(timescale),
{
    let mut content = start_u32(0);
    buf_put_u32(&mut content, 0);
    buf_put_u32(&mut content, timescale);
    buf_put_u32(&mut content, 0);
    buf_put_u32(&mut content, 0x00010000);
    buf_put_u16(&mut content, 0x0100);
    buf_put_zeros(&mut content, 10);
    put_identity_matrix(&mut content);
    buf_put_zeros(&mut content, 24);
    buf_put_u32(&mut content, 2);
    write_full_box(buf, MVHD, 0, 0, buf_slice(&content));
}

fn build_video_trak(buf: &mut BytesMut, params: &InitSegmentParams)
    ensures
        buf_seq(*final(buf)) == buf_seq(*old(buf)) + video_trak_box(params@),
{
    let mut trak = buf_new();
    build_tkhd(&mut trak, 1, params.width, params.height, true);
    assert(buf_seq(trak) =~= tkhd_box(1, params.width, params.height, true));
    let mut mdia = buf_new();
    build_mdhd(&mut mdia, params.video_timescale);
    assert(buf_seq(mdia) =~= mdhd_box(params.video_timescale));
    build_hdlr(&mut mdia, VIDE, "VideoHandler");
    let mut minf = buf_new();
    build_vmhd(&mut minf);
    assert(buf_seq(minf) =~= vmhd_box());
    build_dinf(&mut minf);
    build_video_stbl(&mut minf, params);
    write_box(&mut mdia, MINF, buf_slice(&minf));
    write_box(&mut trak, MDIA, buf_slice(&mdia));
    write_box(buf, TRAK, buf_slice(&trak));
}

fn build_audio_trak(buf: &mut BytesMut, params: &InitSegmentParams)
    ensures
        buf_seq(*final(buf)) == buf_seq(*old(buf)) + audio_trak_box(params@),
{
    let mut trak = buf_new();
    build_tkhd(&mut trak, 2, 0, 0, false);
    assert(buf_seq(trak) =~= tkhd_box(2, 0, 0, false));
    let mut mdia = buf_new();
    build_mdhd(&mut mdia, params.audio_timescale);
    assert(buf_seq(mdia) =~= mdhd_box(params.audio_timescale));
    build_hdlr(&mut mdia, SOUN, "SoundHandler");
    let mut minf = buf_new();
    build_smhd(&mut minf);
    assert(buf_seq(minf) =~= smhd_box());
    build_dinf(&mut minf);
    build_audio_stbl(&mut minf, params);
    write_box(&mut mdia, MINF, buf_slice(&minf));
    write_box(&mut trak, MDIA, buf_slice(&mdia));
    write_box(buf, TRAK, buf_slice(&trak));
}

/// A number in 16.16 fixed point.
fn fixed_point(n: u32) -> (r: u32)
    ensures
        r == field32(n * 0x10000),
{
    ((n % 0x10000) * 0x10000)
}

fn build_tkhd(buf: &mut BytesMut, track_id: u32, width: u32, height: u32, is_video: bool)
    ensures
        buf_seq(*final(buf)) == buf_seq(*old(buf)) + tkhd_box(track_id, width, height, is_video),
{
    let mut content = start_u32(0);
    buf_put_u32(&mut content, 0);
    buf_put_u32(&mut content, track_id);
    buf_put_u32(&mut content, 0);
    buf_put_u32(&mut content, 0);
    buf_put_zeros(&mut content, 8);
    buf_put_u16(&mut content, 0);
    buf_put_u16(&mut content, 0);
    buf_put_u16(
        &mut content,
        if is_video {
            0
        } else {
            0x0100
        },
    );
    buf_put_u16(&mut content, 0);
    put_identity_matrix(&mut content);
    buf_put_u32(&mut content, fixed_point(width));
    buf_put_u32(&mut content, fixed_point(height));
    write_full_box(buf, TKHD, 0, 3, buf_slice(&content));
}

fn build_mdhd(buf: &mut BytesMut, timescale: u32)
    ensures
        buf_seq(*final(buf)) == buf_seq(*old(buf)) + mdhd_box(timescale),
{
    let mut content = start_u32(0);
    buf_put_u32(&mut content, 0);
    buf_put_u32(&mut content, timescale);
    buf_put_u32(&mut content, 0);
    buf_put_u16(&mut content, 0x55C4);
    buf_put_u16(&mut content, 0);
    write_full_box(buf, MDHD, 0, 0, buf_slice(&content));
}

fn build_hdlr(buf: &mut BytesMut, handler: u32, name: &str)
    ensures
        buf_seq(*final(buf)) == buf_seq(*old(buf)) + hdlr_box(handler, name@),
{
    let mut content = start_u32(0);
    buf_put_u32(&mut content, handler);
    buf_put_zeros(&mut content, 12);
    buf_extend(&mut content, name.as_bytes());
    let ghost before = buf_seq(content);
    buf_put_u8(&mut content, 0);
    assert(buf_seq(content) =~= before + seq![0u8]);
    write_full_box(buf, HDLR, 0, 0, buf_slice(&content));
}

fn build_vmhd(buf: &mut BytesMut)
    ensures
        buf_seq(*final(buf)) == buf_seq(*old(buf)) + vmhd_box(),
{
    let content = start_zeros(8);
    write_full_box(buf, VMHD, 0, 1, buf_slice(&content));
}

fn build_smhd(buf: &mut BytesMut)
    ensures
        buf_seq(*final(buf)) == buf_seq(*old(buf)) + smhd_box(),
{
    let content = start_zeros(4);
    write_full_box(buf, SMHD, 0, 0, buf_slice(&content));
}

fn build_dinf(buf: &mut BytesMut)
    ensures
        buf_seq(*final(buf)) == buf_seq(*old(buf)) + dinf_box(),
{
    let nothing = buf_new();
    let mut dref = start_u32(1);
    write_full_box(&mut dref, URL, 0, 1, buf_slice(&nothing));
    let mut dinf = buf_new();
    write_full_box(&mut dinf, DREF, 0, 0, buf_slice(&dref));
    assert(buf_seq(dinf) =~= mp4_full_box(DREF, 0, 0, buf_seq(dref)));
    write_box(buf, DINF, buf_slice(&dinf));
}

fn build_stbl(buf: &mut BytesMut, stsd: &BytesMut, entry: Ghost<Seq<u8>>)
    requires
        buf_seq(*stsd) == be32(1) + entry@,
    ensures
        buf_seq(*final(buf)) == buf_seq(*old(buf)) + stbl_box(entry@),
{
    let empty = start_u32(0);
    let no_sizes = start_zeros(8);
    let mut stbl = buf_new();
    write_full_box(&mut stbl, STSD, 0, 0, buf_slice(stsd));
    assert(buf_seq(stbl) =~= mp4_full_box(STSD, 0, 0, buf_seq(*stsd)));
    write_full_box(&mut stbl, STTS, 0, 0, buf_slice(&empty));
    write_full_box(&mut stbl, STSC, 0, 0, buf_slice(&empty));
    write_full_box(&mut stbl, STSZ, 0, 0, buf_slice(&no_sizes));
    write_full_box(&mut stbl, STCO, 0, 0, buf_slice(&empty));
    write_box(buf, STBL, buf_slice(&stbl));
}

fn build_video_stbl(buf: &mut BytesMut, params: &InitSegmentParams)
    ensures
        buf_seq(*final(buf)) == buf_seq(*old(buf)) + stbl_box(avc1_box(params@)),
{
    let mut stsd = start_u32(1);
    build_avc1_entry(&mut stsd, params);
    build_stbl(buf, &stsd, Ghost(avc1_box(params@)));
}

fn byte_or(s: &[u8], i: usize, default: u8) -> (r: u8)
    ensures
        r == sps_byte(s@, i as int, default),
{
    if s.len() > i {
        s[i]
    } else {
        default
    }
}

fn build_avcc(buf: &mut BytesMut, sps: &[u8], pps: &[u8])
    ensures
        buf_seq(*final(buf)) == buf_seq(*old(buf)) + avcc_box(sps@, pps@),
{
    let mut content = start_u8(1);
    buf_put_u8(&mut content, byte_or(sps, 1, 100));
    buf_put_u8(&mut content, byte_or(sps, 2, 0));
    buf_put_u8(&mut content, byte_or(sps, 3, 41));
    buf_put_u8(&mut content, 0xFF);
    buf_put_u8(&mut content, 0xE1);
    buf_put_u16(&mut content, (sps.len() % 0x10000) as u16);
    buf_extend(&mut content, sps);
    let ghost before = buf_seq(content);
    buf_put_u8(&mut content, 1);
    assert(buf_seq(content) =~= before + seq![1u8]);
    buf_put_u16(&mut content, (pps.len() % 0x10000) as u16);
    buf_extend(&mut content, pps);
    write_box(buf, AVCC, buf_slice(&content));
}

fn build_avc1_entry(buf: &mut BytesMut, params: &InitSegmentParams)
    ensures
        buf_seq(*final(buf)) == buf_seq(*old(buf)) + avc1_box(params@),
{
    let mut content = start_zeros(6);
    buf_put_u16(&mut content, 1);
    buf_put_zeros(&mut content, 16);
    buf_put_u16(&mut content, (params.width % 0x10000) as u16);
    buf_put_u16(&mut content, (params.height % 0x10000) as u16);
    buf_put_u32(&mut content, 0x00480000);
    buf_put_u32(&mut content, 0x00480000);
    buf_put_u32(&mut content, 0);
    buf_put_u16(&mut content, 1);
    buf_put_zeros(&mut content, 32);
    buf_put_u16(&mut content, 0x0018);
    buf_put_u16(&mut content, 0xFFFF);
    build_avcc(&mut content, bytes_slice(&params.sps), bytes_slice(&params.pps));
    write_box(buf, AVC1, buf_slice(&content));
}

fn build_audio_stbl(buf: &mut BytesMut, params: &InitSegmentParams)
    ensures
        buf_seq(*final(buf)) == buf_seq(*old(buf)) + stbl_box(mp4a_box(params@)),
{
    let mut stsd = start_u32(1);
    build_mp4a_entry(&mut stsd, params);
    build_stbl(buf, &stsd, Ghost(mp4a_box(params@)));
}

fn length_byte(len: usize, extra: usize) -> (r: u8)
    requires
        extra < 0x100,
    ensures
        r == field8(extra + len),
{
    ((len % 0x100 + extra) % 0x100) as u8
}

fn build_esds(buf: &mut BytesMut, asc: &[u8])
    ensures
        buf_seq(*final(buf)) == buf_seq(*old(buf)) + esds_box(asc@),
{
    let mut content = start_u8(0x03);
    buf_put_u8(&mut content, length_byte(asc.len(), 23));
    buf_put_u16(&mut content, 1);
    buf_put_u8(&mut content, 0);
    buf_put_u8(&mut content, 0x04);
    buf_put_u8(&mut content, length_byte(asc.len(), 15));
    buf_put_u8(&mut content, 0x40);
    buf_put_u8(&mut content, 0x15);
    buf_put_u8(&mut content, 0);
    buf_put_u8(&mut content, 0);
    buf_put_u8(&mut content, 0);
    buf_put_u32(&mut content, 128000);
    buf_put_u32(&mut content, 128000);
    buf_put_u8(&mut content, 0x05);
    buf_put_u8(&mut content, length_byte(asc.len(), 0));
    buf_extend(&mut content, asc);
    buf_put_u8(&mut content, 0x06);
    buf_put_u8(&mut content, 1);
    buf_put_u8(&mut content, 0x02);
    write_full_box(buf, ESDS, 0, 0, buf_slice(&content));
}

fn build_mp4a_entry(buf: &mut BytesMut, params: &InitSegmentParams)
    ensures
        buf_seq(*final(buf)) == buf_seq(*old(buf)) + mp4a_box(params@),
{
    let mut content = start_zeros(6);
    buf_put_u16(&mut content, 1);
    buf_put_zeros(&mut content, 8);
    buf_put_u16(&mut content, 2);
    buf_put_u16(&mut content, 16);
    buf_put_u16(&mut content, 0);
    buf_put_u16(&mut content, 0);
    buf_put_u32(&mut content, fixed_point(params.audio_timescale));
    let ghost before = buf_seq(content);
    match &params.audio_specific_config {
        Some(asc) => {
            build_esds(&mut content, bytes_slice(asc));
        },
        None => {
            assert(before =~= before + Seq::<u8>::empty());
        },
    }
    write_box(buf, MP4A, buf_slice(&content));
}

fn build_mvex(buf: &mut BytesMut, has_audio: bool)
    ensures
        buf_seq(*final(buf)) == buf_seq(*old(buf)) + mvex_box(has_audio),
{
    let mut content = buf_new();
    build_trex(&mut content, 1);
    assert(buf_seq(content) =~= trex_box(1));
    if has_audio {
        build_trex(&mut content, 2);
    } else {
        assert(trex_box(1) =~= trex_box(1) + Seq::<u8>::empty());
    }
    write_box(buf, MVEX, buf_slice(&content));
}

fn build_trex(buf: &mut BytesMut, track_id: u32)
    ensures
        buf_seq(*final(buf)) == buf_seq(*old(buf)) + trex_box(track_id),
{
    let mut content = start_u32(track_id);
    buf_put_u32(&mut content, 1);
    buf_put_u32(&mut content, 0);
    buf_put_u32(&mut content, 0);
    buf_put_u32(&mut content, 0);
    write_full_box(buf, TREX, 0, 0, buf_slice(&content));
}

// ---------------------------------------------------------------------------
// Media segment
// ---------------------------------------------------------------------------

/// What a media segment is made from.
#[derive(Debug)]
pub struct MediaSegmentParams {
    pub sequence_number: u64,
    pub base_decode_time: i64,
    pub samples: Vec<SampleInfo>,
    pub media_data: Bytes,
    pub track_id: u32,
}

/// One sample of a segment.
#[derive(Debug, Clone, Copy, PartialEq, Eq, Structural)]
pub struct SampleInfo {
    pub duration: u32,
    pub size: u32,
    pub flags: u32,
    pub composition_offset: i32,
}

/// What a media segment says.
#[verifier::ext_equal]
pub struct MediaModel {
    pub sequence_number: u64,
    pub base_decode_time: i64,
    pub samples: Seq<SampleInfo>,
    pub media_data: Seq<u8>,
    pub track_id: u32,
}

impl View for MediaSegmentParams {
    type V = MediaModel;

    open spec fn view(&self) -> MediaModel {
        MediaModel {
            sequence_number: self.sequence_number,
            base_decode_time: self.base_decode_time,
            samples: self.samples@,
            media_data: bytes_seq(self.media_data),
            track_id: self.track_id,
        }
    }
}

/// The segment type: major brand "msdh", compatible with "msdh" and "msix".
pub open spec fn styp_box() -> Seq<u8> {
    mp4_box(STYP, styp_content())
}

/// Four four-byte brands and numbers.
#[verifier::opaque]
pub open spec fn styp_content() -> Seq<u8> {
    be32(MSDH) + be32(0) + be32(MSDH) + be32(MSIX)
}

proof fn lemma_brand_lengths()
    ensures
        ftyp_content().len() == 20,
        styp_content().len() == 16,
{
    reveal(ftyp_content);
    reveal(styp_content);
}

/// The run entry of one sample.
pub open spec fn sample_entry(s: SampleInfo) -> Seq<u8> {
    be32(s.duration) + be32(s.size) + be32(s.flags) + be32(s.composition_offset as u32)
}

/// The run entries of all samples.
pub open spec fn sample_entries(samples: Seq<SampleInfo>) -> Seq<u8>
    decreases samples.len(),
{
    if samples.len() == 0 {
        Seq::<u8>::empty()
    } else {
        sample_entries(samples.drop_last()) + sample_entry(samples.last())
    }
}

/// The track run: data offset, duration, size, flags and composition offset of each sample are
/// present; the data offset is written as 0.
pub open spec fn trun_box(samples: Seq<SampleInfo>) -> Seq<u8> {
    mp4_full_box(
        TRUN,
        0,
        0xF01,
        be32(field32(samples.len() as int)) + be32(0) + sample_entries(samples),
    )
}

/// What stands inside the movie fragment box.
#[verifier::opaque]
pub open spec fn moof_content(p: MediaModel) -> Seq<u8> {
    mp4_full_box(MFHD, 0, 0, be32(field32(p.sequence_number as int))) + mp4_box(
        TRAF,
        mp4_full_box(TFHD, 0, 0x020000, be32(p.track_id)) + mp4_full_box(
            TFDT,
            1,
            0,
            be64(p.base_decode_time as u64),
        ) + trun_box(p.samples),
    )
}

/// The media segment: segment type, movie fragment, media data.
pub open spec fn media_segment(p: MediaModel) -> Seq<u8> {
    styp_box() + mp4_box(MOOF, moof_content(p)) + mp4_box(MDAT, p.media_data)
}

/// Generates a media segment.
pub fn generate_media_segment(params: &MediaSegmentParams) -> (r: Result<Bytes, PackageError>)
    ensures
        r is Ok,
        bytes_seq(r->Ok_0) == media_segment(params@),
{
    let mut buf = buf_new();
    write_styp(&mut buf);
    assert(buf_seq(buf) =~= styp_box());
    let moof = build_moof(params);
    buf_extend(&mut buf, buf_slice(&moof));
    write_box(&mut buf, MDAT, bytes_slice(&params.media_data));
    Ok(buf_freeze(buf))
}

fn write_styp(buf: &mut BytesMut)
    ensures
        buf_seq(*final(buf)) == buf_seq(*old(buf)) + styp_box(),
{
    let mut content = start_u32(MSDH);
    buf_put_u32(&mut content, 0);
    buf_put_u32(&mut content, MSDH);
    buf_put_u32(&mut content, MSIX);
    proof {
        reveal(styp_content);
    }
    write_box(buf, STYP, buf_slice(&content));
}

fn build_moof(params: &MediaSegmentParams) -> (r: BytesMut)
    ensures
        buf_seq(r) == mp4_box(MOOF, moof_content(params@)),
{
    let mfhd = start_u32((params.sequence_number % 0x1_0000_0000) as u32);
    let mut moof = buf_new();
    write_full_box(&mut moof, MFHD, 0, 0, buf_slice(&mfhd));
    assert(buf_seq(moof) =~= mp4_full_box(MFHD, 0, 0, buf_seq(mfhd)));
    let tfhd = start_u32(params.track_id);
    let mut traf = buf_new();
    write_full_box(&mut traf, TFHD, 0, 0x020000, buf_slice(&tfhd));
    assert(buf_seq(traf) =~= mp4_full_box(TFHD, 0, 0x020000, buf_seq(tfhd)));
    let mut tfdt = buf_new();
    buf_put_i64(&mut tfdt, params.base_decode_time);
    assert(buf_seq(tfdt) =~= be64(params.base_decode_time as u64));
    write_full_box(&mut traf, TFDT, 1, 0, buf_slice(&tfdt));
    build_trun(&mut traf, &params.samples);
    write_box(&mut moof, TRAF, buf_slice(&traf));
    proof {
        reveal(moof_content);
    }
    let mut buf = buf_new();
    write_box(&mut buf, MOOF, buf_slice(&moof));
    assert(buf_seq(buf) =~= mp4_box(MOOF, moof_content(params@)));
    buf
}

fn build_trun(buf: &mut BytesMut, samples: &Vec<SampleInfo>)
    ensures
        buf_seq(*final(buf)) == buf_seq(*old(buf)) + trun_box(samples@),
{
    let count: u64 = samples.len() as u64;
    let mut content = start_u32((count % 0x1_0000_0000) as u32);
    buf_put_u32(&mut content, 0);
    let ghost head = buf_seq(content);
    let mut i: usize = 0;
    assert(samples@.subrange(0, 0) =~= Seq::<SampleInfo>::empty());
    assert(buf_seq(content) =~= head + sample_entries(samples@.subrange(0, 0)));
    while i < samples.len()
        invariant
            i <= samples@.len(),
            buf_seq(content) == head + sample_entries(samples@.subrange(0, i as int)),
        decreases samples@.len() - i,
    {
        let ghost before = buf_seq(content);
        let s = samples[i];
        buf_put_u32(&mut content, s.duration);
        buf_put_u32(&mut content, s.size);
        buf_put_u32(&mut content, s.flags);
        buf_put_i32(&mut content, s.composition_offset);
        assert(buf_seq(content) =~= before + sample_entry(s));
        let ghost next = samples@.subrange(0, i + 1);
        assert(next.drop_last() =~= samples@.subrange(0, i as int));
        assert(buf_seq(content) =~= head + sample_entries(next));
        i = i + 1;
    }
    assert(samples@.subrange(0, i as int) =~= samples@);
    write_full_box(buf, TRUN, 0, 0xF01, buf_slice(&content));
}

// ---------------------------------------------------------------------------
// Reading boxes back
// ---------------------------------------------------------------------------

/// The number that four bytes write, most significant first.
pub open spec fn be32_value(s: Seq<u8>, at: int) -> int {
    s[at] * 0x1000000 + s[at + 1] * 0x10000 + s[at + 2] * 0x100 + s[at + 3]
}

/// The boxes that stand one after the other in `s`, each with its kind and its content; `None`
/// if `s` is not made of whole boxes.
pub open spec fn read_boxes(s: Seq<u8>) -> Option<Seq<(u32, Seq<u8>)>>
    decreases s.len(),
{
    if s.len() == 0 {
        Some(Seq::empty())
    } else if s.len() < 8 {
        None
    } else {
        let size = be32_value(s, 0);
        if size < 8 || size > s.len() {
            None
        } else {
            match read_boxes(s.subrange(size, s.len() as int)) {
                None => None,
                Some(rest) => Some(
                    seq![(be32_value(s, 4) as u32, s.subrange(8, size))] + rest,
                ),
            }
        }
    }
}

proof fn lemma_be32_value(n: u32)
    ensures
        be32_value(be32(n), 0) == n,
{
}

/// A box that is short enough for its size field is read back whole, and reading goes on behind
/// it.
pub proof fn box_reads_back(kind: u32, content: Seq<u8>, rest: Seq<u8>)
    requires
        content.len() + 8 < 0x1_0000_0000,
        read_boxes(rest) is Some,
    ensures
        read_boxes(mp4_box(kind, content) + rest) == Some(
            seq![(kind, content)] + read_boxes(rest)->0,
        ),
{
    let s = mp4_box(kind, content) + rest;
    let size = field32(content.len() + 8int);
    lemma_be32_value(size);
    lemma_be32_value(kind);
    assert(be32_value(s, 0) == be32_value(be32(size), 0));
    assert(be32_value(s, 4) == be32_value(be32(kind), 0));
    assert(s.subrange(size as int, s.len() as int) =~= rest);
    assert(s.subrange(8, size as int) =~= content);
}

proof fn lemma_two_boxes(k1: u32, c1: Seq<u8>, k2: u32, c2: Seq<u8>, rest: Seq<u8>)
    requires
        c1.len() + 8 < 0x1_0000_0000,
        c2.len() + 8 < 0x1_0000_0000,
        read_boxes(rest) is Some,
    ensures
        read_boxes(mp4_box(k1, c1) + (mp4_box(k2, c2) + rest)) == Some(
            seq![(k1, c1), (k2, c2)] + read_boxes(rest)->0,
        ),
{
    box_reads_back(k2, c2, rest);
    box_reads_back(k1, c1, mp4_box(k2, c2) + rest);
    let tail = read_boxes(rest)->0;
    assert(seq![(k1, c1)] + (seq![(k2, c2)] + tail) =~= seq![(k1, c1), (k2, c2)] + tail);
}

/// An initialization segment reads back as a file type box and a movie box.
pub proof fn init_segment_reads_back(p: InitModel)
    requires
        moov_content(p).len() + 8 < 0x1_0000_0000,
    ensures
        read_boxes(init_segment(p)) == Some(
            seq![(FTYP, ftyp_content()), (MOOV, moov_content(p))],
        ),
{
    lemma_brand_lengths();
    let none = Seq::<u8>::empty();
    let moov = moov_content(p);
    lemma_two_boxes(FTYP, ftyp_content(), MOOV, moov, none);
    let boxes = seq![(FTYP, ftyp_content()), (MOOV, moov)];
    assert(boxes + Seq::<(u32, Seq<u8>)>::empty() =~= boxes);
    assert(mp4_box(MOOV, moov) + none =~= mp4_box(MOOV, moov));
}

/// A media segment reads back as a segment type box, a movie fragment box, and a media data box
/// that holds exactly the media data.
pub proof fn media_segment_reads_back(p: MediaModel)
    requires
        moof_content(p).len() + 8 < 0x1_0000_0000,
        p.media_data.len() + 8 < 0x1_0000_0000,
    ensures
        read_boxes(media_segment(p)) == Some(
            seq![
                (STYP, styp_content()),
                (MOOF, moof_content(p)),
                (MDAT, p.media_data),
            ],
        ),
{
    lemma_brand_lengths();
    let none = Seq::<u8>::empty();
    let data = p.media_data;
    let moof = moof_content(p);
    box_reads_back(MDAT, data, none);
    let mdat = mp4_box(MDAT, data);
    assert(mdat + none =~= mdat);
    lemma_two_boxes(STYP, styp_content(), MOOF, moof, mdat);
    assert(media_segment(p) =~= mp4_box(STYP, styp_content()) + (mp4_box(MOOF, moof) + mdat));
    let boxes = seq![(STYP, styp_content()), (MOOF, moof), (MDAT, data)];
    let none_left = Seq::<(u32, Seq<u8>)>::empty();
    assert(seq![(STYP, styp_content()), (MOOF, moof)] + (seq![(MDAT, data)] + none_left) =~= boxes);
}

} // verus!
