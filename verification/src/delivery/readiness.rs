//! Whether the service is ready: its checks, and how they are read.

use vstd::prelude::*;
use vstd::string::*;

use crate::text;
use crate::text::{decimal, number_failure, pieces, unsigned_value, views, words};

verus! {

/// Least free space of the upload directory: 10 GiB.
pub const READYZ_MIN_DISK_BYTES: u64 = 10_737_418_240;

/// The upload directory.
pub const READYZ_DISK_PATH: &'static str = "/tmp/streaminfa/uploads";

/// What the checks found: each is good, or tells what is wrong.
#[derive(Debug)]
pub struct ReadyChecks {
    pub storage: Result<(), String>,
    /// Milliseconds until storage answered.
    pub storage_latency_ms: u64,
    pub ffmpeg: Result<(), String>,
    /// The address at which the listener was reached.
    pub rtmp_listener: Result<String, String>,
    pub rtmp_port: u16,
    /// Free bytes of the upload directory.
    pub disk: Result<u64, String>,
    /// Whether requests of administrators need no token.
    pub auth_open_mode: bool,
}

/// A value in the answer of the readiness probe.
#[derive(Debug)]
pub enum ReadyValue {
    Text(String),
    Number(u64),
    /// A number of bytes, shown in GiB.
    Gib(u64),
}

/// What a value says.
#[verifier::ext_equal]
pub enum ReadyShown {
    Text(Seq<char>),
    Number(u64),
    Gib(u64),
}

impl View for ReadyValue {
    type V = ReadyShown;

    open spec fn view(&self) -> ReadyShown {
        match *self {
            ReadyValue::Text(s) => ReadyShown::Text(s@),
            ReadyValue::Number(n) => ReadyShown::Number(n),
            ReadyValue::Gib(n) => ReadyShown::Gib(n),
        }
    }
}

/// One check in the answer of the readiness probe: its name and its fields.
#[derive(Debug)]
pub struct ReadyCheck {
    pub name: &'static str,
    pub fields: Vec<(&'static str, ReadyValue)>,
}

/// What a check shows.
#[verifier::ext_equal]
pub struct CheckShown {
    pub name: Seq<char>,
    pub fields: Seq<(Seq<char>, ReadyShown)>,
}

/// What fields show.
pub open spec fn fields_shown(f: Seq<(&'static str, ReadyValue)>) -> Seq<(Seq<char>, ReadyShown)> {
    f.map_values(|x: (&'static str, ReadyValue)| (x.0@, x.1@))
}

impl View for ReadyCheck {
    type V = CheckShown;

    open spec fn view(&self) -> CheckShown {
        CheckShown { name: self.name@, fields: fields_shown(self.fields@) }
    }
}

/// The answer of the readiness probe.
#[derive(Debug)]
pub struct Readiness {
    pub http_status: u16,
    pub status: &'static str,
    pub checks: Vec<ReadyCheck>,
    pub auth_open_mode: bool,
}

/// What the checks of an answer show, in order.
pub open spec fn checks_shown(c: Seq<ReadyCheck>) -> Seq<CheckShown> {
    c.map_values(|x: ReadyCheck| x@)
}

/// There is room enough on disk.
pub open spec fn has_room(disk: Result<u64, String>) -> bool {
    disk matches Ok(b) && b >= READYZ_MIN_DISK_BYTES
}

/// Every check is good.
pub open spec fn all_good(c: ReadyChecks) -> bool {
    c.storage is Ok && c.ffmpeg is Ok && c.rtmp_listener is Ok && has_room(c.disk)
}

/// The field that tells whether a check is good.
pub open spec fn status_field(good: bool) -> (Seq<char>, ReadyShown) {
    (
        "status"@,
        ReadyShown::Text(
            if good {
                "ok"@
            } else {
                "error"@
            },
        ),
    )
}

/// The field that tells what is wrong.
pub open spec fn error_field(what: Seq<char>) -> (Seq<char>, ReadyShown) {
    ("error"@, ReadyShown::Text(what))
}

/// What is shown of storage.
pub open spec fn storage_shown(c: ReadyChecks) -> CheckShown {
    let fields = seq![
        status_field(c.storage is Ok),
        ("latency_ms"@, ReadyShown::Number(c.storage_latency_ms)),
    ];
    CheckShown {
        name: "storage"@,
        fields: match c.storage {
            Ok(_) => fields,
            Err(e) => fields.push(error_field(e@)),
        },
    }
}

/// What is shown of FFmpeg.
pub open spec fn ffmpeg_shown(c: ReadyChecks) -> CheckShown {
    let fields = seq![status_field(c.ffmpeg is Ok)];
    CheckShown {
        name: "ffmpeg"@,
        fields: match c.ffmpeg {
            Ok(_) => fields,
            Err(e) => fields.push(error_field(e@)),
        },
    }
}

/// What is shown of the RTMP listener.
pub open spec fn listener_shown(c: ReadyChecks) -> CheckShown {
    let fields = seq![
        status_field(c.rtmp_listener is Ok),
        ("port"@, ReadyShown::Number(c.rtmp_port as u64)),
    ];
    CheckShown {
        name: "rtmp_listener"@,
        fields: match c.rtmp_listener {
            Ok(address) => fields.push(("address"@, ReadyShown::Text(address@))),
            Err(e) => fields.push(error_field(e@)),
        },
    }
}

/// What is shown of the upload directory.
pub open spec fn disk_shown(c: ReadyChecks) -> CheckShown {
    let fields = seq![
        status_field(has_room(c.disk)),
        ("path"@, ReadyShown::Text(READYZ_DISK_PATH@)),
    ];
    CheckShown {
        name: "disk_space"@,
        fields: match c.disk {
            Ok(b) => {
                let sizes = fields.push(("available_gb"@, ReadyShown::Gib(b))).push(
                    ("min_required_gb"@, ReadyShown::Gib(READYZ_MIN_DISK_BYTES)),
                );
                if b >= READYZ_MIN_DISK_BYTES {
                    sizes
                } else {
                    sizes.push(error_field("insufficient disk space"@))
                }
            },
            Err(e) => fields.push(error_field(e@)),
        },
    }
}

fn put_field(fields: &mut Vec<(&'static str, ReadyValue)>, name: &'static str, value: ReadyValue)
    ensures
        fields_shown(final(fields)@) == fields_shown(old(fields)@).push((name@, value@)),
{
    fields.push((name, value));
    assert(fields_shown(fields@) =~= fields_shown(old(fields)@).push((name@, value@)));
}

fn begin(good: bool) -> (r: Vec<(&'static str, ReadyValue)>)
    ensures
        fields_shown(r@) == seq![status_field(good)],
{
    let mut fields: Vec<(&'static str, ReadyValue)> = Vec::new();
    let status = if good {
        "ok"
    } else {
        "error"
    };
    fields.push(("status", ReadyValue::Text(text::owned(status))));
    assert(fields_shown(fields@) =~= seq![status_field(good)]);
    fields
}

fn storage_check(c: &ReadyChecks) -> (r: ReadyCheck)
    ensures
        r@ == storage_shown(*c),
{
    let mut fields = begin(c.storage.is_ok());
    put_field(&mut fields, "latency_ms", ReadyValue::Number(c.storage_latency_ms));
    if let Err(e) = &c.storage {
        put_field(&mut fields, "error", ReadyValue::Text(e.clone()));
    }
    let r = ReadyCheck { name: "storage", fields };
    assert(r@ =~= storage_shown(*c));
    r
}

fn ffmpeg_check(c: &ReadyChecks) -> (r: ReadyCheck)
    ensures
        r@ == ffmpeg_shown(*c),
{
    let mut fields = begin(c.ffmpeg.is_ok());
    if let Err(e) = &c.ffmpeg {
        put_field(&mut fields, "error", ReadyValue::Text(e.clone()));
    }
    let r = ReadyCheck { name: "ffmpeg", fields };
    assert(r@ =~= ffmpeg_shown(*c));
    r
}

fn listener_check(c: &ReadyChecks) -> (r: ReadyCheck)
    ensures
        r@ == listener_shown(*c),
{
    let mut fields = begin(c.rtmp_listener.is_ok());
    put_field(&mut fields, "port", ReadyValue::Number(c.rtmp_port as u64));
    match &c.rtmp_listener {
        Ok(address) => {
            put_field(&mut fields, "address", ReadyValue::Text(address.clone()));
        },
        Err(e) => {
            put_field(&mut fields, "error", ReadyValue::Text(e.clone()));
        },
    }
    let r = ReadyCheck { name: "rtmp_listener", fields };
    assert(r@ =~= listener_shown(*c));
    r
}

fn disk_check(c: &ReadyChecks) -> (r: (ReadyCheck, bool))
    ensures
        r.0@ == disk_shown(*c),
        r.1 == has_room(c.disk),
{
    let good = match &c.disk {
        Ok(b) => *b >= READYZ_MIN_DISK_BYTES,
        Err(_) => false,
    };
    let mut fields = begin(good);
    put_field(&mut fields, "path", ReadyValue::Text(text::owned(READYZ_DISK_PATH)));
    match &c.disk {
        Ok(b) => {
            put_field(&mut fields, "available_gb", ReadyValue::Gib(*b));
            put_field(&mut fields, "min_required_gb", ReadyValue::Gib(READYZ_MIN_DISK_BYTES));
            if !good {
                put_field(
                    &mut fields,
                    "error",
                    ReadyValue::Text(text::owned("insufficient disk space")),
                );
            }
        },
        Err(e) => {
            put_field(&mut fields, "error", ReadyValue::Text(e.clone()));
        },
    }
    let r = ReadyCheck { name: "disk_space", fields };
    assert(r@ =~= disk_shown(*c));
    (r, good)
}

/// The answer of the readiness probe: the service is ready if and only if every check is good,
/// and the answer shows each check, and whether requests of administrators need no token.
pub fn readiness(checks: &ReadyChecks) -> (r: Readiness)
    ensures
        r.http_status == if all_good(*checks) {
            200u16
        } else {
            503u16
        },
        r.status@ == if all_good(*checks) {
            "ready"@
        } else {
            "not_ready"@
        },
        checks_shown(r.checks@) == seq![
            storage_shown(*checks),
            ffmpeg_shown(*checks),
            listener_shown(*checks),
            disk_shown(*checks),
        ],
        r.auth_open_mode == checks.auth_open_mode,
{
    let (disk, disk_ok) = disk_check(checks);
    let mut shown: Vec<ReadyCheck> = Vec::new();
    shown.push(storage_check(checks));
    shown.push(ffmpeg_check(checks));
    shown.push(listener_check(checks));
    shown.push(disk);
    assert(checks_shown(shown@) =~= seq![
        storage_shown(*checks),
        ffmpeg_shown(*checks),
        listener_shown(*checks),
        disk_shown(*checks),
    ]);
    let ready = checks.storage.is_ok() && checks.ffmpeg.is_ok() && checks.rtmp_listener.is_ok()
        && disk_ok;
    Readiness {
        http_status: if ready {
            200
        } else {
            503
        },
        status: if ready {
            "ready"
        } else {
            "not_ready"
        },
        checks: shown,
        auth_open_mode: checks.auth_open_mode,
    }
}

/// The host at which a listener on `host` is reached from the same machine.
pub open spec fn reached_at(host: Seq<char>) -> Seq<char> {
    if host == "0.0.0.0"@ {
        "127.0.0.1"@
    } else if host == "::"@ {
        "::1"@
    } else {
        host
    }
}

/// The address at which the listener on `host` and `port` is probed.
pub fn probe_address(host: &str, port: u16) -> (r: String)
    ensures
        r@ == reached_at(host@) + ":"@ + decimal(port as nat),
{
    let mut s = if text::same(host, "0.0.0.0") {
        text::owned("127.0.0.1")
    } else if text::same(host, "::") {
        text::owned("::1")
    } else {
        text::owned(host)
    };
    s.append(":");
    text::push_decimal(&mut s, port as u64);
    s
}

/// The second line of a text, if it has one.
pub open spec fn second_line(s: Seq<char>) -> Option<Seq<char>> {
    let p = pieces(s, '\n');
    if p.len() > 2 || (p.len() == 2 && p[1].len() > 0) {
        Some(p[1])
    } else {
        None
    }
}

/// The bytes that are free according to the output of `df -Pk`, or why it cannot be read: the
/// fourth word of its second line is the number of free KiB.
pub open spec fn df_available(stdout: Seq<char>) -> Result<nat, Seq<char>> {
    match second_line(stdout) {
        None => Err("unexpected df output"@),
        Some(line) => {
            let w = words(line);
            if w.len() < 4 {
                Err("unexpected df output format"@)
            } else {
                match unsigned_value(w[3], u64::MAX as nat) {
                    Some(kib) => Ok(
                        if kib * 1024 > u64::MAX {
                            u64::MAX as nat
                        } else {
                            kib * 1024
                        },
                    ),
                    None => Err("cannot parse available space: "@ + number_failure(w[3])),
                }
            }
        },
    }
}

/// The bytes that are free according to the output of `df -Pk`.
pub fn parse_df_available_bytes(stdout: &str) -> (r: Result<u64, String>)
    ensures
        match r {
            Ok(n) => df_available(stdout@) == Ok::<nat, Seq<char>>(n as nat),
            Err(e) => df_available(stdout@) == Err::<nat, Seq<char>>(e@),
        },
{
    let lines = text::split(stdout, '\n');
    assert(views(lines@).len() == lines@.len());
    if lines.len() < 2 {
        return Err(text::owned("unexpected df output"));
    }
    assert(views(lines@)[1] == lines@[1]@);
    if lines.len() == 2 && lines[1].as_str().unicode_len() == 0 {
        return Err(text::owned("unexpected df output"));
    }
    let cols = text::split_whitespace(&lines[1]);
    assert(views(cols@).len() == cols@.len());
    if cols.len() < 4 {
        return Err(text::owned("unexpected df output format"));
    }
    assert(views(cols@)[3] == cols@[3]@);
    match text::parse_u64(&cols[3]) {
        Ok(kib) => Ok(
            if kib > 0xffff_ffff_ffff_ffff / 1024 {
                0xffff_ffff_ffff_ffff
            } else {
                kib * 1024
            },
        ),
        Err(e) => {
            let mut s = text::owned("cannot parse available space: ");
            s.append(&e);
            Err(s)
        },
    }
}

/// The server is ready exactly where storage, FFmpeg and the listener are, and at least ten GiB are
/// left on disk. Each check says whether it is good, and what is wrong where it is not.
pub proof fn readiness_needs_every_check(c: ReadyChecks)
    ensures
        all_good(c) <==> c.storage is Ok && c.ffmpeg is Ok && c.rtmp_listener is Ok && (
        c.disk matches Ok(b) && b >= 10 * 1024 * 1024 * 1024),
        storage_shown(c).fields[0] == ("status"@, ReadyShown::Text(
            if c.storage is Ok {
                "ok"@
            } else {
                "error"@
            },
        )),
        ffmpeg_shown(c).fields[0] == ("status"@, ReadyShown::Text(
            if c.ffmpeg is Ok {
                "ok"@
            } else {
                "error"@
            },
        )),
        listener_shown(c).fields[0] == ("status"@, ReadyShown::Text(
            if c.rtmp_listener is Ok {
                "ok"@
            } else {
                "error"@
            },
        )),
        c.storage matches Err(e) ==> storage_shown(c).fields.last() == ("error"@, ReadyShown::Text(
            e@,
        )),
        c.ffmpeg matches Err(e) ==> ffmpeg_shown(c).fields.last() == ("error"@, ReadyShown::Text(
            e@,
        )),
        c.rtmp_listener matches Err(e) ==> listener_shown(c).fields.last() == (
            "error"@,
            ReadyShown::Text(e@),
        ),
        c.disk matches Err(e) ==> disk_shown(c).fields.last() == ("error"@, ReadyShown::Text(e@)),
{
}

} // verus!
