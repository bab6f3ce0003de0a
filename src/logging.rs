use vstd::prelude::*;
use vstd::string::{StrSliceExecFns, StringExecFns};

use crate::names::str_eq;

verus! {

/// The text that lossy UTF-8 decoding gives for `b`.
pub uninterp spec fn utf8_lossy(b: Seq<u8>) -> Seq<char>;

/// Relies on `String::from_utf8_lossy`: the text of `v`, with each invalid sequence
/// replaced; it depends on the bytes alone.
#[verifier::external_body]
fn decode_lossy(v: &[u8]) -> (r: String)
    ensures
        r@ == utf8_lossy(v@),
{
    String::from_utf8_lossy(v).into_owned()
}

/// The evaluator's log verbosity.
#[derive(Clone, Copy, Debug, PartialEq, Eq, Structural)]
pub enum Verbosity {
    Error,
    Warn,
    Notice,
    Info,
    Talkative,
    Chatty,
    Debug,
    Vomit,
}

/// The level at which a message is logged here.
#[derive(Clone, Copy, Debug, PartialEq, Eq, Structural)]
pub enum LogLevel {
    Error,
    Warn,
    Info,
    Debug,
    Trace,
}

/// The verbosity of the evaluator's code; an unknown code is the most verbose.
pub open spec fn verbosity_of(u: u32) -> Verbosity {
    if u == 0 {
        Verbosity::Error
    } else if u == 1 {
        Verbosity::Warn
    } else if u == 2 {
        Verbosity::Notice
    } else if u == 3 {
        Verbosity::Info
    } else if u == 4 {
        Verbosity::Talkative
    } else if u == 5 {
        Verbosity::Chatty
    } else if u == 6 {
        Verbosity::Debug
    } else {
        Verbosity::Vomit
    }
}

/// Notices are warnings; talkative and chatty messages are debug output.
pub open spec fn level_of(v: Verbosity) -> LogLevel {
    match v {
        Verbosity::Error => LogLevel::Error,
        Verbosity::Warn | Verbosity::Notice => LogLevel::Warn,
        Verbosity::Info => LogLevel::Info,
        Verbosity::Talkative | Verbosity::Chatty | Verbosity::Debug => LogLevel::Debug,
        Verbosity::Vomit => LogLevel::Trace,
    }
}

impl Verbosity {
    /// The verbosity of the evaluator's code; an unknown code is the most verbose.
    pub fn from_int(u: u32) -> (r: Verbosity)
        ensures
            u == 0 ==> r == Verbosity::Error,
            u == 1 ==> r == Verbosity::Warn,
            u == 2 ==> r == Verbosity::Notice,
            u == 3 ==> r == Verbosity::Info,
            u == 4 ==> r == Verbosity::Talkative,
            u == 5 ==> r == Verbosity::Chatty,
            u == 6 ==> r == Verbosity::Debug,
            u >= 7 ==> r == Verbosity::Vomit,
            r == verbosity_of(u),
    {
        match u {
            0 => Verbosity::Error,
            1 => Verbosity::Warn,
            2 => Verbosity::Notice,
            3 => Verbosity::Info,
            4 => Verbosity::Talkative,
            5 => Verbosity::Chatty,
            6 => Verbosity::Debug,
            _ => Verbosity::Vomit,
        }
    }

    /// Notices are warnings; talkative and chatty messages are debug output.
    pub fn level(&self) -> (r: LogLevel)
        ensures
            *self is Error ==> r == LogLevel::Error,
            *self is Warn || *self is Notice ==> r == LogLevel::Warn,
            *self is Info ==> r == LogLevel::Info,
            *self is Talkative || *self is Chatty || *self is Debug ==> r == LogLevel::Debug,
            *self is Vomit ==> r == LogLevel::Trace,
            r == level_of(*self),
    {
        match self {
            Verbosity::Error => LogLevel::Error,
            Verbosity::Warn => LogLevel::Warn,
            Verbosity::Notice => LogLevel::Warn,
            Verbosity::Info => LogLevel::Info,
            Verbosity::Talkative => LogLevel::Debug,
            Verbosity::Chatty => LogLevel::Debug,
            Verbosity::Debug => LogLevel::Debug,
            Verbosity::Vomit => LogLevel::Trace,
        }
    }
}

/// A kind of activity that the evaluator reports.
#[derive(Clone, Copy, Debug, PartialEq, Eq, Structural)]
pub enum ActivityType {
    Unknown,
    CopyPath,
    FileTransfer,
    Realise,
    CopyPaths,
    Builds,
    Build,
    OptimiseStore,
    VerifyPaths,
    Substitute,
    QueryPathInfo,
    PostBuildHook,
    BuildWaiting,
    FetchTree,
}

/// The activity of the evaluator's code; an unknown code is an unknown activity.
pub open spec fn activity_of(v: u32) -> ActivityType {
    if v == 100 {
        ActivityType::CopyPath
    } else if v == 101 {
        ActivityType::FileTransfer
    } else if v == 102 {
        ActivityType::Realise
    } else if v == 103 {
        ActivityType::CopyPaths
    } else if v == 104 {
        ActivityType::Builds
    } else if v == 105 {
        ActivityType::Build
    } else if v == 106 {
        ActivityType::OptimiseStore
    } else if v == 107 {
        ActivityType::VerifyPaths
    } else if v == 108 {
        ActivityType::Substitute
    } else if v == 109 {
        ActivityType::QueryPathInfo
    } else if v == 110 {
        ActivityType::PostBuildHook
    } else if v == 111 {
        ActivityType::BuildWaiting
    } else if v == 112 {
        ActivityType::FetchTree
    } else {
        ActivityType::Unknown
    }
}

/// The log target of an activity.
pub open spec fn activity_name(a: ActivityType) -> Seq<char> {
    match a {
        ActivityType::Unknown => "nix"@,
        ActivityType::CopyPath => "nix::copy-path"@,
        ActivityType::FileTransfer => "nix::file-transfer"@,
        ActivityType::Realise => "nix::realise"@,
        ActivityType::CopyPaths => "nix::copy-paths"@,
        ActivityType::Builds => "nix::builds"@,
        ActivityType::Build => "nix::build"@,
        ActivityType::OptimiseStore => "nix::optimise-store"@,
        ActivityType::VerifyPaths => "nix::verify-paths"@,
        ActivityType::Substitute => "nix::substitute"@,
        ActivityType::QueryPathInfo => "nix::query-path-info"@,
        ActivityType::PostBuildHook => "nix::post-build-hook"@,
        ActivityType::BuildWaiting => "nix::build-waiting"@,
        ActivityType::FetchTree => "nix::fetch-tree"@,
    }
}

impl ActivityType {
    /// The activity of the evaluator's code; an unknown code is an unknown activity.
    pub fn from_int(v: u32) -> (r: ActivityType)
        ensures
            v == 100 ==> r == ActivityType::CopyPath,
            v == 101 ==> r == ActivityType::FileTransfer,
            v == 102 ==> r == ActivityType::Realise,
            v == 103 ==> r == ActivityType::CopyPaths,
            v == 104 ==> r == ActivityType::Builds,
            v == 105 ==> r == ActivityType::Build,
            v == 106 ==> r == ActivityType::OptimiseStore,
            v == 107 ==> r == ActivityType::VerifyPaths,
            v == 108 ==> r == ActivityType::Substitute,
            v == 109 ==> r == ActivityType::QueryPathInfo,
            v == 110 ==> r == ActivityType::PostBuildHook,
            v == 111 ==> r == ActivityType::BuildWaiting,
            v == 112 ==> r == ActivityType::FetchTree,
            v < 100 || v > 112 ==> r == ActivityType::Unknown,
            r == activity_of(v),
    {
        match v {
            100 => ActivityType::CopyPath,
            101 => ActivityType::FileTransfer,
            102 => ActivityType::Realise,
            103 => ActivityType::CopyPaths,
            104 => ActivityType::Builds,
            105 => ActivityType::Build,
            106 => ActivityType::OptimiseStore,
            107 => ActivityType::VerifyPaths,
            108 => ActivityType::Substitute,
            109 => ActivityType::QueryPathInfo,
            110 => ActivityType::PostBuildHook,
            111 => ActivityType::BuildWaiting,
            112 => ActivityType::FetchTree,
            _ => ActivityType::Unknown,
        }
    }

    /// The log target of the activity.
    pub fn name(&self) -> (r: &'static str)
        ensures
            r@ == activity_name(*self),
    {
        match self {
            ActivityType::Unknown => "nix",
            ActivityType::CopyPath => "nix::copy-path",
            ActivityType::FileTransfer => "nix::file-transfer",
            ActivityType::Realise => "nix::realise",
            ActivityType::CopyPaths => "nix::copy-paths",
            ActivityType::Builds => "nix::builds",
            ActivityType::Build => "nix::build",
            ActivityType::OptimiseStore => "nix::optimise-store",
            ActivityType::VerifyPaths => "nix::verify-paths",
            ActivityType::Substitute => "nix::substitute",
            ActivityType::QueryPathInfo => "nix::query-path-info",
            ActivityType::PostBuildHook => "nix::post-build-hook",
            ActivityType::BuildWaiting => "nix::build-waiting",
            ActivityType::FetchTree => "nix::fetch-tree",
        }
    }
}

/// `a` without the prefix `pref` and then without the suffix `suff`, where it has both.
pub open spec fn spec_strip_prefix_suffix(a: Seq<char>, pref: Seq<char>, suff: Seq<char>) -> Option<Seq<char>> {
    if a.len() >= pref.len() + suff.len() && a.take(pref.len() as int) == pref && a.skip(
        a.len() - suff.len(),
    ) == suff {
        Some(a.subrange(pref.len() as int, a.len() - suff.len()))
    } else {
        None
    }
}

pub fn strip_prefix_suffix(a: &str, pref: &str, suff: &str) -> (r: Option<String>)
    ensures
        match r {
            Some(s) => spec_strip_prefix_suffix(a@, pref@, suff@) == Some(s@),
            None => spec_strip_prefix_suffix(a@, pref@, suff@) is None,
        },
{
    let n = a.unicode_len();
    let p = pref.unicode_len();
    let q = suff.unicode_len();
    if n < p || n - p < q {
        return None;
    }
    if !str_eq(a.substring_char(0, p), pref) || !str_eq(a.substring_char(n - q, n), suff) {
        proof {
            assert(a@.subrange(0, p as int) =~= a@.take(p as int));
            assert(a@.subrange(n - q, n as int) =~= a@.skip(n - q));
        }
        return None;
    }
    proof {
        assert(a@.subrange(0, p as int) =~= a@.take(p as int));
        assert(a@.subrange(n - q, n as int) =~= a@.skip(n - q));
    }
    Some(String::from_str(a.substring_char(p, n - q)))
}

/// A store path as the evaluator highlights it, without its color codes.
pub open spec fn spec_parse_path(path: Seq<char>) -> Seq<char> {
    match spec_strip_prefix_suffix(path, "\x1b[35;1m"@, "\x1b[0m"@) {
        Some(p) => p,
        None => path,
    }
}

pub fn parse_path(path: &str) -> (r: String)
    ensures
        r@ == spec_parse_path(path@),
{
    match strip_prefix_suffix(path, "\x1b[35;1m", "\x1b[0m") {
        Some(p) => p,
        None => String::from_str(path),
    }
}

/// The host of a substitution or a copy, as it is shown: the local store is `local`,
/// and the `https://` scheme is left out.
pub open spec fn spec_parse_host(host: Seq<char>) -> Seq<char> {
    let scheme = "https://"@;
    if host.len() == 0 || host == "local"@ {
        "local"@
    } else if host.len() >= scheme.len() && host.take(scheme.len() as int) == scheme {
        host.skip(scheme.len() as int)
    } else {
        host
    }
}

pub fn parse_host(host: &str) -> (r: String)
    ensures
        r@ == spec_parse_host(host@),
{
    proof {
        reveal_strlit("https://");
    }
    let n = host.unicode_len();
    if n == 0 || str_eq(host, "local") {
        return String::from_str("local");
    }
    if n >= 8 && str_eq(host.substring_char(0, 8), "https://") {
        assert(host@.subrange(0, 8) =~= host@.take(8));
        return String::from_str(host.substring_char(8, n));
    }
    proof {
        if n >= 8 {
            assert(host@.subrange(0, 8) =~= host@.take(8));
        }
    }
    String::from_str(host)
}

/// A frame of an evaluation error's trace.
#[derive(Debug)]
pub struct StackFrame {
    pub msg: String,
    pub pos: String,
}

/// An evaluation error, with its trace, as the evaluator reports it piece by piece.
#[derive(Debug)]
pub struct ErrorInfoBuilder {
    pub level: LogLevel,
    pub msg: String,
    pub stack_frames: Vec<StackFrame>,
}

/// Starts an error report of verbosity `lvl` with the message `v`.
pub fn new_error_info(lvl: u32, v: &[u8]) -> (r: ErrorInfoBuilder)
    ensures
        r.level == level_of(verbosity_of(lvl)),
        r.msg@ == utf8_lossy(v@),
        r.stack_frames@.len() == 0,
{
    let verbosity = Verbosity::from_int(lvl);
    ErrorInfoBuilder { level: verbosity.level(), msg: decode_lossy(v), stack_frames: Vec::new() }
}

impl ErrorInfoBuilder {
    /// Adds a frame, with its message and position.
    pub fn push_stack_frame(&mut self, v: &[u8], pos: &[u8])
        ensures
            final(self).level == old(self).level,
            final(self).msg == old(self).msg,
            final(self).stack_frames@.len() == old(self).stack_frames@.len() + 1,
            forall|i: int| 0 <= i < old(self).stack_frames@.len() ==> final(self).stack_frames@[i] == old(self).stack_frames@[i],
            final(self).stack_frames@.last().msg@ == utf8_lossy(v@),
            final(self).stack_frames@.last().pos@ == utf8_lossy(pos@),
    {
        let msg = decode_lossy(v);
        let pos = decode_lossy(pos);
        self.stack_frames.push(StackFrame { msg, pos });
    }

    /// The lines that report the error: its message, then `  <frame> at <position>` for
    /// each frame.
    pub fn error_lines(&self) -> (r: Vec<String>)
        ensures
            r@.len() == self.stack_frames@.len() + 1,
            r@[0]@ == self.msg@,
            forall|i: int| 0 <= i < self.stack_frames@.len() ==> (#[trigger] r@[i + 1])@ == "  "@
                + self.stack_frames@[i].msg@ + " at "@ + self.stack_frames@[i].pos@,
    {
        let mut r: Vec<String> = Vec::new();
        r.push(self.msg.clone());
        let mut i: usize = 0;
        while i < self.stack_frames.len()
            invariant
                i <= self.stack_frames@.len(),
                r@.len() == i + 1,
                r@[0]@ == self.msg@,
                forall|k: int| 0 <= k < i ==> (#[trigger] r@[k + 1])@ == "  "@
                    + self.stack_frames@[k].msg@ + " at "@ + self.stack_frames@[k].pos@,
            decreases self.stack_frames@.len() - i,
        {
            let frame = &self.stack_frames[i];
            let mut line = String::from_str("  ");
            line.append(frame.msg.as_str());
            line.append(" at ");
            line.append(frame.pos.as_str());
            r.push(line);
            i = i + 1;
        }
        r
    }
}

/// Where the first dash of `s` stands, where it has one.
pub open spec fn first_dash(s: Seq<char>) -> int {
    choose|i: int| 0 <= i < s.len() && s[i] == '-' && forall|j: int| 0 <= j < i ==> s[j] != '-'
}

/// The package part of a store path: after `/nix/store/`, what follows the hash and
/// its dash; other paths are kept as they are. Color codes are removed first.
pub open spec fn spec_parse_drv(drv: Seq<char>) -> Seq<char> {
    let d = spec_parse_path(drv);
    let store = "/nix/store/"@;
    if d.len() >= store.len() && d.take(store.len() as int) == store {
        let pkg = d.skip(store.len() as int);
        if exists|i: int| 0 <= i < pkg.len() && pkg[i] == '-' {
            pkg.skip(first_dash(pkg) + 1)
        } else {
            d
        }
    } else {
        d
    }
}

pub fn parse_drv(drv: &str) -> (r: String)
    ensures
        r@ == spec_parse_drv(drv@),
{
    let d = parse_path(drv);
    proof {
        reveal_strlit("/nix/store/");
        assert("/nix/store/"@.len() == 11);
    }
    let n = d.as_str().unicode_len();
    if n >= 11 && str_eq(d.as_str().substring_char(0, 11), "/nix/store/") {
        assert(d@.subrange(0, 11) =~= d@.take(11));
        let ghost pkg = d@.skip(11);
        let mut i: usize = 11;
        while i < n
            invariant
                11 <= i <= n,
                n == d@.len(),
                pkg == d@.skip(11),
                d@ == spec_parse_path(drv@),
                "/nix/store/"@.len() == 11,
                d@.take(11) == "/nix/store/"@,
                forall|j: int| 0 <= j < i - 11 ==> pkg[j] != '-',
            decreases n - i,
        {
            if d.as_str().get_char(i) == '-' {
                proof {
                    let k = (i - 11) as int;
                    assert(pkg[k] == '-');
                    assert(forall|j: int| 0 <= j < k ==> pkg[j] != '-');
                    let c = first_dash(pkg);
                    if c < k {
                    } else if c > k {
                    }
                    assert(c == k);
                    assert(pkg.skip(k + 1) =~= d@.subrange(i + 1, n as int));
                    assert(exists|x: int| 0 <= x < pkg.len() && pkg[x] == '-');
                }
                return String::from_str(d.as_str().substring_char(i + 1, n));
            }
            i = i + 1;
        }
        proof {
            assert forall|j: int| 0 <= j < pkg.len() implies pkg[j] != '-' by {
            }
        }
        d
    } else {
        proof {
            if n >= 11 {
                assert(d@.subrange(0, 11) =~= d@.take(11));
            }
        }
        d
    }
}

/// A field of an activity that the evaluator reports.
#[derive(Debug)]
pub enum FieldValue {
    Int(i32),
    Str(String),
}

/// An activity that the evaluator starts, as it is reported piece by piece.
#[derive(Debug)]
pub struct StartActivityBuilder {
    pub activity_id: u64,
    pub verbosity: Verbosity,
    pub typ: ActivityType,
    pub fields: Vec<FieldValue>,
}

/// Starts reporting an activity of verbosity code `lvl` and type code `typ`.
pub fn new_start_activity(activity_id: u64, lvl: u32, typ: u32) -> (r: StartActivityBuilder)
    ensures
        r.activity_id == activity_id,
        r.verbosity == verbosity_of(lvl),
        r.typ == activity_of(typ),
        r.fields@.len() == 0,
{
    StartActivityBuilder {
        activity_id,
        verbosity: Verbosity::from_int(lvl),
        typ: ActivityType::from_int(typ),
        fields: Vec::new(),
    }
}

impl StartActivityBuilder {
    pub fn add_int_field(&mut self, i: i32)
        ensures
            final(self).activity_id == old(self).activity_id,
            final(self).verbosity == old(self).verbosity,
            final(self).typ == old(self).typ,
            final(self).fields@ == old(self).fields@.push(FieldValue::Int(i)),
    {
        self.fields.push(FieldValue::Int(i));
    }

    /// Adds a text field, decoded lossily.
    pub fn add_string_field(&mut self, v: &[u8])
        ensures
            final(self).activity_id == old(self).activity_id,
            final(self).verbosity == old(self).verbosity,
            final(self).typ == old(self).typ,
            final(self).fields@.len() == old(self).fields@.len() + 1,
            forall|i: int| 0 <= i < old(self).fields@.len() ==> final(self).fields@[i] == old(self).fields@[i],
            final(self).fields@.last() matches FieldValue::Str(s) && s@ == utf8_lossy(v@),
    {
        self.fields.push(FieldValue::Str(decode_lossy(v)));
    }
}

/// A log line of the evaluator: the level to log it at, and its text.
pub fn log_message(lvl: u32, v: &[u8]) -> (r: (LogLevel, String))
    ensures
        r.0 == level_of(verbosity_of(lvl)),
        r.1@ == utf8_lossy(v@),
{
    (Verbosity::from_int(lvl).level(), decode_lossy(v))
}

pub open spec fn has_prefix(s: Seq<char>, p: Seq<char>) -> bool {
    p.len() <= s.len() && s.take(p.len() as int) == p
}

pub open spec fn has_suffix(s: Seq<char>, p: Seq<char>) -> bool {
    p.len() <= s.len() && s.skip(s.len() - p.len()) == p
}

/// `s` without every repetition of `p` at its start, as `str::trim_start_matches` does.
pub open spec fn trim_start_all(s: Seq<char>, p: Seq<char>) -> Seq<char>
    decreases s.len(),
{
    if p.len() > 0 && has_prefix(s, p) {
        trim_start_all(s.skip(p.len() as int), p)
    } else {
        s
    }
}

/// `s` without every repetition of `p` at its end, as `str::trim_end_matches` does.
pub open spec fn trim_end_all(s: Seq<char>, p: Seq<char>) -> Seq<char>
    decreases s.len(),
{
    if p.len() > 0 && has_suffix(s, p) {
        trim_end_all(s.take(s.len() - p.len()), p)
    } else {
        s
    }
}

pub fn starts_with(s: &str, p: &str) -> (r: bool)
    ensures
        r == has_prefix(s@, p@),
{
    let n = s.unicode_len();
    let m = p.unicode_len();
    if m > n {
        return false;
    }
    let r = str_eq(s.substring_char(0, m), p);
    assert(s@.subrange(0, m as int) =~= s@.take(m as int));
    r
}

pub fn ends_with(s: &str, p: &str) -> (r: bool)
    ensures
        r == has_suffix(s@, p@),
{
    let n = s.unicode_len();
    let m = p.unicode_len();
    if m > n {
        return false;
    }
    let r = str_eq(s.substring_char(n - m, n), p);
    assert(s@.subrange(n - m, n as int) =~= s@.skip(n - m));
    r
}

pub fn trim_start_matches(s: &str, p: &str) -> (r: String)
    ensures
        r@ == trim_start_all(s@, p@),
{
    let n = s.unicode_len();
    let m = p.unicode_len();
    if m == 0 {
        return String::from_str(s);
    }
    let mut i: usize = 0;
    assert(s@.subrange(0, n as int) =~= s@);
    while m <= n - i && str_eq(s.substring_char(i, i + m), p)
        invariant
            n == s@.len(),
            m == p@.len(),
            m > 0,
            i <= n,
            trim_start_all(s@.subrange(i as int, n as int), p@) == trim_start_all(s@, p@),
        decreases n - i,
    {
        proof {
            let t = s@.subrange(i as int, n as int);
            assert(t.take(m as int) =~= s@.subrange(i as int, i + m));
            assert(t.skip(m as int) =~= s@.subrange(i + m, n as int));
        }
        i = i + m;
    }
    proof {
        let t = s@.subrange(i as int, n as int);
        if m <= t.len() {
            assert(t.take(m as int) =~= s@.subrange(i as int, i + m));
        }
    }
    String::from_str(s.substring_char(i, n))
}

pub fn trim_end_matches(s: &str, p: &str) -> (r: String)
    ensures
        r@ == trim_end_all(s@, p@),
{
    let n = s.unicode_len();
    let m = p.unicode_len();
    if m == 0 {
        return String::from_str(s);
    }
    let mut j: usize = n;
    assert(s@.subrange(0, n as int) =~= s@);
    while j >= m && str_eq(s.substring_char(j - m, j), p)
        invariant
            n == s@.len(),
            m == p@.len(),
            m > 0,
            j <= n,
            trim_end_all(s@.subrange(0, j as int), p@) == trim_end_all(s@, p@),
        decreases j,
    {
        proof {
            let t = s@.subrange(0, j as int);
            assert(t.skip(j - m) =~= s@.subrange(j - m, j as int));
            assert(t.take(j - m) =~= s@.subrange(0, j - m));
        }
        j = j - m;
    }
    proof {
        let t = s@.subrange(0, j as int);
        if m <= t.len() {
            assert(t.skip(j - m) =~= s@.subrange(j - m, j as int));
        }
    }
    String::from_str(s.substring_char(0, j))
}

/// How an activity is shown: its log target, its label, its named fields, and the
/// level of its span.
#[derive(Debug)]
pub struct ActivityDisplay {
    pub target: &'static str,
    pub label: &'static str,
    pub fields: Vec<(&'static str, String)>,
    pub level: LogLevel,
}

fn display(target: &'static str, label: &'static str, level: LogLevel) -> (r: ActivityDisplay)
    ensures
        r.target == target,
        r.label == label,
        r.level == level,
        r.fields@.len() == 0,
{
    ActivityDisplay { target, label, fields: Vec::new(), level }
}

/// The quoted subject of a message of the form `<open>subject<close>`.
fn quoted_subject(s: &str, open: &str, close: &str) -> (r: Option<String>)
    ensures
        has_prefix(s@, open@) && has_suffix(s@, close@) <==> r is Some,
        r matches Some(t) ==> t@ == trim_end_all(trim_start_all(s@, open@), close@),
{
    if starts_with(s, open) && ends_with(s, close) {
        let t = trim_start_matches(s, open);
        Some(trim_end_matches(t.as_str(), close))
    } else {
        None
    }
}

/// The `i`-th field of an activity, where it is text.
fn str_field(values: &Vec<FieldValue>, i: usize) -> (r: Option<&String>)
    ensures
        i < values@.len() && values@[i as int] is Str <==> r is Some,
        r matches Some(t) ==> values@[i as int] == FieldValue::Str(*t),
{
    if i < values.len() {
        match &values[i] {
            FieldValue::Str(t) => Some(t),
            FieldValue::Int(_) => None,
        }
    } else {
        None
    }
}

/// The named display of the activities that are recognised: store queries,
/// substitutions, copies, builds, downloads and the evaluator's well-known messages.
/// `None` where the activity is shown generically, by its name and fields.
pub fn describe_activity(typ: ActivityType, values: &Vec<FieldValue>, s: &str) -> (r: Option<ActivityDisplay>)
    ensures
        typ is QueryPathInfo && values@.len() == 2 && values@[0] is Str && values@[1] is Str ==> (r matches Some(d)
            && d.target@ == "nix::query-path-info"@ && d.label@ == "querying"@ && d.level == LogLevel::Debug
            && d.fields@.len() == 2 && d.fields@[0].0@ == "drv"@ && d.fields@[0].1@ == spec_parse_drv(values@[0]->Str_0@)
            && d.fields@[1].0@ == "host"@ && d.fields@[1].1@ == spec_parse_host(values@[1]->Str_0@)),
        typ is Substitute && values@.len() == 2 && values@[0] is Str && values@[1] is Str ==> (r matches Some(d)
            && d.target@ == "nix::substitute"@ && d.label@ == "substituting"@ && d.level == LogLevel::Debug
            && d.fields@.len() == 2 && d.fields@[0].1@ == spec_parse_drv(values@[0]->Str_0@)
            && d.fields@[1].1@ == spec_parse_host(values@[1]->Str_0@)),
        typ is CopyPath && values@.len() == 3 && values@[0] is Str && values@[1] is Str && values@[2] is Str ==> (r matches Some(d)
            && d.target@ == "nix::copy-path"@ && d.label@ == "copying"@ && d.fields@.len() == 3
            && d.fields@[0].1@ == spec_parse_drv(values@[0]->Str_0@)
            && d.fields@[1].1@ == spec_parse_host(values@[1]->Str_0@)
            && d.fields@[2].1@ == spec_parse_host(values@[2]->Str_0@)),
        typ is Build && values@.len() == 4 && values@[0] is Str && values@[1] is Str && values@[2] is Int && values@[3] is Int ==> (r matches Some(d)
            && d.target@ == "nix::build"@ && d.label@ == "building"@ && d.level == LogLevel::Info
            && d.fields@.len() == 2 && d.fields@[0].1@ == spec_parse_drv(values@[0]->Str_0@)
            && d.fields@[1].1@ == spec_parse_host(values@[1]->Str_0@)),
        typ is FileTransfer && values@.len() == 1 && values@[0] is Str ==> (r matches Some(d)
            && d.target@ == "nix::file-transfer"@ && d.label@ == "downloading"@ && d.level == LogLevel::Info
            && d.fields@.len() == 1 && d.fields@[0].1@ == values@[0]->Str_0@),
        typ is Realise && values@.len() == 0 ==> (r matches Some(d) && d.label@ == "realising"@),
        typ is CopyPaths && values@.len() == 0 ==> (r matches Some(d) && d.label@ == "copying paths"@),
        typ is Unknown && values@.len() == 0 && has_prefix(s@, "hashing '"@) && has_suffix(s@, "'"@) && !(
            has_prefix(s@, "copying \""@) && has_suffix(s@, "\" to the store"@)) && !(has_prefix(s@, "copying '"@)
            && has_suffix(s@, "' to the store"@)) ==> (r matches Some(d) && d.label@ == "hashing"@ && d.fields@.len() == 1
            && d.fields@[0].1@ == trim_end_all(trim_start_all(s@, "hashing '"@), "'"@)),
        typ is BuildWaiting && values@.len() == 0 && has_prefix(s@, "waiting for a machine to build '"@) && has_suffix(s@, "'"@)
            ==> (r matches Some(d) && d.label@ == "waiting for available builder"@ && d.fields@.len() == 1
            && d.fields@[0].1@ == spec_parse_drv(trim_end_all(trim_start_all(s@, "waiting for a machine to build '"@), "'"@))),
        !(typ is QueryPathInfo || typ is Substitute || typ is CopyPath || typ is Build || typ is FileTransfer
            || typ is Realise || typ is CopyPaths || typ is Unknown || typ is BuildWaiting) ==> r is None,
{
    proof {
        reveal_strlit("nix::query-path-info");
        reveal_strlit("querying");
        reveal_strlit("drv");
        reveal_strlit("host");
    }
    match typ {
        ActivityType::QueryPathInfo | ActivityType::Substitute => {
            if values.len() == 2 {
                if let (Some(drv), Some(host)) = (str_field(values, 0), str_field(values, 1)) {
                    let mut d = if matches!(typ, ActivityType::QueryPathInfo) {
                        display("nix::query-path-info", "querying", LogLevel::Debug)
                    } else {
                        display("nix::substitute", "substituting", LogLevel::Debug)
                    };
                    d.fields.push(("drv", parse_drv(drv.as_str())));
                    d.fields.push(("host", parse_host(host.as_str())));
                    return Some(d);
                }
            }
            None
        },
        ActivityType::CopyPath => {
            if values.len() == 3 {
                if let (Some(drv), Some(from), Some(to)) = (str_field(values, 0), str_field(values, 1), str_field(values, 2)) {
                    let mut d = display("nix::copy-path", "copying", LogLevel::Debug);
                    d.fields.push(("drv", parse_drv(drv.as_str())));
                    d.fields.push(("from", parse_host(from.as_str())));
                    d.fields.push(("to", parse_host(to.as_str())));
                    return Some(d);
                }
            }
            None
        },
        ActivityType::Build => {
            if values.len() == 4 && matches!(values[2], FieldValue::Int(_)) && matches!(values[3], FieldValue::Int(_)) {
                if let (Some(drv), Some(host)) = (str_field(values, 0), str_field(values, 1)) {
                    let mut d = display("nix::build", "building", LogLevel::Info);
                    d.fields.push(("drv", parse_drv(drv.as_str())));
                    d.fields.push(("host", parse_host(host.as_str())));
                    return Some(d);
                }
            }
            None
        },
        ActivityType::FileTransfer => {
            if values.len() == 1 {
                if let Some(file) = str_field(values, 0) {
                    let mut d = display("nix::file-transfer", "downloading", LogLevel::Info);
                    d.fields.push(("file", file.clone()));
                    return Some(d);
                }
            }
            None
        },
        ActivityType::Realise => if values.len() == 0 {
            Some(display("nix::realise", "realising", LogLevel::Debug))
        } else {
            None
        },
        ActivityType::CopyPaths => if values.len() == 0 {
            Some(display("nix::copy-paths", "copying paths", LogLevel::Debug))
        } else {
            None
        },
        ActivityType::BuildWaiting => {
            if values.len() == 0 {
                if let Some(t) = quoted_subject(s, "waiting for a machine to build '", "'") {
                    let mut d = display("nix::build-waiting", "waiting for available builder", LogLevel::Debug);
                    d.fields.push(("drv", parse_drv(t.as_str())));
                    return Some(d);
                }
            }
            None
        },
        ActivityType::Unknown => {
            if values.len() != 0 {
                return None;
            }
            if let Some(t) = quoted_subject(s, "copying \"", "\" to the store") {
                let mut d = display("nix::trees", "copying", LogLevel::Debug);
                d.fields.push(("tree", t));
                return Some(d);
            }
            if let Some(t) = quoted_subject(s, "copying '", "' to the store") {
                let mut d = display("nix::trees", "copying", LogLevel::Debug);
                d.fields.push(("tree", t));
                return Some(d);
            }
            if let Some(t) = quoted_subject(s, "hashing '", "'") {
                let mut d = display("nix::trees", "hashing", LogLevel::Debug);
                d.fields.push(("tree", t));
                return Some(d);
            }
            if let Some(t) = quoted_subject(s, "connecting to '", "'") {
                let mut d = display("nix::remote", "connecting", LogLevel::Debug);
                d.fields.push(("host", t));
                return Some(d);
            }
            if let Some(t) = quoted_subject(s, "copying outputs from '", "'") {
                let mut d = display("nix::remote", "copying outputs", LogLevel::Debug);
                d.fields.push(("host", t));
                return Some(d);
            }
            if let Some(t) = quoted_subject(s, "copying dependencies to '", "'") {
                let mut d = display("nix::remote", "copying dependencies", LogLevel::Debug);
                d.fields.push(("host", t));
                return Some(d);
            }
            if let Some(t) = quoted_subject(s, "waiting for the upload lock to '", "'") {
                let mut d = display("nix::remote", "waiting for upload lock", LogLevel::Debug);
                d.fields.push(("host", t));
                return Some(d);
            }
            if str_eq(s, "querying info about missing paths") {
                return Some(display("nix::remote", "querying", LogLevel::Debug));
            }
            None
        },
        _ => None,
    }
}

/// A kind of result that the evaluator reports for an activity.
#[derive(Clone, Copy, Debug, PartialEq, Eq, Structural)]
pub enum ResultType {
    FileLinked,
    BuildLogLine,
    UntrustedPath,
    CorruptedPath,
    SetPhase,
    Progress,
    SetExpected,
    PostBuildLogLine,
    FetchStatus,
    Unknown,
}

/// The result kind of the evaluator's code; an unknown code is an unknown result.
pub open spec fn result_of(v: u32) -> ResultType {
    if v == 100 {
        ResultType::FileLinked
    } else if v == 101 {
        ResultType::BuildLogLine
    } else if v == 102 {
        ResultType::UntrustedPath
    } else if v == 103 {
        ResultType::CorruptedPath
    } else if v == 104 {
        ResultType::SetPhase
    } else if v == 105 {
        ResultType::Progress
    } else if v == 106 {
        ResultType::SetExpected
    } else if v == 107 {
        ResultType::PostBuildLogLine
    } else if v == 108 {
        ResultType::FetchStatus
    } else {
        ResultType::Unknown
    }
}

impl ResultType {
    pub fn from_int(v: u32) -> (r: ResultType)
        ensures
            r == result_of(v),
    {
        match v {
            100 => ResultType::FileLinked,
            101 => ResultType::BuildLogLine,
            102 => ResultType::UntrustedPath,
            103 => ResultType::CorruptedPath,
            104 => ResultType::SetPhase,
            105 => ResultType::Progress,
            106 => ResultType::SetExpected,
            107 => ResultType::PostBuildLogLine,
            108 => ResultType::FetchStatus,
            _ => ResultType::Unknown,
        }
    }
}

/// What a result report of an activity amounts to.
#[derive(Debug, PartialEq, Eq)]
pub enum ResultReport {
    /// A line of a build's log.
    LogLine(String),
    /// The build entered a phase.
    Phase(String),
    /// How much of the expected work is done.
    Progress { done: i32, expected: i32 },
    /// The amount of work to expect; nothing to show.
    Expected,
    /// A report of an unknown shape.
    Unrecognised,
}

/// Reads a result report by its kind and fields.
pub fn classify_result(ty: ResultType, fields: &Vec<FieldValue>) -> (r: ResultReport)
    ensures
        ty is BuildLogLine && fields@.len() == 1 && fields@[0] is Str ==> (r matches ResultReport::LogLine(s)
            && fields@[0] == FieldValue::Str(s)),
        ty is SetPhase && fields@.len() == 1 && fields@[0] is Str ==> (r matches ResultReport::Phase(s)
            && fields@[0] == FieldValue::Str(s)),
        ty is Progress && fields@.len() == 4 && fields@[0] is Int && fields@[1] is Int && fields@[2] is Int
            && fields@[3] is Int ==> r == (ResultReport::Progress {
            done: fields@[0]->Int_0,
            expected: fields@[1]->Int_0,
        }),
        ty is SetExpected && fields@.len() == 2 && fields@[0] is Int && fields@[1] is Int ==> r
            == ResultReport::Expected,
        !((ty is BuildLogLine && fields@.len() == 1 && fields@[0] is Str) || (ty is SetPhase
            && fields@.len() == 1 && fields@[0] is Str) || (ty is Progress && fields@.len() == 4
            && fields@[0] is Int && fields@[1] is Int && fields@[2] is Int && fields@[3] is Int) || (
        ty is SetExpected && fields@.len() == 2 && fields@[0] is Int && fields@[1] is Int)) ==> r
            == ResultReport::Unrecognised,
{
    match ty {
        ResultType::BuildLogLine | ResultType::SetPhase => {
            if fields.len() == 1 {
                if let FieldValue::Str(s) = &fields[0] {
                    let line = s.clone();
                    return if matches!(ty, ResultType::BuildLogLine) {
                        ResultReport::LogLine(line)
                    } else {
                        ResultReport::Phase(line)
                    };
                }
            }
            ResultReport::Unrecognised
        },
        ResultType::Progress => {
            if fields.len() == 4 {
                if let (FieldValue::Int(done), FieldValue::Int(expected), FieldValue::Int(_), FieldValue::Int(_)) = (&fields[0], &fields[1], &fields[2], &fields[3]) {
                    return ResultReport::Progress { done: *done, expected: *expected };
                }
            }
            ResultReport::Unrecognised
        },
        ResultType::SetExpected => {
            if fields.len() == 2 && matches!(fields[0], FieldValue::Int(_)) && matches!(fields[1], FieldValue::Int(_)) {
                return ResultReport::Expected;
            }
            ResultReport::Unrecognised
        },
        _ => ResultReport::Unrecognised,
    }
}

} // verus!
