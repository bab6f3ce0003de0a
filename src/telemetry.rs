use vstd::prelude::*;
use vstd::string::{StrSliceExecFns, StringExecFns};

use crate::names::str_eq;

verus! {

/// Compression of exported telemetry.
#[derive(Clone, Copy, Debug, PartialEq, Eq, Structural)]
pub enum Compression {
    Gzip,
    Zstd,
}

/// Transport of exported telemetry.
#[derive(Clone, Copy, Debug, PartialEq, Eq, Structural)]
pub enum OtlpProtocol {
    Grpc,
    HttpProtobuf,
    HttpJson,
}

impl Compression {
    /// Reads a compression by its name: `gzip` or `zstd`.
    pub fn parse(s: &str) -> (r: Option<Compression>)
        ensures
            s@ == "gzip"@ <==> r == Some(Compression::Gzip),
            s@ == "zstd"@ <==> r == Some(Compression::Zstd),
    {
        proof {
            reveal_strlit("gzip");
            reveal_strlit("zstd");
            assert("gzip"@[0] != "zstd"@[0]);
        }
        if str_eq(s, "gzip") {
            Some(Compression::Gzip)
        } else if str_eq(s, "zstd") {
            Some(Compression::Zstd)
        } else {
            None
        }
    }
}

impl OtlpProtocol {
    /// Reads a protocol by its name: `grpc`, `http/protobuf` or `http/json`.
    pub fn parse(s: &str) -> (r: Option<OtlpProtocol>)
        ensures
            s@ == "grpc"@ <==> r == Some(OtlpProtocol::Grpc),
            s@ == "http/protobuf"@ <==> r == Some(OtlpProtocol::HttpProtobuf),
            s@ == "http/json"@ <==> r == Some(OtlpProtocol::HttpJson),
    {
        proof {
            reveal_strlit("grpc");
            reveal_strlit("http/protobuf");
            reveal_strlit("http/json");
            assert("grpc"@.len() != "http/protobuf"@.len());
            assert("grpc"@.len() != "http/json"@.len());
            assert("http/json"@.len() != "http/protobuf"@.len());
        }
        if str_eq(s, "grpc") {
            Some(OtlpProtocol::Grpc)
        } else if str_eq(s, "http/protobuf") {
            Some(OtlpProtocol::HttpProtobuf)
        } else if str_eq(s, "http/json") {
            Some(OtlpProtocol::HttpJson)
        } else {
            None
        }
    }
}

/// Where `c` first stands in `s`, where it does.
pub open spec fn first_index(s: Seq<char>, c: char) -> int {
    choose|i: int| 0 <= i < s.len() && s[i] == c && forall|j: int| 0 <= j < i ==> s[j] != c
}

pub open spec fn holds_char(s: Seq<char>, c: char) -> bool {
    exists|i: int| 0 <= i < s.len() && s[i] == c
}

/// The pieces of `s` between commas, as `str::split(',')` gives them.
#[verifier::opaque]
pub open spec fn comma_pieces(s: Seq<char>) -> Seq<Seq<char>>
    decreases s.len(),
{
    let i = first_index(s, ',');
    if holds_char(s, ',') && 0 <= i < s.len() {
        seq![s.take(i)] + comma_pieces(s.skip(i + 1))
    } else {
        seq![s]
    }
}

/// A header `key=value`; without `=`, the value is empty.
#[verifier::opaque]
pub open spec fn header_of(piece: Seq<char>) -> (Seq<char>, Seq<char>) {
    if holds_char(piece, '=') {
        let i = first_index(piece, '=');
        (piece.take(i), piece.skip(i + 1))
    } else {
        (piece, Seq::empty())
    }
}

pub open spec fn headers_of(s: Seq<char>) -> Seq<(Seq<char>, Seq<char>)> {
    comma_pieces(s).map_values(|p: Seq<char>| header_of(p))
}

/// The text of each header.
pub open spec fn pairs_view(v: Seq<(String, String)>) -> Seq<(Seq<char>, Seq<char>)> {
    v.map_values(|h: (String, String)| (h.0@, h.1@))
}

/// Where `c` first stands in `s` from `from` on.
fn find_char(s: &str, c: char, from: usize, n: usize) -> (r: Option<usize>)
    requires
        n == s@.len(),
        from <= n,
    ensures
        match r {
            Some(i) => from <= i < n && s@[i as int] == c && forall|j: int| from <= j < i ==> s@[j] != c,
            None => forall|j: int| from <= j < n ==> s@[j] != c,
        },
{
    let mut i = from;
    while i < n
        invariant
            from <= i <= n,
            n == s@.len(),
            forall|j: int| from <= j < i ==> s@[j] != c,
        decreases n - i,
    {
        if s.get_char(i) == c {
            return Some(i);
        }
        i = i + 1;
    }
    None
}

proof fn lemma_first_index(s: Seq<char>, c: char, i: int)
    requires
        0 <= i < s.len(),
        s[i] == c,
        forall|j: int| 0 <= j < i ==> s[j] != c,
    ensures
        holds_char(s, c),
        first_index(s, c) == i,
{
    assert(holds_char(s, c));
    let k = first_index(s, c);
    if k < i {
    } else if k > i {
    }
}

fn header(piece: &str) -> (r: (String, String))
    ensures
        (r.0@, r.1@) == header_of(piece@),
{
    let n = piece.unicode_len();
    proof {
        reveal(header_of);
    }
    match find_char(piece, '=', 0, n) {
        Some(i) => {
            proof {
                lemma_first_index(piece@, '=', i as int);
            }
            assert(piece@.subrange(0, i as int) =~= piece@.take(i as int));
            assert(piece@.subrange(i + 1, n as int) =~= piece@.skip(i + 1));
            (String::from_str(piece.substring_char(0, i)), String::from_str(piece.substring_char(i + 1, n)))
        },
        None => {
            proof {
                assert(!holds_char(piece@, '='));
            }
            (String::from_str(piece), String::new())
        },
    }
}

proof fn lemma_pieces_step(rest: Seq<char>, k: int)
    requires
        0 <= k < rest.len(),
        rest[k] == ',',
        forall|j: int| 0 <= j < k ==> rest[j] != ',',
    ensures
        comma_pieces(rest) == seq![rest.take(k)] + comma_pieces(rest.skip(k + 1)),
{
    lemma_first_index(rest, ',', k);
    reveal(comma_pieces);
}

proof fn lemma_headers_step(whole: Seq<char>, start: int, i: int, n: int)
    requires
        0 <= start <= i < n,
        n == whole.len(),
        whole[i] == ',',
        forall|j: int| start <= j < i ==> whole[j] != ',',
    ensures
        headers_of(whole.subrange(start, n)) == seq![header_of(whole.subrange(start, i))] + headers_of(
            whole.subrange(i + 1, n),
        ),
{
    let rest = whole.subrange(start, n);
    let tail = whole.subrange(i + 1, n);
    assert forall|j: int| 0 <= j < i - start implies rest[j] != ',' by {
        assert(rest[j] == whole[start + j]);
    }
    lemma_pieces_step(rest, i - start);
    assert(rest.take(i - start) =~= whole.subrange(start, i));
    assert(rest.skip(i - start + 1) =~= tail);
    let a = seq![rest.take(i - start)];
    let b = comma_pieces(tail);
    assert((a + b).map_values(|p: Seq<char>| header_of(p)) =~= a.map_values(|p: Seq<char>| header_of(p)) + b.map_values(|p: Seq<char>| header_of(p)));
}

proof fn lemma_headers_last(whole: Seq<char>, start: int, n: int)
    requires
        0 <= start <= n,
        n == whole.len(),
        forall|j: int| start <= j < n ==> whole[j] != ',',
    ensures
        headers_of(whole.subrange(start, n)) == seq![header_of(whole.subrange(start, n))],
{
    let rest = whole.subrange(start, n);
    assert(!holds_char(rest, ',')) by {
        if holds_char(rest, ',') {
            let j = choose|j: int| 0 <= j < rest.len() && rest[j] == ',';
            assert(whole[start + j] == ',');
        }
    }
    assert(comma_pieces(rest) == seq![rest]) by {
        reveal(comma_pieces);
    }
    assert(headers_of(rest) =~= seq![header_of(rest)]);
}

/// Reads a header list `k1=v1,k2=v2`; a header without `=` has an empty value.
pub fn parse_headers(headers: &str) -> (r: Vec<(String, String)>)
    ensures
        pairs_view(r@) == headers_of(headers@),
{
    let n = headers.unicode_len();
    let mut out: Vec<(String, String)> = Vec::new();
    let mut start: usize = 0;
    let ghost whole = headers@;
    assert(whole.subrange(0, n as int) =~= whole);
    assert(pairs_view(out@) + headers_of(whole) =~= headers_of(whole));
    loop
        invariant
            start <= n,
            n == whole.len(),
            whole == headers@,
            pairs_view(out@) + headers_of(whole.subrange(start as int, n as int)) == headers_of(whole),
        decreases n - start,
    {
        let ghost before = out@;
        match find_char(headers, ',', start, n) {
            Some(i) => {
                proof {
                    lemma_headers_step(whole, start as int, i as int, n as int);
                }
                let h = header(headers.substring_char(start, i));
                out.push(h);
                proof {
                    let x = header_of(whole.subrange(start as int, i as int));
                    let tail = headers_of(whole.subrange(i + 1, n as int));
                    assert(pairs_view(out@) =~= pairs_view(before).push(x));
                    assert(pairs_view(out@) + tail =~= pairs_view(before) + (seq![x] + tail));
                }
                start = i + 1;
            },
            None => {
                proof {
                    lemma_headers_last(whole, start as int, n as int);
                }
                let h = header(headers.substring_char(start, n));
                out.push(h);
                proof {
                    let x = header_of(whole.subrange(start as int, n as int));
                    assert(pairs_view(out@) =~= pairs_view(before).push(x));
                    assert(pairs_view(out@) =~= pairs_view(before) + seq![x]);
                }
                return out;
            },
        }
    }
}

/// One signal's exporter settings, or the settings shared by all signals; unset
/// values are `None`.
#[derive(Debug)]
pub struct ExporterSettings {
    pub compression: Option<Compression>,
    pub endpoint: Option<String>,
    pub headers: Option<String>,
    pub protocol: Option<OtlpProtocol>,
    pub timeout: Option<u64>,
}

/// What an exporter is built with.
#[derive(Debug)]
pub struct ExporterConfig {
    pub endpoint: String,
    pub headers: Vec<(String, String)>,
    pub timeout_ms: u64,
    pub protocol: OtlpProtocol,
    /// Only the gRPC transport compresses.
    pub compression: Option<Compression>,
}

/// Why an exporter could not be configured.
#[derive(Clone, Copy, Debug, PartialEq, Eq, Structural)]
pub enum ProviderError {
    /// Neither the signal's endpoint nor a shared one is set.
    EndpointUnset,
    /// Neither the signal's protocol nor a shared one is set.
    UnsetProtocol,
}

/// The timeout used where none is set, in milliseconds.
pub const DEFAULT_TIMEOUT_MS: u64 = 10000;

/// Configures a signal's exporter: each value of the signal's own settings wins over
/// the shared one; a shared endpoint gets the signal's `path` appended.
pub fn resolve_exporter(
    base: &ExporterSettings,
    signal: &ExporterSettings,
    path: &str,
) -> (r: Result<ExporterConfig, ProviderError>)
    ensures
        signal.endpoint is None && base.endpoint is None <==> r == Err::<ExporterConfig, _>(ProviderError::EndpointUnset),
        !(signal.endpoint is None && base.endpoint is None) && signal.protocol is None && base.protocol is None
            <==> r == Err::<ExporterConfig, _>(ProviderError::UnsetProtocol),
        r matches Ok(c) ==> {
            &&& c.endpoint@ == match signal.endpoint {
                Some(e) => e@,
                None => base.endpoint->Some_0@ + path@,
            }
            &&& c.timeout_ms == match signal.timeout {
                Some(t) => t,
                None => match base.timeout {
                    Some(t) => t,
                    None => DEFAULT_TIMEOUT_MS,
                },
            }
            &&& c.protocol == match signal.protocol {
                Some(p) => p,
                None => base.protocol->Some_0,
            }
            &&& c.compression == if c.protocol is Grpc {
                match signal.compression {
                    Some(x) => Some(x),
                    None => base.compression,
                }
            } else {
                None
            }
            &&& match (signal.headers, base.headers) {
                (Some(h), _) | (None, Some(h)) => pairs_view(c.headers@) == headers_of(h@),
                (None, None) => c.headers@.len() == 0,
            }
        },
{
    let endpoint = match &signal.endpoint {
        Some(e) => e.clone(),
        None => match &base.endpoint {
            Some(b) => {
                let mut e = b.clone();
                e.append(path);
                e
            },
            None => {
                return Err(ProviderError::EndpointUnset);
            },
        },
    };
    let protocol = match signal.protocol {
        Some(p) => p,
        None => match base.protocol {
            Some(p) => p,
            None => {
                return Err(ProviderError::UnsetProtocol);
            },
        },
    };
    let headers = match &signal.headers {
        Some(h) => parse_headers(h.as_str()),
        None => match &base.headers {
            Some(h) => parse_headers(h.as_str()),
            None => Vec::new(),
        },
    };
    let timeout_ms = match signal.timeout {
        Some(t) => t,
        None => match base.timeout {
            Some(t) => t,
            None => DEFAULT_TIMEOUT_MS,
        },
    };
    let compression = if matches!(protocol, OtlpProtocol::Grpc) {
        match signal.compression {
            Some(x) => Some(x),
            None => base.compression,
        }
    } else {
        None
    };
    Ok(ExporterConfig { endpoint, headers, timeout_ms, protocol, compression })
}

} // verus!
