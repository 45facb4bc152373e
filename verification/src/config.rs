//! Startup configuration: static headers, echo-header names, delay, and
//! per-connection socket options.
//!
//! A static header is given as one `name: value` token. The name is the
//! trimmed text before the first colon; the value is the trimmed text
//! between the first colon and the next one (or the end). A token without a
//! colon, or with nothing after its first colon, is malformed, and a
//! malformed token makes the whole configuration invalid — a startup
//! error, never a per-request one.

use vstd::prelude::*;

use crate::ascii::{copy_range, lower, trim, trim_spec};
use crate::headers::{echo_set, Headers};

verus! {

/// The position of the first colon in `s`, or `s.len()` when there is
/// none.
pub open spec fn first_colon(s: Seq<u8>) -> int
    decreases s.len(),
{
    if s.len() == 0 {
        0
    } else if s[0] == 0x3a {
        0
    } else {
        1 + first_colon(s.subrange(1, s.len() as int))
    }
}

/// `first_colon` finds a colon, and the first one.
proof fn lemma_first_colon(s: Seq<u8>)
    ensures
        0 <= first_colon(s) <= s.len(),
        forall|j: int| 0 <= j < first_colon(s) ==> s[j] != 0x3a,
        first_colon(s) < s.len() ==> s[first_colon(s)] == 0x3a,
    decreases s.len(),
{
    if s.len() == 0 {
    } else if s[0] == 0x3a {
    } else {
        let t = s.subrange(1, s.len() as int);
        lemma_first_colon(t);
        assert forall|j: int| 0 <= j < first_colon(s) implies s[j] != 0x3a by {
            if j >= 1 {
                assert(t[j - 1] == s[j]);
                assert(t[j - 1] != 0x3a);
            }
        }
    }
}

/// The parsed form of one `name: value` token, or nothing when the token
/// is malformed.
pub open spec fn parse_header_spec(s: Seq<u8>) -> Option<(Seq<u8>, Seq<u8>)> {
    let i = first_colon(s);
    if i == s.len() {
        None
    } else {
        let rest = s.subrange(i + 1, s.len() as int);
        if rest.len() == 0 {
            None
        } else {
            let j = first_colon(rest);
            Some((trim_spec(s.subrange(0, i)), trim_spec(rest.subrange(0, j))))
        }
    }
}

/// Finds the first colon at or after `from`.
fn find_colon(line: &Vec<u8>, from: usize) -> (r: usize)
    requires
        from <= line@.len(),
    ensures
        from <= r <= line@.len(),
        forall|j: int| from <= j < r ==> line@[j] != 0x3a,
        r < line@.len() ==> line@[r as int] == 0x3a,
{
    let n = line.len();
    let mut i: usize = from;
    while i < n && line[i] != 0x3a
        invariant
            from <= i <= n,
            n == line@.len(),
            forall|j: int| from <= j < i ==> line@[j] != 0x3a,
        decreases n - i,
    {
        i = i + 1;
    }
    i
}

/// Parses one `name: value` token as `parse_header_spec` describes it.
pub fn parse_header(line: &Vec<u8>) -> (r: Option<(Vec<u8>, Vec<u8>)>)
    ensures
        match r {
            Some(p) => parse_header_spec(line@) matches Some(q) && p.0@ == q.0 && p.1@ == q.1,
            None => parse_header_spec(line@) is None,
        },
{
    let n = line.len();
    let i = find_colon(line, 0);
    proof {
        lemma_first_colon(line@);
        if first_colon(line@) < i {
            assert(line@[first_colon(line@)] != 0x3a);
        }
        if i < first_colon(line@) {
            assert(line@[i as int] != 0x3a);
        }
        assert(first_colon(line@) == i);
    }
    if i == n {
        return None;
    }
    let ghost rest = line@.subrange(i + 1, n as int);
    if i + 1 == n {
        proof {
            assert(rest.len() == 0);
        }
        return None;
    }
    let j = find_colon(line, i + 1);
    proof {
        lemma_first_colon(rest);
        assert(forall|k: int| 0 <= k < rest.len() ==> rest[k] == line@[k + i + 1]);
        let fc = first_colon(rest);
        if fc + i + 1 < j {
            assert(line@[fc + i + 1] != 0x3a);
        }
        if j < fc + i + 1 {
            assert(rest[j - i - 1] != 0x3a);
        }
        assert(fc == j - i - 1);
        assert(rest.subrange(0, fc) =~= line@.subrange(i + 1, j as int));
    }
    let name_part = copy_range(line, 0, i);
    let value_part = copy_range(line, i + 1, j);
    let name = trim(&name_part);
    let value = trim(&value_part);
    Some((name, value))
}

/// The static-header map described by a sequence of configuration tokens:
/// each well-formed token inserted in order, a later name overwriting an
/// earlier one up to ASCII case.
pub open spec fn static_map_of(lines: Seq<Vec<u8>>) -> Map<Seq<u8>, Seq<u8>>
    decreases lines.len(),
{
    if lines.len() == 0 {
        Map::empty()
    } else {
        let m = static_map_of(lines.drop_last());
        match parse_header_spec(lines.last()@) {
            Some(p) => m.insert(lower(p.0), p.1),
            None => m,
        }
    }
}

/// All configuration tokens are well formed.
pub open spec fn all_tokens_ok(lines: Seq<Vec<u8>>) -> bool {
    forall|i: int| 0 <= i < lines.len() ==> parse_header_spec(lines[i]@) is Some
}

/// The immutable process-wide configuration: static response headers,
/// request-header names to echo, and the artificial delay in microseconds.
/// Built once at startup and read-only afterwards.
pub struct Config {
    statics: Headers,
    echo_names: Vec<Vec<u8>>,
    delay_us: u64,
}

impl Config {
    /// The configured static headers, as a map from case-folded name to
    /// value.
    pub closed spec fn statics_map(&self) -> Map<Seq<u8>, Seq<u8>> {
        self.statics.as_map()
    }

    /// The case-folded names configured for echoing.
    pub closed spec fn echoes(&self) -> Set<Seq<u8>> {
        echo_set(self.echo_names@)
    }

    /// The configured artificial delay, in microseconds.
    pub closed spec fn delay_micros(&self) -> u64 {
        self.delay_us
    }

    /// The static headers are well formed.
    pub closed spec fn wf(&self) -> bool {
        self.statics.wf()
    }

    /// Builds the configuration from the raw startup flags. Fails, and
    /// configures nothing, exactly when some static-header token is
    /// malformed.
    pub fn new(header_lines: &Vec<Vec<u8>>, echo_names: Vec<Vec<u8>>, delay_us: u64) -> (r: Option<
        Config,
    >)
        ensures
            r is Some <==> all_tokens_ok(header_lines@),
            r matches Some(c) ==> c.wf() && c.statics_map() == static_map_of(header_lines@)
                && c.echoes() == echo_set(echo_names@) && c.delay_micros() == delay_us,
    {
        let n = header_lines.len();
        let mut statics = Headers::new();
        proof {
            assert(header_lines@.take(0) =~= Seq::<Vec<u8>>::empty());
        }
        let mut i: usize = 0;
        while i < n
            invariant
                n == header_lines@.len(),
                0 <= i <= n,
                statics.wf(),
                statics.as_map() == static_map_of(header_lines@.take(i as int)),
                all_tokens_ok(header_lines@.take(i as int)),
            decreases n - i,
        {
            proof {
                assert(header_lines@.take(i + 1).drop_last() =~= header_lines@.take(i as int));
                assert(header_lines@.take(i + 1).last() == header_lines@[i as int]);
            }
            let parsed = parse_header(&header_lines[i]);
            match parsed {
                Some((name, value)) => {
                    statics.insert(name, value);
                },
                None => {
                    return None;
                },
            }
            proof {
                assert(forall|k: int|
                    0 <= k < i + 1 ==> header_lines@.take(i + 1)[k] == header_lines@[k]);
            }
            i = i + 1;
        }
        proof {
            assert(header_lines@.take(n as int) =~= header_lines@);
        }
        Some(Config { statics, echo_names, delay_us })
    }

    /// The configured delay in microseconds.
    pub fn delay(&self) -> (r: u64)
        ensures
            r == self.delay_micros(),
    {
        self.delay_us
    }

    /// True when a positive delay is configured; a zero delay is a no-op
    /// and suspends nothing.
    pub fn needs_delay(&self) -> (r: bool)
        ensures
            r == (self.delay_micros() > 0),
    {
        self.delay_us > 0
    }

    /// Builds the response headers for one request under this
    /// configuration: the static headers first, the echoed request
    /// headers laid over them.
    pub fn response_headers(&self, request: &Headers) -> (r: Headers)
        ensures
            r.wf(),
            r.as_map() == self.statics_map().union_prefer_right(
                request.as_map().restrict(self.echoes()),
            ),
    {
        crate::headers::build_response_headers(&self.statics, &self.echo_names, request)
    }
}

/// The transport options applied to every accepted connection before it is
/// handed to the protocol layer: no-delay on, keepalive with a fixed idle
/// threshold before the first probe.
pub struct SocketOptions {
    pub nodelay: bool,
    pub keepalive_idle_secs: u64,
}

impl SocketOptions {
    /// The fixed options this backend applies: Nagle's algorithm off,
    /// keepalive after ten idle seconds.
    pub fn standard() -> (r: SocketOptions)
        ensures
            r.nodelay,
            r.keepalive_idle_secs == 10,
    {
        SocketOptions { nodelay: true, keepalive_idle_secs: 10 }
    }
}

} // verus!
