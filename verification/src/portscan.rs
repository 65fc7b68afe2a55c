//! Port-scan configuration: the inclusive port range, its textual parser,
//! the validated scan target, and the error taxonomy of the scanning core.

use vstd::prelude::*;
use vstd::string::*;

use crate::text::{
    all_digits, dec_val, is_space_char, lemma_trim_bounds, parse_u16, trim_seq,
};

verus! {

/// An inclusive range of TCP ports. A well-formed range never contains
/// port zero and never runs backwards.
#[derive(Clone, Copy, PartialEq, Eq, Structural, Debug)]
pub struct PortRange {
    pub start: u16,
    pub end: u16,
}

impl PortRange {
    /// Validity: `1 <= start <= end` (the upper bound `65535` is the type's own).
    pub open spec fn wf(self) -> bool {
        1 <= self.start <= self.end
    }

    /// How many ports the range covers.
    pub open spec fn spec_size(self) -> int {
        self.end - self.start + 1
    }

    /// Number of ports covered by a well-formed range.
    pub fn size(&self) -> (n: usize)
        requires
            self.wf(),
        ensures
            n == self.spec_size(),
    {
        (self.end - self.start) as usize + 1
    }
}

/// The errors the scanning core can report.
#[derive(Debug)]
pub enum PortScanError {
    /// A port token is not a valid port number.
    InvalidPort(String),
    /// An endpoint is zero or the range runs backwards.
    InvalidPortRange(String),
    /// The concurrent execution substrate failed to initialize.
    RuntimeError(String),
    /// A dispatched unit of work terminated abnormally.
    JoinError(String),
}

/// How many `-` characters `s` holds.
pub open spec fn dash_count(s: Seq<char>) -> int
    decreases s.len(),
{
    if s.len() <= 0 {
        0
    } else {
        dash_count(s.drop_last()) + if s.last() == '-' {
            1int
        } else {
            0int
        }
    }
}

/// `k` is the position of the first `-` in `s`.
pub open spec fn dash_at(s: Seq<char>, k: int) -> bool {
    &&& 0 <= k < s.len()
    &&& s[k] == '-'
    &&& forall|j: int| 0 <= j < k ==> s[j] != '-'
}

/// The position of the first `-` in `s` (meaningful only when one exists).
pub open spec fn first_dash(s: Seq<char>) -> int {
    choose|k: int| dash_at(s, k)
}

proof fn lemma_dash_at_unique(s: Seq<char>, k1: int, k2: int)
    requires
        dash_at(s, k1),
        dash_at(s, k2),
    ensures
        k1 == k2,
{
    if k1 < k2 {
        assert(s[k1] == '-');
    }
    if k2 < k1 {
        assert(s[k2] == '-');
    }
}

/// A token that denotes a port number: non-empty, all digits, and small
/// enough for a sixteen-bit port.
pub open spec fn valid_port_token(t: Seq<char>) -> bool {
    t.len() > 0 && all_digits(t) && dec_val(t) <= 65535
}

/// What parsing a port specification yields: a range, or the offending
/// token of each failure.
pub enum PortParse {
    Range(PortRange),
    BadPort(Seq<char>),
    BadRange(Seq<char>),
}

/// The meaning of a textual port specification. The specification is
/// trimmed; if it holds exactly one `-` it is split there into two port
/// tokens (each trimmed again), otherwise the whole of it is one token.
/// A malformed or oversized token is reported as `BadPort`; a zero
/// endpoint or a backwards range as `BadRange`.
pub open spec fn spec_parse_port_range(s: Seq<char>) -> PortParse {
    let t = trim_seq(s);
    if dash_count(t) == 1 {
        let k = first_dash(t);
        let a = t.subrange(0, k);
        let b = t.subrange(k + 1, t.len() as int);
        let at = trim_seq(a);
        let bt = trim_seq(b);
        if !valid_port_token(at) {
            PortParse::BadPort(a)
        } else if !valid_port_token(bt) {
            PortParse::BadPort(b)
        } else if dec_val(at) == 0 || dec_val(bt) == 0 || dec_val(at) > dec_val(bt) {
            PortParse::BadRange(t)
        } else {
            PortParse::Range(PortRange { start: dec_val(at) as u16, end: dec_val(bt) as u16 })
        }
    } else {
        if !valid_port_token(t) {
            PortParse::BadPort(t)
        } else if dec_val(t) == 0 {
            PortParse::BadRange(t)
        } else {
            PortParse::Range(PortRange { start: dec_val(t) as u16, end: dec_val(t) as u16 })
        }
    }
}

/// The scan command's options as the CLI layer hands them over; a field
/// left empty falls back to its documented default.
#[derive(Debug, Clone, Default)]
pub struct PortScanOpts {
    pub target: Option<String>,
    pub port: Option<String>,
    pub concurrency: Option<usize>,
    pub time_out: Option<u64>,
    pub output: Option<String>,
}

/// A validated, immutable description of one scan: host, port range,
/// concurrency cap and per-probe deadline.
#[derive(Debug, Clone)]
pub struct ScanTarget {
    pub host: String,
    pub range: PortRange,
    pub concurrency: usize,
    pub timeout_ms: u64,
}

impl ScanTarget {
    /// Validity: a well-formed range, at least one permit, and a
    /// positive deadline.
    pub open spec fn wf(self) -> bool {
        self.range.wf() && self.concurrency >= 1 && self.timeout_ms >= 1
    }
}

/// The host a scan goes to, defaulting to the local machine.
pub open spec fn spec_host(o: PortScanOpts) -> Seq<char> {
    match o.target {
        Some(h) => h@,
        None => "127.0.0.1"@,
    }
}

/// The textual port specification, defaulting to port 80.
pub open spec fn spec_port_text(o: PortScanOpts) -> Seq<char> {
    match o.port {
        Some(p) => p@,
        None => "80"@,
    }
}

/// The concurrency cap, defaulting to 100 simultaneous probes.
pub open spec fn spec_concurrency(o: PortScanOpts) -> int {
    match o.concurrency {
        Some(c) => c as int,
        None => 100,
    }
}

/// The per-probe deadline in milliseconds, defaulting to 1000.
pub open spec fn spec_timeout(o: PortScanOpts) -> int {
    match o.time_out {
        Some(t) => t as int,
        None => 1000,
    }
}

impl ScanTarget {
    /// Resolves the options' defaults and parses the port specification
    /// into a validated scan target. The options are expected
    /// pre-validated: an explicit concurrency or timeout must be
    /// positive. Parsing failures pass through unchanged.
    pub fn from_opts(opts: PortScanOpts) -> (r: Result<ScanTarget, PortScanError>)
        requires
            opts.concurrency matches Some(c) ==> c >= 1,
            opts.time_out matches Some(t) ==> t >= 1,
        ensures
            spec_parse_port_range(spec_port_text(opts)) matches PortParse::Range(pr) ==> (r
                matches Ok(tg) && tg.range == pr && tg.host@ == spec_host(opts)
                && tg.concurrency == spec_concurrency(opts) && tg.timeout_ms == spec_timeout(opts)
                && tg.wf()),
            spec_parse_port_range(spec_port_text(opts)) matches PortParse::BadPort(tok) ==> (r
                matches Err(PortScanError::InvalidPort(m)) && m@ == tok),
            spec_parse_port_range(spec_port_text(opts)) matches PortParse::BadRange(tok) ==> (r
                matches Err(PortScanError::InvalidPortRange(m)) && m@ == tok),
    {
        let host = match opts.target {
            Some(h) => h,
            None => String::from_str("127.0.0.1"),
        };
        let port_text = match opts.port {
            Some(p) => p,
            None => String::from_str("80"),
        };
        let concurrency = match opts.concurrency {
            Some(c) => c,
            None => 100,
        };
        let timeout_ms = match opts.time_out {
            Some(t) => t,
            None => 1000,
        };
        let range = match parse_port_range(port_text.as_str()) {
            Ok(pr) => pr,
            Err(e) => {
                return Err(e);
            },
        };
        Ok(ScanTarget { host, range, concurrency, timeout_ms })
    }
}

/// Whether `c` is trimmed around tokens.
fn is_space_c(c: char) -> (r: bool)
    ensures
        r == is_space_char(c),
{
    c == ' ' || c == '\t' || c == '\n' || c == '\r'
}

/// The slice of `s` between its first and last non-whitespace characters.
fn trim_str<'a>(s: &'a str) -> (r: &'a str)
    ensures
        r@ == trim_seq(s@),
{
    let n = s.unicode_len();
    let mut lo: usize = 0;
    while lo < n && is_space_c(s.get_char(lo))
        invariant
            0 <= lo <= n,
            n == s@.len(),
            forall|i: int| 0 <= i < lo ==> is_space_char(s@[i]),
        decreases n - lo,
    {
        lo = lo + 1;
    }
    let mut hi: usize = n;
    while hi > lo && is_space_c(s.get_char(hi - 1))
        invariant
            lo <= hi <= n,
            n == s@.len(),
            forall|i: int| hi <= i < n ==> is_space_char(s@[i]),
        decreases hi,
    {
        hi = hi - 1;
    }
    proof {
        lemma_trim_bounds(s@, lo as int, hi as int);
    }
    s.substring_char(lo, hi)
}

/// Parses a port specification: either a single port, `"80"`, or an
/// inclusive range, `"80-100"`. Whitespace around the specification and
/// around each endpoint is ignored. Exactly the specifications whose
/// meaning is a range parse; the errors name the offending text.
pub fn parse_port_range(s: &str) -> (r: Result<PortRange, PortScanError>)
    ensures
        spec_parse_port_range(s@) matches PortParse::Range(pr) ==> r matches Ok(q) && q == pr,
        spec_parse_port_range(s@) matches PortParse::BadPort(tok) ==> (r matches Err(
            PortScanError::InvalidPort(m),
        ) && m@ == tok),
        spec_parse_port_range(s@) matches PortParse::BadRange(tok) ==> (r matches Err(
            PortScanError::InvalidPortRange(m),
        ) && m@ == tok),
        r matches Ok(q) ==> q.wf(),
{
    let st = trim_str(s);
    let m = st.unicode_len();
    let ghost t = st@;
    let mut cnt: usize = 0;
    let mut kk: usize = 0;
    let mut i: usize = 0;
    while i < m
        invariant
            0 <= i <= m,
            m == t.len(),
            t == st@,
            cnt <= i,
            cnt as int == dash_count(t.take(i as int)),
            cnt > 0 ==> 0 <= kk < i && dash_at(t, kk as int),
            cnt == 0 ==> forall|j: int| 0 <= j < i ==> t[j] != '-',
        decreases m - i,
    {
        let c = st.get_char(i);
        proof {
            assert(t.take(i + 1).drop_last() =~= t.take(i as int));
        }
        if c == '-' {
            if cnt == 0 {
                kk = i;
            }
            cnt = cnt + 1;
        }
        i = i + 1;
    }
    proof {
        assert(t.take(m as int) =~= t);
    }
    if cnt == 1 {
        proof {
            assert(dash_at(t, kk as int));
            assert(exists|k: int| dash_at(t, k));
            assert(dash_at(t, first_dash(t)));
            lemma_dash_at_unique(t, first_dash(t), kk as int);
        }
        let a_str = st.substring_char(0, kk);
        let b_str = st.substring_char(kk + 1, m);
        let at_str = trim_str(a_str);
        let sv = match parse_u16(at_str) {
            Some(v) => v,
            None => {
                return Err(PortScanError::InvalidPort(String::from_str(a_str)));
            },
        };
        let bt_str = trim_str(b_str);
        let ev = match parse_u16(bt_str) {
            Some(v) => v,
            None => {
                return Err(PortScanError::InvalidPort(String::from_str(b_str)));
            },
        };
        if sv == 0 || ev == 0 || sv > ev {
            return Err(PortScanError::InvalidPortRange(String::from_str(st)));
        }
        Ok(PortRange { start: sv, end: ev })
    } else {
        let v = match parse_u16(st) {
            Some(v) => v,
            None => {
                return Err(PortScanError::InvalidPort(String::from_str(st)));
            },
        };
        if v == 0 {
            return Err(PortScanError::InvalidPortRange(String::from_str(st)));
        }
        Ok(PortRange { start: v, end: v })
    }
}

} // verus!

