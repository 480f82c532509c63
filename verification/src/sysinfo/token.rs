//! What a format string is made of, and which refresh changes it.

use vstd::prelude::*;

verus! {

/// A group of metrics that is refreshed together.
#[derive(Debug, Clone, Copy, PartialEq, Eq, Structural)]
pub enum RefreshType {
    Memory,
    Cpu,
    Temps,
    Disks,
    Network,
    System,
}

/// A metric that a format string can name.
#[derive(Debug, Clone, Copy, PartialEq, Eq, Structural)]
pub enum TokenType {
    CpuFrequency,
    CpuPercent,
    MemoryFree,
    MemoryAvailable,
    MemoryTotal,
    MemoryUsed,
    MemoryPercent,
    SwapFree,
    SwapTotal,
    SwapUsed,
    SwapPercent,
    TempC,
    TempF,
    DiskFree,
    DiskTotal,
    DiskUsed,
    DiskPercent,
    DiskRead,
    DiskWrite,
    NetDown,
    NetUp,
    LoadAverage1,
    LoadAverage5,
    LoadAverage15,
    Uptime,
}

/// A metric named in a format string.
#[derive(Debug, Clone, Copy)]
pub struct Token {
    pub token: TokenType,
}

/// A piece of a parsed format string.
#[derive(Debug, Clone, Copy)]
pub enum Part {
    /// Text that never changes.
    Static,
    /// A metric, rendered anew at each update.
    Token(Token),
}

impl TokenType {
    /// The one group of metrics that this metric belongs to.
    pub open spec fn group(self) -> RefreshType {
        match self {
            TokenType::CpuFrequency | TokenType::CpuPercent => RefreshType::Cpu,
            TokenType::MemoryFree
            | TokenType::MemoryAvailable
            | TokenType::MemoryTotal
            | TokenType::MemoryUsed
            | TokenType::MemoryPercent
            | TokenType::SwapFree
            | TokenType::SwapTotal
            | TokenType::SwapUsed
            | TokenType::SwapPercent => RefreshType::Memory,
            TokenType::TempC | TokenType::TempF => RefreshType::Temps,
            TokenType::DiskFree
            | TokenType::DiskTotal
            | TokenType::DiskUsed
            | TokenType::DiskPercent
            | TokenType::DiskRead
            | TokenType::DiskWrite => RefreshType::Disks,
            TokenType::NetDown | TokenType::NetUp => RefreshType::Network,
            TokenType::LoadAverage1
            | TokenType::LoadAverage5
            | TokenType::LoadAverage15
            | TokenType::Uptime => RefreshType::System,
        }
    }

    /// Whether a refresh can change the value of this metric.
    pub fn is_affected_by(self, refresh_type: RefreshType) -> (result: bool)
        ensures
            result == (self.group() == refresh_type),
            refresh_type == RefreshType::Cpu ==> (result <==> self is CpuFrequency || self is CpuPercent),
            refresh_type == RefreshType::Memory ==> (result <==> self is MemoryFree || self is MemoryAvailable
                || self is MemoryTotal || self is MemoryUsed || self is MemoryPercent || self is SwapFree
                || self is SwapTotal || self is SwapUsed || self is SwapPercent),
            refresh_type == RefreshType::Temps ==> (result <==> self is TempC || self is TempF),
            refresh_type == RefreshType::Disks ==> (result <==> self is DiskFree || self is DiskTotal
                || self is DiskUsed || self is DiskPercent || self is DiskRead || self is DiskWrite),
            refresh_type == RefreshType::Network ==> (result <==> self is NetDown || self is NetUp),
            refresh_type == RefreshType::System ==> (result <==> self is LoadAverage1 || self is LoadAverage5
                || self is LoadAverage15 || self is Uptime),
    {
        match self {
            TokenType::CpuFrequency | TokenType::CpuPercent => refresh_type == RefreshType::Cpu,
            TokenType::MemoryFree
            | TokenType::MemoryAvailable
            | TokenType::MemoryTotal
            | TokenType::MemoryUsed
            | TokenType::MemoryPercent
            | TokenType::SwapFree
            | TokenType::SwapTotal
            | TokenType::SwapUsed
            | TokenType::SwapPercent => refresh_type == RefreshType::Memory,
            TokenType::TempC | TokenType::TempF => refresh_type == RefreshType::Temps,
            TokenType::DiskFree
            | TokenType::DiskTotal
            | TokenType::DiskUsed
            | TokenType::DiskPercent
            | TokenType::DiskRead
            | TokenType::DiskWrite => refresh_type == RefreshType::Disks,
            TokenType::NetDown | TokenType::NetUp => refresh_type == RefreshType::Network,
            TokenType::LoadAverage1 | TokenType::LoadAverage5 | TokenType::LoadAverage15 => {
                refresh_type == RefreshType::System
            },
            TokenType::Uptime => refresh_type == RefreshType::System,
        }
    }
}

impl Part {
    /// Whether the piece is a metric of the given group.
    pub open spec fn in_group(self, refresh: RefreshType) -> bool {
        self matches Part::Token(token) && token.token.group() == refresh
    }
}

/// Whether some piece of the format string is a metric.
pub open spec fn has_token(parts: Seq<Part>) -> bool {
    exists|k: int| 0 <= k < parts.len() && #[trigger] parts[k] is Token
}

/// Whether some piece of the format string is a metric of the given group.
pub open spec fn affected(parts: Seq<Part>, refresh: RefreshType) -> bool {
    exists|k: int| 0 <= k < parts.len() && #[trigger] parts[k].in_group(refresh)
}

/// Whether a format string names any metric.
pub fn names_metric(parts: &Vec<Part>) -> (result: bool)
    ensures
        result == has_token(parts@),
        result <==> exists|k: int| 0 <= k < parts@.len() && #[trigger] parts@[k] is Token,
{
    for k in 0..parts.len()
        invariant
            forall|j: int| 0 <= j < k ==> !(#[trigger] parts@[j] is Token),
    {
        if let Part::Token(_) = parts[k] {
            assert(parts@[k as int] is Token);
            return true;
        }
    }
    false
}

/// Whether a refresh can change what a format string renders to.
pub fn changed_by(parts: &Vec<Part>, refresh: RefreshType) -> (result: bool)
    ensures
        result == affected(parts@, refresh),
        result <==> exists|k: int|
            0 <= k < parts@.len() && (#[trigger] parts@[k] matches Part::Token(token)
                && token.token.group() == refresh),
{
    for k in 0..parts.len()
        invariant
            forall|j: int| 0 <= j < k ==> !(#[trigger] parts@[j].in_group(refresh)),
    {
        if let Part::Token(token) = parts[k] {
            if token.token.is_affected_by(refresh) {
                assert(parts@[k as int].in_group(refresh));
                return true;
            }
        }
    }
    proof {
        every_piece_counts(parts@, refresh);
    }
    false
}

/// Every format string that names a metric is affected by some refresh, and
/// one that names none is affected by no refresh.
pub proof fn metrics_are_refreshed(parts: Seq<Part>)
    ensures
        has_token(parts) <==> exists|refresh: RefreshType| affected(parts, refresh),
{
    if has_token(parts) {
        let k = choose|k: int| 0 <= k < parts.len() && #[trigger] parts[k] is Token;
        let refresh = parts[k]->Token_0.token.group();
        assert(parts[k].in_group(refresh));
        assert(affected(parts, refresh));
    }
    if exists|refresh: RefreshType| affected(parts, refresh) {
        let refresh = choose|refresh: RefreshType| affected(parts, refresh);
        let k = choose|k: int| 0 <= k < parts.len() && #[trigger] parts[k].in_group(refresh);
        assert(parts[k] is Token);
    }
}

/// Which metrics each refresh renews.
pub proof fn each_refresh_renews_its_metrics(token: TokenType, refresh: RefreshType)
    ensures
        refresh == RefreshType::Cpu ==> (token.group() == refresh <==> token is CpuFrequency || token is CpuPercent),
        refresh == RefreshType::Memory ==> (token.group() == refresh <==> token is MemoryFree || token is MemoryAvailable
            || token is MemoryTotal || token is MemoryUsed || token is MemoryPercent || token is SwapFree
            || token is SwapTotal || token is SwapUsed || token is SwapPercent),
        refresh == RefreshType::Temps ==> (token.group() == refresh <==> token is TempC || token is TempF),
        refresh == RefreshType::Disks ==> (token.group() == refresh <==> token is DiskFree || token is DiskTotal
            || token is DiskUsed || token is DiskPercent || token is DiskRead || token is DiskWrite),
        refresh == RefreshType::Network ==> (token.group() == refresh <==> token is NetDown || token is NetUp),
        refresh == RefreshType::System ==> (token.group() == refresh <==> token is LoadAverage1 || token is LoadAverage5
            || token is LoadAverage15 || token is Uptime),
{
}

/// A refresh changes what a format string renders to exactly if one of its pieces,
/// wherever it stands, is a metric of the refreshed group; and a format string
/// names a metric exactly if one of its pieces is one.
pub proof fn every_piece_counts(parts: Seq<Part>, refresh: RefreshType)
    ensures
        affected(parts, refresh) <==> exists|k: int|
            0 <= k < parts.len() && (#[trigger] parts[k] matches Part::Token(token)
                && token.token.group() == refresh),
        has_token(parts) <==> exists|k: int| 0 <= k < parts.len() && #[trigger] parts[k] is Token,
{
    if affected(parts, refresh) {
        let k = choose|k: int| 0 <= k < parts.len() && #[trigger] parts[k].in_group(refresh);
        assert(parts[k] is Token);
    }
    if exists|k: int|
        0 <= k < parts.len() && (#[trigger] parts[k] matches Part::Token(token)
            && token.token.group() == refresh) {
        let k = choose|k: int|
            0 <= k < parts.len() && (#[trigger] parts[k] matches Part::Token(token)
                && token.token.group() == refresh);
        assert(parts[k].in_group(refresh));
    }
}

/// What two format strings show, their concatenation shows, and nothing else.
pub proof fn joined_format_strings_show_both(a: Seq<Part>, b: Seq<Part>, refresh: RefreshType)
    ensures
        affected(a + b, refresh) == (affected(a, refresh) || affected(b, refresh)),
        has_token(a + b) == (has_token(a) || has_token(b)),
{
    assert forall|k: int| 0 <= k < a.len() implies (a + b)[k] == #[trigger] a[k] by {}
    assert forall|k: int| 0 <= k < b.len() implies (a + b)[a.len() + k] == #[trigger] b[k] by {}
    if affected(a, refresh) {
        let k = choose|k: int| 0 <= k < a.len() && #[trigger] a[k].in_group(refresh);
        assert((a + b)[k].in_group(refresh));
    }
    if affected(b, refresh) {
        let k = choose|k: int| 0 <= k < b.len() && #[trigger] b[k].in_group(refresh);
        assert((a + b)[a.len() + k].in_group(refresh));
    }
    if affected(a + b, refresh) {
        let k = choose|k: int| 0 <= k < (a + b).len() && #[trigger] (a + b)[k].in_group(refresh);
        if k < a.len() {
            assert(a[k].in_group(refresh));
        } else {
            assert(b[k - a.len()].in_group(refresh));
        }
    }
    if has_token(a) {
        let k = choose|k: int| 0 <= k < a.len() && #[trigger] a[k] is Token;
        assert((a + b)[k] is Token);
    }
    if has_token(b) {
        let k = choose|k: int| 0 <= k < b.len() && #[trigger] b[k] is Token;
        assert((a + b)[a.len() + k] is Token);
    }
    if has_token(a + b) {
        let k = choose|k: int| 0 <= k < (a + b).len() && #[trigger] (a + b)[k] is Token;
        if k < a.len() {
            assert(a[k] is Token);
        } else {
            assert(b[k - a.len()] is Token);
        }
    }
}

} // verus!
