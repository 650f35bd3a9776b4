//! The rules of the HTTP broker: the authority a request goes to, which
//! pooled connection may be used again, when a failed request is probed and
//! which failure is reported in the end.
//! Instants and durations are milliseconds.

use vstd::prelude::*;
use vstd::hash_map::StringHashMap;
use vstd::string::StringExecFns;
use crate::text::before_first;

verus! {

/// How many connections may be open at once.
pub const MAX_CONNECTIONS: usize = 50;

/// The number of failures after which a request is given up.
pub const MAX_RETRIES: u32 = 2;

/// How long a pooled connection may rest.
pub const MAX_IDLE: u64 = 60000;

/// How old a pooled connection may get.
pub const MAX_CONNECTION_AGE: u64 = 300000;

/// The wait before the first probe would be this, doubled per failure.
pub const BACKOFF_BASE: u64 = 100;

/// The agent that a request names unless it names one itself.
pub const USER_AGENT: &'static str = "Octabot";

/// The failures that the broker reports.
#[derive(Debug, PartialEq, Eq)]
pub enum ErrorCode {
    ConnectionRefused,
    ConnectionTimeout,
    ConnectionReadTimeout,
    TlsProtocolError,
    HttpRequestUriInvalid,
    HttpProtocolError,
    InternalError(Option<String>),
    DnsError { rcode: Option<String>, info_code: Option<u16> },
}

/// A connection at rest in the pool.
#[derive(Debug, Clone, Copy, PartialEq, Eq, Structural)]
pub struct PooledConnection {
    /// Names the connection that the caller holds.
    pub handle: u64,
    pub last_used: u64,
    pub created_at: u64,
    /// Whether the connection can take a request.
    pub ready: bool,
}

/// Where the way to a response broke off.
#[derive(Debug, Clone, Copy, PartialEq, Eq, Structural)]
pub enum Breakdown {
    /// The authority did not accept the connection.
    Connect,
    /// The host of the authority is no server name.
    ServerName,
    /// The TLS session did not come about.
    Tls,
    /// The HTTP handshake took longer than the connect timeout.
    Handshake,
    /// The first byte of the response took longer than its timeout.
    FirstByte,
    /// The probe request could not be built.
    Probe,
}

/// What to do after a request has failed.
#[derive(Debug, Clone, Copy, PartialEq, Eq, Structural)]
pub enum RetryDecision {
    /// Wait, then probe the authority with an empty `GET /`.
    Probe { delay_millis: u64 },
    /// Report the failure of the request itself.
    GiveUp,
}

/// The method of a probe.
pub const PROBE_METHOD: &'static str = "GET";

/// The path of a probe.
pub const PROBE_PATH: &'static str = "/";

/// What is kept of a request that has failed: how many sends have failed,
/// the request itself and the probes after it, and why the request itself
/// failed.
#[derive(Debug, PartialEq, Eq)]
pub struct Retry {
    pub failures: u32,
    pub first_error: ErrorCode,
}

/// The time from `then` to `now`, zero where `then` is later.
pub open spec fn elapsed(then: u64, now: u64) -> int {
    if now >= then {
        now - then
    } else {
        0
    }
}

/// A pooled connection may be used again while it has rested for less than
/// a minute, is younger than five minutes and can take a request.
pub open spec fn usable(connection: PooledConnection, now: u64) -> bool {
    &&& elapsed(connection.last_used, now) < MAX_IDLE
    &&& elapsed(connection.created_at, now) < MAX_CONNECTION_AGE
    &&& connection.ready
}

/// Two to the power of `n`.
pub open spec fn pow2(n: nat) -> nat
    decreases n,
{
    if n == 0 {
        1
    } else {
        2 * pow2((n - 1) as nat)
    }
}

/// The wait before the probe that follows failure number `attempt`, held
/// to the range of durations.
pub open spec fn backoff(attempt: u32) -> int {
    let wait = BACKOFF_BASE * pow2(attempt as nat);
    if wait > u64::MAX {
        u64::MAX as int
    } else {
        wait
    }
}

/// The decision after `failures` failures in a row.
pub open spec fn decision_after(failures: u32) -> RetryDecision {
    if failures < MAX_RETRIES {
        RetryDecision::Probe { delay_millis: backoff(failures) as u64 }
    } else {
        RetryDecision::GiveUp
    }
}

/// The count of failures after one more.
pub open spec fn one_more(failures: u32) -> u32 {
    if failures < u32::MAX {
        (failures + 1) as u32
    } else {
        failures
    }
}

/// What is kept after the request itself has failed with `error`.
pub open spec fn started(error: ErrorCode) -> Retry {
    Retry { failures: 1, first_error: error }
}

/// What is kept after one more probe has failed.
pub open spec fn probe_failed(retry: Retry) -> Retry {
    Retry { failures: one_more(retry.failures), first_error: retry.first_error }
}

/// What is kept after `probes` probes in a row have failed.
pub open spec fn after_probes(retry: Retry, probes: nat) -> Retry
    decreases probes,
{
    if probes == 0 {
        retry
    } else {
        probe_failed(after_probes(retry, (probes - 1) as nat))
    }
}

/// The port that a request goes to where its authority names none.
pub open spec fn default_port(use_tls: bool) -> Seq<char> {
    if use_tls {
        ":443"@
    } else {
        ":80"@
    }
}

/// A DNS failure with its response code and info code.
pub fn dns_error(rcode: String, info_code: u16) -> (error: ErrorCode)
    ensures
        error == (ErrorCode::DnsError { rcode: Some(rcode), info_code: Some(info_code) }),
{
    ErrorCode::DnsError { rcode: Some(rcode), info_code: Some(info_code) }
}

/// The agent that a request goes out with: its own, or the broker's where
/// it names none.
pub fn user_agent_to_send(given: Option<String>) -> (agent: String)
    ensures
        agent@ == match given {
            Some(own) => own@,
            None => "Octabot"@,
        },
{
    match given {
        Some(own) => own,
        None => String::from_str("Octabot"),
    }
}

/// Whether a certificate file is taken as DER: only where reading it as
/// PEM gave no certificate.
pub fn der_fallback(pem_certificates: usize) -> (as_der: bool)
    ensures
        as_der == (pem_certificates == 0),
{
    pem_certificates == 0
}

/// The failure that the broker reports for a breakdown.
pub fn breakdown_error(breakdown: Breakdown) -> (error: ErrorCode)
    ensures
        match breakdown {
            Breakdown::Connect => error is ConnectionRefused,
            Breakdown::ServerName => error matches ErrorCode::DnsError { rcode, info_code }
                && rcode matches Some(text) && text@ == "invalid dns name"@ && info_code == Some(
                0u16,
            ),
            Breakdown::Tls => error is TlsProtocolError,
            Breakdown::Handshake => error is ConnectionTimeout,
            Breakdown::FirstByte => error is ConnectionReadTimeout,
            Breakdown::Probe => error is HttpProtocolError,
        },
{
    match breakdown {
        Breakdown::Connect => ErrorCode::ConnectionRefused,
        Breakdown::ServerName => dns_error(String::from_str("invalid dns name"), 0),
        Breakdown::Tls => ErrorCode::TlsProtocolError,
        Breakdown::Handshake => ErrorCode::ConnectionTimeout,
        Breakdown::FirstByte => ErrorCode::ConnectionReadTimeout,
        Breakdown::Probe => ErrorCode::HttpProtocolError,
    }
}

/// The authority with its port: as given where it names one, with 443 for
/// TLS and 80 otherwise where it names none.
pub fn authority_with_port(authority: &str, has_port: bool, use_tls: bool) -> (full: String)
    ensures
        full@ == if has_port {
            authority@
        } else {
            authority@ + default_port(use_tls)
        },
{
    let name = authority.to_owned();
    if has_port {
        name
    } else if use_tls {
        name.concat(":443")
    } else {
        name.concat(":80")
    }
}

/// The authority that a request is sent to; a request without one is refused.
pub fn request_authority(authority: Option<&str>, has_port: bool, use_tls: bool) -> (result: Result<
    String,
    ErrorCode,
>)
    ensures
        match result {
            Ok(full) => authority matches Some(given) && full@ == if has_port {
                given@
            } else {
                given@ + default_port(use_tls)
            },
            Err(error) => authority is None && error is HttpRequestUriInvalid,
        },
{
    match authority {
        Some(given) => Ok(authority_with_port(given, has_port, use_tls)),
        None => Err(ErrorCode::HttpRequestUriInvalid),
    }
}

/// The host of an authority: what stands before its first colon.
pub fn host_of(authority: &str) -> (host: &str)
    ensures
        host@.is_prefix_of(authority@),
        !host@.contains(':'),
        host@.len() == authority@.len() || authority@[host@.len() as int] == ':',
{
    before_first(authority, ':')
}

/// The wait before the probe that follows failure number `attempt`.
pub fn backoff_millis(attempt: u32) -> (millis: u64)
    ensures
        millis == backoff(attempt),
{
    let mut millis: u64 = BACKOFF_BASE;
    let mut i: u32 = 0;
    while i < attempt
        invariant
            i <= attempt,
            millis == backoff(i),
            millis >= BACKOFF_BASE,
        decreases attempt - i,
    {
        assert(pow2((i + 1) as nat) == 2 * pow2(i as nat));
        assert(BACKOFF_BASE * pow2((i + 1) as nat) == 2 * (BACKOFF_BASE * pow2(i as nat)))
            by (nonlinear_arith)
            requires
                pow2((i + 1) as nat) == 2 * pow2(i as nat),
        ;
        if millis > u64::MAX / 2 {
            millis = u64::MAX;
        } else {
            millis = millis * 2;
        }
        i += 1;
    }
    millis
}

/// What to do after `failures` failures in a row: probe after the backoff
/// while fewer than the bound have happened, give up after that.
pub fn after_failure(failures: u32) -> (decision: RetryDecision)
    ensures
        decision == decision_after(failures),
{
    if failures < MAX_RETRIES {
        RetryDecision::Probe { delay_millis: backoff_millis(failures) }
    } else {
        RetryDecision::GiveUp
    }
}

/// Takes note that the request itself has failed with `error`, and decides
/// what follows.
pub fn after_request_failure(error: ErrorCode) -> (next: (Retry, RetryDecision))
    ensures
        next.0 == started(error),
        next.1 == decision_after(next.0.failures),
{
    (Retry { failures: 1, first_error: error }, after_failure(1))
}

/// Takes note that a probe has failed, and decides what follows. Why the
/// probe failed is not kept: the failure of the request itself stands.
pub fn after_probe_failure(retry: Retry, probe_error: ErrorCode) -> (next: (Retry, RetryDecision))
    ensures
        next.0 == probe_failed(retry),
        next.0.first_error == retry.first_error,
        next.0.failures == one_more(retry.failures),
        next.1 == decision_after(next.0.failures),
{
    let failures: u32 = if retry.failures < u32::MAX {
        retry.failures + 1
    } else {
        retry.failures
    };
    (Retry { failures, first_error: retry.first_error }, after_failure(failures))
}

/// The failure that is reported once no probe follows: that of the request
/// itself.
pub fn give_up(retry: Retry) -> (error: ErrorCode)
    ensures
        error == retry.first_error,
{
    retry.first_error
}

/// The time from `then` to `now`, zero where `then` is later.
pub fn elapsed_millis(then: u64, now: u64) -> (span: u64)
    ensures
        span == elapsed(then, now),
{
    if now >= then {
        now - then
    } else {
        0
    }
}

impl PooledConnection {
    /// A connection that goes to rest at `now`. Its age counts from `now` too.
    pub fn rested(handle: u64, ready: bool, now: u64) -> (connection: PooledConnection)
        ensures
            connection == (PooledConnection { handle, last_used: now, created_at: now, ready }),
    {
        PooledConnection { handle, last_used: now, created_at: now, ready }
    }

    /// Whether the connection may be used again at `now`.
    pub fn is_usable(&self, now: u64) -> (ok: bool)
        ensures
            ok == usable(*self, now),
    {
        elapsed_millis(self.last_used, now) < MAX_IDLE && elapsed_millis(self.created_at, now)
            < MAX_CONNECTION_AGE && self.ready
    }
}

/// Whether taking from `before` at `now` gives `taken` and leaves `after`:
/// the connection that has rested longest and may still be used is taken,
/// those that went to rest before it are dropped and those after it are
/// kept; where none may be used, all are dropped.
pub open spec fn takes(
    before: Seq<PooledConnection>,
    now: u64,
    taken: Option<PooledConnection>,
    after: Seq<PooledConnection>,
) -> bool {
    match taken {
        Some(connection) => exists|k: int|
            0 <= k < before.len() && connection == #[trigger] before[k] && usable(connection, now)
                && after == before.skip(k + 1) && forall|j: int|
                0 <= j < k ==> !usable(#[trigger] before[j], now),
        None => after.len() == 0 && forall|j: int|
            0 <= j < before.len() ==> !usable(#[trigger] before[j], now),
    }
}

/// Takes the connection that has rested longest and may still be used.
pub fn get_connection(idle: &mut Vec<PooledConnection>, now: u64) -> (taken: Option<
    PooledConnection,
>)
    ensures
        takes(old(idle)@, now, taken, final(idle)@),
{
    let ghost before = idle@;
    let n: usize = idle.len();
    let mut k: usize = 0;
    while k < n && !idle[k].is_usable(now)
        invariant
            k <= n,
            n == idle@.len(),
            idle@ == before,
            forall|j: int| 0 <= j < k ==> !usable(#[trigger] before[j], now),
        decreases n - k,
    {
        k += 1;
    }
    if k == n {
        idle.clear();
        None
    } else {
        let connection = idle[k];
        let mut rest: Vec<PooledConnection> = Vec::new();
        let mut i: usize = k + 1;
        while i < n
            invariant
                k < i <= n,
                n == idle@.len(),
                idle@ == before,
                rest@ == before.subrange(k + 1, i as int),
            decreases n - i,
        {
            rest.push(idle[i]);
            assert(rest@ =~= before.subrange(k + 1, i + 1));
            i += 1;
        }
        *idle = rest;
        assert(idle@ =~= before.skip(k + 1));
        assert(0 <= k < before.len() && connection == before[k as int] && usable(connection, now));
        Some(connection)
    }
}

/// Puts a connection to rest at `now`.
pub fn return_connection(idle: &mut Vec<PooledConnection>, handle: u64, ready: bool, now: u64)
    ensures
        final(idle)@ == old(idle)@.push(
            PooledConnection { handle, last_used: now, created_at: now, ready },
        ),
{
    idle.push(PooledConnection::rested(handle, ready, now));
}

/// The connections at rest, by authority.
pub struct HttpConnectionPool {
    pub pools: StringHashMap<Vec<PooledConnection>>,
    pub max_connections: usize,
}

/// The connections at rest for the authority, the one that has rested
/// longest first.
pub open spec fn idle_of(
    pools: Map<Seq<char>, Vec<PooledConnection>>,
    authority: Seq<char>,
) -> Seq<PooledConnection> {
    if pools.dom().contains(authority) {
        pools[authority]@
    } else {
        Seq::empty()
    }
}

/// The connection with its readiness set where it has the handle.
pub open spec fn marked(connection: PooledConnection, handle: u64, ready: bool) -> PooledConnection {
    if connection.handle == handle {
        PooledConnection { ready, ..connection }
    } else {
        connection
    }
}

/// Sets the readiness of the connections with the handle.
pub open spec fn mark(handle: u64, ready: bool) -> spec_fn(PooledConnection) -> PooledConnection {
    |connection: PooledConnection| marked(connection, handle, ready)
}

/// A copy of the connections.
pub fn copy_connections(list: &Vec<PooledConnection>) -> (copy: Vec<PooledConnection>)
    ensures
        copy@ == list@,
{
    let mut copy: Vec<PooledConnection> = Vec::new();
    let mut i: usize = 0;
    while i < list.len()
        invariant
            i <= list@.len(),
            copy@ == list@.take(i as int),
        decreases list@.len() - i,
    {
        copy.push(list[i]);
        assert(copy@ =~= list@.take(i + 1));
        i += 1;
    }
    assert(list@.take(list@.len() as int) =~= list@);
    copy
}

impl HttpConnectionPool {
    /// A pool without connections.
    pub fn new(max_connections: usize) -> (pool: Self)
        ensures
            pool.pools@ == Map::<Seq<char>, Vec<PooledConnection>>::empty(),
            pool.max_connections == max_connections,
    {
        HttpConnectionPool { pools: StringHashMap::new(), max_connections }
    }

    /// The connections at rest for the authority.
    pub fn idle_connections(&self, authority: &String) -> (idle: Vec<PooledConnection>)
        ensures
            idle@ == idle_of(self.pools@, authority@),
    {
        match self.pools.get(authority.as_str()) {
            Some(list) => copy_connections(list),
            None => Vec::new(),
        }
    }

    /// Takes a connection for the authority that may still be used at
    /// `now`, the one that has rested longest; the connections of the
    /// authority that went to rest before it are dropped. The other
    /// authorities keep theirs.
    pub fn get_connection(&mut self, authority: &String, now: u64) -> (taken: Option<
        PooledConnection,
    >)
        ensures
            final(self).max_connections == old(self).max_connections,
            takes(
                idle_of(old(self).pools@, authority@),
                now,
                taken,
                idle_of(final(self).pools@, authority@),
            ),
            forall|other: Seq<char>|
                other != authority@ ==> idle_of(final(self).pools@, other) == idle_of(
                    old(self).pools@,
                    other,
                ),
    {
        let mut idle = self.idle_connections(authority);
        let taken = get_connection(&mut idle, now);
        self.pools.insert(authority.clone(), idle);
        taken
    }

    /// Puts a connection for the authority to rest at `now`, behind those
    /// that rest already.
    pub fn return_connection(&mut self, authority: String, handle: u64, ready: bool, now: u64)
        ensures
            final(self).max_connections == old(self).max_connections,
            idle_of(final(self).pools@, authority@) == idle_of(old(self).pools@, authority@).push(
                PooledConnection { handle, last_used: now, created_at: now, ready },
            ),
            forall|other: Seq<char>|
                other != authority@ ==> idle_of(final(self).pools@, other) == idle_of(
                    old(self).pools@,
                    other,
                ),
    {
        let mut idle = self.idle_connections(&authority);
        return_connection(&mut idle, handle, ready, now);
        self.pools.insert(authority, idle);
    }

    /// Notes whether the connection of the authority with the handle can
    /// take a request. Nothing else changes.
    pub fn mark_ready(&mut self, authority: &String, handle: u64, ready: bool)
        ensures
            final(self).max_connections == old(self).max_connections,
            idle_of(final(self).pools@, authority@) == idle_of(
                old(self).pools@,
                authority@,
            ).map_values(mark(handle, ready)),
            forall|other: Seq<char>|
                other != authority@ ==> idle_of(final(self).pools@, other) == idle_of(
                    old(self).pools@,
                    other,
                ),
    {
        let idle = self.idle_connections(authority);
        let mut noted: Vec<PooledConnection> = Vec::new();
        let mut i: usize = 0;
        while i < idle.len()
            invariant
                i <= idle@.len(),
                noted@ == idle@.take(i as int).map_values(mark(handle, ready)),
            decreases idle@.len() - i,
        {
            let connection = idle[i];
            if connection.handle == handle {
                noted.push(
                    PooledConnection {
                        handle: connection.handle,
                        last_used: connection.last_used,
                        created_at: connection.created_at,
                        ready,
                    },
                );
            } else {
                noted.push(connection);
            }
            assert(noted@ =~= idle@.take(i + 1).map_values(mark(handle, ready)));
            i += 1;
        }
        assert(idle@.take(idle@.len() as int) =~= idle@);
        self.pools.insert(authority.clone(), noted);
    }
}

/// A connection that has just gone to rest and can take a request may be
/// used again.
pub proof fn rested_connection_is_usable(handle: u64, now: u64)
    ensures
        usable(PooledConnection { handle, last_used: now, created_at: now, ready: true }, now),
{
}

/// However many probes fail, the failure that is kept is that of the
/// request itself.
pub proof fn first_error_survives_probes(retry: Retry, probes: nat)
    ensures
        after_probes(retry, probes).first_error == retry.first_error,
        after_probes(retry, probes).failures >= retry.failures,
        after_probes(retry, probes).failures == if retry.failures + probes <= u32::MAX {
            retry.failures + probes
        } else {
            u32::MAX as int
        },
    decreases probes,
{
    if probes > 0 {
        first_error_survives_probes(retry, (probes - 1) as nat);
    }
}

/// After the request itself has failed, fewer probes than the bound are
/// sent: once one probe has failed, none follows.
pub proof fn probes_are_bounded(error: ErrorCode, probes: nat)
    requires
        probes >= MAX_RETRIES - 1,
    ensures
        decision_after(after_probes(started(error), probes).failures) == RetryDecision::GiveUp,
        after_probes(started(error), probes).first_error == error,
{
    first_error_survives_probes(started(error), probes);
}

/// After one failure the authority is probed once, after 200 ms; after the
/// second failure the request is given up.
pub proof fn retry_schedule()
    ensures
        decision_after(1) == (RetryDecision::Probe { delay_millis: 200 }),
        decision_after(2) == RetryDecision::GiveUp,
        forall|failures: u32| failures >= MAX_RETRIES ==> decision_after(failures)
            == RetryDecision::GiveUp,
{
    assert(pow2(1) == 2 * pow2(0));
    assert(pow2(0) == 1);
}

} // verus!
