use octabot::http::{
    breakdown_error, copy_connections, der_fallback, user_agent_to_send, Breakdown,
    HttpConnectionPool, Retry, PROBE_METHOD, PROBE_PATH, USER_AGENT,
    after_failure, after_probe_failure, after_request_failure, authority_with_port, backoff_millis, dns_error, elapsed_millis, get_connection,
    give_up, host_of, request_authority, return_connection, ErrorCode, PooledConnection, RetryDecision,
    MAX_CONNECTIONS, MAX_RETRIES,
};

fn connection(handle: u64, last_used: u64, created_at: u64, ready: bool) -> PooledConnection {
    PooledConnection { handle, last_used, created_at, ready }
}

#[test]
fn limits() {
    assert_eq!(MAX_CONNECTIONS, 50);
    assert_eq!(MAX_RETRIES, 2);
}

#[test]
fn backoff_doubles_per_attempt() {
    assert_eq!(backoff_millis(0), 100);
    assert_eq!(backoff_millis(1), 200);
    assert_eq!(backoff_millis(2), 400);
    assert_eq!(backoff_millis(10), 102_400);
    assert_eq!(backoff_millis(57), 100 * (1u64 << 57));
    assert_eq!(backoff_millis(58), u64::MAX);
    assert_eq!(backoff_millis(u32::MAX >> 8), u64::MAX);
}

#[test]
fn one_probe_follows_the_first_failure() {
    assert_eq!(after_failure(1), RetryDecision::Probe { delay_millis: 200 });
    assert_eq!(after_failure(2), RetryDecision::GiveUp);
    assert_eq!(after_failure(3), RetryDecision::GiveUp);
    assert_eq!(after_failure(0), RetryDecision::Probe { delay_millis: 100 });
}

#[test]
fn authority_gets_the_default_port() {
    assert_eq!(authority_with_port("example.com", false, true), "example.com:443");
    assert_eq!(authority_with_port("example.com", false, false), "example.com:80");
    assert_eq!(authority_with_port("example.com:8080", true, true), "example.com:8080");
    assert_eq!(authority_with_port("example.com:8080", true, false), "example.com:8080");
}

#[test]
fn request_without_authority_is_refused() {
    assert_eq!(request_authority(None, false, true), Err(ErrorCode::HttpRequestUriInvalid));
    assert_eq!(request_authority(Some("h"), false, false), Ok("h:80".to_string()));
    assert_eq!(request_authority(Some("h:1"), true, false), Ok("h:1".to_string()));
}

#[test]
fn host_is_what_stands_before_the_colon() {
    assert_eq!(host_of("example.com:443"), "example.com");
    assert_eq!(host_of("example.com"), "example.com");
    assert_eq!(host_of(":443"), "");
    assert_eq!(host_of("a:b:c"), "a");
    assert_eq!(host_of(""), "");
}

#[test]
fn dns_error_carries_both_codes() {
    assert_eq!(
        dns_error("invalid dns name".to_string(), 0),
        ErrorCode::DnsError { rcode: Some("invalid dns name".to_string()), info_code: Some(0) }
    );
}

#[test]
fn usable_connections() {
    let now = 1_000_000;
    assert!(connection(1, now, now, true).is_usable(now));
    assert!(connection(1, now - 59_999, now - 299_999, true).is_usable(now));
    assert!(!connection(1, now - 60_000, now - 60_000, true).is_usable(now));
    assert!(!connection(1, now, now - 300_000, true).is_usable(now));
    assert!(!connection(1, now, now, false).is_usable(now));
    assert!(connection(1, now + 5, now + 5, true).is_usable(now));
    assert_eq!(elapsed_millis(10, 25), 15);
    assert_eq!(elapsed_millis(25, 10), 0);
}

#[test]
fn pool_hands_out_the_first_usable_connection() {
    let now = 1_000_000;
    let mut idle = vec![
        connection(1, now - 70_000, now - 70_000, true),
        connection(2, now - 30, now - 30, false),
        connection(3, now - 20, now - 20, true),
        connection(4, now - 10, now - 10, true),
    ];
    assert_eq!(get_connection(&mut idle, now), Some(connection(3, now - 20, now - 20, true)));
    assert_eq!(idle, vec![connection(4, now - 10, now - 10, true)]);
    assert_eq!(get_connection(&mut idle, now), Some(connection(4, now - 10, now - 10, true)));
    assert!(idle.is_empty());
    assert_eq!(get_connection(&mut idle, now), None);
}

#[test]
fn pool_is_first_in_first_out() {
    let mut idle = vec![];
    return_connection(&mut idle, 1, true, 100);
    return_connection(&mut idle, 2, true, 200);
    return_connection(&mut idle, 3, true, 300);
    assert_eq!(get_connection(&mut idle, 400), Some(connection(1, 100, 100, true)));
    assert_eq!(get_connection(&mut idle, 400), Some(connection(2, 200, 200, true)));
    return_connection(&mut idle, 4, true, 500);
    assert_eq!(get_connection(&mut idle, 600), Some(connection(3, 300, 300, true)));
    assert_eq!(get_connection(&mut idle, 600), Some(connection(4, 500, 500, true)));
    assert_eq!(get_connection(&mut idle, 600), None);
}

#[test]
fn pool_without_usable_connections_is_emptied() {
    let now = 1_000_000;
    let mut idle = vec![connection(1, 0, 0, true), connection(2, now, now, false)];
    assert_eq!(get_connection(&mut idle, now), None);
    assert!(idle.is_empty());
}

#[test]
fn returned_connection_rests_from_now() {
    let mut idle = vec![];
    return_connection(&mut idle, 7, true, 500);
    assert_eq!(idle, vec![connection(7, 500, 500, true)]);
    assert_eq!(PooledConnection::rested(8, false, 9), connection(8, 9, 9, false));
    assert_eq!(get_connection(&mut idle, 501), Some(connection(7, 500, 500, true)));
}

#[test]
fn breakdowns_and_their_errors() {
    assert_eq!(breakdown_error(Breakdown::Connect), ErrorCode::ConnectionRefused);
    assert_eq!(
        breakdown_error(Breakdown::ServerName),
        ErrorCode::DnsError { rcode: Some("invalid dns name".to_string()), info_code: Some(0) }
    );
    assert_eq!(breakdown_error(Breakdown::Tls), ErrorCode::TlsProtocolError);
    assert_eq!(breakdown_error(Breakdown::Handshake), ErrorCode::ConnectionTimeout);
    assert_eq!(breakdown_error(Breakdown::FirstByte), ErrorCode::ConnectionReadTimeout);
    assert_eq!(breakdown_error(Breakdown::Probe), ErrorCode::HttpProtocolError);
}

#[test]
fn pool_keeps_connections_by_authority() {
    let now = 1_000_000;
    let a = "a.example:443".to_string();
    let b = "b.example:80".to_string();
    let mut pool = HttpConnectionPool::new(50);
    assert_eq!(pool.max_connections, 50);
    assert_eq!(pool.get_connection(&a, now), None);
    pool.return_connection(a.clone(), 1, true, now);
    pool.return_connection(b.clone(), 2, true, now + 1);
    pool.return_connection(a.clone(), 3, true, now + 2);
    assert_eq!(pool.pools.len(), 2);
    assert_eq!(
        pool.idle_connections(&a),
        vec![connection(1, now, now, true), connection(3, now + 2, now + 2, true)]
    );
    assert_eq!(pool.idle_connections(&b), vec![connection(2, now + 1, now + 1, true)]);
    assert_eq!(pool.idle_connections(&"c.example:80".to_string()), vec![]);
    assert_eq!(pool.get_connection(&a, now + 3), Some(connection(1, now, now, true)));
    assert_eq!(pool.get_connection(&b, now + 3), Some(connection(2, now + 1, now + 1, true)));
    assert_eq!(pool.get_connection(&b, now + 3), None);
    assert_eq!(pool.get_connection(&a, now + 3), Some(connection(3, now + 2, now + 2, true)));
    assert_eq!(pool.get_connection(&a, now + 3), None);
}

#[test]
fn pool_drops_stale_connections_of_the_authority_only() {
    let now = 1_000_000;
    let a = "a.example:443".to_string();
    let b = "b.example:80".to_string();
    let mut pool = HttpConnectionPool::new(50);
    pool.return_connection(a.clone(), 1, true, now);
    pool.return_connection(b.clone(), 2, true, now);
    pool.return_connection(a.clone(), 3, false, now);
    assert_eq!(pool.get_connection(&a, now + 60_000), None);
    assert_eq!(pool.idle_connections(&a), vec![]);
    assert_eq!(pool.idle_connections(&b), vec![connection(2, now, now, true)]);
}

#[test]
fn user_agent_is_added_where_absent() {
    assert_eq!(USER_AGENT, "Octabot");
    assert_eq!(user_agent_to_send(None), "Octabot");
    assert_eq!(user_agent_to_send(Some("curl/8".to_string())), "curl/8");
    assert_eq!(user_agent_to_send(Some(String::new())), "");
}

#[test]
fn certificate_is_read_as_der_only_without_pem() {
    assert!(der_fallback(0));
    assert!(!der_fallback(1));
    assert!(!der_fallback(7));
}

#[test]
fn readiness_is_noted_for_one_connection() {
    let a = "a:80".to_string();
    let b = "b:80".to_string();
    let mut pool = HttpConnectionPool::new(50);
    pool.return_connection(a.clone(), 1, true, 0);
    pool.return_connection(a.clone(), 2, true, 5);
    pool.return_connection(b.clone(), 1, true, 7);
    pool.mark_ready(&a, 1, false);
    assert_eq!(
        pool.idle_connections(&a),
        vec![connection(1, 0, 0, false), connection(2, 5, 5, true)]
    );
    assert_eq!(pool.idle_connections(&b), vec![connection(1, 7, 7, true)]);
    pool.mark_ready(&a, 9, false);
    pool.mark_ready(&"c:80".to_string(), 1, false);
    assert_eq!(pool.get_connection(&a, 10), Some(connection(2, 5, 5, true)));
    assert_eq!(pool.idle_connections(&a), vec![]);
    assert_eq!(copy_connections(&vec![connection(4, 1, 2, true)]), vec![connection(4, 1, 2, true)]);
}

#[test]
fn failed_probes_leave_the_error_of_the_request() {
    let (retry, decision) = after_request_failure(ErrorCode::ConnectionRefused);
    assert_eq!(retry, Retry { failures: 1, first_error: ErrorCode::ConnectionRefused });
    assert_eq!(decision, RetryDecision::Probe { delay_millis: 200 });
    let (retry, decision) = after_probe_failure(retry, ErrorCode::ConnectionTimeout);
    assert_eq!(retry, Retry { failures: 2, first_error: ErrorCode::ConnectionRefused });
    assert_eq!(decision, RetryDecision::GiveUp);
    assert_eq!(give_up(retry), ErrorCode::ConnectionRefused);
}

#[test]
fn every_failed_probe_is_counted_and_none_replaces_the_first_error() {
    let first = ErrorCode::DnsError { rcode: Some("x".to_string()), info_code: Some(3) };
    let mut retry = Retry { failures: 0, first_error: first };
    let mut probes = 0;
    loop {
        let (next, decision) = after_probe_failure(retry, ErrorCode::TlsProtocolError);
        retry = next;
        probes += 1;
        if decision == RetryDecision::GiveUp {
            break;
        }
    }
    assert_eq!(probes, 2);
    assert_eq!(retry.failures, 2);
    assert_eq!(
        give_up(retry),
        ErrorCode::DnsError { rcode: Some("x".to_string()), info_code: Some(3) }
    );
    let (worn, decision) = after_probe_failure(
        Retry { failures: u32::MAX, first_error: ErrorCode::HttpProtocolError },
        ErrorCode::ConnectionRefused,
    );
    assert_eq!(worn.failures, u32::MAX);
    assert_eq!(decision, RetryDecision::GiveUp);
}

#[test]
fn probe_is_an_empty_get_of_the_root() {
    assert_eq!(PROBE_METHOD, "GET");
    assert_eq!(PROBE_PATH, "/");
}
