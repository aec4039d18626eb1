use crisp_status_local::replica::{parse_replicas, replica_from_parts, ReplicaURL, UrlParts};

#[test]
fn tcp_without_port_is_refused() {
    assert!(ReplicaURL::parse_from("tcp://db.local").is_err());
    assert!(ReplicaURL::parse_from("tcp://10.0.0.1").is_err());
    assert!(ReplicaURL::parse_from("tcp://db.local/").is_err());
}

#[test]
fn tcp_with_host_and_port() {
    match ReplicaURL::parse_from("tcp://db.local:5432") {
        Ok(ReplicaURL::TCP(raw, host, port)) => {
            assert_eq!(raw, "tcp://db.local:5432");
            assert_eq!(host, "db.local");
            assert_eq!(port, 5432);
        }
        other => panic!("unexpected: {:?}", other),
    }
}

#[test]
fn http_and_https_keep_raw_and_url() {
    match ReplicaURL::parse_from("http://x/") {
        Ok(ReplicaURL::HTTP(raw, url)) => {
            assert_eq!(raw, "http://x/");
            assert_eq!(url, "http://x/");
        }
        other => panic!("unexpected: {:?}", other),
    }
    match ReplicaURL::parse_from("HTTPS://Example.com") {
        Ok(ReplicaURL::HTTPS(raw, url)) => {
            assert_eq!(raw, "HTTPS://Example.com");
            assert_eq!(url, "https://example.com/");
        }
        other => panic!("unexpected: {:?}", other),
    }
}

#[test]
fn icmp_needs_host() {
    match ReplicaURL::parse_from("icmp://gateway.local") {
        Ok(ReplicaURL::ICMP(raw, host)) => {
            assert_eq!(raw, "icmp://gateway.local");
            assert_eq!(host, "gateway.local");
        }
        other => panic!("unexpected: {:?}", other),
    }
}

#[test]
fn other_schemes_and_garbage_are_refused() {
    assert!(ReplicaURL::parse_from("ftp://files.local:21").is_err());
    assert!(ReplicaURL::parse_from("not a url").is_err());
    assert!(ReplicaURL::parse_from("").is_err());
}

#[test]
fn get_raw_gives_written_address() {
    let r = ReplicaURL::parse_from("tcp://db.local:5432").unwrap();
    assert_eq!(r.get_raw(), "tcp://db.local:5432");
    let r = ReplicaURL::parse_from("HTTPS://Example.com").unwrap();
    assert_eq!(r.get_raw(), "HTTPS://Example.com");
}

#[test]
fn replica_from_parts_decides_on_parts() {
    let parts = UrlParts {
        scheme: "tcp".to_string(),
        host: Some("h".to_string()),
        port: None,
        serialized: "tcp://h".to_string(),
    };
    assert!(replica_from_parts("tcp://h", Some(parts)).is_err());
    let parts = UrlParts {
        scheme: "tcp".to_string(),
        host: Some("h".to_string()),
        port: Some(7),
        serialized: "tcp://h:7".to_string(),
    };
    assert!(matches!(replica_from_parts("raw", Some(parts)), Ok(ReplicaURL::TCP(r, h, 7)) if r == "raw" && h == "h"));
    assert!(replica_from_parts("raw", None).is_err());
}

#[test]
fn parse_replicas_all_or_none() {
    let good = vec!["http://a/".to_string(), "tcp://b:1".to_string()];
    let parsed = parse_replicas(&good).unwrap();
    assert_eq!(parsed.len(), 2);
    assert_eq!(parsed[1].get_raw(), "tcp://b:1");
    let bad = vec!["http://a/".to_string(), "tcp://b".to_string()];
    assert!(parse_replicas(&bad).is_err());
}
