//! Replica addresses, as given in the probe map.
use vstd::prelude::*;

verus! {

/// The parts of a URL that the probes read, as plain values.
pub struct UrlParts {
    pub scheme: String,
    pub host: Option<String>,
    pub port: Option<u16>,
    pub serialized: String,
}

pub struct UrlPartsView {
    pub scheme: Seq<char>,
    pub host: Option<Seq<char>>,
    pub port: Option<u16>,
    pub serialized: Seq<char>,
}

pub open spec fn opt_string_view(s: Option<String>) -> Option<Seq<char>> {
    match s {
        Some(v) => Some(v@),
        None => None,
    }
}

impl View for UrlParts {
    type V = UrlPartsView;

    open spec fn view(&self) -> UrlPartsView {
        UrlPartsView {
            scheme: self.scheme@,
            host: opt_string_view(self.host),
            port: self.port,
            serialized: self.serialized@,
        }
    }
}

pub open spec fn opt_parts_view(p: Option<UrlParts>) -> Option<UrlPartsView> {
    match p {
        Some(v) => Some(v@),
        None => None,
    }
}

/// What the `url` crate makes of a string: `None` where it refuses it, else
/// its scheme, host, explicit port and serialization.
pub uninterp spec fn url_parts_of(s: Seq<char>) -> Option<UrlPartsView>;

/// Relies on `url::Url::parse` to parse `raw`, and on `Url::scheme`,
/// `Url::host_str`, `Url::port` and `Url::as_str` to read the parsed URL;
/// the result depends on the string alone.
#[verifier::external_body]
fn parse_url(raw: &str) -> (r: Option<UrlParts>)
    ensures
        opt_parts_view(r) == url_parts_of(raw@),
{
    match url::Url::parse(raw) {
        Ok(u) => Some(UrlParts {
            scheme: u.scheme().to_string(),
            host: u.host_str().map(|h| h.to_string()),
            port: u.port(),
            serialized: u.as_str().to_string(),
        }),
        Err(_) => None,
    }
}

/// A replica to probe. Each variant keeps the address as it was written in
/// the map (`raw`), which identifies the replica in reports.
#[derive(Debug)]
pub enum ReplicaURL {
    ICMP(String, String),
    TCP(String, String, u16),
    HTTP(String, String),
    HTTPS(String, String),
}

pub enum ReplicaView {
    Icmp { raw: Seq<char>, host: Seq<char> },
    Tcp { raw: Seq<char>, host: Seq<char>, port: u16 },
    Http { raw: Seq<char>, url: Seq<char> },
    Https { raw: Seq<char>, url: Seq<char> },
}

impl View for ReplicaURL {
    type V = ReplicaView;

    open spec fn view(&self) -> ReplicaView {
        match self {
            ReplicaURL::ICMP(raw, host) => ReplicaView::Icmp { raw: raw@, host: host@ },
            ReplicaURL::TCP(raw, host, port) => ReplicaView::Tcp { raw: raw@, host: host@, port: *port },
            ReplicaURL::HTTP(raw, url) => ReplicaView::Http { raw: raw@, url: url@ },
            ReplicaURL::HTTPS(raw, url) => ReplicaView::Https { raw: raw@, url: url@ },
        }
    }
}

impl ReplicaView {
    pub open spec fn raw(self) -> Seq<char> {
        match self {
            ReplicaView::Icmp { raw, .. } => raw,
            ReplicaView::Tcp { raw, .. } => raw,
            ReplicaView::Http { raw, .. } => raw,
            ReplicaView::Https { raw, .. } => raw,
        }
    }
}

/// The replica that the address `raw` stands for, given the parts of the
/// parsed URL: `icmp` and `tcp` addresses need a host, `tcp` ones a port
/// too, `http` and `https` ones are probed at their serialized URL; any
/// other scheme, or a string that is no URL, stands for no replica.
pub open spec fn replica_spec(raw: Seq<char>, parts: Option<UrlPartsView>) -> Option<ReplicaView> {
    match parts {
        None => None,
        Some(p) => if p.scheme == "icmp"@ {
            match p.host {
                Some(h) => Some(ReplicaView::Icmp { raw, host: h }),
                None => None,
            }
        } else if p.scheme == "tcp"@ {
            match (p.host, p.port) {
                (Some(h), Some(port)) => Some(ReplicaView::Tcp { raw, host: h, port }),
                _ => None,
            }
        } else if p.scheme == "http"@ {
            Some(ReplicaView::Http { raw, url: p.serialized })
        } else if p.scheme == "https"@ {
            Some(ReplicaView::Https { raw, url: p.serialized })
        } else {
            None
        },
    }
}

pub open spec fn replica_result_view(r: Result<ReplicaURL, ()>) -> Option<ReplicaView> {
    match r {
        Ok(v) => Some(v@),
        Err(_) => None,
    }
}

fn is_scheme(s: &String, name: &str) -> (r: bool)
    ensures
        r == (s@ == name@),
{
    let expected = String::from_str(name);
    *s == expected
}

/// Builds the replica for the address `raw` from the parts of its parsed URL.
pub fn replica_from_parts(raw: &str, parts: Option<UrlParts>) -> (r: Result<ReplicaURL, ()>)
    ensures
        replica_result_view(r) == replica_spec(raw@, opt_parts_view(parts)),
{
    match parts {
        None => Err(()),
        Some(p) => {
            if is_scheme(&p.scheme, "icmp") {
                match p.host {
                    Some(h) => Ok(ReplicaURL::ICMP(raw.to_owned(), h)),
                    None => Err(()),
                }
            } else if is_scheme(&p.scheme, "tcp") {
                match (p.host, p.port) {
                    (Some(h), Some(port)) => Ok(ReplicaURL::TCP(raw.to_owned(), h, port)),
                    _ => Err(()),
                }
            } else if is_scheme(&p.scheme, "http") {
                Ok(ReplicaURL::HTTP(raw.to_owned(), p.serialized))
            } else if is_scheme(&p.scheme, "https") {
                Ok(ReplicaURL::HTTPS(raw.to_owned(), p.serialized))
            } else {
                Err(())
            }
        },
    }
}

/// A `tcp` address without an explicit port stands for no replica, whatever
/// its host.
pub proof fn lemma_tcp_needs_port(raw: Seq<char>, parts: UrlPartsView)
    requires
        parts.scheme == "tcp"@,
        parts.port is None,
    ensures
        replica_spec(raw, Some(parts)) is None,
{
    assert("tcp"@ != "icmp"@) by {
        reveal_strlit("tcp");
        reveal_strlit("icmp");
        assert("tcp"@[0] != "icmp"@[0]);
    }
}

impl ReplicaURL {
    /// Parses a replica address.
    pub fn parse_from(raw_url: &str) -> (r: Result<ReplicaURL, ()>)
        ensures
            replica_result_view(r) == replica_spec(raw_url@, url_parts_of(raw_url@)),
    {
        let parts = parse_url(raw_url);
        replica_from_parts(raw_url, parts)
    }

    /// The address as it was written in the map.
    pub fn get_raw(&self) -> (r: &str)
        ensures
            r@ == self@.raw(),
    {
        match self {
            ReplicaURL::ICMP(raw_url, _) => raw_url.as_str(),
            ReplicaURL::TCP(raw_url, _, _) => raw_url.as_str(),
            ReplicaURL::HTTP(raw_url, _) => raw_url.as_str(),
            ReplicaURL::HTTPS(raw_url, _) => raw_url.as_str(),
        }
    }
}

/// Parses the replica addresses of a node: all of them, in order, or none
/// when any of them is refused.
pub fn parse_replicas(raws: &Vec<String>) -> (r: Result<Vec<ReplicaURL>, ()>)
    ensures
        match r {
            Ok(v) => v@.len() == raws@.len() && forall|k: int|
                0 <= k < raws@.len() ==> replica_spec(raws@[k]@, url_parts_of(raws@[k]@))
                    == Some(#[trigger] v@[k]@),
            Err(_) => exists|k: int|
                0 <= k < raws@.len() && (#[trigger] replica_spec(raws@[k]@, url_parts_of(raws@[k]@)))
                    is None,
        },
{
    let mut out: Vec<ReplicaURL> = Vec::new();
    let mut i: usize = 0;
    while i < raws.len()
        invariant
            i <= raws@.len(),
            out@.len() == i,
            forall|k: int|
                0 <= k < i ==> replica_spec(raws@[k]@, url_parts_of(raws@[k]@)) == Some(
                    #[trigger] out@[k]@,
                ),
        decreases raws@.len() - i,
    {
        match ReplicaURL::parse_from(raws[i].as_str()) {
            Ok(v) => out.push(v),
            Err(_) => {
                return Err(());
            },
        }
        i = i + 1;
    }
    Ok(out)
}

} // verus!
