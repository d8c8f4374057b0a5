//! The routing table and the tunables that the proxy runs with.

use vstd::prelude::*;

verus! {

pub const VERSION_PROXY_NAME: &'static str = "0.0.1-unstable";

pub const VERSION_PROTOCOL_NAME: &'static str = "1.20.4";

pub const VERSION_PROTOCOL_CODE: i32 = 765;

/// Size of each socket read.
pub const BUFFER_SIZE: usize = 4096;

/// How much the proxy logs.
#[derive(Clone, Copy, Debug, PartialEq, Eq, PartialOrd, Ord)]
pub enum LogLevel {
    NONE,
    CONNECTION,
    VERBOSE,
    DEBUG,
}

/// Tunables, read-only once loaded.
#[derive(Clone, Debug)]
pub struct ConfigSettings {
    pub cache_size: usize,
    pub handshake_timeout: u32,
    pub client_buffer_size: usize,
    pub client_packets_limit: u32,
    pub backend_buffer_size: usize,
    pub ratelimit_window: u32,
    pub ratelimit: u32,
    pub concurrent_limit: u32,
    pub clients_limit: u32,
    pub listen: u16,
    pub log: LogLevel,
    pub log_inspect_buffer_limit: usize,
}

/// One routing table entry: a virtual host name and what to do with it.
#[derive(Clone, Debug)]
pub struct ConfigEndpoint {
    pub hostname: String,
    pub origin: Option<String>,
    pub motd: Option<String>,
    pub message: Option<String>,
}

/// The whole configuration.
#[derive(Clone, Debug)]
pub struct Config {
    pub settings: ConfigSettings,
    pub endpoints: Vec<ConfigEndpoint>,
    pub blocklist: Vec<String>,
}

/// The index of the first entry of `eps` whose host name is `host`, if any.
pub open spec fn first_endpoint(eps: Seq<ConfigEndpoint>, host: Seq<char>) -> Option<int> {
    if exists|i: int| 0 <= i < eps.len() && eps[i].hostname@ == host {
        Some(
            choose|i: int|
                0 <= i < eps.len() && eps[i].hostname@ == host && forall|j: int|
                    0 <= j < i ==> eps[j].hostname@ != host,
        )
    } else {
        None
    }
}

/// An entry that matches and has no match before it is the first match.
pub proof fn lemma_first_endpoint(eps: Seq<ConfigEndpoint>, host: Seq<char>, i: int)
    requires
        0 <= i < eps.len(),
        eps[i].hostname@ == host,
        forall|j: int| 0 <= j < i ==> eps[j].hostname@ != host,
    ensures
        first_endpoint(eps, host) == Some(i),
{
    let k = choose|k: int|
        0 <= k < eps.len() && eps[k].hostname@ == host && forall|j: int|
            0 <= j < k ==> eps[j].hostname@ != host;
    assert(k == i) by {
        if k < i {
            assert(eps[k].hostname@ != host);
        } else if k > i {
            assert(eps[i].hostname@ != host);
        }
    }
}

impl Config {
    /// The first endpoint whose host name is exactly `addr`.
    pub fn find_endpoint(&self, addr: String) -> (r: Option<&ConfigEndpoint>)
        ensures
            match r {
                Some(e) => exists|i: int|
                    0 <= i < self.endpoints@.len() && *e == self.endpoints@[i]
                        && e.hostname@ == addr@ && forall|j: int|
                        0 <= j < i ==> self.endpoints@[j].hostname@ != addr@,
                None => forall|i: int|
                    0 <= i < self.endpoints@.len() ==> self.endpoints@[i].hostname@ != addr@,
            },
    {
        let mut i: usize = 0;
        while i < self.endpoints.len()
            invariant
                i <= self.endpoints@.len(),
                forall|j: int| 0 <= j < i ==> self.endpoints@[j].hostname@ != addr@,
            decreases self.endpoints@.len() - i,
        {
            if self.endpoints[i].hostname == addr {
                return Some(&self.endpoints[i]);
            }
            i = i + 1;
        }
        None
    }
}

} // verus!
