//! The server's settings, as the command line and environment give them, and the
//! decisions that are made from them at start-up.
use vstd::prelude::*;
use crate::schema::{contains_text, texts};

verus! {

/// The server's settings.
#[derive(Debug, Clone)]
pub struct Options {
    pub listen_socket_address: String,
    pub max_threads: usize,
    pub log_level: String,
    pub tokio_console: bool,
    pub cert_private_key: String,
    pub cert: String,
    pub self_signed_hostname: String,
    pub api_keys: Vec<String>,
    /// how long the database keeps rows, in whole seconds
    pub default_retention_seconds: u64,
    pub connection_string: Option<String>,
    pub otlp_remote: Option<String>,
    pub otlp_insecure: bool,
}

/// A string with leading and trailing white space removed, as `str::trim` does it.
pub uninterp spec fn trimmed_of(s: Seq<char>) -> Seq<char>;

/// Relies on `str::trim`: the result depends on the characters alone.
#[verifier::external_body]
fn trim(s: &str) -> (r: String)
    ensures
        r@ == trimmed_of(s@),
{
    s.trim().to_string()
}

/// The accepted keys: each configured key trimmed, empty ones left out, each key
/// once, in order of first appearance.
pub open spec fn key_set(keys: Seq<Seq<char>>) -> Seq<Seq<char>>
    decreases keys.len(),
{
    if keys.len() == 0 {
        Seq::empty()
    } else {
        let prev = key_set(keys.drop_last());
        let t = trimmed_of(keys.last());
        if t.len() > 0 && !prev.contains(t) {
            prev.push(t)
        } else {
            prev
        }
    }
}

impl Options {
    /// Whether a sink is configured: a database or an OpenTelemetry endpoint.
    pub fn has_remote(&self) -> (r: bool)
        ensures
            r == (self.connection_string is Some || self.otlp_remote is Some),
    {
        self.connection_string.is_some() || self.otlp_remote.is_some()
    }

    /// The keys that requests are checked against; none means every request passes.
    pub fn api_key_set(&self) -> (r: Vec<String>)
        ensures
            texts(r@) == key_set(texts(self.api_keys@)),
    {
        let mut r: Vec<String> = Vec::new();
        let mut i: usize = 0;
        while i < self.api_keys.len()
            invariant
                i <= self.api_keys@.len(),
                texts(r@) == key_set(texts(self.api_keys@.subrange(0, i as int))),
            decreases self.api_keys.len() - i,
        {
            let ghost next = texts(self.api_keys@.subrange(0, i + 1));
            assert(next.drop_last() =~= texts(self.api_keys@.subrange(0, i as int)));
            assert(next.last() == self.api_keys@[i as int]@);
            let t = trim(self.api_keys[i].as_str());
            if t.unicode_len() > 0 && !contains_text(&r, &t) {
                let ghost before = r@;
                r.push(t);
                assert(texts(r@) =~= texts(before).push(r@[before.len() as int]@));
            }
            i = i + 1;
        }
        assert(self.api_keys@.subrange(0, self.api_keys.len() as int) =~= self.api_keys@);
        r
    }

    /// The number of server threads: the configured maximum, but no more than the
    /// machine's processors.
    pub fn server_threads(&self, processors: usize) -> (r: usize)
        ensures
            r == if self.max_threads < processors {
                self.max_threads
            } else {
                processors
            },
    {
        if self.max_threads < processors {
            self.max_threads
        } else {
            processors
        }
    }

    /// Whether the server makes itself a certificate: unless both the certificate
    /// and its key are configured.
    pub fn use_self_signed(&self) -> (r: bool)
        ensures
            r == (self.cert@.len() == 0 || self.cert_private_key@.len() == 0),
    {
        self.cert.unicode_len() == 0 || self.cert_private_key.unicode_len() == 0
    }
}

} // verus!
