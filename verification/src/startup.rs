//! Start-up decisions of the poller process: manifest printing and broker choice.

use vstd::prelude::*;

use crate::text::{occurs_at, same_text, starts_with};

verus! {

/// The broker transport a URL selects.
#[derive(Debug, Clone, Copy, PartialEq, Eq)]
pub enum BrokerTransport {
    /// A NATS server (`nats://...`).
    Nats,
    /// The in-process broker.
    Local,
}

/// `nats://` URLs select NATS; any other URL the in-process broker.
pub open spec fn transport_of(url: Seq<char>) -> BrokerTransport {
    if occurs_at(url, "nats://"@, 0) {
        BrokerTransport::Nats
    } else {
        BrokerTransport::Local
    }
}

/// The transport selected by a broker URL.
pub fn broker_transport(url: &str) -> (t: BrokerTransport)
    ensures
        t == transport_of(url@),
{
    if starts_with(url, "nats://") {
        BrokerTransport::Nats
    } else {
        BrokerTransport::Local
    }
}

/// Whether the process connects to a configured broker: only when a
/// non-empty broker URL is set; otherwise the local broker is used.
pub fn uses_configured_broker(url: Option<&str>) -> (r: bool)
    ensures
        r == (url matches Some(u) && u@.len() > 0),
{
    match url {
        Some(u) => !u.is_empty(),
        None => false,
    }
}

/// Whether any command-line argument asks for the plugin manifest to be printed.
pub fn wants_manifest(args: &Vec<String>) -> (r: bool)
    ensures
        r == exists|i: int| 0 <= i < args@.len() && args@[i]@ == "--print-manifest"@,
{
    let mut i: usize = 0;
    while i < args.len()
        invariant
            i <= args@.len(),
            forall|j: int| 0 <= j < i ==> args@[j]@ != "--print-manifest"@,
        decreases args.len() - i,
    {
        if same_text(args[i].as_str(), "--print-manifest") {
            return true;
        }
        i = i + 1;
    }
    false
}

} // verus!
