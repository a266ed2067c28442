//! The configured network location of the smart-device service, and the
//! request URL built from it.

use vstd::prelude::*;
use vstd::string::*;
use crate::text::{spec_decimal, u16_to_decimal};

verus! {

/// Host and port of the remote service. The resource path is fixed.
pub struct Endpoint {
    pub host: String,
    pub port: u16,
}

/// The full request URL for a given host and port:
/// `http://<host>:<port>/api/smart-devices`.
pub open spec fn spec_url(host: Seq<char>, port: u16) -> Seq<char> {
    "http://"@ + host + ":"@ + spec_decimal(port as nat) + "/api/smart-devices"@
}

impl Endpoint {
    /// The default configuration: the service on the local network.
    pub fn local_default() -> (r: Endpoint)
        ensures
            r.host@ == "192.168.1.12"@,
            r.port == 3000,
    {
        Endpoint { host: String::from_str("192.168.1.12"), port: 3000 }
    }

    /// Builds the URL that one fetch requests.
    pub fn url(&self) -> (r: String)
        ensures
            r@ == spec_url(self.host@, self.port),
    {
        let mut s = String::from_str("http://");
        s.append(self.host.as_str());
        s.append(":");
        let p = u16_to_decimal(self.port);
        s.append(p.as_str());
        s.append("/api/smart-devices");
        s
    }
}

} // verus!
