use vstd::prelude::*;

verus! {

/// Where an endpoint or the measuring client is located.
#[derive(Debug)]
pub struct Location {
    pub city: String,
    pub country: String,
}

/// One remote endpoint, as the discovery service describes it: a display
/// name, the download URL, and its location. Immutable for the whole run;
/// the open streaming connection for an endpoint lives with the caller that
/// performs the transport.
#[derive(Debug)]
pub struct Target {
    pub name: String,
    pub url: String,
    pub location: Location,
}

/// The discovery service's description of the measuring client itself.
#[derive(Debug)]
pub struct Client {
    pub ip: String,
    pub asn: String,
    pub isp: String,
    pub location: Location,
}

/// Everything the discovery service returns: the client's identity and the
/// set of endpoints to measure against.
#[derive(Debug)]
pub struct ApiResponse {
    pub client: Client,
    pub targets: Vec<Target>,
}

} // verus!
