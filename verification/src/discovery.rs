use vstd::prelude::*;

verus! {

/// The five bytes a client broadcasts to find a server, and that the server
/// echoes back inside its discovery response.
pub open spec fn spec_discovery_magic() -> Seq<u8> {
    seq![110u8, 101u8, 116u8, 118u8, 114u8]
}

/// Response from the discovery server.
pub struct DiscoveryResponse {
    header: [u8; 5],
}

impl DiscoveryResponse {
    /// The header carried by the response, as a sequence of bytes.
    pub closed spec fn header_bytes(&self) -> Seq<u8> {
        self.header@
    }

    /// A response that carries `header` verbatim (what a decoder produces).
    pub fn from_header(header: [u8; 5]) -> (r: DiscoveryResponse)
        ensures
            r.header_bytes() == header@,
    {
        DiscoveryResponse { header }
    }

    /// The header bytes as sent on the wire.
    pub fn header(&self) -> (h: [u8; 5])
        ensures
            h@ == self.header_bytes(),
    {
        self.header
    }

    /// Whether the response carries the netvr magic.
    pub fn validate_header(&self) -> (ok: bool)
        ensures
            ok == (self.header_bytes() == spec_discovery_magic()),
    {
        let h = &self.header;
        let ok = h[0] == 110u8 && h[1] == 101u8 && h[2] == 116u8 && h[3] == 118u8 && h[4] == 114u8;
        proof {
            if ok {
                assert(self.header@ =~= spec_discovery_magic());
            }
        }
        ok
    }
}

impl Default for DiscoveryResponse {
    fn default() -> (r: Self)
        ensures
            r.header_bytes() == spec_discovery_magic(),
    {
        let r = DiscoveryResponse { header: [110u8, 101u8, 116u8, 118u8, 114u8] };
        assert(r.header@ =~= spec_discovery_magic());
        r
    }
}

/// The port on which the discovery server listens, and to which clients
/// broadcast their requests.
pub const DISCOVERY_PORT: u16 = 13161u16;

/// Whether a datagram received by the discovery server is a discovery
/// request: exactly the five bytes "netvr".
pub fn is_discovery_request(datagram: &[u8]) -> (r: bool)
    ensures
        r == (datagram@ == spec_discovery_magic()),
{
    if datagram.len() != 5 {
        return false;
    }
    let r = datagram[0] == 110u8 && datagram[1] == 101u8 && datagram[2] == 116u8 && datagram[3]
        == 118u8 && datagram[4] == 114u8;
    proof {
        if r {
            assert(datagram@ =~= spec_discovery_magic());
        }
    }
    r
}

} // verus!
