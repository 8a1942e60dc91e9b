use vstd::prelude::*;

verus! {

/// The TCP port the service listens on.
pub const LISTEN_PORT: u16 = 3000;

/// Where the listener binds: an IPv4 address and a port.
pub struct ListenerConfig {
    pub octets: [u8; 4],
    pub port: u16,
}

/// The fixed listener configuration: every interface, port 3000.
pub fn listener_config() -> (r: ListenerConfig)
    ensures
        r.octets@ == seq![0u8, 0u8, 0u8, 0u8],
        r.port == 3000,
{
    let r = ListenerConfig { octets: [0u8, 0u8, 0u8, 0u8], port: LISTEN_PORT };
    assert(r.octets@ =~= seq![0u8, 0u8, 0u8, 0u8]);
    r
}

} // verus!
