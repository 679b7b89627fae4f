use vstd::prelude::*;
use crate::utils::decimal::{decimal_text, push_decimal};

verus! {

/// The dotted-decimal writing of an IPv4 address.
pub open spec fn ipv4_text(ip: [u8; 4]) -> Seq<char> {
    decimal_text(ip[0] as nat) + "."@ + decimal_text(ip[1] as nat) + "."@ + decimal_text(
        ip[2] as nat,
    ) + "."@ + decimal_text(ip[3] as nat)
}

/// The text `ip:port` of a socket address.
pub open spec fn socket_address_text(ip: [u8; 4], port: u16) -> Seq<char> {
    ipv4_text(ip) + ":"@ + decimal_text(port as nat)
}

/// The text under which the server announces the address it is bound to.
pub fn server_address_text(ip: [u8; 4], port: u16) -> (s: String)
    ensures
        s@ == socket_address_text(ip, port),
{
    let mut s = String::new();
    push_decimal(&mut s, ip[0] as u64);
    s.append(".");
    push_decimal(&mut s, ip[1] as u64);
    s.append(".");
    push_decimal(&mut s, ip[2] as u64);
    s.append(".");
    push_decimal(&mut s, ip[3] as u64);
    s.append(":");
    push_decimal(&mut s, port as u64);
    assert(s@ =~= socket_address_text(ip, port));
    s
}

/// The address the server is bound to, once it has been recorded.
pub struct ServerAddress {
    address: Option<String>,
}

impl View for ServerAddress {
    type V = Option<Seq<char>>;

    closed spec fn view(&self) -> Option<Seq<char>> {
        match self.address {
            Some(a) => Some(a@),
            None => None,
        }
    }
}

impl ServerAddress {
    /// Nothing recorded yet.
    pub fn new() -> (r: ServerAddress)
        ensures
            r@ is None,
    {
        ServerAddress { address: None }
    }

    /// Records `address`, replacing what was recorded before.
    pub fn record(&mut self, address: String)
        ensures
            final(self)@ == Some(address@),
    {
        self.address = Some(address);
    }
}

/// The recorded server address, if one was recorded.
pub fn get_server_address(recorded: &ServerAddress) -> (r: Option<String>)
    ensures
        match r {
            Some(a) => recorded@ == Some(a@),
            None => recorded@ is None,
        },
{
    match &recorded.address {
        Some(a) => Some(a.clone()),
        None => None,
    }
}

} // verus!
