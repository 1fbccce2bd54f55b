//! From a host to the place to connect to.

use vstd::prelude::*;
use crate::error::{Error, Result};

verus! {

/// The port that the proxy listens on where none is configured.
pub const DEFAULT_LISTEN_PORT: u16 = 4202;

/// The port of every upstream connection, whatever port the client named.
pub const UPSTREAM_PORT: u16 = 443;

/// A routable network address, as its numbers: the four octets of an IPv4
/// address, or the eight segments of an IPv6 address.
#[derive(Clone, Copy, Debug, PartialEq, Eq, Structural)]
pub enum Address {
    V4(u8, u8, u8, u8),
    V6(u16, u16, u16, u16, u16, u16, u16, u16),
}

/// Where the upstream connection goes, and the name that the upstream's
/// certificate has to be valid for.
#[derive(Clone, Debug, PartialEq, Eq)]
pub struct Target {
    pub address: Address,
    pub port: u16,
    pub server_name: String,
}

/// A target, as the values it holds.
pub struct TargetModel {
    pub address: Address,
    pub port: u16,
    pub server_name: Seq<char>,
}

impl View for Target {
    type V = TargetModel;

    open spec fn view(&self) -> TargetModel {
        TargetModel { address: self.address, port: self.port, server_name: self.server_name@ }
    }
}

/// Whether `rustls_pki_types::ServerName` accepts a host: whether it reads
/// as a DNS name or as an IP address.
pub uninterp spec fn server_name_valid(host: Seq<char>) -> bool;

/// Whether a certificate can be checked against this host.
///
/// Calls `ServerName::try_from(&str)` of `rustls_pki_types` and keeps
/// whether it succeeded. Believed of it: the answer depends on the
/// characters of the host and on nothing else.
#[verifier::external_body]
pub(crate) fn is_server_name(host: &str) -> (r: bool)
    ensures
        r == server_name_valid(host@),
{
    rustls_pki_types::ServerName::try_from(host).is_ok()
}

/// The address that a lookup's answer stands for: the last one it lists.
pub open spec fn selected(addresses: Seq<Address>) -> Option<Address> {
    if addresses.len() == 0 {
        None
    } else {
        Some(addresses.last())
    }
}

/// Picks the address to connect to out of a lookup's answer: the last one.
/// An answer without addresses is a failed lookup.
pub fn select_address(addresses: &[Address]) -> (r: Result<Address>)
    ensures
        r == match selected(addresses@) {
            Some(a) => Ok::<Address, Error>(a),
            None => Err(Error::NoAddress),
        },
{
    if addresses.len() == 0 {
        Err(Error::NoAddress)
    } else {
        Ok(addresses[addresses.len() - 1])
    }
}

/// What to do with a lookup's answer: the target, or the reason why there
/// is none.
pub open spec fn planned(host: Seq<char>, addresses: Seq<Address>, name_ok: bool) -> Result<
    TargetModel,
> {
    match selected(addresses) {
        None => Err(Error::NoAddress),
        Some(address) => if name_ok {
            Ok(TargetModel { address, port: UPSTREAM_PORT, server_name: host })
        } else {
            Err(Error::InvalidServerName)
        },
    }
}

/// Decides where to connect, given the host, the answer of the lookup and
/// whether the host can serve as a server name.
///
/// The target is the last address of the answer, on port 443, under the
/// host's name. An empty answer is reported first, a host that is no server
/// name second.
pub fn plan_connect(host: &str, addresses: &[Address], name_ok: bool) -> (r: Result<Target>)
    ensures
        match r {
            Ok(target) => planned(host@, addresses@, name_ok) == Ok::<TargetModel, Error>(target@),
            Err(error) => planned(host@, addresses@, name_ok) == Err::<TargetModel, Error>(error),
        },
{
    match select_address(addresses) {
        Err(e) => Err(e),
        Ok(address) => {
            if name_ok {
                Ok(Target { address, port: UPSTREAM_PORT, server_name: host.to_owned() })
            } else {
                Err(Error::InvalidServerName)
            }
        },
    }
}

/// Decides where to connect, given the host and the answer of the lookup.
pub fn target_for(host: &str, addresses: &[Address]) -> (r: Result<Target>)
    ensures
        match r {
            Ok(target) => planned(host@, addresses@, server_name_valid(host@)) == Ok::<
                TargetModel,
                Error,
            >(target@),
            Err(error) => planned(host@, addresses@, server_name_valid(host@)) == Err::<
                TargetModel,
                Error,
            >(error),
        },
{
    plan_connect(host, addresses, is_server_name(host))
}

} // verus!
