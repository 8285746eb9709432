//! The address-list format produced by the port scanner whose output feeds
//! a scan: servers with their open ports.

use vstd::prelude::*;
use crate::pool::Target;

verus! {

/// The set of endpoints read from the port scanner's output.
pub struct MasscanFormat {
    pub servers: Vec<MasscanServer>,
}

/// One scanned server: its address and the ports found open.
pub struct MasscanServer {
    pub ip: String,
    pub timestamp: String,
    pub ports: Vec<MasscanPort>,
}

/// One open port of a scanned server.
pub struct MasscanPort {
    pub port: u16,
    pub proto: String,
    pub status: Option<String>,
    pub reason: Option<String>,
    pub service: Option<MasscanService>,
    pub ttl: Option<usize>,
}

/// A service banner captured on an open port.
pub struct MasscanService {
    pub name: String,
    pub banner: String,
}

impl MasscanFormat {
    /// The endpoints listed: each server's address paired with its first
    /// open port. Every server must have at least one port entry.
    pub fn get_ips(&self) -> (r: Vec<Target>)
        requires
            forall|i: int|
                0 <= i < self.servers@.len() ==> (#[trigger] self.servers@[i]).ports@.len() > 0,
        ensures
            r@.len() == self.servers@.len(),
            forall|i: int|
                0 <= i < r@.len() ==> (#[trigger] r@[i]).host == self.servers@[i].ip
                    && r@[i].port == self.servers@[i].ports@[0].port,
    {
        let mut r: Vec<Target> = Vec::new();
        let mut i: usize = 0;
        while i < self.servers.len()
            invariant
                i <= self.servers@.len(),
                r@.len() == i,
                forall|i: int|
                    0 <= i < self.servers@.len() ==> (#[trigger] self.servers@[i]).ports@.len()
                        > 0,
                forall|k: int|
                    0 <= k < i ==> (#[trigger] r@[k]).host == self.servers@[k].ip && r@[k].port
                        == self.servers@[k].ports@[0].port,
            decreases self.servers@.len() - i,
        {
            let sv = &self.servers[i];
            r.push(Target { host: sv.ip.clone(), port: sv.ports[0].port });
            i = i + 1;
        }
        r
    }
}

} // verus!
