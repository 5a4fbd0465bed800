//! IP addresses and endpoints as plain values.

use vstd::prelude::*;

verus! {

/// An IPv4 or IPv6 address, held as its octets in network order.
#[derive(Clone, Copy, Debug, PartialEq, Eq)]
pub enum IpRecord {
    V4([u8; 4]),
    V6([u8; 16]),
}

impl IpRecord {
    /// The octets of the address in network order.
    pub open spec fn octets_view(self) -> Seq<u8> {
        match self {
            IpRecord::V4(octets) => octets@,
            IpRecord::V6(octets) => octets@,
        }
    }

    /// Returns the octets of the address, four or sixteen of them.
    pub fn octets(&self) -> (octets: Vec<u8>)
        ensures
            octets@ == self.octets_view(),
    {
        match self {
            IpRecord::V4(octets) => vstd::slice::slice_to_vec(octets.as_slice()),
            IpRecord::V6(octets) => vstd::slice::slice_to_vec(octets.as_slice()),
        }
    }
}

/// Reads an address from its octets: four for IPv4, sixteen for IPv6.
pub fn ip_from_octets(octets: &Vec<u8>) -> (ip: Option<IpRecord>)
    ensures
        match ip {
            Some(record) => record.octets_view() == octets@,
            None => octets@.len() != 4 && octets@.len() != 16,
        },
        octets@.len() == 4 ==> (ip matches Some(IpRecord::V4(array)) && array@ == octets@),
        octets@.len() == 16 ==> (ip matches Some(IpRecord::V6(array)) && array@ == octets@),
{
    if octets.len() == 4 {
        let record = IpRecord::V4([octets[0], octets[1], octets[2], octets[3]]);
        assert(record.octets_view() =~= octets@);
        Some(record)
    } else if octets.len() == 16 {
        let record = IpRecord::V6(
            [
                octets[0],
                octets[1],
                octets[2],
                octets[3],
                octets[4],
                octets[5],
                octets[6],
                octets[7],
                octets[8],
                octets[9],
                octets[10],
                octets[11],
                octets[12],
                octets[13],
                octets[14],
                octets[15],
            ],
        );
        assert(record.octets_view() =~= octets@);
        Some(record)
    } else {
        None
    }
}

/// An IP address with a port.
#[derive(Clone, Copy, Debug, PartialEq, Eq)]
pub struct Endpoint {
    pub ip: IpRecord,
    pub port: u16,
}

/// The octets of an address are those that it holds, as they stand: four or sixteen.
pub proof fn law_octets(four: [u8; 4], sixteen: [u8; 16])
    ensures
        IpRecord::V4(four).octets_view() == four@,
        IpRecord::V6(sixteen).octets_view() == sixteen@,
        IpRecord::V4(four).octets_view().len() == 4,
        IpRecord::V6(sixteen).octets_view().len() == 16,
{
}

} // verus!
