//! The metadata record stored for one address.

use vstd::prelude::*;

verus! {

/// The metadata the remote service reports for one address, together with
/// the time it was fetched. Latitude and longitude are carried as the bit
/// patterns of the 64-bit floating-point values the service reports; the
/// lookup logic never computes with them.
pub struct IpRecord {
    pub address: String,
    pub country: String,
    pub region_name: String,
    pub city: String,
    pub isp: String,
    pub org: String,
    pub asn: String,
    pub timezone: String,
    pub lat_bits: u64,
    pub lon_bits: u64,
    pub fetched_at: i64,
}

/// The mathematical image of a record: each string as its character
/// sequence.
pub struct RecordModel {
    pub address: Seq<char>,
    pub country: Seq<char>,
    pub region_name: Seq<char>,
    pub city: Seq<char>,
    pub isp: Seq<char>,
    pub org: Seq<char>,
    pub asn: Seq<char>,
    pub timezone: Seq<char>,
    pub lat_bits: u64,
    pub lon_bits: u64,
    pub fetched_at: i64,
}

impl View for IpRecord {
    type V = RecordModel;

    open spec fn view(&self) -> RecordModel {
        RecordModel {
            address: self.address@,
            country: self.country@,
            region_name: self.region_name@,
            city: self.city@,
            isp: self.isp@,
            org: self.org@,
            asn: self.asn@,
            timezone: self.timezone@,
            lat_bits: self.lat_bits,
            lon_bits: self.lon_bits,
            fetched_at: self.fetched_at,
        }
    }
}

impl IpRecord {
    /// A copy of the record with the same model.
    pub fn duplicate(&self) -> (r: IpRecord)
        ensures
            r@ == self@,
    {
        IpRecord {
            address: self.address.clone(),
            country: self.country.clone(),
            region_name: self.region_name.clone(),
            city: self.city.clone(),
            isp: self.isp.clone(),
            org: self.org.clone(),
            asn: self.asn.clone(),
            timezone: self.timezone.clone(),
            lat_bits: self.lat_bits,
            lon_bits: self.lon_bits,
            fetched_at: self.fetched_at,
        }
    }
}

} // verus!
