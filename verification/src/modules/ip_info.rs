use std::collections::HashMap;

use vstd::prelude::*;

use super::{Error, Result};
use crate::model::ip_info::{
    spec_first_visit, spec_merged, DataFromIp, IpInfo, IpInfoView, PartialIpInfo,
};

verus! {

/// The operations of the visitor register. Its implementation reads and
/// writes the register's store; what each operation decides is computed by
/// `IpInfoPlan::for_visit` (a visit), `update_key` and
/// `IpInfoPlan::for_update` (an update), and `countries` with
/// `count_strings` (the count by country).
pub trait Api {
    /// Counts one more visit of the address that `data` describes, or
    /// records the address at its first visit.
    fn register_visit(&mut self, data: DataFromIp) -> Result<()>;

    /// How many recorded addresses there are in each country.
    fn get_flags(&mut self) -> Result<HashMap<String, usize>>;

    /// Writes the fields that `info` sets over the record of its address.
    fn update(&mut self, info: PartialIpInfo) -> Result<IpInfo>;
}

/// What registering a visit writes to the register.
#[derive(Debug)]
pub enum IpInfoPlan {
    /// Write this record over the stored one of the same address.
    Update(IpInfo),
    /// Store this new record.
    Insert(IpInfo),
}

/// A record with one more visit.
pub open spec fn spec_one_more_visit(v: IpInfoView) -> IpInfoView {
    IpInfoView { visites: (v.visites + 1) as u64, ..v }
}

impl IpInfoPlan {
    /// What to write for a visit described by `data`, given what looking its
    /// address up gave: a found record is written back with one more visit,
    /// an unknown address (`InvalidOperation`) gets a record of its first
    /// visit, and any other failure is passed on.
    pub fn for_visit(lookup: Result<IpInfo>, data: DataFromIp) -> (r: Result<IpInfoPlan>)
        requires
            lookup matches Ok(v) ==> v.visites < u64::MAX,
        ensures
            match lookup {
                Ok(v) => r matches Ok(IpInfoPlan::Update(u)) && u@ == spec_one_more_visit(v@)
                    && u.visites == v.visites + 1 && u@ == (IpInfoView {
                    visites: u.visites,
                    ..v@
                }),
                Err(Error::InvalidOperation) => r matches Ok(IpInfoPlan::Insert(i)) && i@
                    == spec_first_visit(data) && i.visites == 1 && i.ip@ == data.ip@ && i.city@
                    == data.city@ && i.region@ == data.region@ && i.country@ == data.country@
                    && i.loc@ == data.loc@ && i.postal@ == data.postal@ && i.timezone@
                    == data.timezone@,
                Err(e) => r == Err::<IpInfoPlan, Error>(e),
            },
    {
        match lookup {
            Ok(mut v) => {
                v.visites += 1;
                Ok(IpInfoPlan::Update(v))
            },
            Err(e) => match e {
                Error::InvalidOperation => {
                    let i: IpInfo = data.into();
                    Ok(IpInfoPlan::Insert(i))
                },
                e => Err(e),
            },
        }
    }

    /// The record to write for an update, given what looking its address up
    /// gave: the found record with the fields that `info` sets written over
    /// it; a failed lookup is passed on.
    pub fn for_update(lookup: Result<IpInfo>, info: PartialIpInfo) -> (r: Result<IpInfo>)
        ensures
            match lookup {
                Ok(base) => r matches Ok(u) && u@ == spec_merged(base@, info@),
                Err(e) => r == Err::<IpInfo, Error>(e),
            },
    {
        match lookup {
            Ok(mut base) => {
                base.merge(info);
                Ok(base)
            },
            Err(e) => Err(e),
        }
    }
}

/// The country of each record, in the order of the records: what the
/// countries of the register are counted from.
pub fn countries(records: &Vec<IpInfo>) -> (r: Vec<String>)
    ensures
        r@.len() == records@.len(),
        forall|i: int| 0 <= i < r@.len() ==> #[trigger] r@[i]@ == records@[i].country@,
{
    let mut r: Vec<String> = Vec::new();
    let mut i: usize = 0;
    while i < records.len()
        invariant
            i <= records@.len(),
            r@.len() == i,
            forall|j: int| 0 <= j < i ==> #[trigger] r@[j]@ == records@[j].country@,
        decreases records@.len() - i,
    {
        r.push(records[i].country.clone());
        i = i + 1;
    }
    r
}

/// One more visit adds one to the count and keeps everything else of the
/// record: address, place, organisation, postal code and time zone.
pub proof fn lemma_one_more_visit(v: IpInfoView)
    requires
        v.visites < u64::MAX,
    ensures
        spec_one_more_visit(v).visites == v.visites + 1,
        spec_one_more_visit(v).ip == v.ip,
        spec_one_more_visit(v).city == v.city,
        spec_one_more_visit(v).region == v.region,
        spec_one_more_visit(v).country == v.country,
        spec_one_more_visit(v).loc == v.loc,
        spec_one_more_visit(v).org == v.org,
        spec_one_more_visit(v).postal == v.postal,
        spec_one_more_visit(v).timezone == v.timezone,
{
}

/// After its first visit and one more, an address's record counts two
/// visits and still holds what the lookup told at the first visit.
pub proof fn lemma_second_visit(d: DataFromIp)
    ensures
        spec_one_more_visit(spec_first_visit(d)).visites == 2,
        spec_one_more_visit(spec_first_visit(d)) == (IpInfoView {
            visites: 2,
            ..spec_first_visit(d)
        }),
{
}

/// The address whose record a partial record updates; an update that names
/// no address is refused with `InvalidInput`.
pub fn update_key(info: &PartialIpInfo) -> (r: Result<&String>)
    ensures
        match info.ip {
            Some(ip) => r matches Ok(k) && k@ == ip@,
            None => r matches Err(Error::InvalidInput),
        },
{
    match &info.ip {
        Some(ip) => Ok(ip),
        None => Err(Error::InvalidInput),
    }
}

} // verus!
