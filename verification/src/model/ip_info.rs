use vstd::prelude::*;

use crate::model::fields::{opt_view, pick, pick_field};

verus! {

/// What a visitor record holds, as plain values.
pub ghost struct IpInfoView {
    pub visites: u64,
    pub ip: Seq<char>,
    pub city: Seq<char>,
    pub region: Seq<char>,
    pub country: Seq<char>,
    pub loc: Seq<char>,
    pub org: Option<Seq<char>>,
    pub postal: Seq<char>,
    pub timezone: Seq<char>,
}

/// The record of one visiting address: where it is, who runs it, and how
/// many visits it made.
#[derive(Debug, Clone)]
pub struct IpInfo {
    pub visites: u64,
    pub ip: String,
    pub city: String,
    pub region: String,
    pub country: String,
    pub loc: String,
    pub org: Option<String>,
    pub postal: String,
    pub timezone: String,
}

impl View for IpInfo {
    type V = IpInfoView;

    open spec fn view(&self) -> IpInfoView {
        IpInfoView {
            visites: self.visites,
            ip: self.ip@,
            city: self.city@,
            region: self.region@,
            country: self.country@,
            loc: self.loc@,
            org: opt_view(self.org),
            postal: self.postal@,
            timezone: self.timezone@,
        }
    }
}

/// What the lookup service tells about an address.
#[derive(Debug, Clone)]
pub struct DataFromIp {
    pub ip: String,
    pub city: String,
    pub region: String,
    pub country: String,
    pub loc: String,
    pub org: Option<String>,
    pub postal: String,
    pub timezone: String,
}

/// What a partial visitor record holds, as plain values.
pub ghost struct PartialIpInfoView {
    pub visites: Option<u64>,
    pub ip: Option<Seq<char>>,
    pub city: Option<Seq<char>>,
    pub region: Option<Seq<char>>,
    pub country: Option<Seq<char>>,
    pub loc: Option<Seq<char>>,
    pub org: Option<Option<Seq<char>>>,
    pub postal: Option<Seq<char>>,
    pub timezone: Option<Seq<char>>,
}

/// A visitor record with every field optional: the fields that are set are
/// the ones to change.
#[derive(Debug, Clone)]
pub struct PartialIpInfo {
    pub visites: Option<u64>,
    pub ip: Option<String>,
    pub city: Option<String>,
    pub region: Option<String>,
    pub country: Option<String>,
    pub loc: Option<String>,
    pub org: Option<Option<String>>,
    pub postal: Option<String>,
    pub timezone: Option<String>,
}

impl View for PartialIpInfo {
    type V = PartialIpInfoView;

    open spec fn view(&self) -> PartialIpInfoView {
        PartialIpInfoView {
            visites: self.visites,
            ip: opt_view(self.ip),
            city: opt_view(self.city),
            region: opt_view(self.region),
            country: opt_view(self.country),
            loc: opt_view(self.loc),
            org: match self.org {
                Some(o) => Some(opt_view(o)),
                None => None,
            },
            postal: opt_view(self.postal),
            timezone: opt_view(self.timezone),
        }
    }
}

/// A record after the set fields of a partial record were written over it.
pub open spec fn spec_merged(a: IpInfoView, p: PartialIpInfoView) -> IpInfoView {
    IpInfoView {
        visites: pick(a.visites, p.visites),
        ip: pick(a.ip, p.ip),
        city: pick(a.city, p.city),
        region: pick(a.region, p.region),
        country: pick(a.country, p.country),
        loc: pick(a.loc, p.loc),
        org: pick(a.org, p.org),
        postal: pick(a.postal, p.postal),
        timezone: pick(a.timezone, p.timezone),
    }
}

/// The partial record that sets every field to the value it has in `a`.
pub open spec fn spec_full(a: IpInfoView) -> PartialIpInfoView {
    PartialIpInfoView {
        visites: Some(a.visites),
        ip: Some(a.ip),
        city: Some(a.city),
        region: Some(a.region),
        country: Some(a.country),
        loc: Some(a.loc),
        org: Some(a.org),
        postal: Some(a.postal),
        timezone: Some(a.timezone),
    }
}

/// The partial record that sets nothing.
pub open spec fn spec_empty() -> PartialIpInfoView {
    PartialIpInfoView {
        visites: None,
        ip: None,
        city: None,
        region: None,
        country: None,
        loc: None,
        org: None,
        postal: None,
        timezone: None,
    }
}

/// The record of a first visit: one visit, and what the lookup told.
pub open spec fn spec_first_visit(d: DataFromIp) -> IpInfoView {
    IpInfoView {
        visites: 1,
        ip: d.ip@,
        city: d.city@,
        region: d.region@,
        country: d.country@,
        loc: d.loc@,
        org: opt_view(d.org),
        postal: d.postal@,
        timezone: d.timezone@,
    }
}

impl IpInfo {
    /// Writes the fields that `other` sets over this record; the others stay.
    pub fn merge(&mut self, other: PartialIpInfo)
        ensures
            final(self)@ == spec_merged(old(self)@, other@),
    {
        pick_field(&mut self.visites, other.visites);
        pick_field(&mut self.ip, other.ip);
        pick_field(&mut self.city, other.city);
        pick_field(&mut self.region, other.region);
        pick_field(&mut self.country, other.country);
        pick_field(&mut self.loc, other.loc);
        pick_field(&mut self.org, other.org);
        pick_field(&mut self.postal, other.postal);
        pick_field(&mut self.timezone, other.timezone);
    }

    /// A record from the columns of a stored row; the visit count is stored
    /// as a signed number and read back with `as`.
    pub fn from_row(
        ip: String,
        city: String,
        region: String,
        country: String,
        loc: String,
        org: Option<String>,
        postal: String,
        timezone: String,
        visites: i64,
    ) -> (r: Self)
        ensures
            r@ == (IpInfoView {
                visites: visites as u64,
                ip: ip@,
                city: city@,
                region: region@,
                country: country@,
                loc: loc@,
                org: opt_view(org),
                postal: postal@,
                timezone: timezone@,
            }),
    {
        IpInfo { city, country, ip, loc, postal, region, timezone, org, visites: visites as u64 }
    }
}

impl From<DataFromIp> for IpInfo {
    fn from(value: DataFromIp) -> (r: Self) {
        IpInfo {
            visites: 1,
            ip: value.ip,
            city: value.city,
            region: value.region,
            country: value.country,
            loc: value.loc,
            org: value.org,
            postal: value.postal,
            timezone: value.timezone,
        }
    }
}

impl vstd::std_specs::convert::FromSpecImpl<DataFromIp> for IpInfo {
    open spec fn obeys_from_spec() -> bool {
        true
    }

    open spec fn from_spec(value: DataFromIp) -> IpInfo {
        IpInfo {
            visites: 1,
            ip: value.ip,
            city: value.city,
            region: value.region,
            country: value.country,
            loc: value.loc,
            org: value.org,
            postal: value.postal,
            timezone: value.timezone,
        }
    }
}

impl From<IpInfo> for PartialIpInfo {
    fn from(value: IpInfo) -> (r: Self) {
        PartialIpInfo {
            visites: Some(value.visites),
            ip: Some(value.ip),
            city: Some(value.city),
            region: Some(value.region),
            country: Some(value.country),
            loc: Some(value.loc),
            org: Some(value.org),
            postal: Some(value.postal),
            timezone: Some(value.timezone),
        }
    }
}

impl vstd::std_specs::convert::FromSpecImpl<IpInfo> for PartialIpInfo {
    open spec fn obeys_from_spec() -> bool {
        true
    }

    open spec fn from_spec(value: IpInfo) -> PartialIpInfo {
        PartialIpInfo {
            visites: Some(value.visites),
            ip: Some(value.ip),
            city: Some(value.city),
            region: Some(value.region),
            country: Some(value.country),
            loc: Some(value.loc),
            org: Some(value.org),
            postal: Some(value.postal),
            timezone: Some(value.timezone),
        }
    }
}

impl Default for IpInfo {
    fn default() -> (r: Self)
        ensures
            r@ == (IpInfoView {
                visites: 0,
                ip: Seq::empty(),
                city: Seq::empty(),
                region: Seq::empty(),
                country: Seq::empty(),
                loc: Seq::empty(),
                org: None,
                postal: Seq::empty(),
                timezone: Seq::empty(),
            }),
    {
        IpInfo {
            visites: 0,
            ip: String::new(),
            city: String::new(),
            region: String::new(),
            country: String::new(),
            loc: String::new(),
            org: None,
            postal: String::new(),
            timezone: String::new(),
        }
    }
}

impl Default for PartialIpInfo {
    fn default() -> (r: Self)
        ensures
            r@ == spec_empty(),
    {
        PartialIpInfo {
            visites: None,
            ip: None,
            city: None,
            region: None,
            country: None,
            loc: None,
            org: None,
            postal: None,
            timezone: None,
        }
    }
}

/// Merging the partial record made from a record writes that whole record.
pub proof fn lemma_merge_full(a: IpInfoView, b: IpInfoView)
    ensures
        spec_merged(a, spec_full(b)) == b,
{
}

/// Merging a partial record that sets nothing leaves a record as it was.
pub proof fn lemma_merge_empty(a: IpInfoView)
    ensures
        spec_merged(a, spec_empty()) == a,
{
}

/// Merging the same partial record twice changes nothing the second time.
pub proof fn lemma_merge_idempotent(a: IpInfoView, p: PartialIpInfoView)
    ensures
        spec_merged(spec_merged(a, p), p) == spec_merged(a, p),
{
}

/// The partial record made from a record is the full partial record of its
/// view.
pub proof fn lemma_from_is_full(a: IpInfo)
    ensures
        <PartialIpInfo as vstd::std_specs::convert::FromSpec<IpInfo>>::from_spec(a)@
            == spec_full(a@),
{
}

/// The record made from the lookup data of a first visit counts one visit.
pub proof fn lemma_first_visit(d: DataFromIp)
    ensures
        <IpInfo as vstd::std_specs::convert::FromSpec<DataFromIp>>::from_spec(d)@
            == spec_first_visit(d),
{
}

} // verus!
