//! Raw source rows and normalized metric records, with the mapper that
//! turns one into the other.

use vstd::prelude::*;
use crate::tags::{spec_normalize_tag, spec_dns_tag, normalize_tag, dns_tag};
use crate::value::{RawValue, Variant, MapError, raw_value_wf, spec_decode_value, decode_value};

verus! {

/// One observation as extracted from the source: plain values only.
pub struct RawRow {
    /// The host name, later normalized into the `endpoint` tag.
    pub host: String,
    /// The item key, later the record's measurement key.
    pub item_key: String,
    /// Observation time, epoch seconds.
    pub clock: i64,
    /// The observed value, encoded as the table variant prescribes.
    pub value: RawValue,
    /// The interface IP address.
    pub ip: String,
    /// The interface DNS name, possibly empty.
    pub dns: String,
    /// The interface port.
    pub port: String,
    /// The host-group name, later normalized into the `host_group` tag.
    pub host_group: String,
    /// The host-group id.
    pub group_id: i64,
}

/// The mathematical value of a raw row.
pub struct RawRowView {
    pub host: Seq<char>,
    pub item_key: Seq<char>,
    pub clock: int,
    pub value: RawValue,
    pub ip: Seq<char>,
    pub dns: Seq<char>,
    pub port: Seq<char>,
    pub host_group: Seq<char>,
    pub group_id: int,
}

impl View for RawRow {
    type V = RawRowView;

    open spec fn view(&self) -> RawRowView {
        RawRowView {
            host: self.host@,
            item_key: self.item_key@,
            clock: self.clock as int,
            value: self.value,
            ip: self.ip@,
            dns: self.dns@,
            port: self.port@,
            host_group: self.host_group@,
            group_id: self.group_id as int,
        }
    }
}

/// A normalized output record: a timestamp, the tag set, the measurement
/// key, and the decoded value carried as the raw bits of a binary
/// floating value.
#[derive(Debug)]
pub struct Metric {
    /// Observation time, epoch seconds.
    pub time: i64,
    /// Normalized host name.
    pub endpoint: String,
    /// Host-group id.
    pub groupid: i64,
    /// Normalized host-group name.
    pub host_group: String,
    /// Interface IP address, unchanged.
    pub ip: String,
    /// Interface DNS name, or the sentinel `"None"` when empty.
    pub dns: String,
    /// Interface port, unchanged.
    pub port: String,
    /// The measurement key, unchanged.
    pub key: String,
    /// The decoded value: raw bits of a binary floating value.
    pub value_bits: u64,
}

/// The mathematical value of a metric record.
pub struct MetricView {
    pub time: int,
    pub endpoint: Seq<char>,
    pub groupid: int,
    pub host_group: Seq<char>,
    pub ip: Seq<char>,
    pub dns: Seq<char>,
    pub port: Seq<char>,
    pub key: Seq<char>,
    pub value_bits: u64,
}

impl View for Metric {
    type V = MetricView;

    open spec fn view(&self) -> MetricView {
        MetricView {
            time: self.time as int,
            endpoint: self.endpoint@,
            groupid: self.groupid as int,
            host_group: self.host_group@,
            ip: self.ip@,
            dns: self.dns@,
            port: self.port@,
            key: self.key@,
            value_bits: self.value_bits,
        }
    }
}

impl Metric {
    /// An exact copy of the record.
    pub fn duplicate(&self) -> (m: Metric)
        ensures
            m@ == self@,
    {
        Metric {
            time: self.time,
            endpoint: self.endpoint.clone(),
            groupid: self.groupid,
            host_group: self.host_group.clone(),
            ip: self.ip.clone(),
            dns: self.dns.clone(),
            port: self.port.clone(),
            key: self.key.clone(),
            value_bits: self.value_bits,
        }
    }
}

/// The record a raw row maps to under a table variant, or nothing when
/// the value's encoding does not match the variant. The record keeps the
/// row's time, normalizes the `endpoint` and `host_group` tags, replaces
/// an empty DNS name with the sentinel, and decodes the value.
pub open spec fn spec_map_row(r: RawRowView, variant: Variant) -> Option<MetricView> {
    match spec_decode_value(r.value, variant) {
        Some(bits) => Some(
            MetricView {
                time: r.clock,
                endpoint: spec_normalize_tag(r.host),
                groupid: r.group_id,
                host_group: spec_normalize_tag(r.host_group),
                ip: r.ip,
                dns: spec_dns_tag(r.dns),
                port: r.port,
                key: r.item_key,
                value_bits: bits,
            },
        ),
        None => None,
    }
}

/// Maps one raw row to a normalized metric record. Total for every
/// well-formed row whose value encoding matches the variant; a mismatch
/// is a distinguishable error for the cycle, never a termination.
pub fn map_row(row: &RawRow, variant: Variant) -> (r: Result<Metric, MapError>)
    requires
        raw_value_wf(row.value),
    ensures
        match r {
            Ok(m) => spec_map_row(row@, variant) == Some(m@),
            Err(e) => spec_map_row(row@, variant) is None && e == MapError::ValueEncoding,
        },
{
    let bits = match decode_value(row.value, variant) {
        Ok(bits) => bits,
        Err(e) => {
            return Err(e);
        },
    };
    Ok(Metric {
        time: row.clock,
        endpoint: normalize_tag(row.host.as_str()),
        groupid: row.group_id,
        host_group: normalize_tag(row.host_group.as_str()),
        ip: row.ip.clone(),
        dns: dns_tag(row.dns.as_str()),
        port: row.port.clone(),
        key: row.item_key.clone(),
        value_bits: bits,
    })
}

/// A well-formed extraction result: every row's value is well formed.
pub open spec fn rows_wf(rows: Seq<RawRow>) -> bool {
    forall|i: int| 0 <= i < rows.len() ==> raw_value_wf(#[trigger] rows[i].value)
}

/// Maps an extracted row sequence, in order. Succeeds exactly when every
/// row's value encoding matches the variant; the output keeps the input's
/// length and order.
pub fn map_rows(rows: &Vec<RawRow>, variant: Variant) -> (r: Result<Vec<Metric>, MapError>)
    requires
        rows_wf(rows@),
    ensures
        match r {
            Ok(ms) => {
                &&& ms@.len() == rows@.len()
                &&& forall|i: int|
                    0 <= i < rows@.len() ==> spec_map_row(rows@[i]@, variant) == Some(
                        #[trigger] ms@[i]@,
                    )
            },
            Err(e) => {
                &&& exists|i: int|
                    0 <= i < rows@.len() && spec_map_row(#[trigger] rows@[i]@, variant) is None
                &&& e == MapError::ValueEncoding
            },
        },
{
    let mut out: Vec<Metric> = Vec::new();
    let mut i: usize = 0;
    while i < rows.len()
        invariant
            i <= rows@.len(),
            rows_wf(rows@),
            out@.len() == i,
            forall|j: int|
                0 <= j < i ==> spec_map_row(rows@[j]@, variant) == Some(#[trigger] out@[j]@),
        decreases rows@.len() - i,
    {
        match map_row(&rows[i], variant) {
            Ok(m) => {
                out.push(m);
            },
            Err(e) => {
                return Err(e);
            },
        }
        i = i + 1;
    }
    Ok(out)
}

} // verus!
