//! Reading a container sample out of the JSON document that the container
//! runtime sends.

use vstd::prelude::*;
use crate::container::BlkioStatEntry;
use crate::container::NetworkStats;
use crate::container::Stats;
use crate::container::StatsView;
use crate::json::Json;

verus! {

/// Whether the object has no member `key`, or null for it.
pub open spec fn absent(obj: Json, key: Seq<char>) -> bool {
    match obj.field(key) {
        None => true,
        Some(Json::Null) => true,
        _ => false,
    }
}

/// The count that the member `key` holds; nothing where the member is
/// missing or no count.
pub open spec fn required_count(obj: Json, key: Seq<char>) -> Option<u64> {
    match obj.field(key) {
        Some(v) => v.unsigned(),
        None => None,
    }
}

/// The count that the member `key` holds, if the object has the member;
/// nothing at all where the member holds something else.
pub open spec fn optional_count(obj: Json, key: Seq<char>) -> Option<Option<u64>> {
    if absent(obj, key) {
        Some(None)
    } else {
        match required_count(obj, key) {
            Some(n) => Some(Some(n)),
            None => None,
        }
    }
}

/// The counts that the items hold; nothing where one of them is no count.
pub open spec fn counts_of(items: Seq<Json>) -> Option<Seq<u64>> {
    if forall|i: int| 0 <= i < items.len() ==> (#[trigger] items[i]).unsigned() is Some {
        Some(Seq::new(items.len(), |i: int| items[i].unsigned()->0))
    } else {
        None
    }
}

/// The counts that the array `key` holds, if the object has the member;
/// nothing at all where the member holds something else.
pub open spec fn optional_counts(obj: Json, key: Seq<char>) -> Option<Option<Seq<u64>>> {
    if absent(obj, key) {
        Some(None)
    } else {
        match obj.field(key) {
            Some(Json::Array(items)) => match counts_of(items@) {
                Some(s) => Some(Some(s)),
                None => None,
            },
            _ => None,
        }
    }
}

/// The traffic that the description of one interface holds.
pub open spec fn interface_of(v: Json) -> Option<NetworkStats> {
    match (required_count(v, "rx_bytes"@), required_count(v, "tx_bytes"@)) {
        (Some(rx_bytes), Some(tx_bytes)) => Some(NetworkStats { rx_bytes, tx_bytes }),
        _ => None,
    }
}

/// The traffic of each interface, in the order of the members; nothing
/// where one description is malformed.
pub open spec fn interfaces_of(members: Seq<(String, Json)>) -> Option<Seq<NetworkStats>> {
    if forall|i: int| 0 <= i < members.len() ==> interface_of((#[trigger] members[i]).1) is Some {
        Some(Seq::new(members.len(), |i: int| interface_of(members[i].1)->0))
    } else {
        None
    }
}

/// The interfaces that the member "networks" describes, if the sample has
/// the member; nothing at all where the member is malformed.
pub open spec fn optional_interfaces(obj: Json) -> Option<Option<Seq<NetworkStats>>> {
    if absent(obj, "networks"@) {
        Some(None)
    } else {
        match obj.field("networks"@) {
            Some(Json::Object(members)) => match interfaces_of(members@) {
                Some(s) => Some(Some(s)),
                None => None,
            },
            _ => None,
        }
    }
}

/// The block I/O entry that a value holds.
pub open spec fn entry_of(v: Json) -> Option<BlkioStatEntry> {
    match (v.field("op"@), required_count(v, "value"@)) {
        (Some(Json::Str(op)), Some(value)) => Some(BlkioStatEntry { op, value }),
        _ => None,
    }
}

/// The block I/O entries that the items hold; nothing where one of them is
/// malformed.
pub open spec fn entries_of(items: Seq<Json>) -> Option<Seq<BlkioStatEntry>> {
    if forall|i: int| 0 <= i < items.len() ==> entry_of(#[trigger] items[i]) is Some {
        Some(Seq::new(items.len(), |i: int| entry_of(items[i])->0))
    } else {
        None
    }
}

/// The entries of "io_service_bytes_recursive" in the member
/// "blkio_stats", if the sample has that member; nothing at all where it is
/// malformed.
pub open spec fn optional_blkio(obj: Json) -> Option<Option<Seq<BlkioStatEntry>>> {
    if absent(obj, "blkio_stats"@) {
        Some(None)
    } else {
        match obj.field("blkio_stats"@) {
            Some(blkio) => match blkio.field("io_service_bytes_recursive"@) {
                Some(Json::Array(items)) => match entries_of(items@) {
                    Some(s) => Some(Some(s)),
                    None => None,
                },
                _ => None,
            },
            None => None,
        }
    }
}

/// The member `b` of the member `a`.
pub open spec fn nested(obj: Json, a: Seq<char>, b: Seq<char>) -> Option<Json> {
    match obj.field(a) {
        Some(inner) => inner.field(b),
        None => None,
    }
}

/// The sample that a JSON document of the container runtime holds. Nothing
/// where a member that every sample has is missing, or where a member
/// holds something of another kind than it should.
pub open spec fn sample_of(json: Json) -> Option<StatsView> {
    match (
        json.field("cpu_stats"@),
        json.field("precpu_stats"@),
        json.field("memory_stats"@),
        nested(json, "cpu_stats"@, "cpu_usage"@),
        nested(json, "precpu_stats"@, "cpu_usage"@),
        nested(json, "memory_stats"@, "stats"@),
    ) {
        (Some(cpu), Some(precpu), Some(memory), Some(usage), Some(pre_usage), Some(detail)) => {
            match (
                required_count(usage, "total_usage"@),
                optional_counts(usage, "percpu_usage"@),
                optional_count(cpu, "system_cpu_usage"@),
                required_count(pre_usage, "total_usage"@),
                optional_count(precpu, "system_cpu_usage"@),
                required_count(memory, "usage"@),
                required_count(memory, "limit"@),
                optional_count(detail, "cache"@),
                optional_interfaces(json),
                optional_blkio(json),
            ) {
                (
                    Some(cpu_total_usage),
                    Some(percpu_usage),
                    Some(system_cpu_usage),
                    Some(precpu_total_usage),
                    Some(precpu_system_cpu_usage),
                    Some(memory_usage),
                    Some(memory_limit),
                    Some(memory_cache),
                    Some(networks),
                    Some(io_service_bytes),
                ) => Some(
                    StatsView {
                        cpu_total_usage,
                        percpu_usage,
                        system_cpu_usage,
                        precpu_total_usage,
                        precpu_system_cpu_usage,
                        memory_usage,
                        memory_limit,
                        memory_cache,
                        networks,
                        io_service_bytes,
                    },
                ),
                _ => None,
            }
        },
        _ => None,
    }
}

/// Whether the object has no member `key`, or null for it.
pub fn is_absent(obj: &Json, key: &str) -> (r: bool)
    ensures
        r == absent(*obj, key@),
{
    match obj.get(key) {
        None => true,
        Some(Json::Null) => true,
        _ => false,
    }
}

/// The count that the member `key` holds.
pub fn read_count(obj: &Json, key: &str) -> (r: Option<u64>)
    ensures
        r == required_count(*obj, key@),
{
    match obj.get(key) {
        Some(v) => v.as_u64(),
        None => None,
    }
}

/// The count that the member `key` holds, if the object has the member.
pub fn read_optional_count(obj: &Json, key: &str) -> (r: Option<Option<u64>>)
    ensures
        r == optional_count(*obj, key@),
{
    if is_absent(obj, key) {
        Some(None)
    } else {
        match read_count(obj, key) {
            Some(n) => Some(Some(n)),
            None => None,
        }
    }
}

/// The counts that the items hold.
pub fn read_counts(items: &Vec<Json>) -> (r: Option<Vec<u64>>)
    ensures
        match r {
            Some(v) => counts_of(items@) == Some(v@),
            None => counts_of(items@) is None,
        },
{
    let mut out: Vec<u64> = Vec::new();
    let mut i: usize = 0;
    while i < items.len()
        invariant
            i <= items.len(),
            out@.len() == i,
            forall|k: int|
                0 <= k < i ==> (#[trigger] items@[k]).unsigned() is Some && items@[k].unsigned()->0
                    == out@[k],
        decreases items.len() - i,
    {
        match items[i].as_u64() {
            Some(n) => out.push(n),
            None => {
                assert(!(items@[i as int].unsigned() is Some));
                return None;
            },
        }
        i += 1;
    }
    assert(out@ =~= Seq::new(items@.len(), |i: int| items@[i].unsigned()->0));
    Some(out)
}

/// The counts that the array `key` holds, if the object has the member.
pub fn read_optional_counts(obj: &Json, key: &str) -> (r: Option<Option<Vec<u64>>>)
    ensures
        match r {
            Some(Some(v)) => optional_counts(*obj, key@) == Some(Some(v@)),
            Some(None) => optional_counts(*obj, key@) == Some(None::<Seq<u64>>),
            None => optional_counts(*obj, key@) is None,
        },
{
    if is_absent(obj, key) {
        return Some(None);
    }
    match obj.get(key) {
        Some(Json::Array(items)) => match read_counts(items) {
            Some(v) => Some(Some(v)),
            None => None,
        },
        _ => None,
    }
}

/// The traffic that the description of one interface holds.
pub fn read_interface(v: &Json) -> (r: Option<NetworkStats>)
    ensures
        r == interface_of(*v),
{
    match (read_count(v, "rx_bytes"), read_count(v, "tx_bytes")) {
        (Some(rx_bytes), Some(tx_bytes)) => Some(NetworkStats { rx_bytes, tx_bytes }),
        _ => None,
    }
}

/// The interfaces that the member "networks" describes, if the sample has
/// the member.
pub fn read_optional_interfaces(obj: &Json) -> (r: Option<Option<Vec<NetworkStats>>>)
    ensures
        match r {
            Some(Some(v)) => optional_interfaces(*obj) == Some(Some(v@)),
            Some(None) => optional_interfaces(*obj) == Some(None::<Seq<NetworkStats>>),
            None => optional_interfaces(*obj) is None,
        },
{
    if is_absent(obj, "networks") {
        return Some(None);
    }
    match obj.get("networks") {
        Some(Json::Object(members)) => {
            let mut out: Vec<NetworkStats> = Vec::new();
            let mut i: usize = 0;
            while i < members.len()
                invariant
                    i <= members.len(),
                    out@.len() == i,
                    optional_interfaces(*obj) == match interfaces_of(members@) {
                        Some(s) => Some(Some(s)),
                        None => None,
                    },
                    forall|k: int|
                        0 <= k < i ==> interface_of((#[trigger] members@[k]).1) is Some
                            && interface_of(members@[k].1)->0 == out@[k],
                decreases members.len() - i,
            {
                match read_interface(&members[i].1) {
                    Some(n) => out.push(n),
                    None => {
                        assert(!(interface_of(members@[i as int].1) is Some));
                        return None;
                    },
                }
                i += 1;
            }
            assert(out@ =~= Seq::new(members@.len(), |i: int| interface_of(members@[i].1)->0));
            Some(Some(out))
        },
        _ => None,
    }
}

/// The block I/O entry that a value holds.
pub fn read_entry(v: &Json) -> (r: Option<BlkioStatEntry>)
    ensures
        r == entry_of(*v),
{
    match (v.get("op"), read_count(v, "value")) {
        (Some(Json::Str(op)), Some(value)) => Some(BlkioStatEntry { op: op.clone(), value }),
        _ => None,
    }
}

/// The entries of "io_service_bytes_recursive" in the member
/// "blkio_stats", if the sample has that member.
pub fn read_optional_blkio(obj: &Json) -> (r: Option<Option<Vec<BlkioStatEntry>>>)
    ensures
        match r {
            Some(Some(v)) => optional_blkio(*obj) == Some(Some(v@)),
            Some(None) => optional_blkio(*obj) == Some(None::<Seq<BlkioStatEntry>>),
            None => optional_blkio(*obj) is None,
        },
{
    if is_absent(obj, "blkio_stats") {
        return Some(None);
    }
    let blkio = match obj.get("blkio_stats") {
        Some(b) => b,
        None => {
            return None;
        },
    };
    match blkio.get("io_service_bytes_recursive") {
        Some(Json::Array(items)) => {
            let mut out: Vec<BlkioStatEntry> = Vec::new();
            let mut i: usize = 0;
            while i < items.len()
                invariant
                    i <= items.len(),
                    out@.len() == i,
                    optional_blkio(*obj) == match entries_of(items@) {
                        Some(s) => Some(Some(s)),
                        None => None,
                    },
                    forall|k: int|
                        0 <= k < i ==> entry_of(#[trigger] items@[k]) is Some && entry_of(
                            items@[k],
                        )->0 == out@[k],
                decreases items.len() - i,
            {
                match read_entry(&items[i]) {
                    Some(e) => out.push(e),
                    None => {
                        assert(!(entry_of(items@[i as int]) is Some));
                        return None;
                    },
                }
                i += 1;
            }
            assert(out@ =~= Seq::new(items@.len(), |i: int| entry_of(items@[i])->0));
            Some(Some(out))
        },
        _ => None,
    }
}

/// The member `b` of the member `a`.
pub fn read_nested<'a>(obj: &'a Json, a: &str, b: &str) -> (r: Option<&'a Json>)
    ensures
        match r {
            Some(v) => nested(*obj, a@, b@) == Some(*v),
            None => nested(*obj, a@, b@) is None,
        },
{
    match obj.get(a) {
        Some(inner) => inner.get(b),
        None => None,
    }
}

/// Reads a sample out of a JSON document of the container runtime.
pub fn read_sample(json: &Json) -> (r: Option<Stats>)
    ensures
        match r {
            Some(s) => sample_of(*json) == Some(s@),
            None => sample_of(*json) is None,
        },
{
    let cpu = match json.get("cpu_stats") {
        Some(v) => v,
        None => {
            return None;
        },
    };
    let precpu = match json.get("precpu_stats") {
        Some(v) => v,
        None => {
            return None;
        },
    };
    let memory = match json.get("memory_stats") {
        Some(v) => v,
        None => {
            return None;
        },
    };
    let usage = match read_nested(json, "cpu_stats", "cpu_usage") {
        Some(v) => v,
        None => {
            return None;
        },
    };
    let pre_usage = match read_nested(json, "precpu_stats", "cpu_usage") {
        Some(v) => v,
        None => {
            return None;
        },
    };
    let detail = match read_nested(json, "memory_stats", "stats") {
        Some(v) => v,
        None => {
            return None;
        },
    };
    let cpu_total_usage = match read_count(usage, "total_usage") {
        Some(v) => v,
        None => {
            return None;
        },
    };
    let percpu_usage = match read_optional_counts(usage, "percpu_usage") {
        Some(v) => v,
        None => {
            return None;
        },
    };
    let system_cpu_usage = match read_optional_count(cpu, "system_cpu_usage") {
        Some(v) => v,
        None => {
            return None;
        },
    };
    let precpu_total_usage = match read_count(pre_usage, "total_usage") {
        Some(v) => v,
        None => {
            return None;
        },
    };
    let precpu_system_cpu_usage = match read_optional_count(precpu, "system_cpu_usage") {
        Some(v) => v,
        None => {
            return None;
        },
    };
    let memory_usage = match read_count(memory, "usage") {
        Some(v) => v,
        None => {
            return None;
        },
    };
    let memory_limit = match read_count(memory, "limit") {
        Some(v) => v,
        None => {
            return None;
        },
    };
    let memory_cache = match read_optional_count(detail, "cache") {
        Some(v) => v,
        None => {
            return None;
        },
    };
    let networks = match read_optional_interfaces(json) {
        Some(v) => v,
        None => {
            return None;
        },
    };
    let io_service_bytes = match read_optional_blkio(json) {
        Some(v) => v,
        None => {
            return None;
        },
    };
    Some(
        Stats {
            cpu_total_usage,
            percpu_usage,
            system_cpu_usage,
            precpu_total_usage,
            precpu_system_cpu_usage,
            memory_usage,
            memory_limit,
            memory_cache,
            networks,
            io_service_bytes,
        },
    )
}

} // verus!
