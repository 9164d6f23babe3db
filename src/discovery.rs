//! Listing the peripherals and companion devices an operator can configure.

use vstd::prelude::*;

verus! {

/// A Thunderbolt peripheral found in the system's hardware report.
pub struct ThunderboltDevice {
    pub name: String,
    pub uid: String,
    pub vendor: String,
}

/// An iPad reachable for Sidecar display extension.
pub struct SidecarDevice {
    pub name: String,
}

/// One device entry of the hardware report, as the text values of the keys
/// the listing reads (`None` where the key is missing or not text). Entries
/// come in report order, each before the entries nested in it.
pub struct SwitchRecord {
    /// The vendor name.
    pub vendor: Option<String>,
    /// The device name, or failing that the entry's own name.
    pub name: Option<String>,
    /// The switch UID.
    pub switch_uid: Option<String>,
}

/// Text of an optional value, with a default for a missing one.
pub open spec fn text_or(v: Option<String>, default: Seq<char>) -> Seq<char> {
    match v {
        Some(s) => s@,
        None => default,
    }
}

/// Entries of Apple's own hardware are not listed.
pub open spec fn is_apple(r: SwitchRecord) -> bool {
    text_or(r.vendor, Seq::empty()) == "Apple Inc."@
}

/// The listing of one entry: name, UID and vendor, with placeholders for
/// missing values.
pub open spec fn listing_of(r: SwitchRecord) -> (Seq<char>, Seq<char>, Seq<char>) {
    (text_or(r.name, "Unknown"@), text_or(r.switch_uid, "N/A"@), text_or(r.vendor, Seq::empty()))
}

/// The listings of the entries that are not Apple's, in report order.
pub open spec fn listings(records: Seq<SwitchRecord>) -> Seq<(Seq<char>, Seq<char>, Seq<char>)>
    decreases records.len(),
{
    if records.len() == 0 {
        Seq::empty()
    } else if is_apple(records.last()) {
        listings(records.drop_last())
    } else {
        listings(records.drop_last()).push(listing_of(records.last()))
    }
}

pub open spec fn device_listing(d: ThunderboltDevice) -> (Seq<char>, Seq<char>, Seq<char>) {
    (d.name@, d.uid@, d.vendor@)
}

/// The listings of the given devices.
pub open spec fn device_listings(v: Seq<ThunderboltDevice>) -> Seq<(Seq<char>, Seq<char>, Seq<char>)> {
    v.map_values(|d: ThunderboltDevice| device_listing(d))
}

fn text_or_default(v: &Option<String>, default: &str) -> (r: String)
    ensures
        r@ == text_or(*v, default@),
{
    match v {
        Some(s) => s.clone(),
        None => String::from_str(default),
    }
}

/// The Thunderbolt devices to show: every entry of the report that is not
/// Apple's, in report order.
pub fn extract_devices(records: &Vec<SwitchRecord>) -> (r: Vec<ThunderboltDevice>)
    ensures
        device_listings(r@) == listings(records@),
{
    let apple = String::from_str("Apple Inc.");
    let mut out: Vec<ThunderboltDevice> = Vec::new();
    let mut i: usize = 0;
    while i < records.len()
        invariant
            i <= records@.len(),
            apple@ == "Apple Inc."@,
            device_listings(out@) == listings(
                records@.subrange(0, i as int),
            ),
        decreases records@.len() - i,
    {
        let rec = &records[i];
        let ghost prefix = records@.subrange(0, i + 1);
        assert(prefix.drop_last() == records@.subrange(0, i as int));
        assert(prefix.last() == *rec);
        let vendor = text_or_default(&rec.vendor, "");
        proof {
            reveal_strlit("");
        }
        assert(""@ =~= Seq::<char>::empty());
        assert((vendor@ == apple@) == is_apple(*rec));
        if !(vendor == apple) {
            let name = text_or_default(&rec.name, "Unknown");
            let uid = text_or_default(&rec.switch_uid, "N/A");
            let ghost before = out@;
            out.push(ThunderboltDevice { name, uid, vendor });
            assert(device_listings(out@) =~= device_listings(before).push(listing_of(*rec)));
        }
        i = i + 1;
    }
    assert(records@.subrange(0, records@.len() as int) == records@);
    out
}

/// The companion devices to show, by name.
pub fn sidecar_devices(names: &Vec<String>) -> (r: Vec<SidecarDevice>)
    ensures
        r@.len() == names@.len(),
        forall|i: int| 0 <= i < names@.len() ==> (#[trigger] r@[i]).name@ == names@[i]@,
{
    let mut out: Vec<SidecarDevice> = Vec::new();
    let mut i: usize = 0;
    while i < names.len()
        invariant
            i <= names@.len(),
            out@.len() == i,
            forall|k: int| 0 <= k < i ==> (#[trigger] out@[k]).name@ == names@[k]@,
        decreases names@.len() - i,
    {
        out.push(SidecarDevice { name: names[i].clone() });
        i = i + 1;
    }
    out
}

} // verus!
