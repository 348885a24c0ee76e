//! Lookups in the static PCI identifier database.
//!
//! The database is a compiled-in lookup table of the `pci_ids` crate.  Every
//! lookup is a pure function of its arguments, so each result is given a
//! name (an uninterpreted spec function), the trusted wrappers state that
//! the calls return those named values, and the verified scan functions
//! below work against the names alone.

use vstd::prelude::*;

verus! {

/// The name the identifier database gives a class code, if any.
pub uninterp spec fn class_entry(id: u8) -> Option<Seq<char>>;

/// The subclasses the identifier database declares for a class code, in
/// database order: each entry is a subclass code and its name.  Empty for
/// a class code the database does not know.
pub uninterp spec fn subclass_entries(class: u8) -> Seq<(u8, Seq<char>)>;

/// The name the identifier database gives a vendor code, if any.
pub uninterp spec fn vendor_entry(id: u16) -> Option<Seq<char>>;

/// The name the identifier database gives a (vendor, device) code pair,
/// if any.
pub uninterp spec fn device_entry(vid: u16, did: u16) -> Option<Seq<char>>;

/// The subsystems the identifier database declares for a (vendor, device)
/// code pair, in database order: each entry is a subsystem vendor code, a
/// subsystem device code and a name.  Empty for a pair the database does
/// not know.
pub uninterp spec fn subsystem_entries(vid: u16, did: u16) -> Seq<(u16, u16, Seq<char>)>;

/// Relies on `pci_ids::Class::from_id` and `pci_ids::Class::name`: the
/// class table is a static map from class code to name, so the result
/// depends on the code alone.
#[verifier::external_body]
pub fn class_name_of(id: u8) -> (r: Option<String>)
    ensures
        match r {
            Some(name) => class_entry(id) == Some(name@),
            None => class_entry(id) is None,
        },
{
    <pci_ids::Class as pci_ids::FromId<u8>>::from_id(id).map(|c| c.name().to_string())
}

/// Relies on `pci_ids::Class::from_id`, `pci_ids::Class::subclasses`,
/// `pci_ids::Subclass::id` and `pci_ids::Subclass::name`: the subclass
/// lists are static per class code.  A class code the database does not
/// know has no subclasses.
#[verifier::external_body]
pub fn subclasses_of(class: u8) -> (r: Vec<(u8, String)>)
    ensures
        r@.len() == subclass_entries(class).len(),
        forall|i: int|
            0 <= i < r@.len() ==> r@[i].0 == subclass_entries(class)[i].0 && r@[i].1@
                == subclass_entries(class)[i].1,
{
    match <pci_ids::Class as pci_ids::FromId<u8>>::from_id(class) {
        Some(c) => c.subclasses().map(|s| (s.id(), s.name().to_string())).collect(),
        None => Vec::new(),
    }
}

/// Relies on `pci_ids::Vendor::from_id` and `pci_ids::Vendor::name`: the
/// vendor table is a static map from vendor code to name.
#[verifier::external_body]
pub fn vendor_name_of(id: u16) -> (r: Option<String>)
    ensures
        match r {
            Some(name) => vendor_entry(id) == Some(name@),
            None => vendor_entry(id) is None,
        },
{
    <pci_ids::Vendor as pci_ids::FromId<u16>>::from_id(id).map(|v| v.name().to_string())
}

/// Relies on `pci_ids::Device::from_vid_pid` and `pci_ids::Device::name`:
/// the device table is a static map from (vendor, device) code pair to
/// name.
#[verifier::external_body]
pub fn device_name_of(vid: u16, did: u16) -> (r: Option<String>)
    ensures
        match r {
            Some(name) => device_entry(vid, did) == Some(name@),
            None => device_entry(vid, did) is None,
        },
{
    pci_ids::Device::from_vid_pid(vid, did).map(|d| d.name().to_string())
}

/// Relies on `pci_ids::Device::from_vid_pid`, `pci_ids::Device::subsystems`,
/// `pci_ids::SubSystem::subvendor`, `pci_ids::SubSystem::subdevice` and
/// `pci_ids::SubSystem::name`: the subsystem lists are static per (vendor,
/// device) code pair.  A pair the database does not know has no subsystems.
#[verifier::external_body]
pub fn subsystems_of(vid: u16, did: u16) -> (r: Vec<(u16, u16, String)>)
    ensures
        r@.len() == subsystem_entries(vid, did).len(),
        forall|i: int|
            0 <= i < r@.len() ==> r@[i].0 == subsystem_entries(vid, did)[i].0 && r@[i].1
                == subsystem_entries(vid, did)[i].1 && r@[i].2@ == subsystem_entries(vid, did)[i].2,
{
    match pci_ids::Device::from_vid_pid(vid, did) {
        Some(d) => d.subsystems().map(|s| (s.subvendor(), s.subdevice(), s.name().to_string())).collect(),
        None => Vec::new(),
    }
}

/// The name of the first subclass entry whose code equals `sid`, if any
/// entry matches.
pub open spec fn spec_first_subclass(entries: Seq<(u8, Seq<char>)>, sid: u8) -> Option<Seq<char>>
    decreases entries.len(),
{
    if entries.len() == 0 {
        None
    } else if entries[0].0 == sid {
        Some(entries[0].1)
    } else {
        spec_first_subclass(entries.drop_first(), sid)
    }
}

/// The name of the first subsystem entry whose (subvendor, subdevice)
/// codes equal `(sv, sd)`, if any entry matches.
pub open spec fn spec_first_subsystem(entries: Seq<(u16, u16, Seq<char>)>, sv: u16, sd: u16) -> Option<
    Seq<char>,
>
    decreases entries.len(),
{
    if entries.len() == 0 {
        None
    } else if entries[0].0 == sv && entries[0].1 == sd {
        Some(entries[0].2)
    } else {
        spec_first_subsystem(entries.drop_first(), sv, sd)
    }
}

/// The name of the subclass `sid` of class `class`: the first matching
/// entry of the database's subclass list, if any.
pub fn subclass_name_of(class: u8, sid: u8) -> (r: Option<String>)
    ensures
        match r {
            Some(name) => spec_first_subclass(subclass_entries(class), sid) == Some(name@),
            None => spec_first_subclass(subclass_entries(class), sid) is None,
        },
{
    let entries = subclasses_of(class);
    let n = entries.len();
    let mut i: usize = 0;
    proof {
        assert(subclass_entries(class).skip(0) =~= subclass_entries(class));
    }
    while i < n
        invariant
            n == entries.len(),
            i <= n,
            entries@.len() == subclass_entries(class).len(),
            forall|j: int|
                0 <= j < entries@.len() ==> entries@[j].0 == subclass_entries(class)[j].0
                    && entries@[j].1@ == subclass_entries(class)[j].1,
            spec_first_subclass(subclass_entries(class), sid) == spec_first_subclass(
                subclass_entries(class).skip(i as int),
                sid,
            ),
        decreases n - i,
    {
        proof {
            assert(subclass_entries(class).skip(i as int)[0] == subclass_entries(class)[i as int]);
        }
        if entries[i].0 == sid {
            return Some(entries[i].1.clone());
        }
        proof {
            assert(subclass_entries(class).skip(i as int).drop_first() =~= subclass_entries(
                class,
            ).skip(i + 1));
        }
        i = i + 1;
    }
    proof {
        assert(subclass_entries(class).skip(n as int) =~= Seq::<(u8, Seq<char>)>::empty());
    }
    None
}

/// The name of the subsystem `(sv, sd)` of device `(vid, did)`: the first
/// matching entry of the database's subsystem list, if any.
pub fn subsystem_name_of(vid: u16, did: u16, sv: u16, sd: u16) -> (r: Option<String>)
    ensures
        match r {
            Some(name) => spec_first_subsystem(subsystem_entries(vid, did), sv, sd) == Some(name@),
            None => spec_first_subsystem(subsystem_entries(vid, did), sv, sd) is None,
        },
{
    let entries = subsystems_of(vid, did);
    let n = entries.len();
    let mut i: usize = 0;
    proof {
        assert(subsystem_entries(vid, did).skip(0) =~= subsystem_entries(vid, did));
    }
    while i < n
        invariant
            n == entries.len(),
            i <= n,
            entries@.len() == subsystem_entries(vid, did).len(),
            forall|j: int|
                0 <= j < entries@.len() ==> entries@[j].0 == subsystem_entries(vid, did)[j].0
                    && entries@[j].1 == subsystem_entries(vid, did)[j].1 && entries@[j].2@
                    == subsystem_entries(vid, did)[j].2,
            spec_first_subsystem(subsystem_entries(vid, did), sv, sd) == spec_first_subsystem(
                subsystem_entries(vid, did).skip(i as int),
                sv,
                sd,
            ),
        decreases n - i,
    {
        proof {
            assert(subsystem_entries(vid, did).skip(i as int)[0] == subsystem_entries(vid, did)[i as int]);
        }
        if entries[i].0 == sv && entries[i].1 == sd {
            return Some(entries[i].2.clone());
        }
        proof {
            assert(subsystem_entries(vid, did).skip(i as int).drop_first() =~= subsystem_entries(
                vid,
                did,
            ).skip(i + 1));
        }
        i = i + 1;
    }
    proof {
        assert(subsystem_entries(vid, did).skip(n as int) =~= Seq::<(u16, u16, Seq<char>)>::empty());
    }
    None
}

} // verus!
