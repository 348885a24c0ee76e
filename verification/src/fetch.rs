//! Capped collection fetchers over enumerated device directories.
//!
//! The platform's directory enumeration happens outside the library: the
//! caller hands in the listed entries, each with the contents of its
//! attribute files.  The fetchers apply the visit cap — a limit on the
//! number of entries inspected, counted before any filtering — and build
//! full records, class-filtered records, or display strings.

use vstd::prelude::*;
use vstd::string::StrSliceExecFns;
use vstd::string::StringExecFns;

use crate::codec;
use crate::device_class::DeviceClass;
use crate::ids;
use crate::record;
use crate::record::DeviceFiles;
use crate::record::DeviceRecordView;
use crate::record::LinuxPCIDevice;

verus! {

/// One enumerated device directory: its identifier as the platform lists
/// it (normally the directory's full path) and the contents of its
/// attribute files.
#[derive(Debug, Clone)]
pub struct EnumeratedDevice {
    /// The identifier the enumeration yielded for this device.
    pub identifier: String,
    /// The contents of the device's attribute files.
    pub files: DeviceFiles,
}

/// How many entries a fetch visits: every entry without a cap, at most
/// the cap with one.
pub open spec fn spec_visit_count(len: nat, cap: Option<u8>) -> int {
    match cap {
        None => len as int,
        Some(m) => if m as int <= len as int {
            m as int
        } else {
            len as int
        },
    }
}

/// The records a full fetch yields: one full record per visited entry.
pub open spec fn spec_fetch(entries: Seq<EnumeratedDevice>, cap: Option<u8>) -> Seq<
    DeviceRecordView,
> {
    Seq::new(
        spec_visit_count(entries.len(), cap) as nat,
        |k: int| record::spec_full_record(entries[k].identifier@, entries[k].files),
    )
}

/// The records a class-filtered fetch yields over a sequence of entries:
/// for each entry, the reserved record is built, its class name compared
/// to the target, and matches are upgraded to full records.
pub open spec fn spec_matching_records(entries: Seq<EnumeratedDevice>, target: Seq<char>) -> Seq<
    DeviceRecordView,
>
    decreases entries.len(),
{
    if entries.len() == 0 {
        Seq::<DeviceRecordView>::empty()
    } else {
        let e = entries.last();
        let reserved = record::spec_reserved_record(e.identifier@, e.files);
        let tail = if reserved.class_name == target {
            seq![record::spec_upgraded(reserved, e.files)]
        } else {
            Seq::<DeviceRecordView>::empty()
        };
        spec_matching_records(entries.drop_last(), target) + tail
    }
}

/// The records a class-filtered fetch yields: the matching records among
/// the visited entries, against the class's display name.  A class the
/// database does not name matches nothing.
pub open spec fn spec_fetch_by_class(
    class: DeviceClass,
    entries: Seq<EnumeratedDevice>,
    cap: Option<u8>,
) -> Seq<DeviceRecordView> {
    match ids::class_entry(class.spec_id()) {
        None => Seq::<DeviceRecordView>::empty(),
        Some(target) => spec_matching_records(
            entries.take(spec_visit_count(entries.len(), cap)),
            target,
        ),
    }
}

/// The first index of `c` in `s`, if `c` occurs.
pub open spec fn spec_first_index(s: Seq<char>, c: char) -> Option<int>
    decreases s.len(),
{
    if s.len() == 0 {
        None
    } else if s[0] == c {
        Some(0)
    } else {
        match spec_first_index(s.skip(1), c) {
            Some(i) => Some(i + 1),
            None => None,
        }
    }
}

/// The last index of `c` in `s`, if `c` occurs.
pub open spec fn spec_last_index(s: Seq<char>, c: char) -> Option<int>
    decreases s.len(),
{
    if s.len() == 0 {
        None
    } else if s[s.len() - 1] == c {
        Some(s.len() - 1)
    } else {
        spec_last_index(s.drop_last(), c)
    }
}

/// What the first index is: the position of an occurrence before which
/// none occurs, or nothing where none occurs at all.
proof fn lemma_first_index_chr(s: Seq<char>, c: char)
    ensures
        match spec_first_index(s, c) {
            Some(i) => 0 <= i < s.len() && s[i] == c && (forall|j: int| 0 <= j < i ==> s[j] != c),
            None => forall|j: int| 0 <= j < s.len() ==> s[j] != c,
        },
    decreases s.len(),
{
    if s.len() == 0 {
    } else if s[0] == c {
    } else {
        lemma_first_index_chr(s.skip(1), c);
        match spec_first_index(s.skip(1), c) {
            Some(i) => {
                assert(s[i + 1] == s.skip(1)[i]);
                assert forall|j: int| 0 <= j < i + 1 implies s[j] != c by {
                    if j >= 1 {
                        assert(s[j] == s.skip(1)[j - 1]);
                    }
                }
            },
            None => {
                assert forall|j: int| 0 <= j < s.len() implies s[j] != c by {
                    if j >= 1 {
                        assert(s[j] == s.skip(1)[j - 1]);
                    }
                }
            },
        }
    }
}

/// What the last index is: the position of an occurrence after which
/// none occurs, or nothing where none occurs at all.
proof fn lemma_last_index_chr(s: Seq<char>, c: char)
    ensures
        match spec_last_index(s, c) {
            Some(i) => 0 <= i < s.len() && s[i] == c && (forall|j: int|
                i < j < s.len() ==> s[j] != c),
            None => forall|j: int| 0 <= j < s.len() ==> s[j] != c,
        },
    decreases s.len(),
{
    if s.len() == 0 {
    } else if s[s.len() - 1] == c {
    } else {
        lemma_last_index_chr(s.drop_last(), c);
        assert(forall|j: int| 0 <= j < s.len() - 1 ==> s.drop_last()[j] == s[j]);
    }
}

/// Finds the first occurrence of `c`.
fn find_char(s: &str, c: char) -> (r: Option<usize>)
    ensures
        match r {
            Some(i) => spec_first_index(s@, c) == Some(i as int),
            None => spec_first_index(s@, c) is None,
        },
{
    let n = s.unicode_len();
    let mut i: usize = 0;
    while i < n
        invariant
            i <= n,
            n == s@.len(),
            forall|j: int| 0 <= j < i ==> s@[j] != c,
        decreases n - i,
    {
        if s.get_char(i) == c {
            proof {
                lemma_first_index_chr(s@, c);
            }
            return Some(i);
        }
        i = i + 1;
    }
    proof {
        lemma_first_index_chr(s@, c);
    }
    None
}

/// Finds the last occurrence of `c`.
fn rfind_char(s: &str, c: char) -> (r: Option<usize>)
    ensures
        match r {
            Some(i) => spec_last_index(s@, c) == Some(i as int),
            None => spec_last_index(s@, c) is None,
        },
{
    let n = s.unicode_len();
    let mut k: usize = n;
    while k > 0
        invariant
            k <= n,
            n == s@.len(),
            forall|j: int| k <= j < s@.len() ==> s@[j] != c,
        decreases k,
    {
        if s.get_char(k - 1) == c {
            proof {
                lemma_last_index_chr(s@, c);
            }
            return Some(k - 1);
        }
        k = k - 1;
    }
    proof {
        lemma_last_index_chr(s@, c);
    }
    None
}

/// The marketing name inside a device name: the part between the first
/// `'['` and the last `']'`, where both occur in that order; otherwise
/// the name unchanged.
pub open spec fn spec_marketing_name(s: Seq<char>) -> Seq<char> {
    match (spec_first_index(s, '['), spec_last_index(s, ']')) {
        (Some(i), Some(j)) => if i + 1 <= j {
            s.subrange(i + 1, j)
        } else {
            s
        },
        _ => s,
    }
}

/// Extracts the marketing name from a device name: the part between the
/// first `'['` and the last `']'`; a name without such a bracket pair is
/// returned unchanged.
pub fn marketing_name(s: &str) -> (r: String)
    ensures
        r@ == spec_marketing_name(s@),
{
    let found_open = find_char(s, '[');
    let found_close = rfind_char(s, ']');
    match (found_open, found_close) {
        (Some(i), Some(j)) => {
            proof {
                lemma_first_index_chr(s@, '[');
                lemma_last_index_chr(s@, ']');
            }
            if i < j {
                s.substring_char(i + 1, j).to_owned()
            } else {
                s.to_owned()
            }
        },
        _ => s.to_owned(),
    }
}

/// The vendor name without its trailing `" Corporation"` suffix, where
/// it carries one.
pub open spec fn spec_strip_corporation(s: Seq<char>) -> Seq<char> {
    if s.len() >= 12 && s.subrange(s.len() - 12, s.len() as int) == " Corporation"@ {
        s.subrange(0, s.len() - 12)
    } else {
        s
    }
}

/// Strips a trailing `" Corporation"` suffix from a vendor name, where
/// it carries one.
pub fn strip_corporation(s: &str) -> (r: String)
    ensures
        r@ == spec_strip_corporation(s@),
{
    let n = s.unicode_len();
    if n >= 12 {
        let suffix = s.substring_char(n - 12, n).to_owned();
        let pattern = " Corporation".to_owned();
        if suffix.eq(&pattern) {
            s.substring_char(0, n - 12).to_owned()
        } else {
            s.to_owned()
        }
    } else {
        s.to_owned()
    }
}

/// The display string of one display device: its vendor name without the
/// `" Corporation"` suffix, a space, and the marketing part of its device
/// name, each resolved from the device's attribute files.
pub open spec fn spec_gpu_label(f: DeviceFiles) -> Seq<char> {
    let vendor_id = codec::spec_hex_attribute(f.vendor, Seq::<u8>::empty());
    let device_id = codec::spec_hex_attribute(f.device, Seq::<u8>::empty());
    let vendor_name = record::spec_vendor_name(vendor_id, Seq::<char>::empty());
    let device_name = record::spec_device_name(vendor_id, device_id, Seq::<char>::empty());
    spec_strip_corporation(vendor_name) + seq![' '] + spec_marketing_name(device_name)
}

/// The display strings a display fetch yields over a sequence of
/// entries: one label per entry whose reserved record bears the target
/// class name and whose enable flag decodes to true.
pub open spec fn spec_gpu_labels(entries: Seq<EnumeratedDevice>, target: Seq<char>) -> Seq<
    Seq<char>,
>
    decreases entries.len(),
{
    if entries.len() == 0 {
        Seq::<Seq<char>>::empty()
    } else {
        let e = entries.last();
        let reserved = record::spec_reserved_record(e.identifier@, e.files);
        let enabled = codec::spec_flag_attribute(e.files.enable, false);
        let tail = if reserved.class_name == target && enabled {
            seq![spec_gpu_label(e.files)]
        } else {
            Seq::<Seq<char>>::empty()
        };
        spec_gpu_labels(entries.drop_last(), target) + tail
    }
}

/// The display strings a display fetch yields: the labels of the
/// enabled display-class devices among the visited entries.
pub open spec fn spec_fetch_gpus(entries: Seq<EnumeratedDevice>, cap: Option<u8>) -> Seq<
    Seq<char>,
> {
    match ids::class_entry(DeviceClass::DisplayController.spec_id()) {
        None => Seq::<Seq<char>>::empty(),
        Some(target) => spec_gpu_labels(entries.take(spec_visit_count(entries.len(), cap)), target),
    }
}

impl LinuxPCIDevice {
    /// Builds one full record per visited entry, in enumeration order,
    /// visiting at most `maximum_devices` entries where a cap is given.
    pub fn fetch(entries: &Vec<EnumeratedDevice>, maximum_devices: Option<u8>) -> (r: Vec<
        LinuxPCIDevice,
    >)
        ensures
            r@.map_values(|d: LinuxPCIDevice| d@) == spec_fetch(entries@, maximum_devices),
    {
        let mut out: Vec<LinuxPCIDevice> = Vec::new();
        let n = entries.len();
        let limit: usize = match maximum_devices {
            None => n,
            Some(m) => {
                let mm = m as usize;
                if mm <= n {
                    mm
                } else {
                    n
                }
            },
        };
        let mut k: usize = 0;
        while k < limit
            invariant
                k <= limit <= n,
                n == entries@.len(),
                limit == spec_visit_count(entries@.len(), maximum_devices),
                out@.len() == k,
                forall|j: int|
                    0 <= j < k ==> out@[j]@ == record::spec_full_record(
                        entries@[j].identifier@,
                        entries@[j].files,
                    ),
            decreases limit - k,
        {
            let d = LinuxPCIDevice::new(entries[k].identifier.as_str(), &entries[k].files);
            out.push(d);
            k = k + 1;
        }
        proof {
            assert(out@.map_values(|d: LinuxPCIDevice| d@) =~= spec_fetch(
                entries@,
                maximum_devices,
            ));
        }
        out
    }

    /// Builds the records of the visited entries whose class name equals
    /// the display name of `class`: each visited entry is built reserved,
    /// compared, and upgraded to a full record only on a match.  The cap
    /// limits the entries visited, not the matches returned.
    pub fn fetch_by_class(
        class: DeviceClass,
        entries: &Vec<EnumeratedDevice>,
        maximum_devices: Option<u8>,
    ) -> (r: Vec<LinuxPCIDevice>)
        ensures
            r@.map_values(|d: LinuxPCIDevice| d@) == spec_fetch_by_class(
                class,
                entries@,
                maximum_devices,
            ),
    {
        let mut out: Vec<LinuxPCIDevice> = Vec::new();
        let target = match ids::class_name_of(class.id()) {
            Some(name) => name,
            None => {
                proof {
                    assert(out@.map_values(|d: LinuxPCIDevice| d@) =~= Seq::<
                        DeviceRecordView,
                    >::empty());
                }
                return out;
            },
        };
        let n = entries.len();
        let limit: usize = match maximum_devices {
            None => n,
            Some(m) => {
                let mm = m as usize;
                if mm <= n {
                    mm
                } else {
                    n
                }
            },
        };
        let mut k: usize = 0;
        proof {
            assert(entries@.take(0) =~= Seq::<EnumeratedDevice>::empty());
        }
        while k < limit
            invariant
                k <= limit <= n,
                n == entries@.len(),
                limit == spec_visit_count(entries@.len(), maximum_devices),
                ids::class_entry(class.spec_id()) == Some(target@),
                out@.map_values(|d: LinuxPCIDevice| d@) == spec_matching_records(
                    entries@.take(k as int),
                    target@,
                ),
            decreases limit - k,
        {
            let mut device = LinuxPCIDevice::reserved_new(
                entries[k].identifier.as_str(),
                &entries[k].files,
            );
            proof {
                assert(entries@.take(k + 1).drop_last() =~= entries@.take(k as int));
                assert(entries@.take(k + 1).last() == entries@[k as int]);
            }
            if device.class_name().eq(&target) {
                device.upgrade_to_full(&entries[k].files);
                out.push(device);
            }
            proof {
                assert(out@.map_values(|d: LinuxPCIDevice| d@) =~= spec_matching_records(
                    entries@.take(k + 1),
                    target@,
                ));
            }
            k = k + 1;
        }
        proof {
            assert(entries@.take(limit as int) =~= entries@.take(
                spec_visit_count(entries@.len(), maximum_devices),
            ));
        }
        out
    }

    /// Builds the display strings of the enabled display-class devices
    /// among the visited entries: vendor name without the
    /// `" Corporation"` suffix, a space, and the bracketed marketing part
    /// of the device name.  Disabled display devices are discarded.
    pub fn fetch_gpus(entries: &Vec<EnumeratedDevice>, maximum_devices: Option<u8>) -> (r: Vec<
        String,
    >)
        ensures
            r@.map_values(|s: String| s@) == spec_fetch_gpus(entries@, maximum_devices),
    {
        let mut out: Vec<String> = Vec::new();
        let target = match ids::class_name_of(DeviceClass::DisplayController.id()) {
            Some(name) => name,
            None => {
                proof {
                    assert(out@.map_values(|s: String| s@) =~= Seq::<Seq<char>>::empty());
                }
                return out;
            },
        };
        let n = entries.len();
        let limit: usize = match maximum_devices {
            None => n,
            Some(m) => {
                let mm = m as usize;
                if mm <= n {
                    mm
                } else {
                    n
                }
            },
        };
        let mut k: usize = 0;
        proof {
            assert(entries@.take(0) =~= Seq::<EnumeratedDevice>::empty());
        }
        while k < limit
            invariant
                k <= limit <= n,
                n == entries@.len(),
                limit == spec_visit_count(entries@.len(), maximum_devices),
                ids::class_entry(DeviceClass::DisplayController.spec_id()) == Some(target@),
                out@.map_values(|s: String| s@) == spec_gpu_labels(
                    entries@.take(k as int),
                    target@,
                ),
            decreases limit - k,
        {
            let mut device = LinuxPCIDevice::reserved_new(
                entries[k].identifier.as_str(),
                &entries[k].files,
            );
            proof {
                assert(entries@.take(k + 1).drop_last() =~= entries@.take(k as int));
                assert(entries@.take(k + 1).last() == entries@[k as int]);
            }
            if device.class_name().eq(&target) {
                device.set_enabled(&entries[k].files);
                if device.enabled() {
                    device.set_vendor_id(&entries[k].files);
                    device.set_device_id(&entries[k].files);
                    device.set_device_name();
                    device.set_vendor_name();
                    let model = marketing_name(device.device_name().as_str());
                    let vendor = strip_corporation(device.vendor_name().as_str());
                    let label = vendor.concat(" ").concat(model.as_str());
                    proof {
                        reveal_strlit(" ");
                        assert(" "@ =~= seq![' ']);
                        assert(label@ =~= spec_gpu_label(entries@[k as int].files));
                    }
                    out.push(label);
                }
            }
            proof {
                assert(out@.map_values(|s: String| s@) =~= spec_gpu_labels(
                    entries@.take(k + 1),
                    target@,
                ));
            }
            k = k + 1;
        }
        proof {
            assert(entries@.take(limit as int) =~= entries@.take(
                spec_visit_count(entries@.len(), maximum_devices),
            ));
        }
        out
    }
}

/// A capped full fetch never looks beyond the cap: with a cap of `n` it
/// yields at most `n` records, and entries past the first `n` never
/// affect the result.
pub proof fn lemma_fetch_cap(entries: Seq<EnumeratedDevice>, n: u8)
    ensures
        spec_fetch(entries, Some(n)).len() <= n,
        spec_fetch(entries, Some(n)) == spec_fetch(
            entries.take(spec_visit_count(entries.len(), Some(n))),
            Some(n),
        ),
{
    let count = spec_visit_count(entries.len(), Some(n));
    assert(spec_fetch(entries, Some(n)) =~= spec_fetch(entries.take(count), Some(n)));
}

/// Every record of a class-filtered run bears the target class name.
proof fn lemma_matching_records_class(entries: Seq<EnumeratedDevice>, target: Seq<char>, k: int)
    requires
        0 <= k < spec_matching_records(entries, target).len(),
    ensures
        spec_matching_records(entries, target)[k].class_name == target,
    decreases entries.len(),
{
    let whole = spec_matching_records(entries, target);
    let prefix = spec_matching_records(entries.drop_last(), target);
    if k < prefix.len() {
        lemma_matching_records_class(entries.drop_last(), target, k);
    } else {
        let e = entries.last();
        let reserved = record::spec_reserved_record(e.identifier@, e.files);
        assert(whole[k] == record::spec_upgraded(reserved, e.files));
    }
}

/// A class-filtered fetch never returns a record whose class name
/// differs from the display name of the requested class.
pub proof fn lemma_fetch_by_class_class_name(
    class: DeviceClass,
    entries: Seq<EnumeratedDevice>,
    cap: Option<u8>,
    k: int,
)
    requires
        0 <= k < spec_fetch_by_class(class, entries, cap).len(),
    ensures
        spec_fetch_by_class(class, entries, cap)[k].class_name == class.spec_display_name(),
{
    match ids::class_entry(class.spec_id()) {
        None => {},
        Some(target) => {
            lemma_matching_records_class(
                entries.take(spec_visit_count(entries.len(), cap)),
                target,
                k,
            );
        },
    }
}

/// Every label of a display run comes from a visited entry whose enable
/// flag decodes to true and whose reserved record bears the target class
/// name.
proof fn lemma_gpu_labels_enabled(entries: Seq<EnumeratedDevice>, target: Seq<char>, k: int)
    requires
        0 <= k < spec_gpu_labels(entries, target).len(),
    ensures
        exists|j: int|
            0 <= j < entries.len() && #[trigger] codec::spec_flag_attribute(
                entries[j].files.enable,
                false,
            ) && record::spec_reserved_record(entries[j].identifier@, entries[j].files).class_name
                == target && spec_gpu_labels(entries, target)[k] == spec_gpu_label(
                entries[j].files,
            ),
    decreases entries.len(),
{
    let whole = spec_gpu_labels(entries, target);
    let prefix = spec_gpu_labels(entries.drop_last(), target);
    if k < prefix.len() {
        lemma_gpu_labels_enabled(entries.drop_last(), target, k);
        let j = choose|j: int|
            0 <= j < entries.drop_last().len() && #[trigger] codec::spec_flag_attribute(
                entries.drop_last()[j].files.enable,
                false,
            ) && record::spec_reserved_record(
                entries.drop_last()[j].identifier@,
                entries.drop_last()[j].files,
            ).class_name == target && spec_gpu_labels(entries.drop_last(), target)[k]
                == spec_gpu_label(entries.drop_last()[j].files);
        assert(entries.drop_last()[j] == entries[j]);
        assert(0 <= j < entries.len() && codec::spec_flag_attribute(
            entries[j].files.enable,
            false,
        ) && record::spec_reserved_record(entries[j].identifier@, entries[j].files).class_name
            == target && spec_gpu_labels(entries, target)[k] == spec_gpu_label(entries[j].files));
    } else {
        let j = entries.len() - 1;
        assert(entries.last() == entries[j]);
        assert(0 <= j < entries.len() && codec::spec_flag_attribute(
            entries[j].files.enable,
            false,
        ) && record::spec_reserved_record(entries[j].identifier@, entries[j].files).class_name
            == target && spec_gpu_labels(entries, target)[k] == spec_gpu_label(entries[j].files));
    }
}

/// A display fetch never returns an entry for a disabled display device:
/// every returned label comes from a visited entry whose enable flag
/// decodes to true (and whose reserved record bears the display class
/// name).
pub proof fn lemma_fetch_gpus_enabled(entries: Seq<EnumeratedDevice>, cap: Option<u8>, k: int)
    requires
        0 <= k < spec_fetch_gpus(entries, cap).len(),
    ensures
        exists|j: int|
            0 <= j < entries.len() && #[trigger] codec::spec_flag_attribute(
                entries[j].files.enable,
                false,
            ) && spec_fetch_gpus(entries, cap)[k] == spec_gpu_label(entries[j].files),
{
    match ids::class_entry(DeviceClass::DisplayController.spec_id()) {
        None => {},
        Some(target) => {
            let visited = entries.take(spec_visit_count(entries.len(), cap));
            lemma_gpu_labels_enabled(visited, target, k);
            let j = choose|j: int|
                0 <= j < visited.len() && #[trigger] codec::spec_flag_attribute(
                    visited[j].files.enable,
                    false,
                ) && record::spec_reserved_record(
                    visited[j].identifier@,
                    visited[j].files,
                ).class_name == target && spec_gpu_labels(visited, target)[k] == spec_gpu_label(
                    visited[j].files,
                );
            assert(visited[j] == entries[j]);
            assert(0 <= j < entries.len() && codec::spec_flag_attribute(
                entries[j].files.enable,
                false,
            ) && spec_fetch_gpus(entries, cap)[k] == spec_gpu_label(entries[j].files));
        },
    }
}

} // verus!
