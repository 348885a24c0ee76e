//! Resolution of device identifiers to paths, and the short address.
//!
//! An identifier is accepted in three forms, tried in order: a path that
//! already names an existing directory, a short-form address under the
//! devices root, and an address without its domain prefix.  Whether the
//! first two candidates name existing directories is a fact about the
//! platform, so the caller passes it in; the last candidate is accepted
//! unconditionally and later reads fail softly if it does not exist.

use vstd::prelude::*;
use vstd::string::StrSliceExecFns;
use vstd::string::StringExecFns;

verus! {

/// The directory under which the platform exposes one directory per
/// device.
pub open spec fn spec_devices_root() -> Seq<char> {
    "/sys/bus/pci/devices/"@
}

/// The directory under which the platform exposes one directory per
/// device.
pub fn devices_root() -> (r: &'static str)
    ensures
        r@ == spec_devices_root(),
{
    "/sys/bus/pci/devices/"
}

/// The domain prefix that short-form addresses omit.
pub open spec fn spec_domain_prefix() -> Seq<char> {
    "0000:"@
}

/// The domain prefix that short-form addresses omit.
pub fn domain_prefix() -> (r: &'static str)
    ensures
        r@ == spec_domain_prefix(),
{
    "0000:"
}

/// The resolved path of an identifier: the identifier itself where it
/// already names a directory, else the identifier under the devices root
/// where that names a directory, else the identifier with the domain
/// prefix under the devices root.
pub open spec fn spec_resolve(id: Seq<char>, literal_is_dir: bool, rooted_is_dir: bool) -> Seq<
    char,
> {
    if literal_is_dir {
        id
    } else if rooted_is_dir {
        spec_devices_root() + id
    } else {
        spec_devices_root() + spec_domain_prefix() + id
    }
}

/// Resolves an identifier to the path of its device directory, trying the
/// three accepted forms in order.  `literal_is_dir` says whether the
/// identifier itself names an existing directory, and `rooted_is_dir`
/// whether the identifier under the devices root does.
pub fn resolve_identifier(id: &str, literal_is_dir: bool, rooted_is_dir: bool) -> (r: String)
    ensures
        r@ == spec_resolve(id@, literal_is_dir, rooted_is_dir),
{
    if literal_is_dir {
        id.to_owned()
    } else if rooted_is_dir {
        devices_root().to_owned().concat(id)
    } else {
        devices_root().to_owned().concat(domain_prefix()).concat(id)
    }
}

/// Whether the domain prefix occurs in `s` at position `i`.
pub open spec fn domain_at(s: Seq<char>, i: int) -> bool {
    0 <= i && i + 5 <= s.len() && s.subrange(i, i + 5) == spec_domain_prefix()
}

/// Whether the domain prefix occurs anywhere in `s`.
pub open spec fn has_domain(s: Seq<char>) -> bool {
    exists|i: int| domain_at(s, i)
}

/// The content with every occurrence of the domain prefix removed,
/// scanning left to right and never rescanning what a removal joins.
pub open spec fn spec_remove_domain(s: Seq<char>) -> Seq<char>
    decreases s.len(),
{
    if s.len() >= 5 && s.subrange(0, 5) == spec_domain_prefix() {
        spec_remove_domain(s.skip(5))
    } else if s.len() == 0 {
        s
    } else {
        seq![s[0]] + spec_remove_domain(s.skip(1))
    }
}

/// Removes every occurrence of the domain prefix.
pub fn remove_domain(s: &str) -> (r: String)
    ensures
        r@ == spec_remove_domain(s@),
{
    let n = s.unicode_len();
    let mut out = String::new();
    let mut i: usize = 0;
    proof {
        assert(s@.skip(0) =~= s@);
        assert(out@ + spec_remove_domain(s@) =~= spec_remove_domain(s@));
    }
    while i < n
        invariant
            i <= n,
            n == s@.len(),
            spec_remove_domain(s@) == out@ + spec_remove_domain(s@.skip(i as int)),
        decreases n - i,
    {
        proof {
            reveal_strlit("0000:");
        }
        if n - i >= 5 && s.get_char(i) == '0' && s.get_char(i + 1) == '0' && s.get_char(i + 2)
            == '0' && s.get_char(i + 3) == '0' && s.get_char(i + 4) == ':' {
            proof {
                let rest = s@.skip(i as int);
                assert(rest.subrange(0, 5) =~= spec_domain_prefix());
                assert(rest.skip(5) =~= s@.skip(i + 5));
            }
            i = i + 5;
        } else {
            let c = s.substring_char(i, i + 1);
            out.append(c);
            proof {
                let rest = s@.skip(i as int);
                assert(!(rest.len() >= 5 && rest.subrange(0, 5) == spec_domain_prefix())) by {
                    if rest.len() >= 5 && rest.subrange(0, 5) == spec_domain_prefix() {
                        assert(rest.subrange(0, 5)[0] == '0');
                        assert(rest.subrange(0, 5)[1] == '0');
                        assert(rest.subrange(0, 5)[2] == '0');
                        assert(rest.subrange(0, 5)[3] == '0');
                        assert(rest.subrange(0, 5)[4] == ':');
                    }
                }
                assert(seq![rest[0]] =~= s@.subrange(i as int, i + 1));
                assert(rest.skip(1) =~= s@.skip(i + 1));
                assert(out@ + spec_remove_domain(s@.skip(i + 1)) =~= spec_remove_domain(s@));
            }
            i = i + 1;
        }
    }
    proof {
        assert(s@.skip(n as int) =~= Seq::<char>::empty());
        assert(out@ + spec_remove_domain(s@.skip(n as int)) =~= out@);
    }
    out
}

/// The part of a path after its last separator: the whole path where no
/// separator occurs, the empty sequence where the path ends with one.
pub open spec fn spec_basename(s: Seq<char>) -> Seq<char>
    decreases s.len(),
{
    if s.len() == 0 {
        s
    } else if s[s.len() - 1] == '/' {
        Seq::<char>::empty()
    } else {
        spec_basename(s.take(s.len() - 1)) + seq![s[s.len() - 1]]
    }
}

/// The part after the last separator is the suffix that follows the last
/// separator position.
proof fn lemma_basename_suffix(s: Seq<char>, k: int)
    requires
        0 <= k <= s.len(),
        forall|j: int| k <= j < s.len() ==> s[j] != '/',
        k == 0 || s[k - 1] == '/',
    ensures
        spec_basename(s) == s.subrange(k, s.len() as int),
    decreases s.len(),
{
    if s.len() == 0 {
        assert(s.subrange(0, 0) =~= s);
    } else if k == s.len() {
        assert(s[s.len() - 1] == '/');
        assert(s.subrange(k, s.len() as int) =~= Seq::<char>::empty());
    } else {
        assert(s[s.len() - 1] != '/');
        let pre = s.take(s.len() - 1);
        lemma_basename_suffix(pre, k);
        assert(pre.subrange(k, pre.len() as int) + seq![s[s.len() - 1]] =~= s.subrange(
            k,
            s.len() as int,
        ));
    }
}

/// The part of a path after its last separator.
pub fn basename(s: &str) -> (r: String)
    ensures
        r@ == spec_basename(s@),
{
    let n = s.unicode_len();
    let mut k: usize = n;
    while k > 0 && s.get_char(k - 1) != '/'
        invariant
            k <= n,
            n == s@.len(),
            forall|j: int| k <= j < s@.len() ==> s@[j] != '/',
        decreases k,
    {
        k = k - 1;
    }
    let r = s.substring_char(k, n).to_owned();
    proof {
        lemma_basename_suffix(s@, k as int);
    }
    r
}

/// The short address of a device path: the part after the last separator,
/// with every occurrence of the domain prefix removed first.
pub open spec fn spec_address(path: Seq<char>) -> Seq<char> {
    spec_basename(spec_remove_domain(path))
}

/// Derives the short address of a device path.
pub fn derive_address(path: &str) -> (r: String)
    ensures
        r@ == spec_address(path@),
{
    let stripped = remove_domain(path);
    basename(stripped.as_str())
}

/// All three accepted forms of one identifier resolve to the same path.
/// For a short address: the full path resolves as a literal directory to
/// itself; the address with its domain prefix resolves under the devices
/// root; and the bare address gains both the root and the prefix.
pub proof fn lemma_resolve_forms_agree(short: Seq<char>, any_rooted: bool)
    ensures
        spec_resolve(spec_devices_root() + spec_domain_prefix() + short, true, any_rooted)
            == spec_resolve(spec_domain_prefix() + short, false, true),
        spec_resolve(spec_domain_prefix() + short, false, true) == spec_resolve(
            short,
            false,
            false,
        ),
{
    assert(spec_devices_root() + (spec_domain_prefix() + short) =~= spec_devices_root()
        + spec_domain_prefix() + short);
}

/// Removal passes a prefix through untouched when no character of the
/// prefix opens the domain prefix.
proof fn lemma_remove_domain_prefix(p: Seq<char>, rest: Seq<char>)
    requires
        forall|i: int| 0 <= i < p.len() ==> p[i] != '0',
    ensures
        spec_remove_domain(p + rest) == p + spec_remove_domain(rest),
    decreases p.len(),
{
    reveal_strlit("0000:");
    if p.len() == 0 {
        assert(p + rest =~= rest);
        assert(p + spec_remove_domain(rest) =~= spec_remove_domain(rest));
    } else {
        let s = p + rest;
        assert(!(s.len() >= 5 && s.subrange(0, 5) == spec_domain_prefix())) by {
            if s.len() >= 5 && s.subrange(0, 5) == spec_domain_prefix() {
                assert(s.subrange(0, 5)[0] == '0');
                assert(s[0] == p[0]);
            }
        }
        assert(s.skip(1) =~= p.skip(1) + rest);
        lemma_remove_domain_prefix(p.skip(1), rest);
        assert(seq![s[0]] + (p.skip(1) + spec_remove_domain(rest)) =~= p + spec_remove_domain(
            rest,
        ));
    }
}

/// Removal leaves untouched a content in which the domain prefix never
/// occurs.
proof fn lemma_remove_domain_absent(s: Seq<char>)
    requires
        !has_domain(s),
    ensures
        spec_remove_domain(s) == s,
    decreases s.len(),
{
    if s.len() == 0 {
    } else {
        assert(!domain_at(s, 0));
        assert forall|i: int| !domain_at(s.skip(1), i) by {
            if domain_at(s.skip(1), i) {
                assert(s.subrange(i + 1, i + 6) =~= s.skip(1).subrange(i, i + 5));
                assert(domain_at(s, i + 1));
            }
        }
        lemma_remove_domain_absent(s.skip(1));
        assert(seq![s[0]] + s.skip(1) =~= s);
    }
}

/// The address derived from a resolved short identifier never contains
/// the domain prefix: for an identifier free of the separator and of the
/// domain prefix, the derived address is the identifier itself.
pub proof fn lemma_address_no_domain(short: Seq<char>)
    requires
        forall|j: int| 0 <= j < short.len() ==> short[j] != '/',
        !has_domain(short),
    ensures
        spec_address(spec_resolve(short, false, false)) == short,
        !has_domain(spec_address(spec_resolve(short, false, false))),
{
    reveal_strlit("/sys/bus/pci/devices/");
    reveal_strlit("0000:");
    let root = spec_devices_root();
    let dom = spec_domain_prefix();
    let path = spec_resolve(short, false, false);
    assert(path =~= root + (dom + short));
    assert(forall|i: int| 0 <= i < root.len() ==> root[i] != '0');
    lemma_remove_domain_prefix(root, dom + short);
    assert((dom + short).subrange(0, 5) =~= dom);
    assert((dom + short).skip(5) =~= short);
    lemma_remove_domain_absent(short);
    assert(spec_remove_domain(path) == root + short);
    assert((root + short)[root.len() - 1] == '/');
    lemma_basename_suffix(root + short, root.len() as int);
    assert((root + short).subrange(root.len() as int, (root + short).len() as int) =~= short);
}

} // verus!
