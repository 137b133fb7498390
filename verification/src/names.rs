//! Structured device names. The host names a device `group:device`: the device
//! group that provides it, a colon, and the device's name within the group.

use vstd::prelude::*;

verus! {

/// `k` is the position of the only `':'` in `s`.
pub open spec fn is_sole_colon(s: Seq<char>, k: int) -> bool {
    &&& 0 <= k < s.len()
    &&& s[k] == ':'
    &&& forall|j: int| 0 <= j < s.len() && j != k ==> s[j] != ':'
}

/// `s` holds no `':'`.
pub open spec fn has_no_colon(s: Seq<char>) -> bool {
    forall|j: int| 0 <= j < s.len() ==> s[j] != ':'
}

/// A name splits into a group and a device exactly when it holds one colon:
/// the group is what precedes it, the device what follows it.
pub open spec fn spec_split_device_name(s: Seq<char>) -> Option<(Seq<char>, Seq<char>)> {
    if exists|k: int| is_sole_colon(s, k) {
        let k = choose|k: int| is_sole_colon(s, k);
        Some((s.take(k), s.skip(k + 1)))
    } else {
        None
    }
}

/// The structured name of `device` within `group`.
pub open spec fn spec_qualified_name(group: Seq<char>, device: Seq<char>) -> Seq<char> {
    group + seq![':'] + device
}

/// Splits a structured device name `group:device` at its colon; `None` unless
/// the name holds exactly one colon.
pub fn split_device_name(name: &str) -> (r: Option<(String, String)>)
    ensures
        match r {
            Some((group, device)) => spec_split_device_name(name@) == Some((group@, device@)),
            None => spec_split_device_name(name@) is None,
        },
{
    let n = name.unicode_len();
    let mut first: Option<usize> = None;
    let mut second_seen = false;
    let mut i: usize = 0;
    while i < n
        invariant
            n == name@.len(),
            i <= n,
            first matches None ==> !second_seen && forall|j: int| 0 <= j < i ==> name@[j] != ':',
            first matches Some(k) ==> {
                &&& k < i
                &&& name@[k as int] == ':'
                &&& forall|j: int| 0 <= j < k ==> name@[j] != ':'
                &&& !second_seen ==> forall|j: int| k < j < i ==> name@[j] != ':'
                &&& second_seen ==> exists|j: int| k < j < i && name@[j] == ':'
            },
        decreases n - i,
    {
        let c = name.get_char(i);
        if c == ':' {
            match first {
                None => {
                    first = Some(i);
                },
                Some(k) => {
                    second_seen = true;
                    assert(k < i as int && name@[i as int] == ':');
                },
            }
        }
        i = i + 1;
    }
    match first {
        None => {
            assert(!exists|k: int| is_sole_colon(name@, k));
            None
        },
        Some(k) => {
            if second_seen {
                assert(!exists|k2: int| is_sole_colon(name@, k2)) by {
                    let j = choose|j: int| k < j < n && name@[j] == ':';
                    assert forall|k2: int| !is_sole_colon(name@, k2) by {
                        if is_sole_colon(name@, k2) {
                            assert(name@[k as int] == ':' && name@[j] == ':');
                        }
                    }
                }
                None
            } else {
                assert(is_sole_colon(name@, k as int));
                assert forall|k2: int| is_sole_colon(name@, k2) implies k2 == k by {}
                let group = name.substring_char(0, k).to_owned();
                let device = name.substring_char(k + 1, n).to_owned();
                assert(group@ =~= name@.take(k as int));
                assert(device@ =~= name@.skip(k + 1));
                Some((group, device))
            }
        },
    }
}

/// The structured name of `device` within `group`: `group:device`.
pub fn qualified_name(group: &str, device: &str) -> (r: String)
    ensures
        r@ == spec_qualified_name(group@, device@),
{
    let mut r = group.to_owned();
    let colon = ":";
    proof {
        reveal_strlit(":");
    }
    r.append(colon);
    r.append(device);
    assert(r@ =~= spec_qualified_name(group@, device@));
    r
}

/// The structured names of the devices of one group, in the group's order.
pub fn qualified_device_names(group: &str, devices: &Vec<String>) -> (r: Vec<String>)
    ensures
        r@.len() == devices@.len(),
        forall|i: int|
            0 <= i < r@.len() ==> #[trigger] r@[i]@ == spec_qualified_name(group@, devices@[i]@),
{
    let mut r: Vec<String> = Vec::new();
    let mut i: usize = 0;
    while i < devices.len()
        invariant
            i <= devices@.len(),
            r@.len() == i,
            forall|j: int|
                0 <= j < i ==> #[trigger] r@[j]@ == spec_qualified_name(group@, devices@[j]@),
        decreases devices@.len() - i,
    {
        let name = qualified_name(group, devices[i].as_str());
        r.push(name);
        i = i + 1;
    }
    r
}

/// A name built from a group and a device, neither holding a colon, splits
/// back into that group and that device: every listed name can be opened.
pub proof fn law_qualified_name_splits_back(group: Seq<char>, device: Seq<char>)
    requires
        has_no_colon(group),
        has_no_colon(device),
    ensures
        spec_split_device_name(spec_qualified_name(group, device)) == Some((group, device)),
{
    let s = spec_qualified_name(group, device);
    let k = group.len() as int;
    assert(s[k] == ':');
    assert forall|j: int| 0 <= j < s.len() && j != k implies s[j] != ':' by {
        if j < k {
            assert(s[j] == group[j]);
        } else {
            assert(s[j] == device[j - k - 1]);
        }
    }
    assert(is_sole_colon(s, k));
    assert forall|k2: int| is_sole_colon(s, k2) implies k2 == k by {}
    assert(s.take(k) =~= group);
    assert(s.skip(k + 1) =~= device);
}

} // verus!
