use vstd::prelude::*;
use vstd::string::*;

use crate::text::str_eq_ignore_case;
use crate::types::{Host, LiveInterface, macs_match};

verus! {

/// At least one of the host's interfaces shares a MAC address with one of
/// the live interfaces. Matching is MAC-address equality only; names are
/// never compared for identification.
pub open spec fn host_matches(h: Host, nics: Seq<LiveInterface>) -> bool {
    exists|i: int, k: int|
        0 <= i < h.interfaces@.len() && 0 <= k < nics.len() && macs_match(
            nics[k],
            h.interfaces@[i],
        )
}

/// The first host of the sequence, from position `k` on, that matches the
/// live interfaces.
pub open spec fn identified_from(hosts: Seq<Host>, nics: Seq<LiveInterface>, k: int) -> Option<
    Host,
>
    decreases hosts.len() - k,
{
    if k < 0 || k >= hosts.len() {
        None
    } else if host_matches(hosts[k], nics) {
        Some(hosts[k])
    } else {
        identified_from(hosts, nics, k + 1)
    }
}

/// The host that identification selects: the first host of the store, in
/// store order, that matches the live interfaces; `None` when no host
/// matches.
pub open spec fn identified_host(hosts: Seq<Host>, nics: Seq<LiveInterface>) -> Option<Host> {
    identified_from(hosts, nics, 0)
}

/// Identification fails exactly when no host of the store shares a MAC
/// address with any live interface.
pub proof fn lemma_no_match_iff_identification_fails(hosts: Seq<Host>, nics: Seq<LiveInterface>)
    ensures
        (identified_host(hosts, nics) is None) <==> (forall|k: int|
            0 <= k < hosts.len() ==> !host_matches(hosts[k], nics)),
{
    lemma_identified_from_none(hosts, nics, 0);
}

proof fn lemma_identified_from_none(hosts: Seq<Host>, nics: Seq<LiveInterface>, j: int)
    requires
        0 <= j <= hosts.len(),
    ensures
        (identified_from(hosts, nics, j) is None) <==> (forall|k: int|
            j <= k < hosts.len() ==> !host_matches(hosts[k], nics)),
    decreases hosts.len() - j,
{
    if j < hosts.len() {
        lemma_identified_from_none(hosts, nics, j + 1);
    }
}

/// Identification is deterministic: the selected host is a function of
/// the store and the live interface set alone, so equal inputs always
/// select an equal host. Together with `identify_host`'s contract, which
/// pins its result to `identified_host`, repeated identification calls on
/// a fixed store and a fixed live set return the same host.
pub proof fn lemma_identification_deterministic(
    hosts1: Seq<Host>,
    nics1: Seq<LiveInterface>,
    hosts2: Seq<Host>,
    nics2: Seq<LiveInterface>,
)
    requires
        hosts1 == hosts2,
        nics1 == nics2,
    ensures
        identified_host(hosts1, nics1) == identified_host(hosts2, nics2),
{
}

/// Whether the host shares a MAC address with one of the live interfaces.
fn host_has_matching_mac(h: &Host, nics: &Vec<LiveInterface>) -> (r: bool)
    ensures
        r == host_matches(*h, nics@),
{
    let n = h.interfaces.len();
    for i in 0..n
        invariant
            n == h.interfaces@.len(),
            forall|i0: int, k0: int|
                0 <= i0 < i && 0 <= k0 < nics@.len() ==> !macs_match(
                    nics@[k0],
                    h.interfaces@[i0],
                ),
    {
        let m = nics.len();
        for k in 0..m
            invariant
                m == nics@.len(),
                n == h.interfaces@.len(),
                i < n,
                forall|i0: int, k0: int|
                    0 <= i0 < i && 0 <= k0 < nics@.len() ==> !macs_match(
                        nics@[k0],
                        h.interfaces@[i0],
                    ),
                forall|k0: int| 0 <= k0 < k ==> !macs_match(nics@[k0], h.interfaces@[i as int]),
        {
            let matched: bool = match (&h.interfaces[i].mac_address, &nics[k].mac_address) {
                (Some(a), Some(b)) => str_eq_ignore_case(a.as_str(), b.as_str()),
                _ => false,
            };
            if matched {
                proof {
                    assert(macs_match(nics@[k as int], h.interfaces@[i as int]));
                }
                return true;
            }
        }
    }
    false
}

/// Select the single preconfigured host whose interface list shares at
/// least one MAC address with a live interface. When several hosts match (a
/// misconfiguration: two host profiles share a MAC address), the first
/// match in store order is returned. `None` when no host matches.
///
/// The result is pinned to `identified_host`, a function of the store and
/// the live interface set alone, so identification is deterministic: the
/// same store and the same live set always select the same host.
pub fn identify_host(hosts: Vec<Host>, nics: &Vec<LiveInterface>) -> (r: Option<Host>)
    ensures
        (match r {
            Some(h) => identified_host(hosts@, nics@) == Some(h),
            None => identified_host(hosts@, nics@) is None,
        }),
{
    let ghost orig = hosts@;
    let mut remaining = hosts;
    let n = remaining.len();
    for j in 0..n
        invariant
            hosts@ == orig,
            remaining@ == orig,
            n == orig.len(),
            identified_from(orig, nics@, 0) == identified_from(orig, nics@, j as int),
    {
        if host_has_matching_mac(&remaining[j], nics) {
            proof {
                assert(identified_from(orig, nics@, j as int) == Some(orig[j as int]));
            }
            let h = remaining.remove(j);
            return Some(h);
        }
        proof {
            assert(identified_from(orig, nics@, j as int) == identified_from(
                orig,
                nics@,
                j + 1,
            ));
        }
    }
    proof {
        assert(identified_from(orig, nics@, n as int) is None);
    }
    None
}

/// The message with which a run surfaces a failed identification.
pub fn no_matching_host_message() -> (r: String)
    ensures
        r@ == "None of the preconfigured hosts match local NICs"@,
{
    let r = String::from_str("None of the preconfigured hosts match local NICs");
    r
}

} // verus!
