//! Joining the virtual machines of a catalog with their IPAM reservations.
use vstd::prelude::*;
use crate::models::{opt_text, IpamEntry};
use crate::text::{decimal_text, format_decimal, law_decimal_text_injective};

verus! {

/// The reservation `p` belongs to VM `vmid`: its VM id is the decimal
/// rendering of `vmid`.
pub open spec fn ipam_belongs_to(p: IpamEntry, vmid: i64) -> bool {
    opt_text(p.vmid) == Some(decimal_text(vmid as int))
}

/// The first reservation of `ipams` that belongs to VM `vmid`, if any.
pub open spec fn first_ipam_for(ipams: Seq<IpamEntry>, vmid: i64) -> Option<IpamEntry>
    decreases ipams.len(),
{
    if ipams.len() == 0 {
        None
    } else if ipam_belongs_to(ipams[0], vmid) {
        Some(ipams[0])
    } else {
        first_ipam_for(ipams.drop_first(), vmid)
    }
}

proof fn lemma_first_ipam_skip(ipams: Seq<IpamEntry>, vmid: i64, j: int)
    requires
        0 <= j <= ipams.len(),
        forall|l: int| 0 <= l < j ==> !ipam_belongs_to(#[trigger] ipams[l], vmid),
    ensures
        first_ipam_for(ipams, vmid) == first_ipam_for(ipams.skip(j), vmid),
    decreases j,
{
    if j > 0 {
        assert(!ipam_belongs_to(ipams[0], vmid));
        lemma_first_ipam_skip(ipams.drop_first(), vmid, j - 1);
        assert(ipams.drop_first().skip(j - 1) =~= ipams.skip(j));
    } else {
        assert(ipams.skip(0) =~= ipams);
    }
}

/// Index of the first reservation of `ipams` that belongs to VM `vmid`,
/// as `iter().find` over the reservations does.
pub fn find_ipam_for(ipams: &Vec<IpamEntry>, vmid: i64) -> (r: Option<usize>)
    ensures
        match r {
            Some(j) => j < ipams@.len() && first_ipam_for(ipams@, vmid) == Some(ipams@[j as int]),
            None => first_ipam_for(ipams@, vmid) is None,
        },
{
    let wanted = format_decimal(vmid);
    let mut j: usize = 0;
    while j < ipams.len()
        invariant
            wanted@ == decimal_text(vmid as int),
            j <= ipams@.len(),
            forall|l: int| 0 <= l < j ==> !ipam_belongs_to(#[trigger] ipams@[l], vmid),
        decreases ipams@.len() - j,
    {
        let hit = match &ipams[j].vmid {
            Some(id) => *id == wanted,
            None => false,
        };
        if hit {
            proof {
                lemma_first_ipam_skip(ipams@, vmid, j as int);
                assert(ipams@.skip(j as int)[0] == ipams@[j as int]);
            }
            return Some(j);
        }
        j = j + 1;
    }
    proof {
        lemma_first_ipam_skip(ipams@, vmid, j as int);
    }
    None
}


/// A reservation belongs to at most one VM.
pub proof fn law_reservation_has_one_owner(p: IpamEntry, a: i64, b: i64)
    requires
        ipam_belongs_to(p, a),
        ipam_belongs_to(p, b),
    ensures
        a == b,
{
    law_decimal_text_injective(a as int, b as int);
}

/// The reservation of a VM is the first one, in list order, whose VM id is
/// the decimal rendering of the VM's id; there is none exactly when no
/// reservation has that VM id.
pub proof fn law_first_ipam_for_is_first_owned(ipams: Seq<IpamEntry>, vmid: i64)
    ensures
        match first_ipam_for(ipams, vmid) {
            Some(p) => exists|j: int|
                0 <= j < ipams.len() && #[trigger] ipams[j] == p && opt_text(p.vmid) == Some(decimal_text(vmid as int))
                    && forall|k: int| 0 <= k < j ==> opt_text((#[trigger] ipams[k]).vmid) != Some(decimal_text(vmid as int)),
            None => forall|j: int| 0 <= j < ipams.len() ==> opt_text((#[trigger] ipams[j]).vmid) != Some(decimal_text(vmid as int)),
        },
    decreases ipams.len(),
{
    if ipams.len() > 0 {
        law_first_ipam_for_is_first_owned(ipams.drop_first(), vmid);
        if !ipam_belongs_to(ipams[0], vmid) {
            match first_ipam_for(ipams, vmid) {
                Some(p) => {
                    let j = choose|j: int|
                        0 <= j < ipams.drop_first().len() && #[trigger] ipams.drop_first()[j] == p && opt_text(p.vmid) == Some(decimal_text(vmid as int))
                            && forall|k: int| 0 <= k < j ==> opt_text((#[trigger] ipams.drop_first()[k]).vmid) != Some(decimal_text(vmid as int));
                    assert(ipams[j + 1] == p);
                    assert forall|k: int| 0 <= k < j + 1 implies opt_text((#[trigger] ipams[k]).vmid) != Some(decimal_text(vmid as int)) by {
                        if k > 0 {
                            assert(ipams[k] == ipams.drop_first()[k - 1]);
                        }
                    }
                },
                None => {
                    assert forall|j: int| 0 <= j < ipams.len() implies opt_text((#[trigger] ipams[j]).vmid) != Some(decimal_text(vmid as int)) by {
                        if j > 0 {
                            assert(ipams[j] == ipams.drop_first()[j - 1]);
                        }
                    }
                },
            }
        } else {
            assert(ipams[0] == ipams[0]);
        }
    }
}

/// What a `filter_map` makes of an element that it keeps is in its output.
pub proof fn lemma_filter_map_keeps<A, B>(s: Seq<A>, f: spec_fn(A) -> Option<B>, a: A)
    requires
        s.contains(a),
        f(a) is Some,
    ensures
        s.filter_map(f).contains(f(a)->0),
    decreases s.len(),
{
    let rest = s.drop_last();
    if s.last() == a {
        assert(s.filter_map(f) == rest.filter_map(f) + seq![f(a)->0]);
        assert(s.filter_map(f)[rest.filter_map(f).len() as int] == f(a)->0);
    } else {
        let k = choose|k: int| 0 <= k < s.len() && s[k] == a;
        assert(k < s.len() - 1);
        assert(rest[k] == a);
        lemma_filter_map_keeps(rest, f, a);
        let j = choose|j: int| 0 <= j < rest.filter_map(f).len() && rest.filter_map(f)[j] == f(a)->0;
        match f(s.last()) {
            Some(b) => {
                assert(s.filter_map(f) == rest.filter_map(f) + seq![b]);
                assert(s.filter_map(f)[j] == f(a)->0);
            },
            None => {},
        }
    }
}

} // verus!
