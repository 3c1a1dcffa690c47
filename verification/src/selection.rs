//! Selection of the catalog contents from what the cluster nodes report:
//! running virtual machines (optionally carrying a tag) and the IPAM
//! reservations of one network, each list in a stable order of VM id.
use vstd::prelude::*;
use crate::models::{
    opt_text, IpamEntry, ProxmoxData, ProxmoxIpamEntries, ProxmoxVirtualMachineEntries,
    VirtualMachineEntry,
};
use crate::text::{
    contains_text, lemma_text_lt_irreflexive, lemma_text_lt_total, lemma_text_lt_transitive,
    text_contains, text_less, text_lt,
};

verus! {

// ---------------------------------------------------------------------------
// Sequence facts used by the selections
// ---------------------------------------------------------------------------

/// The contents of a list of lists, as sequences.
pub open spec fn lists_view<T>(s: Seq<Vec<T>>) -> Seq<Seq<T>> {
    s.map_values(|v: Vec<T>| v@)
}

/// All entries of a list of lists, in order.
pub open spec fn concatenation<T>(s: Seq<Vec<T>>) -> Seq<T> {
    lists_view(s).flatten()
}

proof fn lemma_filter_split<T>(s: Seq<T>, pos: int, pred: spec_fn(T) -> bool)
    requires
        0 <= pos <= s.len(),
    ensures
        s.filter(pred) == s.take(pos).filter(pred) + s.skip(pos).filter(pred),
{
    assert(s =~= s.take(pos) + s.skip(pos));
    Seq::filter_distributes_over_add(s.take(pos), s.skip(pos), pred);
}

proof fn lemma_filter_single<T>(x: T, pred: spec_fn(T) -> bool)
    ensures
        seq![x].filter(pred) == (if pred(x) {
            seq![x]
        } else {
            Seq::<T>::empty()
        }),
{
    reveal(Seq::filter);
    assert(seq![x].drop_last() =~= Seq::<T>::empty());
    assert(Seq::<T>::empty().filter(pred) =~= Seq::<T>::empty());
    assert(Seq::<T>::empty().push(x) =~= seq![x]);
}

proof fn lemma_filter_insert<T>(s: Seq<T>, pos: int, x: T, pred: spec_fn(T) -> bool)
    requires
        0 <= pos <= s.len(),
    ensures
        s.insert(pos, x).filter(pred) == s.take(pos).filter(pred) + seq![x].filter(pred) + s.skip(
            pos,
        ).filter(pred),
{
    assert(s.insert(pos, x) =~= (s.take(pos) + seq![x]) + s.skip(pos));
    Seq::filter_distributes_over_add(s.take(pos) + seq![x], s.skip(pos), pred);
    Seq::filter_distributes_over_add(s.take(pos), seq![x], pred);
}

proof fn lemma_filter_none<T>(s: Seq<T>, pred: spec_fn(T) -> bool)
    requires
        forall|i: int| 0 <= i < s.len() ==> !pred(#[trigger] s[i]),
    ensures
        s.filter(pred) == Seq::<T>::empty(),
{
    s.lemma_all_neg_filter_empty(pred);
    assert(s.filter(pred) =~= Seq::<T>::empty());
}

proof fn lemma_insert_multiset<T>(out: Seq<T>, pos: int, x: T, src: Seq<T>)
    requires
        0 <= pos <= out.len(),
        out.to_multiset() == src.to_multiset(),
    ensures
        out.insert(pos, x).to_multiset() == src.push(x).to_multiset(),
{
    broadcast use vstd::multiset::group_multiset_axioms;
    let new = out.insert(pos, x);
    out.insert_ensures(pos, x);
    new.to_multiset_ensures();
    src.to_multiset_ensures();
    assert(new.remove(pos) =~= out);
    assert(new.remove(pos).to_multiset() =~= new.to_multiset().remove(new[pos]));
    assert(new.contains(x)) by {
        assert(new[pos] == x);
    }
    assert(new.to_multiset().remove(x).insert(x) =~= new.to_multiset());
}

/// An entry is kept by a filter exactly when it is in the sequence and
/// satisfies the predicate.
pub proof fn lemma_filter_membership<T>(s: Seq<T>, pred: spec_fn(T) -> bool, e: T)
    ensures
        s.filter(pred).contains(e) <==> (s.contains(e) && pred(e)),
{
    if s.filter(pred).contains(e) {
        s.lemma_filter_contains_rev(pred, e);
        let k = choose|k: int| 0 <= k < s.filter(pred).len() && s.filter(pred)[k] == e;
        s.lemma_filter_pred(pred, k);
    }
    if s.contains(e) && pred(e) {
        let k = choose|k: int| 0 <= k < s.len() && s[k] == e;
        s.lemma_filter_contains(pred, k);
    }
}

/// Moves the entries of every list, in order, into one list.
pub fn concat_lists<T>(per_list: Vec<Vec<T>>) -> (r: Vec<T>)
    ensures
        r@ == concatenation(per_list@),
{
    let ghost whole = per_list@;
    let mut rest = per_list;
    let mut acc: Vec<T> = Vec::new();
    proof {
        assert(acc@ + concatenation(rest@) =~= concatenation(whole));
    }
    while rest.len() > 0
        invariant
            acc@ + concatenation(rest@) == concatenation(whole),
        decreases rest@.len(),
    {
        let ghost before = rest@;
        let mut first = rest.remove(0);
        proof {
            assert(rest@ =~= before.drop_first());
            assert(lists_view(before).drop_first() =~= lists_view(rest@));
            assert(lists_view(before).first() == first@);
        }
        let ghost acc_before = acc@;
        acc.append(&mut first);
        proof {
            assert(acc@ + concatenation(rest@) =~= acc_before + concatenation(before));
        }
    }
    proof {
        assert(lists_view(rest@) =~= Seq::<Seq<T>>::empty());
        assert(acc@ =~= concatenation(whole));
    }
    acc
}

// ---------------------------------------------------------------------------
// Virtual machines
// ---------------------------------------------------------------------------

/// A virtual machine that is running and is not a template.
pub open spec fn vm_is_running(e: VirtualMachineEntry) -> bool {
    &&& e.template is None
    &&& e.status@ == "running"@
}

/// The tag list of a virtual machine contains `tag` as a substring.
pub open spec fn vm_has_tag(e: VirtualMachineEntry, tag: Seq<char>) -> bool {
    match e.tags {
        Some(tags) => contains_text(tags@, tag),
        None => false,
    }
}

/// A virtual machine kept by a selection: running, no template, and
/// carrying the tag where one is asked for.
pub open spec fn vm_selected(e: VirtualMachineEntry, tag: Option<Seq<char>>) -> bool {
    &&& match tag {
        Some(t) => vm_has_tag(e, t),
        None => true,
    }
    &&& vm_is_running(e)
}

/// The predicate "kept by the selection for `tag`".
pub open spec fn vm_selector(tag: Option<Seq<char>>) -> spec_fn(VirtualMachineEntry) -> bool {
    |e: VirtualMachineEntry| vm_selected(e, tag)
}

/// The entries of `s` that a selection keeps, in their order.
pub open spec fn selected_vms(s: Seq<VirtualMachineEntry>, tag: Option<Seq<char>>) -> Seq<
    VirtualMachineEntry,
> {
    s.filter(vm_selector(tag))
}

/// Ascending VM ids.
pub open spec fn sorted_by_vmid(s: Seq<VirtualMachineEntry>) -> bool {
    forall|i: int, j: int| 0 <= i < j < s.len() ==> s[i].vmid <= s[j].vmid
}

/// The predicate "has VM id `k`".
pub open spec fn has_vmid(k: i64) -> spec_fn(VirtualMachineEntry) -> bool {
    |e: VirtualMachineEntry| e.vmid == k
}

/// The entries of `s` whose VM id is `k`, in their order.
pub open spec fn vms_with_vmid(s: Seq<VirtualMachineEntry>, k: i64) -> Seq<VirtualMachineEntry> {
    s.filter(has_vmid(k))
}

/// `r` is `s` sorted by VM id, entries with equal ids kept in their order
/// (what a stable sort yields).
pub open spec fn stable_vmid_sort_of(r: Seq<VirtualMachineEntry>, s: Seq<VirtualMachineEntry>) -> bool {
    &&& sorted_by_vmid(r)
    &&& forall|k: i64| #[trigger] vms_with_vmid(r, k) == vms_with_vmid(s, k)
    &&& r.to_multiset() == s.to_multiset()
}

fn running_vms_only(vms: &Vec<VirtualMachineEntry>, tag: Option<&str>) -> (r: Vec<VirtualMachineEntry>)
    ensures
        r@ == selected_vms(
            vms@,
            match tag {
                Some(t) => Some(t@),
                None => None,
            },
        ),
{
    let ghost t = match tag {
        Some(t) => Some(t@),
        None => None::<Seq<char>>,
    };
    let running = String::from_str("running");
    let mut r: Vec<VirtualMachineEntry> = Vec::new();
    for i in 0..vms.len()
        invariant
            running@ == "running"@,
            t == match tag {
                Some(t) => Some(t@),
                None => None,
            },
            r@ == selected_vms(vms@.take(i as int), t),
    {
        let e = &vms[i];
        let tag_ok = match tag {
            Some(tg) => match &e.tags {
                Some(tags) => text_contains(tags.as_str(), tg),
                None => false,
            },
            None => true,
        };
        let keep = tag_ok && e.template.is_none() && e.status == running;
        proof {
            assert(vms@.take(i + 1) =~= vms@.take(i as int).push(vms@[i as int]));
            vms@.take(i as int).lemma_filter_push(vms@[i as int], vm_selector(t));
        }
        if keep {
            r.push(e.duplicate());
        }
    }
    assert(vms@.take(vms@.len() as int) =~= vms@);
    r
}

proof fn lemma_vm_insert(out: Seq<VirtualMachineEntry>, pos: int, x: VirtualMachineEntry, src: Seq<VirtualMachineEntry>)
    requires
        stable_vmid_sort_of(out, src),
        0 <= pos <= out.len(),
        forall|j: int| 0 <= j < pos ==> out[j].vmid <= x.vmid,
        forall|j: int| pos <= j < out.len() ==> out[j].vmid > x.vmid,
    ensures
        stable_vmid_sort_of(out.insert(pos, x), src.push(x)),
{
    let new = out.insert(pos, x);
    out.insert_ensures(pos, x);
    lemma_insert_multiset(out, pos, x, src);
    assert forall|i: int, j: int| 0 <= i < j < new.len() implies new[i].vmid <= new[j].vmid by {
        if j < pos {
        } else if j == pos {
        } else if i < pos {
            assert(new[j] == out[j - 1]);
        } else if i == pos {
            assert(new[j] == out[j - 1]);
        } else {
            assert(new[i] == out[i - 1]);
            assert(new[j] == out[j - 1]);
        }
    }
    assert forall|k: i64| #[trigger] vms_with_vmid(new, k) == vms_with_vmid(src.push(x), k) by {
        let pred = has_vmid(k);
        lemma_filter_insert(out, pos, x, pred);
        lemma_filter_split(out, pos, pred);
        lemma_filter_single(x, pred);
        src.lemma_filter_push(x, pred);
        assert(vms_with_vmid(out, k) == vms_with_vmid(src, k));
        if x.vmid == k {
            assert(pred(x));
            assert forall|i: int| 0 <= i < out.skip(pos).len() implies !pred(
                #[trigger] out.skip(pos)[i],
            ) by {
                assert(out.skip(pos)[i] == out[pos + i]);
            }
            lemma_filter_none(out.skip(pos), pred);
            assert(vms_with_vmid(new, k) =~= out.take(pos).filter(pred).push(x));
            assert(vms_with_vmid(out, k) =~= out.take(pos).filter(pred));
            assert(vms_with_vmid(src.push(x), k) == vms_with_vmid(src, k).push(x));
        } else {
            assert(!pred(x));
            assert(vms_with_vmid(new, k) =~= out.take(pos).filter(pred) + out.skip(pos).filter(pred));
            assert(vms_with_vmid(src.push(x), k) == vms_with_vmid(src, k));
        }
    }
}

/// Stable sort by VM id, as `sort_by` on `vmid` does.
pub fn sort_vms_by_vmid(v: &Vec<VirtualMachineEntry>) -> (r: Vec<VirtualMachineEntry>)
    ensures
        stable_vmid_sort_of(r@, v@),
{
    let mut out: Vec<VirtualMachineEntry> = Vec::new();
    proof {
        assert forall|k: i64| #[trigger] vms_with_vmid(out@, k) == vms_with_vmid(v@.take(0), k) by {
            lemma_filter_none(out@, has_vmid(k));
            lemma_filter_none(v@.take(0), has_vmid(k));
        }
        assert(out@ =~= v@.take(0));
    }
    for i in 0..v.len()
        invariant
            stable_vmid_sort_of(out@, v@.take(i as int)),
    {
        let x = v[i].duplicate();
        let mut pos: usize = 0;
        while pos < out.len() && out[pos].vmid <= x.vmid
            invariant
                pos <= out@.len(),
                forall|j: int| 0 <= j < pos ==> out@[j].vmid <= x.vmid,
            decreases out@.len() - pos,
        {
            pos = pos + 1;
        }
        proof {
            lemma_vm_insert(out@, pos as int, x, v@.take(i as int));
            assert(v@.take(i + 1) =~= v@.take(i as int).push(v@[i as int]));
        }
        out.insert(pos, x);
    }
    assert(v@.take(v@.len() as int) =~= v@);
    out
}

/// Running, non-template virtual machines of all nodes, in a stable order of
/// VM id. `per_node_vms` holds what each node reported, in node order.
pub fn get_running_vms(per_node_vms: Vec<Vec<VirtualMachineEntry>>) -> (r: ProxmoxVirtualMachineEntries)
    ensures
        stable_vmid_sort_of(r.data@, selected_vms(concatenation(per_node_vms@), None)),
{
    let all = concat_lists(per_node_vms);
    let kept = running_vms_only(&all, None);
    ProxmoxData { data: sort_vms_by_vmid(&kept) }
}

/// Running, non-template virtual machines of all nodes whose tag list
/// contains `tag`, in a stable order of VM id.
pub fn get_running_vms_with_tags(per_node_vms: Vec<Vec<VirtualMachineEntry>>, tag: &str) -> (r:
    ProxmoxVirtualMachineEntries)
    ensures
        stable_vmid_sort_of(r.data@, selected_vms(concatenation(per_node_vms@), Some(tag@))),
{
    let all = concat_lists(per_node_vms);
    let kept = running_vms_only(&all, Some(tag));
    ProxmoxData { data: sort_vms_by_vmid(&kept) }
}


// ---------------------------------------------------------------------------
// IPAM reservations
// ---------------------------------------------------------------------------

/// Strict order on optional texts: absent first, then by `text_lt`
/// (the order of `Option<String>`).
pub open spec fn opt_text_lt(a: Option<Seq<char>>, b: Option<Seq<char>>) -> bool {
    match (a, b) {
        (None, Some(_)) => true,
        (Some(x), Some(y)) => text_lt(x, y),
        _ => false,
    }
}

/// `opt_text_lt` never relates a value to itself.
pub proof fn lemma_opt_text_lt_irreflexive(a: Option<Seq<char>>)
    ensures
        !opt_text_lt(a, a),
{
    if let Some(x) = a {
        lemma_text_lt_irreflexive(x);
    }
}

/// `opt_text_lt` is transitive.
pub proof fn lemma_opt_text_lt_transitive(a: Option<Seq<char>>, b: Option<Seq<char>>, c: Option<Seq<char>>)
    requires
        opt_text_lt(a, b),
        opt_text_lt(b, c),
    ensures
        opt_text_lt(a, c),
{
    if a is Some && b is Some && c is Some {
        lemma_text_lt_transitive(a->0, b->0, c->0);
    }
}

/// Any two distinct optional texts are ordered one way or the other.
pub proof fn lemma_opt_text_lt_total(a: Option<Seq<char>>, b: Option<Seq<char>>)
    ensures
        opt_text_lt(a, b) || opt_text_lt(b, a) || a == b,
{
    if a is Some && b is Some {
        lemma_text_lt_total(a->0, b->0);
    }
}

/// `a` sorts strictly before `b`, as `<` on `Option<String>`.
pub fn opt_text_less(a: &Option<String>, b: &Option<String>) -> (r: bool)
    ensures
        r == opt_text_lt(opt_text(*a), opt_text(*b)),
{
    match (a, b) {
        (None, Some(_)) => true,
        (Some(x), Some(y)) => text_less(x.as_str(), y.as_str()),
        _ => false,
    }
}

/// The sort key of an IPAM reservation: its VM id text, if any.
pub open spec fn ipam_key(e: IpamEntry) -> Option<Seq<char>> {
    opt_text(e.vmid)
}

/// A reservation on network `interface_name` that belongs to a VM.
pub open spec fn ipam_selected(e: IpamEntry, interface_name: Seq<char>) -> bool {
    &&& e.vnet@ == interface_name
    &&& e.vmid is Some
}

/// The predicate "kept for network `interface_name`".
pub open spec fn ipam_selector(interface_name: Seq<char>) -> spec_fn(IpamEntry) -> bool {
    |e: IpamEntry| ipam_selected(e, interface_name)
}

/// The reservations of `s` kept for `interface_name`, in their order.
pub open spec fn selected_ipams(s: Seq<IpamEntry>, interface_name: Seq<char>) -> Seq<IpamEntry> {
    s.filter(ipam_selector(interface_name))
}

/// Ascending VM id text.
pub open spec fn sorted_by_ipam_key(s: Seq<IpamEntry>) -> bool {
    forall|i: int, j: int| 0 <= i < j < s.len() ==> !opt_text_lt(ipam_key(s[j]), ipam_key(s[i]))
}

/// The predicate "has sort key `k`".
pub open spec fn has_ipam_key(k: Option<Seq<char>>) -> spec_fn(IpamEntry) -> bool {
    |e: IpamEntry| ipam_key(e) == k
}

/// The reservations of `s` with sort key `k`, in their order.
pub open spec fn ipams_with_key(s: Seq<IpamEntry>, k: Option<Seq<char>>) -> Seq<IpamEntry> {
    s.filter(has_ipam_key(k))
}

/// `r` is `s` sorted by VM id text, equal keys kept in their order.
pub open spec fn stable_ipam_sort_of(r: Seq<IpamEntry>, s: Seq<IpamEntry>) -> bool {
    &&& sorted_by_ipam_key(r)
    &&& forall|k: Option<Seq<char>>| #[trigger] ipams_with_key(r, k) == ipams_with_key(s, k)
    &&& r.to_multiset() == s.to_multiset()
}

fn ipams_on_network(ipams: &Vec<IpamEntry>, interface_name: &str) -> (r: Vec<IpamEntry>)
    ensures
        r@ == selected_ipams(ipams@, interface_name@),
{
    let wanted = String::from_str(interface_name);
    let mut r: Vec<IpamEntry> = Vec::new();
    for i in 0..ipams.len()
        invariant
            wanted@ == interface_name@,
            r@ == selected_ipams(ipams@.take(i as int), interface_name@),
    {
        let e = &ipams[i];
        let keep = e.vnet == wanted && e.vmid.is_some();
        proof {
            assert(ipams@.take(i + 1) =~= ipams@.take(i as int).push(ipams@[i as int]));
            ipams@.take(i as int).lemma_filter_push(ipams@[i as int], ipam_selector(interface_name@));
        }
        if keep {
            r.push(e.duplicate());
        }
    }
    assert(ipams@.take(ipams@.len() as int) =~= ipams@);
    r
}

proof fn lemma_ipam_insert(out: Seq<IpamEntry>, pos: int, x: IpamEntry, src: Seq<IpamEntry>)
    requires
        stable_ipam_sort_of(out, src),
        0 <= pos <= out.len(),
        forall|j: int| 0 <= j < pos ==> !opt_text_lt(ipam_key(x), #[trigger] ipam_key(out[j])),
        forall|j: int| pos <= j < out.len() ==> opt_text_lt(ipam_key(x), #[trigger] ipam_key(out[j])),
    ensures
        stable_ipam_sort_of(out.insert(pos, x), src.push(x)),
{
    let new = out.insert(pos, x);
    out.insert_ensures(pos, x);
    lemma_insert_multiset(out, pos, x, src);
    assert forall|i: int, j: int| 0 <= i < j < new.len() implies !opt_text_lt(
        ipam_key(new[j]),
        ipam_key(new[i]),
    ) by {
        if j < pos {
        } else if j == pos {
        } else if i < pos {
            assert(new[j] == out[j - 1]);
        } else if i == pos {
            assert(new[j] == out[j - 1]);
            if opt_text_lt(ipam_key(out[j - 1]), ipam_key(x)) {
                lemma_opt_text_lt_transitive(ipam_key(x), ipam_key(out[j - 1]), ipam_key(x));
                lemma_opt_text_lt_irreflexive(ipam_key(x));
            }
        } else {
            assert(new[i] == out[i - 1]);
            assert(new[j] == out[j - 1]);
        }
    }
    assert forall|k: Option<Seq<char>>| #[trigger] ipams_with_key(new, k) == ipams_with_key(src.push(x), k) by {
        let pred = has_ipam_key(k);
        lemma_filter_insert(out, pos, x, pred);
        lemma_filter_split(out, pos, pred);
        lemma_filter_single(x, pred);
        src.lemma_filter_push(x, pred);
        assert(ipams_with_key(out, k) == ipams_with_key(src, k));
        if ipam_key(x) == k {
            assert(pred(x));
            assert forall|i: int| 0 <= i < out.skip(pos).len() implies !pred(
                #[trigger] out.skip(pos)[i],
            ) by {
                assert(out.skip(pos)[i] == out[pos + i]);
                lemma_opt_text_lt_irreflexive(ipam_key(x));
            }
            lemma_filter_none(out.skip(pos), pred);
            assert(ipams_with_key(new, k) =~= out.take(pos).filter(pred).push(x));
            assert(ipams_with_key(out, k) =~= out.take(pos).filter(pred));
            assert(ipams_with_key(src.push(x), k) == ipams_with_key(src, k).push(x));
        } else {
            assert(!pred(x));
            assert(ipams_with_key(new, k) =~= out.take(pos).filter(pred) + out.skip(pos).filter(pred));
            assert(ipams_with_key(src.push(x), k) == ipams_with_key(src, k));
        }
    }
}

/// Stable sort by VM id text, as `sort_by` on `vmid` does.
pub fn sort_ipams_by_vmid(v: &Vec<IpamEntry>) -> (r: Vec<IpamEntry>)
    ensures
        stable_ipam_sort_of(r@, v@),
{
    let mut out: Vec<IpamEntry> = Vec::new();
    proof {
        assert forall|k: Option<Seq<char>>| #[trigger] ipams_with_key(out@, k) == ipams_with_key(v@.take(0), k) by {
            lemma_filter_none(out@, has_ipam_key(k));
            lemma_filter_none(v@.take(0), has_ipam_key(k));
        }
        assert(out@ =~= v@.take(0));
    }
    for i in 0..v.len()
        invariant
            stable_ipam_sort_of(out@, v@.take(i as int)),
    {
        let x = v[i].duplicate();
        let mut pos: usize = 0;
        while pos < out.len() && !opt_text_less(&x.vmid, &out[pos].vmid)
            invariant
                pos <= out@.len(),
                forall|j: int| 0 <= j < pos ==> !opt_text_lt(ipam_key(x), #[trigger] ipam_key(out@[j])),
            decreases out@.len() - pos,
        {
            pos = pos + 1;
        }
        proof {
            assert forall|j: int| pos <= j < out@.len() implies opt_text_lt(
                ipam_key(x),
                #[trigger] ipam_key(out@[j]),
            ) by {
                if j > pos {
                    lemma_opt_text_lt_total(ipam_key(out@[pos as int]), ipam_key(out@[j]));
                    if opt_text_lt(ipam_key(out@[pos as int]), ipam_key(out@[j])) {
                        lemma_opt_text_lt_transitive(ipam_key(x), ipam_key(out@[pos as int]), ipam_key(out@[j]));
                    }
                }
            }
            lemma_ipam_insert(out@, pos as int, x, v@.take(i as int));
            assert(v@.take(i + 1) =~= v@.take(i as int).push(v@[i as int]));
        }
        out.insert(pos, x);
    }
    assert(v@.take(v@.len() as int) =~= v@);
    out
}

/// The reservations of network `interface_name` that belong to a VM, from
/// all nodes, in a stable order of VM id text. `per_node_ipams` holds what
/// each node reported, in node order.
pub fn get_all_ipams_matching_criterias(per_node_ipams: Vec<Vec<IpamEntry>>, interface_name: &str) -> (r:
    ProxmoxIpamEntries)
    ensures
        stable_ipam_sort_of(r.data@, selected_ipams(concatenation(per_node_ipams@), interface_name@)),
{
    let all = concat_lists(per_node_ipams);
    let kept = ipams_on_network(&all, interface_name);
    ProxmoxData { data: sort_ipams_by_vmid(&kept) }
}


// ---------------------------------------------------------------------------
// Laws of the selections
// ---------------------------------------------------------------------------

proof fn lemma_permuted_filter<T>(r: Seq<T>, s: Seq<T>, pred: spec_fn(T) -> bool)
    requires
        r.to_multiset() == s.filter(pred).to_multiset(),
    ensures
        r.len() == s.filter(pred).len(),
        forall|e: T| #[trigger] r.contains(e) <==> (s.contains(e) && pred(e)),
{
    r.to_multiset_ensures();
    s.filter(pred).to_multiset_ensures();
    assert forall|e: T| #[trigger] r.contains(e) <==> (s.contains(e) && pred(e)) by {
        if r.contains(e) {
            assert(r.to_multiset().count(e) > 0);
            assert(s.filter(pred).to_multiset().count(e) > 0);
            assert(s.filter(pred).contains(e));
            s.lemma_filter_contains_rev(pred, e);
            let k = choose|k: int| 0 <= k < s.filter(pred).len() && s.filter(pred)[k] == e;
            s.lemma_filter_pred(pred, k);
        }
        if s.contains(e) && pred(e) {
            let k = choose|k: int| 0 <= k < s.len() && s[k] == e;
            s.lemma_filter_contains(pred, k);
            assert(s.filter(pred).to_multiset().count(e) > 0);
            assert(r.to_multiset().count(e) > 0);
        }
    }
}

/// A VM selection holds exactly the selected VMs of what the nodes
/// reported, each as often as reported: every VM in it is running, not a
/// template and tagged as asked, and every such reported VM is in it.
pub proof fn law_vm_selection_is_exact(r: Seq<VirtualMachineEntry>, per_node: Seq<Vec<VirtualMachineEntry>>, tag: Option<Seq<char>>)
    requires
        stable_vmid_sort_of(r, selected_vms(concatenation(per_node), tag)),
    ensures
        r.len() == selected_vms(concatenation(per_node), tag).len(),
        forall|i: int| 0 <= i < r.len() ==> vm_selected(#[trigger] r[i], tag),
        forall|e: VirtualMachineEntry| #[trigger] r.contains(e) <==> (concatenation(per_node).contains(e) && vm_selected(e, tag)),
        forall|i: int, j: int| 0 <= i < j < r.len() ==> r[i].vmid <= r[j].vmid,
{
    lemma_permuted_filter(r, concatenation(per_node), vm_selector(tag));
    assert forall|i: int| 0 <= i < r.len() implies vm_selected(#[trigger] r[i], tag) by {
        assert(r.contains(r[i]));
    }
}

/// An IPAM selection holds exactly the reservations of the asked network
/// that belong to a VM, each as often as reported, in ascending VM id text.
pub proof fn law_ipam_selection_is_exact(r: Seq<IpamEntry>, per_node: Seq<Vec<IpamEntry>>, interface_name: Seq<char>)
    requires
        stable_ipam_sort_of(r, selected_ipams(concatenation(per_node), interface_name)),
    ensures
        r.len() == selected_ipams(concatenation(per_node), interface_name).len(),
        forall|i: int| 0 <= i < r.len() ==> ipam_selected(#[trigger] r[i], interface_name),
        forall|e: IpamEntry| #[trigger] r.contains(e) <==> (concatenation(per_node).contains(e) && ipam_selected(e, interface_name)),
        forall|i: int, j: int| 0 <= i < j < r.len() ==> !opt_text_lt(ipam_key(r[j]), ipam_key(r[i])),
{
    lemma_permuted_filter(r, concatenation(per_node), ipam_selector(interface_name));
    assert forall|i: int| 0 <= i < r.len() implies ipam_selected(#[trigger] r[i], interface_name) by {
        assert(r.contains(r[i]));
    }
}

/// A VM is selected exactly when it is one of those reported, is not a
/// template, has status `running`, and, where a tag is asked for, has a tag
/// list in which the tag occurs at some position.
pub proof fn law_vm_selection_membership(s: Seq<VirtualMachineEntry>, tag: Option<Seq<char>>, e: VirtualMachineEntry)
    ensures
        selected_vms(s, tag).contains(e) <==> {
            &&& s.contains(e)
            &&& e.template is None
            &&& e.status@ == "running"@
            &&& match tag {
                None => true,
                Some(t) => e.tags is Some && exists|i: int|
                    0 <= i && i + t.len() <= e.tags->0@.len() && #[trigger] e.tags->0@.subrange(i, i + t.len()) == t,
            }
        },
{
    lemma_filter_membership(s, vm_selector(tag), e);
}

/// A reservation is selected exactly when it is one of those reported, its
/// network is named exactly `interface_name`, and it has a VM id.
pub proof fn law_ipam_selection_membership(s: Seq<IpamEntry>, interface_name: Seq<char>, e: IpamEntry)
    ensures
        selected_ipams(s, interface_name).contains(e) <==> (s.contains(e) && e.vnet@ == interface_name
            && e.vmid is Some),
{
    lemma_filter_membership(s, ipam_selector(interface_name), e);
}

/// The sort key of a reservation is its VM id text.
pub proof fn law_ipam_key_is_vmid(e: IpamEntry)
    ensures
        ipam_key(e) == (match e.vmid {
            Some(v) => Some(v@),
            None => None::<Seq<char>>,
        }),
{
}

/// The order on optional texts puts an absent text before every present one
/// and orders present ones by `text_lt`.
pub proof fn law_opt_text_order(a: Option<Seq<char>>, b: Option<Seq<char>>)
    ensures
        a is None && b is Some ==> opt_text_lt(a, b),
        b is None ==> !opt_text_lt(a, b),
        a is Some && b is Some ==> (opt_text_lt(a, b) <==> text_lt(a->0, b->0)),
{
}

/// The entries grouped under a VM id are exactly those with that id.
pub proof fn law_vmid_groups(s: Seq<VirtualMachineEntry>, k: i64, e: VirtualMachineEntry)
    ensures
        vms_with_vmid(s, k).contains(e) <==> (s.contains(e) && e.vmid == k),
{
    lemma_filter_membership(s, has_vmid(k), e);
}

/// The reservations grouped under a key are exactly those whose VM id text
/// is that key.
pub proof fn law_ipam_key_groups(s: Seq<IpamEntry>, k: Option<Seq<char>>, e: IpamEntry)
    ensures
        ipams_with_key(s, k).contains(e) <==> (s.contains(e) && ipam_key(e) == k),
{
    lemma_filter_membership(s, has_ipam_key(k), e);
}

/// The concatenation of no list is empty, and adding a list at the end adds
/// its entries at the end.
pub proof fn law_concatenation_appends<T>(s: Seq<Vec<T>>, v: Vec<T>)
    ensures
        concatenation(Seq::<Vec<T>>::empty()) == Seq::<T>::empty(),
        concatenation(s.push(v)) == concatenation(s) + v@,
{
    assert(lists_view(Seq::<Vec<T>>::empty()) =~= Seq::<Seq<T>>::empty());
    assert(lists_view(s.push(v)) =~= lists_view(s).push(v@));
    lists_view(s).lemma_flatten_push(v@);
}

} // verus!
