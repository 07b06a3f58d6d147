//! Link plans: the datalink actions that realize or tear down a
//! deployment's network, and a model of the host's datalink namespace
//! against which the plans are proved.
//!
//! The driver executes each action against the host.  Every delete must
//! succeed when the link is already absent, which is what makes the
//! plans idempotent; the model's delete is accordingly total.

use vstd::prelude::*;
use vstd::string::*;

use crate::errors::Error;
use crate::mac::{is_mac, mac_bytes, parse_mac};
use crate::topology::{
    Deployment, Endpoint, EndpointKind, lemma_all_endpoints_ext,
    lemma_all_endpoints_link, lemma_endpoint_names_distinct,
};

verus! {

/// One datalink action of a plan.
#[derive(Debug, Clone)]
pub enum LinkAction {
    /// Delete the vnic; succeeds when it is already absent.
    DeleteVnic { name: String },
    /// Delete the simnet; succeeds when it is already absent.
    DeleteSimnet { name: String },
    /// Create the simnet.
    CreateSimnet { name: String },
    /// Create the vnic over the given link, with an optional MAC.
    CreateVnic { name: String, over: String, mac: Option<Vec<u8>> },
    /// Switch promiscuous filtering off on the vnic.
    SetPromiscOff { name: String },
    /// Establish point-to-point semantics between two simnets.
    ConnectSimnets { a: String, b: String },
}

/// The specification-level value of a datalink action.
pub enum ActView {
    DelVnic(Seq<char>),
    DelSim(Seq<char>),
    MkSim(Seq<char>),
    MkVnic(Seq<char>, Seq<char>, Option<Seq<u8>>),
    Promisc(Seq<char>),
    Connect(Seq<char>, Seq<char>),
}

/// The specification-level value of a datalink action.
pub open spec fn act_view(a: LinkAction) -> ActView {
    match a {
        LinkAction::DeleteVnic { name } => ActView::DelVnic(name@),
        LinkAction::DeleteSimnet { name } => ActView::DelSim(name@),
        LinkAction::CreateSimnet { name } => ActView::MkSim(name@),
        LinkAction::CreateVnic { name, over, mac } => (ActView::MkVnic(
            name@,
            over@,
            match mac {
                Some(m) => Some(m@),
                None => None,
            },
        )),
        LinkAction::SetPromiscOff { name } => ActView::Promisc(name@),
        LinkAction::ConnectSimnets { a, b } => ActView::Connect(a@, b@),
    }
}

/// The specification-level value of a plan.
pub open spec fn acts_view(p: Seq<LinkAction>) -> Seq<ActView> {
    p.map_values(|a: LinkAction| act_view(a))
}

/// The host's datalink namespace, as the plans see it: which link names
/// exist, which link each vnic was created over, and which simnets are
/// peered.
pub struct HostView {
    /// The names of the links that exist.
    pub links: Set<Seq<char>>,
    /// For each vnic, the link it was created over.
    pub over: Map<Seq<char>, Seq<char>>,
    /// For each simnet, its point-to-point peer.
    pub peer: Map<Seq<char>, Seq<char>>,
}

/// Remove a link name from the host: the name goes away, its backing
/// record goes away, and any peering that mentions it goes away.
pub open spec fn drop_link(h: HostView, n: Seq<char>) -> HostView {
    HostView {
        links: h.links.remove(n),
        over: Map::new(|k: Seq<char>| h.over.dom().contains(k) && k != n, |k: Seq<char>| h.over[k]),
        peer: Map::new(
            |k: Seq<char>| h.peer.dom().contains(k) && k != n && h.peer[k] != n,
            |k: Seq<char>| h.peer[k],
        ),
    }
}

/// Apply one action to the host model.
pub open spec fn apply_act(h: HostView, a: ActView) -> HostView {
    match a {
        ActView::DelVnic(n) => drop_link(h, n),
        ActView::DelSim(n) => drop_link(h, n),
        ActView::MkSim(n) => HostView { links: h.links.insert(n), ..h },
        ActView::MkVnic(n, o, _mac) => (HostView {
            links: h.links.insert(n),
            over: h.over.insert(n, o),
            ..h
        }),
        ActView::Promisc(_) => h,
        ActView::Connect(a, b) => (HostView { peer: h.peer.insert(a, b).insert(b, a), ..h }),
    }
}

/// Apply a plan to the host model, in order.
pub open spec fn apply_acts(h: HostView, p: Seq<ActView>) -> HostView
    decreases p.len(),
{
    if p.len() == 0 {
        h
    } else {
        apply_acts(apply_act(h, p.first()), p.skip(1))
    }
}

/// Applying a concatenation is applying the parts in order.
pub proof fn lemma_apply_concat(h: HostView, p1: Seq<ActView>, p2: Seq<ActView>)
    ensures
        apply_acts(h, p1 + p2) == apply_acts(apply_acts(h, p1), p2),
    decreases p1.len(),
{
    if p1.len() == 0 {
        assert(p1 + p2 =~= p2);
    } else {
        assert((p1 + p2).first() == p1.first());
        assert((p1 + p2).skip(1) =~= p1.skip(1) + p2);
        lemma_apply_concat(apply_act(h, p1.first()), p1.skip(1), p2);
    }
}

/// The simnet name of side `s` of link `j`.
pub open spec fn link_sim(d: Deployment, j: int, s: int) -> Seq<char> {
    d.spec_simnet_link_name(d.links@[j].endpoints[s])
}

/// The vnic name of side `s` of link `j`.
pub open spec fn link_vnic(d: Deployment, j: int, s: int) -> Seq<char> {
    d.spec_vnic_link_name(d.links@[j].endpoints[s])
}

/// The vnic name of external link `k`.
pub open spec fn ext_vnic(d: Deployment, k: int) -> Seq<char> {
    d.spec_vnic_link_name(d.ext_links@[k].endpoint)
}

/// The MAC an endpoint's vnic is created with: only an explicit viona
/// MAC is applied at link creation.
pub open spec fn ep_mac(e: Endpoint) -> Option<Seq<u8>> {
    match e.kind {
        EndpointKind::Viona(Some(m)) => Some(mac_bytes(m@)),
        _ => None,
    }
}

/// An endpoint's MAC string, when present, is well formed.
pub open spec fn ep_mac_ok(e: Endpoint) -> bool {
    match e.kind {
        EndpointKind::Viona(Some(m)) => is_mac(m@),
        _ => true,
    }
}

/// Every endpoint MAC of the deployment is well formed.
pub open spec fn macs_ok(d: Deployment) -> bool {
    &&& forall|j: int|
        0 <= j < d.links@.len() ==> ep_mac_ok((#[trigger] d.links@[j]).endpoints[0]) && ep_mac_ok(
            d.links@[j].endpoints[1],
        )
}

/// The creation actions for side `s` of link `j`: clear any dangling
/// links, create the simnet, create the vnic over it, and switch off
/// promiscuous filtering.
pub open spec fn side_create_acts(d: Deployment, j: int, s: int) -> Seq<ActView> {
    seq![
        ActView::DelVnic(link_vnic(d, j, s)),
        ActView::DelSim(link_sim(d, j, s)),
        ActView::MkSim(link_sim(d, j, s)),
        ActView::MkVnic(link_vnic(d, j, s), link_sim(d, j, s), ep_mac(d.links@[j].endpoints[s])),
        ActView::Promisc(link_vnic(d, j, s)),
    ]
}

/// The creation actions for link `j`: both sides, then the peering.
pub open spec fn link_create_acts(d: Deployment, j: int) -> Seq<ActView> {
    side_create_acts(d, j, 0) + side_create_acts(d, j, 1) + seq![
        ActView::Connect(link_sim(d, j, 0), link_sim(d, j, 1)),
    ]
}

/// The creation actions of the first `t` links, in order.
pub open spec fn links_create_acts(d: Deployment, t: int) -> Seq<ActView>
    decreases t,
{
    if t <= 0 {
        Seq::empty()
    } else {
        links_create_acts(d, t - 1) + link_create_acts(d, t - 1)
    }
}

/// The creation actions for external link `k`: clear any dangling vnic,
/// then create it over the host interface.
pub open spec fn ext_create_acts(d: Deployment, k: int) -> Seq<ActView> {
    seq![
        ActView::DelVnic(ext_vnic(d, k)),
        ActView::MkVnic(ext_vnic(d, k), d.ext_links@[k].host_ifx@, None),
    ]
}

/// The creation actions of the first `t` external links, in order.
pub open spec fn exts_create_acts(d: Deployment, t: int) -> Seq<ActView>
    decreases t,
{
    if t <= 0 {
        Seq::empty()
    } else {
        exts_create_acts(d, t - 1) + ext_create_acts(d, t - 1)
    }
}

/// The whole network creation plan: internal links first, then the
/// external links.
pub open spec fn spec_net_launch_plan(d: Deployment) -> Seq<ActView> {
    links_create_acts(d, d.links@.len() as int) + exts_create_acts(d, d.ext_links@.len() as int)
}

/// The teardown actions for side `s` of link `j`: the vnic, then the
/// simnet.
pub open spec fn side_destroy_acts(d: Deployment, j: int, s: int) -> Seq<ActView> {
    seq![ActView::DelVnic(link_vnic(d, j, s)), ActView::DelSim(link_sim(d, j, s))]
}

/// The teardown actions for link `j`: both sides.
pub open spec fn link_destroy_acts(d: Deployment, j: int) -> Seq<ActView> {
    side_destroy_acts(d, j, 0) + side_destroy_acts(d, j, 1)
}

/// The teardown actions of the first `t` links, in order.
pub open spec fn links_destroy_acts(d: Deployment, t: int) -> Seq<ActView>
    decreases t,
{
    if t <= 0 {
        Seq::empty()
    } else {
        links_destroy_acts(d, t - 1) + link_destroy_acts(d, t - 1)
    }
}

/// The teardown actions of the first `t` external links, in order.
pub open spec fn exts_destroy_acts(d: Deployment, t: int) -> Seq<ActView>
    decreases t,
{
    if t <= 0 {
        Seq::empty()
    } else {
        exts_destroy_acts(d, t - 1) + seq![ActView::DelVnic(ext_vnic(d, t - 1))]
    }
}

/// The whole network teardown plan.
pub open spec fn spec_net_destroy_plan(d: Deployment) -> Seq<ActView> {
    links_destroy_acts(d, d.links@.len() as int) + exts_destroy_acts(d, d.ext_links@.len() as int)
}

/// An action that only deletes.
pub open spec fn act_is_delete(a: ActView) -> bool {
    a is DelVnic || a is DelSim
}

/// A plan of deletes only.
pub open spec fn all_deletes(p: Seq<ActView>) -> bool {
    forall|i: int| 0 <= i < p.len() ==> act_is_delete(#[trigger] p[i])
}

/// The names a delete-only plan removes.
pub open spec fn del_set(p: Seq<ActView>) -> Set<Seq<char>>
    decreases p.len(),
{
    if p.len() == 0 {
        Set::empty()
    } else {
        let tail = del_set(p.skip(1));
        match p.first() {
            ActView::DelVnic(n) => tail.insert(n),
            ActView::DelSim(n) => tail.insert(n),
            _ => tail,
        }
    }
}

/// What a delete-only plan does: exactly the named links go away,
/// together with their backing records and any peering that mentions
/// them.
pub proof fn lemma_apply_deletes(h: HostView, p: Seq<ActView>)
    requires
        all_deletes(p),
    ensures
        apply_acts(h, p).links =~= h.links.difference(del_set(p)),
        apply_acts(h, p).over =~= Map::new(
            |k: Seq<char>| h.over.dom().contains(k) && !del_set(p).contains(k),
            |k: Seq<char>| h.over[k],
        ),
        apply_acts(h, p).peer =~= Map::new(
            |k: Seq<char>|
                h.peer.dom().contains(k) && !del_set(p).contains(k) && !del_set(p).contains(
                    h.peer[k],
                ),
            |k: Seq<char>| h.peer[k],
        ),
    decreases p.len(),
{
    if p.len() > 0 {
        assert(act_is_delete(p[0]));
        let n = match p.first() {
            ActView::DelVnic(m) => m,
            ActView::DelSim(m) => m,
            _ => arbitrary(),
        };
        let h1 = apply_act(h, p.first());
        assert(h1 == drop_link(h, n));
        assert(all_deletes(p.skip(1))) by {
            assert forall|i: int| 0 <= i < p.skip(1).len() implies act_is_delete(
                #[trigger] p.skip(1)[i],
            ) by {
                assert(p.skip(1)[i] == p[i + 1]);
            }
        }
        lemma_apply_deletes(h1, p.skip(1));
        assert(del_set(p) =~= del_set(p.skip(1)).insert(n));
    }
}

/// Applying a delete-only plan twice is the same as applying it once:
/// teardown converges.
pub proof fn lemma_deletes_idempotent(h: HostView, p: Seq<ActView>)
    requires
        all_deletes(p),
    ensures
        apply_acts(apply_acts(h, p), p) == apply_acts(h, p),
{
    let h1 = apply_acts(h, p);
    lemma_apply_deletes(h, p);
    lemma_apply_deletes(h1, p);
    assert(apply_acts(h1, p).links =~= h1.links);
    assert(apply_acts(h1, p).over =~= h1.over);
    assert(apply_acts(h1, p).peer =~= h1.peer);
}

/// The teardown plan only deletes.
pub proof fn lemma_destroy_plan_deletes(d: Deployment)
    ensures
        all_deletes(spec_net_destroy_plan(d)),
{
    lemma_links_destroy_deletes(d, d.links@.len() as int);
    lemma_exts_destroy_deletes(d, d.ext_links@.len() as int);
    let p1 = links_destroy_acts(d, d.links@.len() as int);
    let p2 = exts_destroy_acts(d, d.ext_links@.len() as int);
    assert forall|i: int| 0 <= i < (p1 + p2).len() implies act_is_delete(
        #[trigger] (p1 + p2)[i],
    ) by {
        if i < p1.len() {
            assert((p1 + p2)[i] == p1[i]);
        } else {
            assert((p1 + p2)[i] == p2[i - p1.len()]);
        }
    }
}

proof fn lemma_links_destroy_deletes(d: Deployment, t: int)
    ensures
        all_deletes(links_destroy_acts(d, t)),
    decreases t,
{
    if t > 0 {
        lemma_links_destroy_deletes(d, t - 1);
        let p1 = links_destroy_acts(d, t - 1);
        let p2 = link_destroy_acts(d, t - 1);
        assert forall|i: int| 0 <= i < (p1 + p2).len() implies act_is_delete(
            #[trigger] (p1 + p2)[i],
        ) by {
            if i < p1.len() {
                assert((p1 + p2)[i] == p1[i]);
            } else {
                assert((p1 + p2)[i] == p2[i - p1.len()]);
            }
        }
    }
}

proof fn lemma_exts_destroy_deletes(d: Deployment, t: int)
    ensures
        all_deletes(exts_destroy_acts(d, t)),
    decreases t,
{
    if t > 0 {
        lemma_exts_destroy_deletes(d, t - 1);
        let p1 = exts_destroy_acts(d, t - 1);
        let p2 = seq![ActView::DelVnic(ext_vnic(d, t - 1))];
        assert forall|i: int| 0 <= i < (p1 + p2).len() implies act_is_delete(
            #[trigger] (p1 + p2)[i],
        ) by {
            if i < p1.len() {
                assert((p1 + p2)[i] == p1[i]);
            }
        }
    }
}

/// The teardown plan names both host links of every endpoint.
pub proof fn lemma_destroy_plan_names(d: Deployment, j: int, s: int, k: int)
    ensures
        0 <= j < d.links@.len() && 0 <= s < 2 ==> del_set(spec_net_destroy_plan(d)).contains(
            link_sim(d, j, s),
        ) && del_set(spec_net_destroy_plan(d)).contains(link_vnic(d, j, s)),
        0 <= k < d.ext_links@.len() ==> del_set(spec_net_destroy_plan(d)).contains(ext_vnic(d, k)),
{
    let p1 = links_destroy_acts(d, d.links@.len() as int);
    let p2 = exts_destroy_acts(d, d.ext_links@.len() as int);
    lemma_del_set_concat(p1, p2);
    if 0 <= j < d.links@.len() && 0 <= s < 2 {
        lemma_links_destroy_names(d, d.links@.len() as int, j, s);
    }
    if 0 <= k < d.ext_links@.len() {
        lemma_exts_destroy_names(d, d.ext_links@.len() as int, k);
    }
}

/// The deleted names of a concatenation are the union.
proof fn lemma_del_set_concat(p1: Seq<ActView>, p2: Seq<ActView>)
    ensures
        del_set(p1 + p2) =~= del_set(p1).union(del_set(p2)),
    decreases p1.len(),
{
    if p1.len() == 0 {
        assert(p1 + p2 =~= p2);
    } else {
        assert((p1 + p2).first() == p1.first());
        assert((p1 + p2).skip(1) =~= p1.skip(1) + p2);
        lemma_del_set_concat(p1.skip(1), p2);
    }
}

proof fn lemma_links_destroy_names(d: Deployment, t: int, j: int, s: int)
    requires
        0 <= j < t,
        0 <= s < 2,
    ensures
        del_set(links_destroy_acts(d, t)).contains(link_sim(d, j, s)),
        del_set(links_destroy_acts(d, t)).contains(link_vnic(d, j, s)),
    decreases t,
{
    let p1 = links_destroy_acts(d, t - 1);
    let p2 = link_destroy_acts(d, t - 1);
    lemma_del_set_concat(p1, p2);
    if j < t - 1 {
        lemma_links_destroy_names(d, t - 1, j, s);
    } else {
        assert(del_set(p2).contains(link_sim(d, j, s)) && del_set(p2).contains(
            link_vnic(d, j, s),
        )) by {
            let q1 = side_destroy_acts(d, t - 1, 0);
            let q2 = side_destroy_acts(d, t - 1, 1);
            lemma_del_set_concat(q1, q2);
            assert(del_set(q1) =~= del_set(q1.skip(1)).insert(link_vnic(d, t - 1, 0)));
            assert(del_set(q1.skip(1)) =~= del_set(q1.skip(1).skip(1)).insert(
                link_sim(d, t - 1, 0),
            ));
            assert(del_set(q2) =~= del_set(q2.skip(1)).insert(link_vnic(d, t - 1, 1)));
            assert(del_set(q2.skip(1)) =~= del_set(q2.skip(1).skip(1)).insert(
                link_sim(d, t - 1, 1),
            ));
        }
    }
}

proof fn lemma_exts_destroy_names(d: Deployment, t: int, k: int)
    requires
        0 <= k < t,
    ensures
        del_set(exts_destroy_acts(d, t)).contains(ext_vnic(d, k)),
    decreases t,
{
    let p1 = exts_destroy_acts(d, t - 1);
    let p2 = seq![ActView::DelVnic(ext_vnic(d, t - 1))];
    lemma_del_set_concat(p1, p2);
    if k < t - 1 {
        lemma_exts_destroy_names(d, t - 1, k);
    } else {
        assert(del_set(p2) =~= del_set(p2.skip(1)).insert(ext_vnic(d, t - 1)));
    }
}

/// After teardown, no host link of any endpoint remains: for every link
/// side and every external link, both the simnet and the vnic name are
/// absent from the host namespace, whatever state teardown started from.
pub proof fn lemma_destroy_removes_all(d: Deployment, h: HostView, j: int, s: int, k: int)
    ensures
        0 <= j < d.links@.len() && 0 <= s < 2 ==> !apply_acts(
            h,
            spec_net_destroy_plan(d),
        ).links.contains(link_sim(d, j, s)) && !apply_acts(
            h,
            spec_net_destroy_plan(d),
        ).links.contains(link_vnic(d, j, s)),
        0 <= k < d.ext_links@.len() ==> !apply_acts(h, spec_net_destroy_plan(d)).links.contains(
            ext_vnic(d, k),
        ),
{
    lemma_destroy_plan_deletes(d);
    lemma_apply_deletes(h, spec_net_destroy_plan(d));
    lemma_destroy_plan_names(d, j, s, k);
}

/// Pushing an action extends the plan view by its view.
proof fn lemma_acts_view_push(p: Seq<LinkAction>, a: LinkAction)
    ensures
        acts_view(p.push(a)) =~= acts_view(p).push(act_view(a)),
{
}

/// Plan views distribute over concatenation.
proof fn lemma_acts_view_concat(p1: Seq<LinkAction>, p2: Seq<LinkAction>)
    ensures
        acts_view(p1 + p2) =~= acts_view(p1) + acts_view(p2),
{
}

/// The creation actions for one link, ready to execute: clear dangling
/// links, create each side's simnet and vnic, then peer the simnets.
/// A malformed MAC on either side is a configuration error.
pub fn link_create_plan(d: &Deployment, j: usize) -> (r: Result<Vec<LinkAction>, Error>)
    requires
        d.indices_ok(),
        j < d.links@.len(),
    ensures
        match r {
            Ok(p) => acts_view(p@) == link_create_acts(*d, j as int) && ep_mac_ok(
                d.links@[j as int].endpoints[0],
            ) && ep_mac_ok(d.links@[j as int].endpoints[1]),
            Err(_) => !(ep_mac_ok(d.links@[j as int].endpoints[0]) && ep_mac_ok(
                d.links@[j as int].endpoints[1],
            )),
        },
{
    let mut out: Vec<LinkAction> = Vec::new();
    let mut s: usize = 0;
    while s < 2
        invariant
            0 <= s <= 2,
            j < d.links@.len(),
            d.links@[j as int].endpoints[0].node.index < d.nodes@.len(),
            d.links@[j as int].endpoints[1].node.index < d.nodes@.len(),
            s >= 1 ==> ep_mac_ok(d.links@[j as int].endpoints[0]),
            s >= 2 ==> ep_mac_ok(d.links@[j as int].endpoints[1]),
            acts_view(out@) == if s == 0 {
                Seq::<ActView>::empty()
            } else if s == 1 {
                side_create_acts(*d, j as int, 0)
            } else {
                side_create_acts(*d, j as int, 0) + side_create_acts(*d, j as int, 1)
            },
        decreases 2 - s,
    {
        let e = &d.links[j].endpoints[s];
        let vnic = d.vnic_link_name(e);
        let sim = d.simnet_link_name(e);
        let mac: Option<Vec<u8>> = match &e.kind {
            EndpointKind::Viona(Some(m)) => {
                match parse_mac(m.as_str()) {
                    Some(bytes) => Some(bytes),
                    None => {
                        return Err(
                            Error::Config("malformed MAC address in topology".to_owned()),
                        );
                    },
                }
            },
            _ => None,
        };
        let ghost prev = out@;
        out.push(LinkAction::DeleteVnic { name: vnic.clone() });
        out.push(LinkAction::DeleteSimnet { name: sim.clone() });
        out.push(LinkAction::CreateSimnet { name: sim.clone() });
        out.push(LinkAction::CreateVnic { name: vnic.clone(), over: sim.clone(), mac });
        out.push(LinkAction::SetPromiscOff { name: vnic });
        proof {
            assert(acts_view(out@) =~~= acts_view(prev) + side_create_acts(*d, j as int, s as int));
            if s == 0 {
                assert(acts_view(out@) =~~= side_create_acts(*d, j as int, 0));
            } else {
                assert(acts_view(out@) =~~= side_create_acts(*d, j as int, 0) + side_create_acts(
                    *d,
                    j as int,
                    1,
                ));
            }
        }
        s = s + 1;
    }
    let sim0 = d.simnet_link_name(&d.links[j].endpoints[0]);
    let sim1 = d.simnet_link_name(&d.links[j].endpoints[1]);
    let ghost prev = out@;
    out.push(LinkAction::ConnectSimnets { a: sim0, b: sim1 });
    proof {
        assert(acts_view(out@) =~~= link_create_acts(*d, j as int));
    }
    Ok(out)
}

/// The creation actions for one external link.
pub fn ext_link_create_plan(d: &Deployment, k: usize) -> (r: Vec<LinkAction>)
    requires
        d.indices_ok(),
        k < d.ext_links@.len(),
    ensures
        acts_view(r@) == ext_create_acts(*d, k as int),
{
    let e = &d.ext_links[k].endpoint;
    let vnic = d.vnic_link_name(e);
    let mut out: Vec<LinkAction> = Vec::new();
    out.push(LinkAction::DeleteVnic { name: vnic.clone() });
    out.push(
        LinkAction::CreateVnic { name: vnic, over: d.ext_links[k].host_ifx.clone(), mac: None },
    );
    proof {
        assert(acts_view(out@) =~~= ext_create_acts(*d, k as int));
    }
    out
}

/// The whole network creation plan of the deployment: every internal
/// link in order, then every external link.  A malformed MAC anywhere
/// is a configuration error and nothing is planned.
pub fn net_launch_plan(d: &Deployment) -> (r: Result<Vec<LinkAction>, Error>)
    requires
        d.indices_ok(),
    ensures
        match r {
            Ok(p) => acts_view(p@) == spec_net_launch_plan(*d) && macs_ok(*d),
            Err(_) => !macs_ok(*d),
        },
{
    let mut out: Vec<LinkAction> = Vec::new();
    let mut j: usize = 0;
    let nl = d.links.len();
    while j < nl
        invariant
            0 <= j <= nl,
            d.indices_ok(),
            nl == d.links@.len(),
            acts_view(out@) == links_create_acts(*d, j as int),
            forall|t: int|
                0 <= t < j ==> ep_mac_ok((#[trigger] d.links@[t]).endpoints[0]) && ep_mac_ok(
                    d.links@[t].endpoints[1],
                ),
        decreases nl - j,
    {
        let mut part = match link_create_plan(d, j) {
            Ok(p) => p,
            Err(e) => {
                return Err(e);
            },
        };
        let ghost prev = out@;
        let ghost partv = part@;
        out.append(&mut part);
        proof {
            lemma_acts_view_concat(prev, partv);
            assert(acts_view(out@) =~= links_create_acts(*d, j as int + 1));
        }
        j = j + 1;
    }
    let mut k: usize = 0;
    let ne = d.ext_links.len();
    while k < ne
        invariant
            0 <= k <= ne,
            d.indices_ok(),
            ne == d.ext_links@.len(),
            nl == d.links@.len(),
            macs_ok(*d),
            acts_view(out@) == links_create_acts(*d, nl as int) + exts_create_acts(*d, k as int),
        decreases ne - k,
    {
        let mut part = ext_link_create_plan(d, k);
        let ghost prev = out@;
        let ghost partv = part@;
        out.append(&mut part);
        proof {
            lemma_acts_view_concat(prev, partv);
            assert(acts_view(out@) =~= links_create_acts(*d, nl as int) + exts_create_acts(
                *d,
                k as int + 1,
            ));
        }
        k = k + 1;
    }
    Ok(out)
}

/// The whole network teardown plan of the deployment: for every link
/// side the vnic then the simnet, then every external vnic.  Teardown
/// needs only in-range endpoints, as of a deployment read back from its
/// serialized form.
pub fn net_destroy_plan(d: &Deployment) -> (r: Vec<LinkAction>)
    requires
        d.indices_ok(),
    ensures
        acts_view(r@) == spec_net_destroy_plan(*d),
{
    let mut out: Vec<LinkAction> = Vec::new();
    let mut j: usize = 0;
    let nl = d.links.len();
    while j < nl
        invariant
            0 <= j <= nl,
            d.indices_ok(),
            nl == d.links@.len(),
            acts_view(out@) == links_destroy_acts(*d, j as int),
        decreases nl - j,
    {
        let ghost prev = acts_view(out@);
        let mut s: usize = 0;
        while s < 2
            invariant
                0 <= s <= 2,
                d.indices_ok(),
                j < nl,
                nl == d.links@.len(),
                acts_view(out@) == if s == 0 {
                    prev
                } else if s == 1 {
                    prev + side_destroy_acts(*d, j as int, 0)
                } else {
                    prev + side_destroy_acts(*d, j as int, 0) + side_destroy_acts(*d, j as int, 1)
                },
            decreases 2 - s,
        {
            let e = &d.links[j].endpoints[s];
            let vnic = d.vnic_link_name(e);
            let sim = d.simnet_link_name(e);
            out.push(LinkAction::DeleteVnic { name: vnic });
            out.push(LinkAction::DeleteSimnet { name: sim });
            proof {
                if s == 0 {
                    assert(acts_view(out@) =~~= prev + side_destroy_acts(*d, j as int, 0));
                } else {
                    assert(acts_view(out@) =~~= prev + side_destroy_acts(*d, j as int, 0)
                        + side_destroy_acts(*d, j as int, 1));
                }
            }
            s = s + 1;
        }
        proof {
            assert(acts_view(out@) =~~= links_destroy_acts(*d, j as int + 1));
        }
        j = j + 1;
    }
    let mut k: usize = 0;
    let ne = d.ext_links.len();
    while k < ne
        invariant
            0 <= k <= ne,
            d.indices_ok(),
            ne == d.ext_links@.len(),
            nl == d.links@.len(),
            acts_view(out@) == links_destroy_acts(*d, nl as int) + exts_destroy_acts(*d, k as int),
        decreases ne - k,
    {
        let e = &d.ext_links[k].endpoint;
        let vnic = d.vnic_link_name(e);
        let ghost prev = out@;
        let act = LinkAction::DeleteVnic { name: vnic };
        let ghost actg = act;
        out.push(act);
        proof {
            lemma_acts_view_push(prev, actg);
            assert(acts_view(out@) =~~= links_destroy_acts(*d, nl as int) + exts_destroy_acts(
                *d,
                k as int + 1,
            ));
        }
        k = k + 1;
    }
    out
}

/// The link names an action creates, deletes or re-peers.
pub open spec fn act_touches(a: ActView) -> Set<Seq<char>> {
    match a {
        ActView::DelVnic(n) => Set::empty().insert(n),
        ActView::DelSim(n) => Set::empty().insert(n),
        ActView::MkSim(n) => Set::empty().insert(n),
        ActView::MkVnic(n, _, _) => Set::empty().insert(n),
        ActView::Promisc(n) => Set::empty().insert(n),
        ActView::Connect(a, b) => Set::empty().insert(a).insert(b),
    }
}

/// The link names a plan touches.
pub open spec fn plan_touches(p: Seq<ActView>) -> Set<Seq<char>>
    decreases p.len(),
{
    if p.len() == 0 {
        Set::empty()
    } else {
        act_touches(p.first()).union(plan_touches(p.skip(1)))
    }
}

/// The touched names of a concatenation are the union.
proof fn lemma_touches_concat(p1: Seq<ActView>, p2: Seq<ActView>)
    ensures
        plan_touches(p1 + p2) =~= plan_touches(p1).union(plan_touches(p2)),
    decreases p1.len(),
{
    if p1.len() == 0 {
        assert(p1 + p2 =~= p2);
    } else {
        assert((p1 + p2).first() == p1.first());
        assert((p1 + p2).skip(1) =~= p1.skip(1) + p2);
        lemma_touches_concat(p1.skip(1), p2);
    }
}

/// A plan leaves untouched names exactly as they were: membership, the
/// backing record, and a peering between two untouched names all
/// survive.
proof fn lemma_plan_frame(h: HostView, p: Seq<ActView>, x: Seq<char>, y: Seq<char>)
    requires
        !plan_touches(p).contains(x),
        !plan_touches(p).contains(y),
    ensures
        apply_acts(h, p).links.contains(x) == h.links.contains(x),
        apply_acts(h, p).over.dom().contains(x) == h.over.dom().contains(x),
        h.over.dom().contains(x) ==> apply_acts(h, p).over[x] == h.over[x],
        (h.peer.dom().contains(x) && h.peer[x] == y) ==> (apply_acts(h, p).peer.dom().contains(x)
            && apply_acts(h, p).peer[x] == y),
    decreases p.len(),
{
    if p.len() > 0 {
        let a = p.first();
        assert(!act_touches(a).contains(x));
        assert(!act_touches(a).contains(y));
        let h1 = apply_act(h, a);
        assert(h1.links.contains(x) == h.links.contains(x));
        lemma_plan_frame(h1, p.skip(1), x, y);
    }
}

/// All resources of link `j` stand: both simnets exist and are peered
/// with each other, and both vnics exist over their simnets.
pub open spec fn link_ok_in(h: HostView, d: Deployment, j: int) -> bool {
    &&& h.links.contains(link_sim(d, j, 0))
    &&& h.links.contains(link_sim(d, j, 1))
    &&& h.peer.dom().contains(link_sim(d, j, 0)) && h.peer[link_sim(d, j, 0)] == link_sim(d, j, 1)
    &&& h.peer.dom().contains(link_sim(d, j, 1)) && h.peer[link_sim(d, j, 1)] == link_sim(d, j, 0)
    &&& h.links.contains(link_vnic(d, j, 0))
    &&& h.over.dom().contains(link_vnic(d, j, 0)) && h.over[link_vnic(d, j, 0)] == link_sim(d, j, 0)
    &&& h.links.contains(link_vnic(d, j, 1))
    &&& h.over.dom().contains(link_vnic(d, j, 1)) && h.over[link_vnic(d, j, 1)] == link_sim(d, j, 1)
}

/// External link `k`'s vnic stands over its host interface.
pub open spec fn ext_ok_in(h: HostView, d: Deployment, k: int) -> bool {
    &&& h.links.contains(ext_vnic(d, k))
    &&& h.over.dom().contains(ext_vnic(d, k)) && h.over[ext_vnic(d, k)] == d.ext_links@[k].host_ifx@
}

/// The four host names of link `j` are pairwise distinct, and distinct
/// from those of any other link side or external link.
proof fn lemma_coordinate_names_distinct(d: Deployment, j: int, s: int, j2: int, s2: int)
    requires
        d.wf(),
        0 <= j < d.links@.len(),
        0 <= s < 2,
        0 <= j2 < d.links@.len(),
        0 <= s2 < 2,
        (j, s) != (j2, s2),
    ensures
        link_sim(d, j, s) != link_sim(d, j2, s2),
        link_vnic(d, j, s) != link_vnic(d, j2, s2),
        link_sim(d, j, s) != link_vnic(d, j2, s2),
        link_vnic(d, j, s) != link_sim(d, j2, s2),
{
    lemma_all_endpoints_link(d, j, s);
    lemma_all_endpoints_link(d, j2, s2);
    lemma_endpoint_names_distinct(d, 2 * j + s, 2 * j2 + s2);
    lemma_endpoint_names_distinct(d, 2 * j2 + s2, 2 * j + s);
}

/// A simnet name never equals a vnic name of the same deployment.
proof fn lemma_sim_not_vnic(d: Deployment, e1: Endpoint, e2: Endpoint)
    ensures
        d.spec_simnet_link_name(e1) != d.spec_vnic_link_name(e2),
{
    crate::names::lemma_simnet_vnic_distinct(
        d.name@,
        d.nodes@[e1.node.index as int].name@,
        crate::topology::kind_tag(e1.kind),
        e1.index as nat,
        d.nodes@[e2.node.index as int].name@,
        crate::topology::kind_tag(e2.kind),
        e2.index as nat,
    );
}

/// The names touched by link `j`'s creation actions: its two simnets
/// and its two vnics.
proof fn lemma_link_acts_touches(d: Deployment, j: int)
    ensures
        plan_touches(link_create_acts(d, j)) =~= Set::empty().insert(link_sim(d, j, 0)).insert(
            link_sim(d, j, 1),
        ).insert(link_vnic(d, j, 0)).insert(link_vnic(d, j, 1)),
{
    let q0 = side_create_acts(d, j, 0);
    let q1 = side_create_acts(d, j, 1);
    let c = seq![ActView::Connect(link_sim(d, j, 0), link_sim(d, j, 1))];
    lemma_touches_concat(q0 + q1, c);
    lemma_touches_concat(q0, q1);
    lemma_side_acts_touches(d, j, 0);
    lemma_side_acts_touches(d, j, 1);
    assert(plan_touches(c) =~= act_touches(c.first()).union(plan_touches(c.skip(1))));
}

proof fn lemma_side_acts_touches(d: Deployment, j: int, s: int)
    ensures
        plan_touches(side_create_acts(d, j, s)) =~= Set::empty().insert(link_sim(d, j, s)).insert(
            link_vnic(d, j, s),
        ),
{
    let p = side_create_acts(d, j, s);
    assert(plan_touches(p) =~= act_touches(p[0]).union(plan_touches(p.skip(1))));
    assert(plan_touches(p.skip(1)) =~= act_touches(p[1]).union(plan_touches(p.skip(1).skip(1))));
    assert(p.skip(1)[0] == p[1]);
    assert(plan_touches(p.skip(1).skip(1)) =~= act_touches(p[2]).union(
        plan_touches(p.skip(1).skip(1).skip(1)),
    ));
    assert(p.skip(1).skip(1)[0] == p[2]);
    assert(plan_touches(p.skip(1).skip(1).skip(1)) =~= act_touches(p[3]).union(
        plan_touches(p.skip(1).skip(1).skip(1).skip(1)),
    ));
    assert(p.skip(1).skip(1).skip(1)[0] == p[3]);
    assert(plan_touches(p.skip(1).skip(1).skip(1).skip(1)) =~= act_touches(p[4]).union(
        plan_touches(p.skip(1).skip(1).skip(1).skip(1).skip(1)),
    ));
    assert(p.skip(1).skip(1).skip(1).skip(1)[0] == p[4]);
    assert(p.skip(1).skip(1).skip(1).skip(1).skip(1).len() == 0);
}

/// The names touched by external link `k`'s creation actions: its vnic.
proof fn lemma_ext_acts_touches(d: Deployment, k: int)
    ensures
        plan_touches(ext_create_acts(d, k)) =~= Set::empty().insert(ext_vnic(d, k)),
{
    let p = ext_create_acts(d, k);
    assert(plan_touches(p) =~= act_touches(p[0]).union(plan_touches(p.skip(1))));
    assert(plan_touches(p.skip(1)) =~= act_touches(p[1]).union(plan_touches(p.skip(1).skip(1))));
    assert(p.skip(1)[0] == p[1]);
    assert(p.skip(1).skip(1).len() == 0);
}


/// Unroll the application of a two-action plan.
proof fn lemma_apply2(h: HostView, p: Seq<ActView>)
    requires
        p.len() == 2,
    ensures
        apply_acts(h, p) == apply_act(apply_act(h, p[0]), p[1]),
{
    let h1 = apply_act(h, p[0]);
    assert(apply_acts(h, p) == apply_acts(h1, p.skip(1)));
    assert(p.skip(1).first() == p[1]);
    assert(apply_acts(h1, p.skip(1)) == apply_acts(apply_act(h1, p[1]), p.skip(1).skip(1)));
    assert(p.skip(1).skip(1).len() == 0);
    assert(apply_acts(apply_act(h1, p[1]), p.skip(1).skip(1)) == apply_act(h1, p[1]));
}

/// Unroll the application of a five-action plan.
proof fn lemma_apply5(h: HostView, p: Seq<ActView>)
    requires
        p.len() == 5,
    ensures
        apply_acts(h, p) == apply_act(
            apply_act(apply_act(apply_act(apply_act(h, p[0]), p[1]), p[2]), p[3]),
            p[4],
        ),
{
    let h1 = apply_act(h, p[0]);
    let h2 = apply_act(h1, p[1]);
    let h3 = apply_act(h2, p[2]);
    let h4 = apply_act(h3, p[3]);
    let s1 = p.skip(1);
    let s2 = s1.skip(1);
    let s3 = s2.skip(1);
    let s4 = s3.skip(1);
    let s5 = s4.skip(1);
    assert(apply_acts(h, p) == apply_acts(h1, s1));
    assert(s1.first() == p[1]);
    assert(apply_acts(h1, s1) == apply_acts(h2, s2));
    assert(s2.first() == p[2]);
    assert(apply_acts(h2, s2) == apply_acts(h3, s3));
    assert(s3.first() == p[3]);
    assert(apply_acts(h3, s3) == apply_acts(h4, s4));
    assert(s4.first() == p[4]);
    assert(apply_acts(h4, s4) == apply_acts(apply_act(h4, p[4]), s5));
    assert(s5.len() == 0);
}

/// Applying link `j`'s creation actions establishes all its resources,
/// from any starting state.
proof fn lemma_link_acts_establish(h: HostView, d: Deployment, j: int)
    requires
        d.wf(),
        0 <= j < d.links@.len(),
    ensures
        link_ok_in(apply_acts(h, link_create_acts(d, j)), d, j),
{
    let q0 = side_create_acts(d, j, 0);
    let q1 = side_create_acts(d, j, 1);
    let c = seq![ActView::Connect(link_sim(d, j, 0), link_sim(d, j, 1))];
    lemma_apply_concat(h, q0 + q1, c);
    lemma_apply_concat(h, q0, q1);
    lemma_coordinate_names_distinct(d, j, 0, j, 1);
    lemma_all_endpoints_link(d, j, 0);
    lemma_all_endpoints_link(d, j, 1);
    lemma_sim_not_vnic(d, d.links@[j].endpoints[0], d.links@[j].endpoints[0]);
    lemma_sim_not_vnic(d, d.links@[j].endpoints[0], d.links@[j].endpoints[1]);
    lemma_sim_not_vnic(d, d.links@[j].endpoints[1], d.links@[j].endpoints[0]);
    lemma_sim_not_vnic(d, d.links@[j].endpoints[1], d.links@[j].endpoints[1]);
    let h0 = apply_acts(h, q0);
    lemma_apply5(h, q0);
    assert(h0.links.contains(link_sim(d, j, 0)));
    assert(h0.links.contains(link_vnic(d, j, 0)));
    assert(h0.over.dom().contains(link_vnic(d, j, 0)) && h0.over[link_vnic(d, j, 0)] == link_sim(
        d,
        j,
        0,
    ));
    let h1 = apply_acts(h0, q1);
    lemma_apply5(h0, q1);
    assert(h1.links.contains(link_sim(d, j, 1)));
    assert(h1.links.contains(link_vnic(d, j, 1)));
    assert(h1.over.dom().contains(link_vnic(d, j, 1)) && h1.over[link_vnic(d, j, 1)] == link_sim(
        d,
        j,
        1,
    ));
    assert(h1.links.contains(link_sim(d, j, 0)));
    assert(h1.links.contains(link_vnic(d, j, 0)));
    assert(h1.over.dom().contains(link_vnic(d, j, 0)) && h1.over[link_vnic(d, j, 0)] == link_sim(
        d,
        j,
        0,
    ));
    let h2 = apply_acts(h1, c);
    assert(h2 == apply_acts(apply_act(h1, c.first()), c.skip(1)));
    assert(c.skip(1).len() == 0);
    assert(apply_acts(apply_act(h1, c.first()), c.skip(1)) == apply_act(h1, c.first()));
}

/// Applying the plans of the first `t` links establishes each of them,
/// since every later link's actions touch only its own, distinct names.
proof fn lemma_links_plan_establish(d: Deployment, h: HostView, t: int)
    requires
        d.wf(),
        0 <= t <= d.links@.len(),
    ensures
        forall|j: int| 0 <= j < t ==> link_ok_in(apply_acts(h, links_create_acts(d, t)), d, j),
    decreases t,
{
    if t > 0 {
        let p1 = links_create_acts(d, t - 1);
        let p2 = link_create_acts(d, t - 1);
        lemma_apply_concat(h, p1, p2);
        let h1 = apply_acts(h, p1);
        let h2 = apply_acts(h1, p2);
        lemma_links_plan_establish(d, h, t - 1);
        lemma_link_acts_establish(h1, d, t - 1);
        lemma_link_acts_touches(d, t - 1);
        assert forall|j: int| 0 <= j < t implies link_ok_in(h2, d, j) by {
            if j < t - 1 {
                assert(link_ok_in(h1, d, j));
                lemma_coordinate_names_distinct(d, j, 0, t - 1, 0);
                lemma_coordinate_names_distinct(d, j, 0, t - 1, 1);
                lemma_coordinate_names_distinct(d, j, 1, t - 1, 0);
                lemma_coordinate_names_distinct(d, j, 1, t - 1, 1);
                assert(!plan_touches(p2).contains(link_sim(d, j, 0)));
                assert(!plan_touches(p2).contains(link_sim(d, j, 1)));
                assert(!plan_touches(p2).contains(link_vnic(d, j, 0)));
                assert(!plan_touches(p2).contains(link_vnic(d, j, 1)));
                lemma_plan_frame(h1, p2, link_sim(d, j, 0), link_sim(d, j, 1));
                lemma_plan_frame(h1, p2, link_sim(d, j, 1), link_sim(d, j, 0));
                lemma_plan_frame(h1, p2, link_vnic(d, j, 0), link_sim(d, j, 0));
                lemma_plan_frame(h1, p2, link_vnic(d, j, 1), link_sim(d, j, 1));
                assert(h2.links.contains(link_sim(d, j, 0)));
                assert(h2.links.contains(link_sim(d, j, 1)));
                assert(h2.peer.dom().contains(link_sim(d, j, 0)) && h2.peer[link_sim(d, j, 0)]
                    == link_sim(d, j, 1));
                assert(h2.peer.dom().contains(link_sim(d, j, 1)) && h2.peer[link_sim(d, j, 1)]
                    == link_sim(d, j, 0));
                assert(h2.links.contains(link_vnic(d, j, 0)));
                assert(h2.over.dom().contains(link_vnic(d, j, 0)) && h2.over[link_vnic(d, j, 0)]
                    == link_sim(d, j, 0));
                assert(h2.links.contains(link_vnic(d, j, 1)));
                assert(h2.over.dom().contains(link_vnic(d, j, 1)) && h2.over[link_vnic(d, j, 1)]
                    == link_sim(d, j, 1));
            } else {
                assert(link_ok_in(apply_acts(h1, p2), d, t - 1));
            }
        }
    }
}

/// A link side's names are distinct from an external link's vnic name.
proof fn lemma_link_ext_names_distinct(d: Deployment, j: int, s: int, k: int)
    requires
        d.wf(),
        0 <= j < d.links@.len(),
        0 <= s < 2,
        0 <= k < d.ext_links@.len(),
    ensures
        link_sim(d, j, s) != ext_vnic(d, k),
        link_vnic(d, j, s) != ext_vnic(d, k),
{
    lemma_all_endpoints_link(d, j, s);
    lemma_all_endpoints_ext(d, k);
    lemma_endpoint_names_distinct(d, 2 * j + s, 2 * d.links@.len() + k);
    lemma_sim_not_vnic(d, d.links@[j].endpoints[s], d.ext_links@[k].endpoint);
}

/// Two external links' vnic names are distinct.
proof fn lemma_ext_ext_names_distinct(d: Deployment, k1: int, k2: int)
    requires
        d.wf(),
        0 <= k1 < d.ext_links@.len(),
        0 <= k2 < d.ext_links@.len(),
        k1 != k2,
    ensures
        ext_vnic(d, k1) != ext_vnic(d, k2),
{
    lemma_all_endpoints_ext(d, k1);
    lemma_all_endpoints_ext(d, k2);
    lemma_endpoint_names_distinct(d, 2 * d.links@.len() + k1, 2 * d.links@.len() + k2);
}

/// No host interface of an external link is one of the deployment's own
/// link names, and each is present on the host.
pub open spec fn host_ifxs_ok(d: Deployment, h: HostView) -> bool {
    forall|k: int|
        0 <= k < d.ext_links@.len() ==> {
            &&& h.links.contains((#[trigger] d.ext_links@[k]).host_ifx@)
            &&& (forall|j: int, s: int|
                0 <= j < d.links@.len() && 0 <= s < 2 ==> d.ext_links@[k].host_ifx@ != link_sim(
                    d,
                    j,
                    s,
                ) && d.ext_links@[k].host_ifx@ != link_vnic(d, j, s))
            &&& (forall|k2: int|
                0 <= k2 < d.ext_links@.len() ==> d.ext_links@[k].host_ifx@ != ext_vnic(d, k2))
        }
}

/// Applying the plans of the first `t` external links establishes each
/// of them and preserves everything whose names they do not touch.
proof fn lemma_exts_plan_establish(d: Deployment, h: HostView, t: int)
    requires
        d.wf(),
        0 <= t <= d.ext_links@.len(),
    ensures
        forall|k: int| 0 <= k < t ==> ext_ok_in(apply_acts(h, exts_create_acts(d, t)), d, k),
        forall|j: int|
            0 <= j < d.links@.len() && link_ok_in(h, d, j) ==> link_ok_in(
                apply_acts(h, exts_create_acts(d, t)),
                d,
                j,
            ),
        forall|n: Seq<char>|
            h.links.contains(n) && (forall|k: int|
                0 <= k < d.ext_links@.len() ==> n != ext_vnic(d, k)) ==> apply_acts(
                h,
                exts_create_acts(d, t),
            ).links.contains(n),
    decreases t,
{
    if t > 0 {
        let p1 = exts_create_acts(d, t - 1);
        let p2 = ext_create_acts(d, t - 1);
        lemma_apply_concat(h, p1, p2);
        let h1 = apply_acts(h, p1);
        let h2 = apply_acts(h1, p2);
        lemma_exts_plan_establish(d, h, t - 1);
        lemma_ext_acts_touches(d, t - 1);
        // External link t-1 stands after its own two actions.
        lemma_apply2(h1, p2);
        assert(ext_ok_in(h2, d, t - 1));
        // Everything established earlier survives: the only touched name
        // is external vnic t-1, distinct from every other name.
        assert forall|k: int| 0 <= k < t - 1 implies ext_ok_in(h2, d, k) by {
            assert(ext_ok_in(h1, d, k));
            lemma_ext_ext_names_distinct(d, k, t - 1);
            assert(!plan_touches(p2).contains(ext_vnic(d, k)));
            lemma_plan_frame(h1, p2, ext_vnic(d, k), ext_vnic(d, k));
            assert(h2.links.contains(ext_vnic(d, k)));
            assert(h2.over.dom().contains(ext_vnic(d, k)) && h2.over[ext_vnic(d, k)]
                == d.ext_links@[k].host_ifx@);
        }
        assert forall|j: int| 0 <= j < d.links@.len() && link_ok_in(h, d, j) implies link_ok_in(
            h2,
            d,
            j,
        ) by {
            lemma_link_ext_names_distinct(d, j, 0, t - 1);
            lemma_link_ext_names_distinct(d, j, 1, t - 1);
            lemma_plan_frame(h1, p2, link_sim(d, j, 0), link_sim(d, j, 1));
            lemma_plan_frame(h1, p2, link_sim(d, j, 1), link_sim(d, j, 0));
            lemma_plan_frame(h1, p2, link_vnic(d, j, 0), link_sim(d, j, 0));
            lemma_plan_frame(h1, p2, link_vnic(d, j, 1), link_sim(d, j, 1));
        }
        assert forall|n: Seq<char>|
            h.links.contains(n) && (forall|k: int|
                0 <= k < d.ext_links@.len() ==> n != ext_vnic(d, k)) implies h2.links.contains(
            n,
        ) by {
            assert(h1.links.contains(n));
            lemma_plan_frame(h1, p2, n, n);
        }
    }
}

/// Links created by earlier internal-link actions survive the creation
/// of later internal links, and so does any name the plan never touches.
proof fn lemma_links_plan_preserve_fresh(d: Deployment, h: HostView, t: int, n: Seq<char>)
    requires
        d.wf(),
        0 <= t <= d.links@.len(),
        forall|j: int, s: int|
            0 <= j < d.links@.len() && 0 <= s < 2 ==> n != link_sim(d, j, s) && n != link_vnic(
                d,
                j,
                s,
            ),
    ensures
        apply_acts(h, links_create_acts(d, t)).links.contains(n) == h.links.contains(n),
    decreases t,
{
    if t > 0 {
        let p1 = links_create_acts(d, t - 1);
        let p2 = link_create_acts(d, t - 1);
        lemma_apply_concat(h, p1, p2);
        lemma_links_plan_preserve_fresh(d, h, t - 1, n);
        lemma_link_acts_touches(d, t - 1);
        lemma_plan_frame(apply_acts(h, p1), p2, n, n);
    }
}

/// The network launch law: after applying the launch plan of a
/// well-formed deployment to any host, every internal link has both
/// simnets present and peered with each other and both vnics present
/// over their simnets; every external link has its vnic present over
/// its host interface; and, when the host interfaces exist beforehand
/// under names of their own, they are still present.
pub proof fn lemma_launch_establishes(d: Deployment, h: HostView)
    requires
        d.wf(),
    ensures
        forall|j: int|
            0 <= j < d.links@.len() ==> link_ok_in(apply_acts(h, spec_net_launch_plan(d)), d, j),
        forall|k: int|
            0 <= k < d.ext_links@.len() ==> ext_ok_in(apply_acts(h, spec_net_launch_plan(d)), d, k),
        host_ifxs_ok(d, h) ==> forall|k: int|
            0 <= k < d.ext_links@.len() ==> apply_acts(h, spec_net_launch_plan(d)).links.contains(
                (#[trigger] d.ext_links@[k]).host_ifx@,
            ),
{
    let lp = links_create_acts(d, d.links@.len() as int);
    let ep = exts_create_acts(d, d.ext_links@.len() as int);
    lemma_apply_concat(h, lp, ep);
    let h1 = apply_acts(h, lp);
    lemma_links_plan_establish(d, h, d.links@.len() as int);
    lemma_exts_plan_establish(d, h1, d.ext_links@.len() as int);
    assert forall|j: int|
        0 <= j < d.links@.len() implies link_ok_in(
        apply_acts(h, spec_net_launch_plan(d)),
        d,
        j,
    ) by {
        assert(link_ok_in(h1, d, j));
        assert(link_ok_in(apply_acts(h1, ep), d, j));
    }
    if host_ifxs_ok(d, h) {
        assert forall|k: int|
            0 <= k < d.ext_links@.len() implies apply_acts(
            h,
            spec_net_launch_plan(d),
        ).links.contains((#[trigger] d.ext_links@[k]).host_ifx@) by {
            lemma_links_plan_preserve_fresh(
                d,
                h,
                d.links@.len() as int,
                d.ext_links@[k].host_ifx@,
            );
            assert(h1.links.contains(d.ext_links@[k].host_ifx@));
        }
    }
}

/// Teardown converges: running it a second time changes nothing.
pub proof fn lemma_destroy_idempotent(d: Deployment, h: HostView)
    ensures
        apply_acts(apply_acts(h, spec_net_destroy_plan(d)), spec_net_destroy_plan(d))
            == apply_acts(h, spec_net_destroy_plan(d)),
{
    lemma_destroy_plan_deletes(d);
    lemma_deletes_idempotent(h, spec_net_destroy_plan(d));
}

} // verus!
