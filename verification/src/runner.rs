//! The deployment builder and runtime configuration.
//!
//! A `Runner` owns a deployment under construction together with the
//! run-time settings the driver needs: the working directory, the root
//! dataset, and an optional custom hypervisor binary.  Every builder
//! operation preserves the deployment's well-formedness, which is what
//! the naming and accounting laws are proved from.

use vstd::prelude::*;
use vstd::string::*;

use crate::errors::Error;
use crate::names::is_name;
use crate::topology::{
    all_endpoints, ext_endpoints, link_endpoints, radix_sum, Deployment, Endpoint, EndpointKind,
    ExtLink, GuestMountMechanism, Link, LinkRef, Mount, Node, NodeRef, PrimaryDiskBacking,
    SmbiosInfo,
};

verus! {

/// The node `n` with its radix replaced by `r`.
pub open spec fn node_with_radix(n: Node, r: usize) -> Node {
    Node { radix: r, ..n }
}

/// Appending a link contributes its two endpoints, in order, at the end.
proof fn lemma_link_endpoints_push(links: Seq<Link>, l: Link)
    ensures
        link_endpoints(links.push(l)) == link_endpoints(links) + seq![
            l.endpoints[0],
            l.endpoints[1],
        ],
{
    assert(links.push(l).drop_last() =~= links);
    assert(links.push(l).last() == l);
    assert(link_endpoints(links.push(l)) =~= link_endpoints(links) + seq![
        l.endpoints[0],
        l.endpoints[1],
    ]);
}

/// Appending an external link contributes its endpoint at the end.
proof fn lemma_ext_endpoints_push(exts: Seq<ExtLink>, x: ExtLink)
    ensures
        ext_endpoints(exts.push(x)) == ext_endpoints(exts) + seq![x.endpoint],
{
    assert(exts.push(x).drop_last() =~= exts);
    assert(exts.push(x).last() == x);
    assert(ext_endpoints(exts.push(x)) =~= ext_endpoints(exts) + seq![x.endpoint]);
}

/// Updating one node changes the radix sum by the radix difference.
proof fn lemma_radix_sum_update(nodes: Seq<Node>, i: int, n2: Node)
    requires
        0 <= i < nodes.len(),
    ensures
        radix_sum(nodes.update(i, n2)) == radix_sum(nodes) - nodes[i].radix + n2.radix,
    decreases nodes.len(),
{
    if i == nodes.len() - 1 {
        assert(nodes.update(i, n2).drop_last() =~= nodes.drop_last());
        assert(nodes.update(i, n2).last() == n2);
    } else {
        assert(nodes.update(i, n2).drop_last() =~= nodes.drop_last().update(i, n2));
        assert(nodes.update(i, n2).last() == nodes.last());
        lemma_radix_sum_update(nodes.drop_last(), i, n2);
    }
}

/// Appending a node adds its radix to the radix sum.
proof fn lemma_radix_sum_push(nodes: Seq<Node>, n: Node)
    ensures
        radix_sum(nodes.push(n)) == radix_sum(nodes) + n.radix,
{
    assert(nodes.push(n).drop_last() =~= nodes);
    assert(nodes.push(n).last() == n);
}

/// Two endpoints that do not share a (node, index) pair.
pub open spec fn ep_pair_neq(e1: Endpoint, e2: Endpoint) -> bool {
    !(e1.node.index == e2.node.index && e1.index == e2.index)
}

/// No two endpoints of the sequence share a (node, index) pair.
pub open spec fn eps_distinct(eps: Seq<Endpoint>) -> bool {
    forall|k1: int, k2: int|
        #![trigger eps[k1], eps[k2]]
        0 <= k1 < k2 < eps.len() ==> ep_pair_neq(eps[k1], eps[k2])
}

/// Inserting two endpoints between the link block and the external block
/// keeps the endpoints pairwise distinct, provided the new endpoints are
/// distinct from everything present and from each other.
proof fn lemma_eps_insert_two(l: Seq<Endpoint>, e: Seq<Endpoint>, ea: Endpoint, eb: Endpoint)
    requires
        eps_distinct(l + e),
        forall|m: int| 0 <= m < (l + e).len() ==> ep_pair_neq(ea, #[trigger] (l + e)[m]),
        forall|m: int| 0 <= m < (l + e).len() ==> ep_pair_neq(eb, #[trigger] (l + e)[m]),
        ep_pair_neq(ea, eb),
    ensures
        eps_distinct(l + seq![ea, eb] + e),
{
    let old_eps = l + e;
    let new_eps = l + seq![ea, eb] + e;
    assert forall|k1: int, k2: int|
        #![trigger new_eps[k1], new_eps[k2]]
        0 <= k1 < k2 < new_eps.len() implies ep_pair_neq(new_eps[k1], new_eps[k2]) by {
        let ll = l.len() as int;
        let o1: int = if k1 < ll {
            k1
        } else {
            k1 - 2
        };
        let o2: int = if k2 < ll {
            k2
        } else {
            k2 - 2
        };
        if k1 < ll || k1 >= ll + 2 {
            assert(new_eps[k1] == old_eps[o1]);
        }
        if k2 < ll || k2 >= ll + 2 {
            assert(new_eps[k2] == old_eps[o2]);
        }
        if k1 == ll {
            assert(new_eps[k1] == ea);
        }
        if k1 == ll + 1 {
            assert(new_eps[k1] == eb);
        }
        if k2 == ll {
            assert(new_eps[k2] == ea);
        }
        if k2 == ll + 1 {
            assert(new_eps[k2] == eb);
        }
        if (k1 < ll || k1 >= ll + 2) && (k2 < ll || k2 >= ll + 2) {
            assert(o1 < o2);
            assert(ep_pair_neq(old_eps[o1], old_eps[o2]));
        }
    }
}

/// Appending one endpoint at the end of the external block keeps the
/// endpoints pairwise distinct, provided it is distinct from everything
/// present.
proof fn lemma_eps_append_one(l: Seq<Endpoint>, e: Seq<Endpoint>, x: Endpoint)
    requires
        eps_distinct(l + e),
        forall|m: int| 0 <= m < (l + e).len() ==> ep_pair_neq(x, #[trigger] (l + e)[m]),
    ensures
        eps_distinct(l + (e + seq![x])),
{
    let old_eps = l + e;
    let new_eps = l + (e + seq![x]);
    assert(new_eps =~= old_eps + seq![x]);
    assert forall|k1: int, k2: int|
        #![trigger new_eps[k1], new_eps[k2]]
        0 <= k1 < k2 < new_eps.len() implies ep_pair_neq(new_eps[k1], new_eps[k2]) by {
        if k2 < old_eps.len() {
            assert(new_eps[k1] == old_eps[k1]);
            assert(new_eps[k2] == old_eps[k2]);
            assert(ep_pair_neq(old_eps[k1], old_eps[k2]));
        } else {
            assert(new_eps[k2] == x);
            assert(new_eps[k1] == old_eps[k1]);
            assert(ep_pair_neq(x, old_eps[k1]));
        }
    }
}

/// The runner: a deployment under construction plus the settings the
/// driver uses to launch it.
pub struct Runner {
    /// The deployment that describes the topology.
    pub deployment: Deployment,
    /// When set, the deployment is not destroyed when the runner is
    /// dropped by the driver.
    pub persistent: bool,
    /// An explicit hypervisor binary to use instead of the cached one.
    pub custom_propolis_binary: Option<String>,
    /// The root dataset used for storage.
    pub dataset: String,
    /// The working directory of this deployment.
    pub falcon_dir: String,
}

impl Runner {
    /// Create a runner for a new, empty deployment.
    pub fn new(name: &str) -> (r: Runner)
        requires
            is_name(name@),
        ensures
            r.deployment.wf(),
            r.deployment.name@ == name@,
            r.deployment.nodes@.len() == 0,
            r.deployment.links@.len() == 0,
            r.deployment.ext_links@.len() == 0,
            !r.persistent,
            r.custom_propolis_binary is None,
            r.dataset@ == "rpool/falcon"@,
            r.falcon_dir@ == ".falcon"@,
    {
        Runner {
            deployment: Deployment::new(name),
            persistent: false,
            custom_propolis_binary: None,
            dataset: "rpool/falcon".to_owned(),
            falcon_dir: ".falcon".to_owned(),
        }
    }

    /// Set the working directory, falling back to the default when absent.
    pub fn set_falcon_dir(&mut self, dir: Option<String>)
        ensures
            final(self).deployment == old(self).deployment,
            final(self).persistent == old(self).persistent,
            final(self).custom_propolis_binary == old(self).custom_propolis_binary,
            final(self).dataset == old(self).dataset,
            final(self).falcon_dir@ == match dir {
                Some(d) => d@,
                None => ".falcon"@,
            },
    {
        match dir {
            Some(d) => {
                self.falcon_dir = d;
            },
            None => {
                self.falcon_dir = ".falcon".to_owned();
            },
        }
    }

    /// The working directory of this deployment.
    pub fn get_falcon_dir(&self) -> (r: String)
        ensures
            r@ == self.falcon_dir@,
    {
        self.falcon_dir.clone()
    }

    /// Set (or clear) the explicit hypervisor binary path.
    pub fn set_propolis_binary(&mut self, path: Option<String>)
        ensures
            final(self).deployment == old(self).deployment,
            final(self).persistent == old(self).persistent,
            final(self).dataset == old(self).dataset,
            final(self).falcon_dir == old(self).falcon_dir,
            match path {
                Some(p) => final(self).custom_propolis_binary matches Some(q) && q@ == p@,
                None => final(self).custom_propolis_binary is None,
            },
    {
        self.custom_propolis_binary = path;
    }

    /// The hypervisor binary path: the explicit one when set, else the
    /// cached binary under the working directory.
    pub fn get_propolis_binary(&self) -> (r: String)
        ensures
            r@ == match self.custom_propolis_binary {
                Some(p) => p@,
                None => self.falcon_dir@ + "/"@ + "bin/propolis-server"@,
            },
    {
        match &self.custom_propolis_binary {
            Some(p) => p.clone(),
            None => {
                let mut s = self.falcon_dir.clone();
                s.append("/");
                s.append("bin/propolis-server");
                s
            },
        }
    }

    /// Whether the deployment has a node with this name.
    pub open spec fn spec_has_node(self, name: Seq<char>) -> bool {
        exists|i: int|
            0 <= i < self.deployment.nodes@.len() && #[trigger] self.deployment.nodes@[i].name@
                == name
    }

    /// Find the node with the given name.
    pub fn find_node(&self, name: &str) -> (r: Option<NodeRef>)
        ensures
            match r {
                Some(nr) => nr.index < self.deployment.nodes@.len()
                    && self.deployment.nodes@[nr.index as int].name@ == name@,
                None => !self.spec_has_node(name@),
            },
    {
        let needle = name.to_owned();
        let n = self.deployment.nodes.len();
        let mut i: usize = 0;
        while i < n
            invariant
                0 <= i <= n,
                needle@ == name@,
                n == self.deployment.nodes@.len(),
                forall|j: int| 0 <= j < i ==> #[trigger] self.deployment.nodes@[j].name@ != name@,
            decreases n - i,
        {
            if self.deployment.nodes[i].name.eq(&needle) {
                return Some(NodeRef { index: i });
            }
            i = i + 1;
        }
        None
    }

    /// References to all nodes, in order.
    pub fn all_nodes(&self) -> (r: Vec<NodeRef>)
        ensures
            r@.len() == self.deployment.nodes@.len(),
            forall|i: int| 0 <= i < r@.len() ==> (#[trigger] r@[i]).index == i,
    {
        let n = self.deployment.nodes.len();
        let mut r: Vec<NodeRef> = Vec::new();
        let mut i: usize = 0;
        while i < n
            invariant
                0 <= i <= n,
                r@.len() == i,
                forall|j: int| 0 <= j < i ==> (#[trigger] r@[j]).index == j,
            decreases n - i,
        {
            r.push(NodeRef { index: i });
            i = i + 1;
        }
        r
    }

    /// The node referenced by `r`.
    pub fn get_node(&self, r: NodeRef) -> (n: &Node)
        requires
            r.index < self.deployment.nodes@.len(),
        ensures
            *n == self.deployment.nodes@[r.index as int],
    {
        &self.deployment.nodes[r.index]
    }

    /// Set whether first-boot guest setup runs for the node.
    pub fn do_setup(&mut self, r: NodeRef, value: bool)
        requires
            r.index < old(self).deployment.nodes@.len(),
        ensures
            final(self).deployment.nodes@ == old(self).deployment.nodes@.update(
                r.index as int,
                (Node { do_setup: value, ..old(self).deployment.nodes@[r.index as int] }),
            ),
            final(self).deployment.name == old(self).deployment.name,
            final(self).deployment.links == old(self).deployment.links,
            final(self).deployment.ext_links == old(self).deployment.ext_links,
            final(self).persistent == old(self).persistent,
            final(self).custom_propolis_binary == old(self).custom_propolis_binary,
            final(self).dataset == old(self).dataset,
            final(self).falcon_dir == old(self).falcon_dir,
            old(self).deployment.wf() ==> final(self).deployment.wf(),
    {
        self.deployment.nodes[r.index].do_setup = value;
        proof {
            lemma_wf_radix_name_preserved(old(self).deployment, self.deployment);
        }
    }

    /// Increment a node's radix by one, returning the prior value.  This
    /// reserves an endpoint index for links managed outside the builder;
    /// the deployment's radix accounting no longer matches its own links
    /// afterwards.
    pub fn bump_radix(&mut self, node: NodeRef) -> (r: usize)
        requires
            node.index < old(self).deployment.nodes@.len(),
            old(self).deployment.nodes@[node.index as int].radix < usize::MAX,
        ensures
            r == old(self).deployment.nodes@[node.index as int].radix,
            final(self).deployment.nodes@ == old(self).deployment.nodes@.update(
                node.index as int,
                node_with_radix(old(self).deployment.nodes@[node.index as int], (r + 1) as usize),
            ),
            final(self).deployment.name == old(self).deployment.name,
            final(self).deployment.links == old(self).deployment.links,
            final(self).deployment.ext_links == old(self).deployment.ext_links,
            final(self).persistent == old(self).persistent,
            final(self).custom_propolis_binary == old(self).custom_propolis_binary,
            final(self).dataset == old(self).dataset,
            final(self).falcon_dir == old(self).falcon_dir,
    {
        let current = self.deployment.nodes[node.index].radix;
        self.deployment.nodes[node.index].radix = current + 1;
        current
    }

    /// Set the boot-disk reservation of the node, in GiB.
    pub fn reserve(&mut self, n: NodeRef, gb: usize)
        requires
            n.index < old(self).deployment.nodes@.len(),
        ensures
            final(self).deployment.nodes@ == old(self).deployment.nodes@.update(
                n.index as int,
                (Node { reserved: gb, ..old(self).deployment.nodes@[n.index as int] }),
            ),
            final(self).deployment.name == old(self).deployment.name,
            final(self).deployment.links == old(self).deployment.links,
            final(self).deployment.ext_links == old(self).deployment.ext_links,
            final(self).persistent == old(self).persistent,
            final(self).custom_propolis_binary == old(self).custom_propolis_binary,
            final(self).dataset == old(self).dataset,
            final(self).falcon_dir == old(self).falcon_dir,
            old(self).deployment.wf() ==> final(self).deployment.wf(),
    {
        self.deployment.nodes[n.index].reserved = gb;
        proof {
            lemma_wf_radix_name_preserved(old(self).deployment, self.deployment);
        }
    }

    /// Set how the node's primary disk is materialized.
    pub fn set_backing(&mut self, n: NodeRef, backing: PrimaryDiskBacking)
        requires
            n.index < old(self).deployment.nodes@.len(),
        ensures
            final(self).deployment.nodes@ == old(self).deployment.nodes@.update(
                n.index as int,
                (Node {
                    primary_disk_backing: backing,
                    ..old(self).deployment.nodes@[n.index as int]
                }),
            ),
            final(self).deployment.name == old(self).deployment.name,
            final(self).deployment.links == old(self).deployment.links,
            final(self).deployment.ext_links == old(self).deployment.ext_links,
            final(self).persistent == old(self).persistent,
            final(self).custom_propolis_binary == old(self).custom_propolis_binary,
            final(self).dataset == old(self).dataset,
            final(self).falcon_dir == old(self).falcon_dir,
            old(self).deployment.wf() ==> final(self).deployment.wf(),
    {
        self.deployment.nodes[n.index].primary_disk_backing = backing;
        proof {
            lemma_wf_radix_name_preserved(old(self).deployment, self.deployment);
        }
    }

    /// Set the SMBIOS Type 1 information injected into the node.
    pub fn set_smbios_type1(&mut self, n: NodeRef, smbios: SmbiosInfo)
        requires
            n.index < old(self).deployment.nodes@.len(),
        ensures
            final(self).deployment.nodes@ == old(self).deployment.nodes@.update(
                n.index as int,
                (Node { smbios: Some(smbios), ..old(self).deployment.nodes@[n.index as int] }),
            ),
            final(self).deployment.name == old(self).deployment.name,
            final(self).deployment.links == old(self).deployment.links,
            final(self).deployment.ext_links == old(self).deployment.ext_links,
            final(self).persistent == old(self).persistent,
            final(self).custom_propolis_binary == old(self).custom_propolis_binary,
            final(self).dataset == old(self).dataset,
            final(self).falcon_dir == old(self).falcon_dir,
            old(self).deployment.wf() ==> final(self).deployment.wf(),
    {
        self.deployment.nodes[n.index].smbios = Some(smbios);
        proof {
            lemma_wf_radix_name_preserved(old(self).deployment, self.deployment);
        }
    }
}

impl Runner {
    /// Create a new node in this deployment.  The name must be valid and
    /// not already in use.
    pub fn node(&mut self, name: &str, image: &str, cores: u8, memory: u64) -> (r: NodeRef)
        requires
            old(self).deployment.wf(),
            is_name(name@),
            !old(self).spec_has_node(name@),
        ensures
            final(self).deployment.wf(),
            r.index == old(self).deployment.nodes@.len(),
            final(self).deployment.nodes@.len() == old(self).deployment.nodes@.len() + 1,
            final(self).deployment.nodes@.subrange(0, old(self).deployment.nodes@.len() as int)
                == old(self).deployment.nodes@,
            final(self).deployment.nodes@.last().name@ == name@,
            final(self).deployment.nodes@.last().image@ == image@,
            final(self).deployment.nodes@.last().radix == 0,
            final(self).deployment.nodes@.last().mounts@.len() == 0,
            crate::ids::is_uuid_canonical(final(self).deployment.nodes@.last().id@),
            final(self).deployment.nodes@.last().cores == cores,
            final(self).deployment.nodes@.last().memory == memory,
            final(self).deployment.nodes@.last().dataset@ == old(self).dataset@,
            final(self).deployment.nodes@.last().do_setup,
            final(self).deployment.nodes@.last().reserved == 20,
            final(self).deployment.nodes@.last().primary_disk_backing is Zvol,
            final(self).deployment.nodes@.last().vnc_port is None,
            final(self).deployment.nodes@.last().components@.len() == 0,
            final(self).deployment.nodes@.last().smbios is None,
            final(self).deployment.name == old(self).deployment.name,
            final(self).deployment.links == old(self).deployment.links,
            final(self).deployment.ext_links == old(self).deployment.ext_links,
            final(self).persistent == old(self).persistent,
            final(self).custom_propolis_binary == old(self).custom_propolis_binary,
            final(self).dataset == old(self).dataset,
            final(self).falcon_dir == old(self).falcon_dir,
    {
        let id = crate::ids::uuid_v4_string();
        let r = NodeRef { index: self.deployment.nodes.len() };
        let n = Node {
            name: name.to_owned(),
            image: image.to_owned(),
            dataset: self.dataset.clone(),
            radix: 0,
            mounts: Vec::new(),
            id,
            cores,
            memory,
            do_setup: true,
            reserved: 20,
            primary_disk_backing: PrimaryDiskBacking::Zvol,
            vnc_port: None,
            components: Vec::new(),
            smbios: None,
        };
        self.deployment.nodes.push(n);
        proof {
            let d1 = old(self).deployment;
            let d2 = self.deployment;
            assert(d2.nodes@.subrange(0, d1.nodes@.len() as int) =~= d1.nodes@);
            assert(all_endpoints(d2) == all_endpoints(d1));
            lemma_radix_sum_push(d1.nodes@, d2.nodes@.last());
            let eps = all_endpoints(d2);
            assert forall|k: int| 0 <= k < eps.len() implies d2.ep_ok(#[trigger] eps[k]) by {
                assert(d1.ep_ok(eps[k]));
                assert(d2.nodes@[eps[k].node.index as int] == d1.nodes@[eps[k].node.index as int]);
            }
            assert forall|i: int, j: int|
                0 <= i < j < d2.nodes@.len() implies d2.nodes@[i].name@ != d2.nodes@[j].name@ by {
                if j < d1.nodes@.len() {
                    assert(d2.nodes@[i] == d1.nodes@[i]);
                    assert(d2.nodes@[j] == d1.nodes@[j]);
                } else {
                    assert(d2.nodes@[i] == d1.nodes@[i]);
                    assert(d2.nodes@[j].name@ == name@);
                }
            }
        }
        r
    }

    /// Append a link between two distinct nodes with the given endpoint
    /// kinds.  Each endpoint takes the next free index of its node.
    fn push_link(&mut self, a: NodeRef, b: NodeRef, kind_a: EndpointKind, kind_b: EndpointKind) -> (r:
        LinkRef)
        requires
            old(self).deployment.wf(),
            a.index < old(self).deployment.nodes@.len(),
            b.index < old(self).deployment.nodes@.len(),
            a.index != b.index,
            2 * old(self).deployment.links@.len() + old(self).deployment.ext_links@.len() + 2
                <= usize::MAX,
        ensures
            final(self).deployment.wf(),
            r.index == old(self).deployment.links@.len(),
            final(self).deployment.links@ == old(self).deployment.links@.push(
                (Link {
                    endpoints: [
                        (Endpoint {
                            node: a,
                            index: old(self).deployment.nodes@[a.index as int].radix,
                            kind: kind_a,
                        }),
                        (Endpoint {
                            node: b,
                            index: old(self).deployment.nodes@[b.index as int].radix,
                            kind: kind_b,
                        }),
                    ],
                }),
            ),
            final(self).deployment.nodes@ == old(self).deployment.nodes@.update(
                a.index as int,
                node_with_radix(
                    old(self).deployment.nodes@[a.index as int],
                    (old(self).deployment.nodes@[a.index as int].radix + 1) as usize,
                ),
            ).update(
                b.index as int,
                node_with_radix(
                    old(self).deployment.nodes@[b.index as int],
                    (old(self).deployment.nodes@[b.index as int].radix + 1) as usize,
                ),
            ),
            final(self).deployment.name == old(self).deployment.name,
            final(self).deployment.ext_links == old(self).deployment.ext_links,
            final(self).persistent == old(self).persistent,
            final(self).custom_propolis_binary == old(self).custom_propolis_binary,
            final(self).dataset == old(self).dataset,
            final(self).falcon_dir == old(self).falcon_dir,
    {
        let ghost d1 = old(self).deployment;
        let r = LinkRef { index: self.deployment.links.len() };
        let ra = self.deployment.nodes[a.index].radix;
        let rb = self.deployment.nodes[b.index].radix;
        proof {
            let eps1 = all_endpoints(d1);
            assert(d1.nodes@[a.index as int].radix as int <= 2 * d1.links@.len()
                + d1.ext_links@.len());
            assert(d1.nodes@[b.index as int].radix as int <= 2 * d1.links@.len()
                + d1.ext_links@.len());
        }
        let ea = Endpoint { node: a, index: ra, kind: kind_a };
        let eb = Endpoint { node: b, index: rb, kind: kind_b };
        let l = Link { endpoints: [ea, eb] };
        let ghost lv = l;
        self.deployment.links.push(l);
        self.deployment.nodes[a.index].radix = ra + 1;
        self.deployment.nodes[b.index].radix = rb + 1;
        proof {
            let d2 = self.deployment;
            let la = link_endpoints(d1.links@);
            let ex = ext_endpoints(d1.ext_links@);
            let eps1 = all_endpoints(d1);
            let eps2 = all_endpoints(d2);
            let gea = lv.endpoints[0];
            let geb = lv.endpoints[1];
            lemma_link_endpoints_push(d1.links@, lv);
            assert(eps2 =~= la + seq![gea, geb] + ex);
            assert(eps1 == la + ex);
            // The fresh endpoints clash with nothing: existing endpoints of
            // either node have indices below the node's old radix.
            assert forall|m: int| 0 <= m < eps1.len() implies ep_pair_neq(
                gea,
                #[trigger] eps1[m],
            ) by {
                assert(d1.ep_ok(eps1[m]));
            }
            assert forall|m: int| 0 <= m < eps1.len() implies ep_pair_neq(
                geb,
                #[trigger] eps1[m],
            ) by {
                assert(d1.ep_ok(eps1[m]));
            }
            lemma_eps_insert_two(la, ex, gea, geb);
            // Every endpoint is still in range: radixes only grew.
            assert forall|k: int| 0 <= k < eps2.len() implies d2.ep_ok(#[trigger] eps2[k]) by {
                let ll = la.len() as int;
                if k < ll {
                    assert(eps2[k] == la[k]);
                    assert(eps1[k] == la[k]);
                    assert(d1.ep_ok(eps1[k]));
                } else if k >= ll + 2 {
                    assert(eps2[k] == ex[k - ll - 2]);
                    assert(eps1[k - 2] == ex[k - ll - 2]);
                    assert(d1.ep_ok(eps1[k - 2]));
                }
            }
            // Radix accounting: one new link, two radix bumps.
            lemma_radix_sum_update(
                d1.nodes@,
                a.index as int,
                node_with_radix(d1.nodes@[a.index as int], (ra + 1) as usize),
            );
            let nodes1 = d1.nodes@.update(
                a.index as int,
                node_with_radix(d1.nodes@[a.index as int], (ra + 1) as usize),
            );
            lemma_radix_sum_update(
                nodes1,
                b.index as int,
                node_with_radix(d1.nodes@[b.index as int], (rb + 1) as usize),
            );
            assert(d2.nodes@ =~= nodes1.update(
                b.index as int,
                node_with_radix(d1.nodes@[b.index as int], (rb + 1) as usize),
            ));
        }
        r
    }

    /// Create a viona-to-viona link between two distinct nodes.
    pub fn link(&mut self, a: NodeRef, b: NodeRef) -> (r: LinkRef)
        requires
            old(self).deployment.wf(),
            a.index < old(self).deployment.nodes@.len(),
            b.index < old(self).deployment.nodes@.len(),
            a.index != b.index,
            2 * old(self).deployment.links@.len() + old(self).deployment.ext_links@.len() + 2
                <= usize::MAX,
        ensures
            final(self).deployment.wf(),
            r.index == old(self).deployment.links@.len(),
            final(self).deployment.links@ == old(self).deployment.links@.push(
                (Link {
                    endpoints: [
                        (Endpoint {
                            node: a,
                            index: old(self).deployment.nodes@[a.index as int].radix,
                            kind: (EndpointKind::Viona(None)),
                        }),
                        (Endpoint {
                            node: b,
                            index: old(self).deployment.nodes@[b.index as int].radix,
                            kind: (EndpointKind::Viona(None)),
                        }),
                    ],
                }),
            ),
            final(self).deployment.nodes@ == old(self).deployment.nodes@.update(
                a.index as int,
                node_with_radix(
                    old(self).deployment.nodes@[a.index as int],
                    (old(self).deployment.nodes@[a.index as int].radix + 1) as usize,
                ),
            ).update(
                b.index as int,
                node_with_radix(
                    old(self).deployment.nodes@[b.index as int],
                    (old(self).deployment.nodes@[b.index as int].radix + 1) as usize,
                ),
            ),
            final(self).deployment.name == old(self).deployment.name,
            final(self).deployment.ext_links == old(self).deployment.ext_links,
            final(self).persistent == old(self).persistent,
            final(self).custom_propolis_binary == old(self).custom_propolis_binary,
            final(self).dataset == old(self).dataset,
            final(self).falcon_dir == old(self).falcon_dir,
    {
        self.push_link(a, b, EndpointKind::Viona(None), EndpointKind::Viona(None))
    }

    /// Link a SoftNPU node to an ordinary node: the first endpoint is a
    /// SoftNPU port, the second a viona device.
    pub fn softnpu_link(
        &mut self,
        softnpu_node: NodeRef,
        node: NodeRef,
        node_mac: Option<String>,
        softnpu_mac: Option<String>,
    ) -> (r: LinkRef)
        requires
            old(self).deployment.wf(),
            softnpu_node.index < old(self).deployment.nodes@.len(),
            node.index < old(self).deployment.nodes@.len(),
            softnpu_node.index != node.index,
            2 * old(self).deployment.links@.len() + old(self).deployment.ext_links@.len() + 2
                <= usize::MAX,
        ensures
            final(self).deployment.wf(),
            r.index == old(self).deployment.links@.len(),
            final(self).deployment.links@.len() == old(self).deployment.links@.len() + 1,
            final(self).deployment.links@.last().endpoints[0].node.index == softnpu_node.index,
            final(self).deployment.links@.last().endpoints[0].kind is SoftNPU,
            final(self).deployment.links@.last().endpoints[1].node.index == node.index,
            final(self).deployment.links@.last().endpoints[1].kind is Viona,
            final(self).deployment.name == old(self).deployment.name,
            final(self).deployment.ext_links == old(self).deployment.ext_links,
    {
        self.push_link(softnpu_node, node, EndpointKind::SoftNPU(softnpu_mac), EndpointKind::Viona(node_mac))
    }

    /// Link two SoftNPU nodes together.
    pub fn softnpu_links(
        &mut self,
        node1: NodeRef,
        node2: NodeRef,
        mac1: Option<String>,
        mac2: Option<String>,
    ) -> (r: LinkRef)
        requires
            old(self).deployment.wf(),
            node1.index < old(self).deployment.nodes@.len(),
            node2.index < old(self).deployment.nodes@.len(),
            node1.index != node2.index,
            2 * old(self).deployment.links@.len() + old(self).deployment.ext_links@.len() + 2
                <= usize::MAX,
        ensures
            final(self).deployment.wf(),
            r.index == old(self).deployment.links@.len(),
            final(self).deployment.links@.len() == old(self).deployment.links@.len() + 1,
            final(self).deployment.links@.last().endpoints[0].node.index == node1.index,
            final(self).deployment.links@.last().endpoints[0].kind is SoftNPU,
            final(self).deployment.links@.last().endpoints[1].node.index == node2.index,
            final(self).deployment.links@.last().endpoints[1].kind is SoftNPU,
            final(self).deployment.name == old(self).deployment.name,
            final(self).deployment.ext_links == old(self).deployment.ext_links,
    {
        self.push_link(node1, node2, EndpointKind::SoftNPU(mac1), EndpointKind::SoftNPU(mac2))
    }

    /// Create an external link: a vnic over the host interface `host_ifx`
    /// attached to node `n`.
    pub fn ext_link(&mut self, host_ifx: &str, n: NodeRef)
        requires
            old(self).deployment.wf(),
            n.index < old(self).deployment.nodes@.len(),
            2 * old(self).deployment.links@.len() + old(self).deployment.ext_links@.len() + 1
                <= usize::MAX,
        ensures
            final(self).deployment.wf(),
            final(self).deployment.ext_links@ == old(self).deployment.ext_links@.push(
                (ExtLink {
                    endpoint: (Endpoint {
                        node: n,
                        index: old(self).deployment.nodes@[n.index as int].radix,
                        kind: (EndpointKind::Viona(None)),
                    }),
                    host_ifx: final(self).deployment.ext_links@.last().host_ifx,
                }),
            ),
            final(self).deployment.ext_links@.last().host_ifx@ == host_ifx@,
            final(self).deployment.nodes@ == old(self).deployment.nodes@.update(
                n.index as int,
                node_with_radix(
                    old(self).deployment.nodes@[n.index as int],
                    (old(self).deployment.nodes@[n.index as int].radix + 1) as usize,
                ),
            ),
            final(self).deployment.name == old(self).deployment.name,
            final(self).deployment.links == old(self).deployment.links,
            final(self).persistent == old(self).persistent,
            final(self).custom_propolis_binary == old(self).custom_propolis_binary,
            final(self).dataset == old(self).dataset,
            final(self).falcon_dir == old(self).falcon_dir,
    {
        let ghost d1 = old(self).deployment;
        let rn = self.deployment.nodes[n.index].radix;
        proof {
            assert(d1.nodes@[n.index as int].radix as int <= 2 * d1.links@.len()
                + d1.ext_links@.len());
        }
        let ep = Endpoint { node: n, index: rn, kind: EndpointKind::Viona(None) };
        let x = ExtLink { endpoint: ep, host_ifx: host_ifx.to_owned() };
        let ghost xv = x;
        self.deployment.ext_links.push(x);
        self.deployment.nodes[n.index].radix = rn + 1;
        proof {
            let d2 = self.deployment;
            let la = link_endpoints(d1.links@);
            let ex = ext_endpoints(d1.ext_links@);
            let eps1 = all_endpoints(d1);
            let eps2 = all_endpoints(d2);
            let ge = xv.endpoint;
            lemma_ext_endpoints_push(d1.ext_links@, xv);
            assert(eps2 =~= la + (ex + seq![ge]));
            assert(eps1 == la + ex);
            assert forall|m: int| 0 <= m < eps1.len() implies ep_pair_neq(
                ge,
                #[trigger] eps1[m],
            ) by {
                assert(d1.ep_ok(eps1[m]));
            }
            lemma_eps_append_one(la, ex, ge);
            assert forall|k: int| 0 <= k < eps2.len() implies d2.ep_ok(#[trigger] eps2[k]) by {
                if k < eps1.len() {
                    assert(eps2[k] == eps1[k]);
                    assert(d1.ep_ok(eps1[k]));
                } else {
                    assert(eps2[k] == ge);
                }
            }
            lemma_radix_sum_update(
                d1.nodes@,
                n.index as int,
                node_with_radix(d1.nodes@[n.index as int], (rn + 1) as usize),
            );
            assert(d2.nodes@ =~= d1.nodes@.update(
                n.index as int,
                node_with_radix(d1.nodes@[n.index as int], (rn + 1) as usize),
            ));
        }
    }

    /// Record a shared directory for node `n`.  The host source path is
    /// taken as given; the driver canonicalizes it beforehand.
    pub fn do_mount(&mut self, src: &str, dst: &str, n: NodeRef, mechanism: GuestMountMechanism) -> (r:
        Result<(), Error>)
        requires
            n.index < old(self).deployment.nodes@.len(),
        ensures
            r is Ok,
            final(self).deployment.nodes@.len() == old(self).deployment.nodes@.len(),
            final(self).deployment.nodes@[n.index as int].mounts@ == old(self).deployment.nodes@[n.index as int].mounts@.push(
                final(self).deployment.nodes@[n.index as int].mounts@.last(),
            ),
            final(self).deployment.nodes@[n.index as int].mounts@.last().source@ == src@,
            final(self).deployment.nodes@[n.index as int].mounts@.last().destination@ == dst@,
            final(self).deployment.nodes@[n.index as int].mounts@.last().mechanism == mechanism,
            forall|i: int|
                0 <= i < old(self).deployment.nodes@.len() && i != n.index ==> final(self).deployment.nodes@[i] == old(self).deployment.nodes@[i],
            final(self).deployment.nodes@[n.index as int].name == old(self).deployment.nodes@[n.index as int].name,
            final(self).deployment.nodes@[n.index as int].radix == old(self).deployment.nodes@[n.index as int].radix,
            final(self).deployment.name == old(self).deployment.name,
            final(self).deployment.links == old(self).deployment.links,
            final(self).deployment.ext_links == old(self).deployment.ext_links,
            final(self).persistent == old(self).persistent,
            final(self).custom_propolis_binary == old(self).custom_propolis_binary,
            final(self).dataset == old(self).dataset,
            final(self).falcon_dir == old(self).falcon_dir,
            old(self).deployment.wf() ==> final(self).deployment.wf(),
    {
        let m = Mount { source: src.to_owned(), destination: dst.to_owned(), mechanism };
        self.deployment.nodes[n.index].mounts.push(m);
        proof {
            lemma_wf_radix_name_preserved(old(self).deployment, self.deployment);
        }
        Ok(())
    }

    /// Share host directory `src` into node `n` at `dst` with `p9kp`.
    pub fn mount(&mut self, src: &str, dst: &str, n: NodeRef) -> (r: Result<(), Error>)
        requires
            n.index < old(self).deployment.nodes@.len(),
        ensures
            r is Ok,
            final(self).deployment.nodes@[n.index as int].mounts@ == old(self).deployment.nodes@[n.index as int].mounts@.push(
                final(self).deployment.nodes@[n.index as int].mounts@.last(),
            ),
            final(self).deployment.nodes@[n.index as int].mounts@.last().source@ == src@,
            final(self).deployment.nodes@[n.index as int].mounts@.last().destination@ == dst@,
            final(self).deployment.nodes@[n.index as int].mounts@.last().mechanism
                == GuestMountMechanism::P9kp,
            old(self).deployment.wf() ==> final(self).deployment.wf(),
    {
        self.do_mount(src, dst, n, GuestMountMechanism::P9kp)
    }

    /// Share host directory `src` into node `n` at `dst` with a kernel 9p
    /// mount, for guests that support it.
    pub fn mount_linux(&mut self, src: &str, dst: &str, n: NodeRef) -> (r: Result<(), Error>)
        requires
            n.index < old(self).deployment.nodes@.len(),
        ensures
            r is Ok,
            final(self).deployment.nodes@[n.index as int].mounts@ == old(self).deployment.nodes@[n.index as int].mounts@.push(
                final(self).deployment.nodes@[n.index as int].mounts@.last(),
            ),
            final(self).deployment.nodes@[n.index as int].mounts@.last().source@ == src@,
            final(self).deployment.nodes@[n.index as int].mounts@.last().destination@ == dst@,
            final(self).deployment.nodes@[n.index as int].mounts@.last().mechanism
                == GuestMountMechanism::Mount,
            old(self).deployment.wf() ==> final(self).deployment.wf(),
    {
        self.do_mount(src, dst, n, GuestMountMechanism::Mount)
    }
}

/// Well-formedness depends only on the deployment name, the links, the
/// external links, and each node's name and radix: a change that keeps
/// those keeps well-formedness.
proof fn lemma_wf_radix_name_preserved(d1: Deployment, d2: Deployment)
    requires
        d1.name == d2.name,
        d1.links == d2.links,
        d1.ext_links == d2.ext_links,
        d1.nodes@.len() == d2.nodes@.len(),
        forall|i: int|
            0 <= i < d1.nodes@.len() ==> (#[trigger] d2.nodes@[i]).name == d1.nodes@[i].name
                && d2.nodes@[i].radix == d1.nodes@[i].radix,
    ensures
        d1.wf() ==> d2.wf(),
{
    if d1.wf() {
        assert(all_endpoints(d2) == all_endpoints(d1));
        assert forall|i: int| 0 <= i < d1.nodes@.len() implies #[trigger] radix_eq_at(
            d1.nodes@,
            d2.nodes@,
            i,
        ) by {
            assert(d2.nodes@[i].radix == d1.nodes@[i].radix);
        }
        lemma_radix_sum_congruent(d1.nodes@, d2.nodes@);
        let eps = all_endpoints(d2);
        assert forall|k: int| 0 <= k < eps.len() implies d2.ep_ok(#[trigger] eps[k]) by {
            assert(d1.ep_ok(eps[k]));
            assert(d2.nodes@[eps[k].node.index as int].radix == d1.nodes@[eps[k].node.index as int].radix);
        }
    }
}

/// The nodes of the two sequences at index `i` have equal radix.
pub open spec fn radix_eq_at(n1: Seq<Node>, n2: Seq<Node>, i: int) -> bool {
    0 <= i < n1.len() && 0 <= i < n2.len() && n1[i].radix == n2[i].radix
}

/// The radix sum only reads the radix fields.
proof fn lemma_radix_sum_congruent(n1: Seq<Node>, n2: Seq<Node>)
    requires
        n1.len() == n2.len(),
        forall|i: int| 0 <= i < n1.len() ==> #[trigger] radix_eq_at(n1, n2, i),
    ensures
        radix_sum(n1) == radix_sum(n2),
    decreases n1.len(),
{
    if n1.len() > 0 {
        assert forall|i: int| 0 <= i < n1.drop_last().len() implies #[trigger] radix_eq_at(
            n1.drop_last(),
            n2.drop_last(),
            i,
        ) by {
            assert(radix_eq_at(n1, n2, i));
        }
        lemma_radix_sum_congruent(n1.drop_last(), n2.drop_last());
        assert(radix_eq_at(n1, n2, n1.len() - 1));
    }
}

} // verus!
