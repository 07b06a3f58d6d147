//! The topology model: deployments, nodes, links and endpoints.
//!
//! A deployment is a flat arena: vectors of nodes, links and external
//! links, indexed by opaque reference handles.  Endpoints carry a node
//! reference plus a per-node index; the pair is unique across the
//! deployment, which makes the derived host-link names unique too.

use vstd::prelude::*;
use vstd::string::*;

use crate::components::Component;
use crate::names::{
    is_name, spec_simnet_name, spec_vnic_name, lemma_simnet_name_injective,
    lemma_vnic_name_injective, lemma_simnet_vnic_distinct, vn_tag, sn_tag,
};

verus! {

/// How a guest mounts a shared host directory.
#[derive(Debug, Clone, PartialEq, Eq)]
pub enum GuestMountMechanism {
    /// Pull the files into the guest with `p9kp`.
    P9kp,
    /// Mount the 9p filesystem directly in the guest kernel.
    Mount,
}

/// A directory shared from the host into a node.
#[derive(Debug, Clone)]
pub struct Mount {
    /// Host directory to share.
    pub source: String,
    /// Guest directory to mount it at.
    pub destination: String,
    /// How the guest attaches it.
    pub mechanism: GuestMountMechanism,
}

/// How the primary disk of a node is materialized.
#[derive(Debug, Clone, PartialEq, Eq)]
pub enum PrimaryDiskBacking {
    /// A zvol cloned from the image snapshot.
    Zvol,
    /// A file copied from the image block device.
    File,
}

/// What kind of virtual device realizes an endpoint, with an optional MAC
/// address given as six colon-separated hexadecimal octets.
#[derive(Debug, Clone)]
pub enum EndpointKind {
    /// A viona kernel device; the default.
    Viona(Option<String>),
    /// A link connected to a SoftNPU device.
    SoftNPU(Option<String>),
}

/// The tag a kind contributes to host link names.
pub open spec fn kind_tag(k: EndpointKind) -> Seq<char> {
    match k {
        EndpointKind::Viona(_) => vn_tag(),
        EndpointKind::SoftNPU(_) => sn_tag(),
    }
}

impl EndpointKind {
    /// The tag this kind contributes to host link names.
    pub fn designator(&self) -> (r: &'static str)
        ensures
            r@ == kind_tag(*self),
    {
        proof {
            reveal_strlit("vn");
            reveal_strlit("sn");
            assert("vn"@ =~= vn_tag());
            assert("sn"@ =~= sn_tag());
        }
        match self {
            EndpointKind::Viona(_) => "vn",
            EndpointKind::SoftNPU(_) => "sn",
        }
    }
}

/// Opaque handle to a node: an index into the deployment's node vector,
/// stable for the lifetime of the deployment.
#[derive(Debug, Copy, Clone)]
pub struct NodeRef {
    /// The index of the referenced node.
    pub index: usize,
}

/// Opaque handle to a link.
#[derive(Debug, Copy, Clone)]
pub struct LinkRef {
    /// The index of the referenced link.
    pub index: usize,
}

/// One side of a link: a node reference, the per-node endpoint index, and
/// the kind of device that realizes it.
#[derive(Debug, Clone)]
pub struct Endpoint {
    /// The node this endpoint attaches to.
    pub node: NodeRef,
    /// The index of this endpoint among the node's endpoints.
    pub index: usize,
    /// The device kind realizing this endpoint.
    pub kind: EndpointKind,
}

/// A point-to-point link between two endpoints.
#[derive(Debug, Clone)]
pub struct Link {
    /// The two sides of the link.
    pub endpoints: [Endpoint; 2],
}

/// A link from an endpoint to a host interface rather than to a peer.
#[derive(Debug, Clone)]
pub struct ExtLink {
    /// The node-side endpoint.
    pub endpoint: Endpoint,
    /// The host interface the vnic is created over.
    pub host_ifx: String,
}

/// SMBIOS Type 1 information injected into a guest.
#[derive(Debug, Clone)]
pub struct SmbiosInfo {
    pub manufacturer: String,
    pub product_name: String,
    pub version: String,
    pub serial_number: String,
    pub uuid: String,
    pub sku: String,
    pub family: String,
}

/// A node: one virtual machine of the deployment.
#[derive(Debug, Clone)]
pub struct Node {
    /// Name of the node.
    pub name: String,
    /// Image tag the node boots from.
    pub image: String,
    /// How many endpoints reference the node.
    pub radix: usize,
    /// Shared directories, in declared order.
    pub mounts: Vec<Mount>,
    /// Stable identifier, in canonical UUID form.
    pub id: String,
    /// Guest CPU count.
    pub cores: u8,
    /// Guest memory in MiB.
    pub memory: u64,
    /// The root dataset used for this node's storage.
    pub dataset: String,
    /// Whether first-boot guest setup runs for this node.
    pub do_setup: bool,
    /// Boot disk reservation in GiB.
    pub reserved: usize,
    /// How the primary disk is materialized.
    pub primary_disk_backing: PrimaryDiskBacking,
    /// Optional VNC port for the framebuffer.
    pub vnc_port: Option<u16>,
    /// Planned device components for the hypervisor's instance spec,
    /// keyed by component name.
    pub components: Vec<(String, Component)>,
    /// Optional SMBIOS Type 1 information.
    pub smbios: Option<SmbiosInfo>,
}

/// A deployment: a named container of nodes, links and external links.
#[derive(Debug, Clone)]
pub struct Deployment {
    /// The name of this deployment.
    pub name: String,
    /// The nodes of this deployment.
    pub nodes: Vec<Node>,
    /// The point-to-point links interconnecting nodes.
    pub links: Vec<Link>,
    /// Links attached to host interfaces.
    pub ext_links: Vec<ExtLink>,
}

/// The endpoints contributed by the internal links, two per link, in order.
pub open spec fn link_endpoints(links: Seq<Link>) -> Seq<Endpoint>
    decreases links.len(),
{
    if links.len() == 0 {
        Seq::empty()
    } else {
        link_endpoints(links.drop_last()) + seq![
            links.last().endpoints[0],
            links.last().endpoints[1],
        ]
    }
}

/// The endpoints contributed by the external links, in order.
pub open spec fn ext_endpoints(exts: Seq<ExtLink>) -> Seq<Endpoint>
    decreases exts.len(),
{
    if exts.len() == 0 {
        Seq::empty()
    } else {
        ext_endpoints(exts.drop_last()) + seq![exts.last().endpoint]
    }
}

/// Every endpoint of the deployment, internal links first.
pub open spec fn all_endpoints(d: Deployment) -> Seq<Endpoint> {
    link_endpoints(d.links@) + ext_endpoints(d.ext_links@)
}

/// The sum of the radixes of all nodes.
pub open spec fn radix_sum(nodes: Seq<Node>) -> int
    decreases nodes.len(),
{
    if nodes.len() == 0 {
        0
    } else {
        radix_sum(nodes.drop_last()) + nodes.last().radix
    }
}

impl Deployment {
    /// Create an empty deployment with the given name.
    pub fn new(name: &str) -> (r: Deployment)
        requires
            is_name(name@),
        ensures
            r.wf(),
            r.name@ == name@,
            r.nodes@.len() == 0,
            r.links@.len() == 0,
            r.ext_links@.len() == 0,
    {
        let d = Deployment {
            name: name.to_owned(),
            nodes: Vec::new(),
            links: Vec::new(),
            ext_links: Vec::new(),
        };
        proof {
            assert(link_endpoints(d.links@).len() == 0);
            assert(ext_endpoints(d.ext_links@).len() == 0);
            assert(radix_sum(d.nodes@) == 0);
        }
        d
    }

    /// An endpoint referencing a node of this deployment, with an index
    /// below that node's radix.
    pub open spec fn ep_ok(self, e: Endpoint) -> bool {
        &&& e.node.index < self.nodes@.len()
        &&& e.index < self.nodes@[e.node.index as int].radix
    }

    /// Well-formedness: valid distinct names, every endpoint referencing an
    /// existing node with an in-range index, no two endpoints sharing a
    /// (node, index) pair, and radixes accounting exactly for the endpoints.
    pub open spec fn wf(self) -> bool {
        let eps = all_endpoints(self);
        &&& is_name(self.name@)
        &&& forall|i: int| 0 <= i < self.nodes@.len() ==> is_name(#[trigger] self.nodes@[i].name@)
        &&& forall|i: int, j: int|
            0 <= i < j < self.nodes@.len() ==> self.nodes@[i].name@ != self.nodes@[j].name@
        &&& forall|k: int| 0 <= k < eps.len() ==> self.ep_ok(#[trigger] eps[k])
        &&& forall|k1: int, k2: int|
            #![trigger eps[k1], eps[k2]]
            0 <= k1 < k2 < eps.len() ==> !(eps[k1].node.index == eps[k2].node.index && eps[k1].index
                == eps[k2].index)
        &&& radix_sum(self.nodes@) == 2 * self.links@.len() + self.ext_links@.len()
        &&& forall|i: int|
            0 <= i < self.nodes@.len() ==> (#[trigger] self.nodes@[i].radix) as int <= 2
                * self.links@.len() + self.ext_links@.len()
    }

    /// The simnet name of an endpoint, at the specification level.
    pub open spec fn spec_simnet_link_name(self, e: Endpoint) -> Seq<char> {
        spec_simnet_name(
            self.name@,
            self.nodes@[e.node.index as int].name@,
            kind_tag(e.kind),
            e.index as nat,
        )
    }

    /// The vnic name of an endpoint, at the specification level.
    pub open spec fn spec_vnic_link_name(self, e: Endpoint) -> Seq<char> {
        spec_vnic_name(
            self.name@,
            self.nodes@[e.node.index as int].name@,
            kind_tag(e.kind),
            e.index as nat,
        )
    }

    /// The host simnet name backing endpoint `e`.
    pub fn simnet_link_name(&self, e: &Endpoint) -> (r: String)
        requires
            e.node.index < self.nodes@.len(),
        ensures
            r@ == self.spec_simnet_link_name(*e),
    {
        crate::names::simnet_name_of(
            self.name.as_str(),
            self.nodes[e.node.index].name.as_str(),
            e.kind.designator(),
            e.index,
        )
    }

    /// The host vnic name attached to endpoint `e`.
    pub fn vnic_link_name(&self, e: &Endpoint) -> (r: String)
        requires
            e.node.index < self.nodes@.len(),
        ensures
            r@ == self.spec_vnic_link_name(*e),
    {
        crate::names::vnic_name_of(
            self.name.as_str(),
            self.nodes[e.node.index].name.as_str(),
            e.kind.designator(),
            e.index,
        )
    }
}

/// The link endpoints number two per link.
pub proof fn lemma_link_endpoints_len(links: Seq<Link>)
    ensures
        link_endpoints(links).len() == 2 * links.len(),
    decreases links.len(),
{
    if links.len() > 0 {
        lemma_link_endpoints_len(links.drop_last());
    }
}

/// The endpoint at position `2 j + s` of the link block is side `s` of
/// link `j`.
pub proof fn lemma_link_endpoints_index(links: Seq<Link>, j: int, s: int)
    requires
        0 <= j < links.len(),
        0 <= s < 2,
    ensures
        link_endpoints(links).len() == 2 * links.len(),
        link_endpoints(links)[2 * j + s] == links[j].endpoints[s],
    decreases links.len(),
{
    lemma_link_endpoints_len(links);
    if j == links.len() - 1 {
        lemma_link_endpoints_len(links.drop_last());
    } else {
        lemma_link_endpoints_index(links.drop_last(), j, s);
        assert(links.drop_last()[j] == links[j]);
    }
}

/// The external endpoints number one per external link.
pub proof fn lemma_ext_endpoints_len(exts: Seq<ExtLink>)
    ensures
        ext_endpoints(exts).len() == exts.len(),
    decreases exts.len(),
{
    if exts.len() > 0 {
        lemma_ext_endpoints_len(exts.drop_last());
    }
}

/// The endpoint at position `k` of the external block is that of
/// external link `k`.
pub proof fn lemma_ext_endpoints_index(exts: Seq<ExtLink>, k: int)
    requires
        0 <= k < exts.len(),
    ensures
        ext_endpoints(exts).len() == exts.len(),
        ext_endpoints(exts)[k] == exts[k].endpoint,
    decreases exts.len(),
{
    lemma_ext_endpoints_len(exts);
    if k == exts.len() - 1 {
        lemma_ext_endpoints_len(exts.drop_last());
    } else {
        lemma_ext_endpoints_index(exts.drop_last(), k);
        assert(exts.drop_last()[k] == exts[k]);
    }
}

/// Side `s` of link `j` sits at position `2 j + s` of the endpoint
/// sequence.
pub proof fn lemma_all_endpoints_link(d: Deployment, j: int, s: int)
    requires
        0 <= j < d.links@.len(),
        0 <= s < 2,
    ensures
        all_endpoints(d).len() == 2 * d.links@.len() + d.ext_links@.len(),
        all_endpoints(d)[2 * j + s] == d.links@[j].endpoints[s],
    decreases d.links@.len(),
{
    lemma_link_endpoints_index(d.links@, j, s);
    lemma_ext_endpoints_len(d.ext_links@);
}

/// External link `k`'s endpoint sits at position `2 |links| + k` of the
/// endpoint sequence.
pub proof fn lemma_all_endpoints_ext(d: Deployment, k: int)
    requires
        0 <= k < d.ext_links@.len(),
    ensures
        all_endpoints(d).len() == 2 * d.links@.len() + d.ext_links@.len(),
        all_endpoints(d)[2 * d.links@.len() + k] == d.ext_links@[k].endpoint,
{
    lemma_link_endpoints_len(d.links@);
    lemma_ext_endpoints_index(d.ext_links@, k);
}

impl Deployment {
    /// Every endpoint references an existing node.  This much holds even
    /// of a deployment read back from its serialized form before any
    /// stronger check.
    pub open spec fn indices_ok(self) -> bool {
        &&& forall|j: int|
            0 <= j < self.links@.len() ==> (#[trigger] self.links@[j]).endpoints[0].node.index
                < self.nodes@.len() && self.links@[j].endpoints[1].node.index < self.nodes@.len()
        &&& forall|k: int|
            0 <= k < self.ext_links@.len() ==> (#[trigger] self.ext_links@[k]).endpoint.node.index
                < self.nodes@.len()
    }
}

impl Deployment {
    /// Find the first node with the given name, as the subcommands that
    /// re-read the serialized topology look one up.
    pub fn find_node_index(&self, name: &str) -> (r: Option<usize>)
        ensures
            match r {
                Some(i) => i < self.nodes@.len() && self.nodes@[i as int].name@ == name@,
                None => forall|j: int|
                    0 <= j < self.nodes@.len() ==> (#[trigger] self.nodes@[j]).name@ != name@,
            },
    {
        let needle = name.to_owned();
        let n = self.nodes.len();
        let mut i: usize = 0;
        while i < n
            invariant
                0 <= i <= n,
                needle@ == name@,
                n == self.nodes@.len(),
                forall|j: int| 0 <= j < i ==> (#[trigger] self.nodes@[j]).name@ != name@,
            decreases n - i,
        {
            if self.nodes[i].name.eq(&needle) {
                return Some(i);
            }
            i = i + 1;
        }
        None
    }

    /// Check that every endpoint references an existing node, as a
    /// deployment read back from its serialized form must before its
    /// teardown is planned.
    pub fn check_indices(&self) -> (r: bool)
        ensures
            r == self.indices_ok(),
    {
        let n = self.nodes.len();
        let mut j: usize = 0;
        while j < self.links.len()
            invariant
                0 <= j <= self.links@.len(),
                n == self.nodes@.len(),
                forall|t: int|
                    0 <= t < j ==> (#[trigger] self.links@[t]).endpoints[0].node.index
                        < self.nodes@.len() && self.links@[t].endpoints[1].node.index
                        < self.nodes@.len(),
            decreases self.links@.len() - j,
        {
            if self.links[j].endpoints[0].node.index >= n || self.links[j].endpoints[1].node.index
                >= n {
                return false;
            }
            j = j + 1;
        }
        let mut k: usize = 0;
        while k < self.ext_links.len()
            invariant
                0 <= k <= self.ext_links@.len(),
                n == self.nodes@.len(),
                forall|t: int|
                    0 <= t < j ==> (#[trigger] self.links@[t]).endpoints[0].node.index
                        < self.nodes@.len() && self.links@[t].endpoints[1].node.index
                        < self.nodes@.len(),
                j == self.links@.len(),
                forall|t: int|
                    0 <= t < k ==> (#[trigger] self.ext_links@[t]).endpoint.node.index
                        < self.nodes@.len(),
            decreases self.ext_links@.len() - k,
        {
            if self.ext_links[k].endpoint.node.index >= n {
                return false;
            }
            k = k + 1;
        }
        true
    }
}

/// Rebuild an endpoint value field by field.
fn endpoint_dup(e: &Endpoint) -> (r: Endpoint)
    ensures
        r.node.index == e.node.index,
        r.index == e.index,
        r.kind is Viona <==> e.kind is Viona,
        kind_tag(r.kind) == kind_tag(e.kind),
{
    let kind = match &e.kind {
        EndpointKind::Viona(Some(m)) => EndpointKind::Viona(Some(m.clone())),
        EndpointKind::Viona(None) => EndpointKind::Viona(None),
        EndpointKind::SoftNPU(Some(m)) => EndpointKind::SoftNPU(Some(m.clone())),
        EndpointKind::SoftNPU(None) => EndpointKind::SoftNPU(None),
    };
    Endpoint { node: NodeRef { index: e.node.index }, index: e.index, kind }
}

/// Collect every endpoint of the deployment: two per internal link,
/// then one per external link, each referencing an existing node.
pub fn all_endpoints_of(d: &Deployment) -> (r: Vec<Endpoint>)
    requires
        d.indices_ok(),
    ensures
        forall|k: int|
            0 <= k < r@.len() ==> (#[trigger] r@[k]).node.index < d.nodes@.len(),
{
    let mut r: Vec<Endpoint> = Vec::new();
    let mut j: usize = 0;
    while j < d.links.len()
        invariant
            d.indices_ok(),
            0 <= j <= d.links@.len(),
            forall|k: int| 0 <= k < r@.len() ==> (#[trigger] r@[k]).node.index < d.nodes@.len(),
        decreases d.links@.len() - j,
    {
        r.push(endpoint_dup(&d.links[j].endpoints[0]));
        r.push(endpoint_dup(&d.links[j].endpoints[1]));
        j = j + 1;
    }
    let mut k: usize = 0;
    while k < d.ext_links.len()
        invariant
            d.indices_ok(),
            0 <= k <= d.ext_links@.len(),
            forall|t: int| 0 <= t < r@.len() ==> (#[trigger] r@[t]).node.index < d.nodes@.len(),
        decreases d.ext_links@.len() - k,
    {
        r.push(endpoint_dup(&d.ext_links[k].endpoint));
        k = k + 1;
    }
    r
}

/// A well-formed deployment has all endpoint indices in range.
pub proof fn lemma_wf_indices_ok(d: Deployment)
    requires
        d.wf(),
    ensures
        d.indices_ok(),
{
    assert forall|j: int|
        0 <= j < d.links@.len() implies (#[trigger] d.links@[j]).endpoints[0].node.index
        < d.nodes@.len() && d.links@[j].endpoints[1].node.index < d.nodes@.len() by {
        lemma_all_endpoints_link(d, j, 0);
        lemma_all_endpoints_link(d, j, 1);
        assert(d.ep_ok(all_endpoints(d)[2 * j]));
        assert(d.ep_ok(all_endpoints(d)[2 * j + 1]));
    }
    assert forall|k: int|
        0 <= k < d.ext_links@.len() implies (#[trigger] d.ext_links@[k]).endpoint.node.index
        < d.nodes@.len() by {
        lemma_all_endpoints_ext(d, k);
        assert(d.ep_ok(all_endpoints(d)[2 * d.links@.len() + k]));
    }
}

/// Distinct endpoints of a well-formed deployment have distinct simnet
/// names and distinct vnic names, and no simnet name equals a vnic name:
/// the names are the sole key from the topology to host resources.
pub proof fn lemma_endpoint_names_distinct(d: Deployment, k1: int, k2: int)
    requires
        d.wf(),
        0 <= k1 < all_endpoints(d).len(),
        0 <= k2 < all_endpoints(d).len(),
        k1 != k2,
    ensures
        d.spec_simnet_link_name(all_endpoints(d)[k1]) != d.spec_simnet_link_name(
            all_endpoints(d)[k2],
        ),
        d.spec_vnic_link_name(all_endpoints(d)[k1]) != d.spec_vnic_link_name(all_endpoints(d)[k2]),
        d.spec_simnet_link_name(all_endpoints(d)[k1]) != d.spec_vnic_link_name(
            all_endpoints(d)[k2],
        ),
{
    let eps = all_endpoints(d);
    let e1 = eps[k1];
    let e2 = eps[k2];
    assert(d.ep_ok(e1));
    assert(d.ep_ok(e2));
    let n1 = d.nodes@[e1.node.index as int].name@;
    let n2 = d.nodes@[e2.node.index as int].name@;
    assert(kind_tag(e1.kind).len() == 2);
    assert(kind_tag(e2.kind).len() == 2);
    if d.spec_simnet_link_name(e1) == d.spec_simnet_link_name(e2) {
        lemma_simnet_name_injective(
            d.name@,
            n1,
            kind_tag(e1.kind),
            e1.index as nat,
            n2,
            kind_tag(e2.kind),
            e2.index as nat,
        );
        // Equal node names force equal node indices, and then the
        // (node, index) pairs coincide, contrary to well-formedness.
        if e1.node.index != e2.node.index {
            if e1.node.index < e2.node.index {
                assert(n1 != n2);
            } else {
                assert(n2 != n1);
            }
        }
        assert(false);
    }
    if d.spec_vnic_link_name(e1) == d.spec_vnic_link_name(e2) {
        lemma_vnic_name_injective(
            d.name@,
            n1,
            kind_tag(e1.kind),
            e1.index as nat,
            n2,
            kind_tag(e2.kind),
            e2.index as nat,
        );
        if e1.node.index != e2.node.index {
            if e1.node.index < e2.node.index {
                assert(n1 != n2);
            } else {
                assert(n2 != n1);
            }
        }
        assert(false);
    }
    lemma_simnet_vnic_distinct(
        d.name@,
        n1,
        kind_tag(e1.kind),
        e1.index as nat,
        n2,
        kind_tag(e2.kind),
        e2.index as nat,
    );
}

/// The radix totals law: over a well-formed deployment, the node radixes
/// sum to twice the internal link count plus the external link count.
pub proof fn lemma_radix_totals(d: Deployment)
    requires
        d.wf(),
    ensures
        radix_sum(d.nodes@) == 2 * d.links@.len() + d.ext_links@.len(),
{
}

} // verus!
