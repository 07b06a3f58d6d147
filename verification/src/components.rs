//! The device-component planner.
//!
//! Each node's hypervisor instance spec is assembled from a keyed set of
//! components: three serial ports, the primary disk and its backend, one
//! 9p device per mount, the SoftNPU control devices when the deployment
//! has any SoftNPU endpoint, and a network device per endpoint.  PCI slot
//! assignment follows the fixed layout: the primary disk at slot 4, the
//! mounts at slots 5 onward, the SoftNPU control devices immediately
//! after the mounts, and the viona NICs on the following slots.

use vstd::prelude::*;
use vstd::string::*;

use crate::names::dec_rep;
use crate::names::u64_to_string;
use crate::topology::{Endpoint, EndpointKind, Mount};

verus! {

/// The 9p transfer chunk size handed to the hypervisor.
pub const P9FS_CHUNK_SIZE: u32 = 65536;

/// The block size of the primary disk backend.
pub const MAIN_DISK_BLOCK_SIZE: u32 = 512;

/// The PCI slot of the primary disk.
pub const MAIN_DISK_PCI_SLOT: u8 = 4;

/// The first PCI slot given to mounts.
pub const FIRST_MOUNT_PCI_SLOT: u8 = 5;

/// The number of PCI slots on the emulated bus.
pub const PCI_SLOT_COUNT: u8 = 32;

/// One device component of a hypervisor instance spec.
#[derive(Debug, Clone)]
pub enum Component {
    /// A guest serial port, COM1 to COM4.
    SerialPort { com: u8 },
    /// The virtio disk device.
    VirtioDisk { backend_key: String, pci_slot: u8 },
    /// The file (or raw device) storage backend of a disk.
    FileStorageBackend { path: String, readonly: bool, block_size: u32 },
    /// A 9p filesystem device for a shared directory.
    P9fs { source: String, target: String, chunk_size: u32, pci_slot: u8 },
    /// The SoftNPU 9p control device.
    SoftNpuP9 { pci_slot: u8 },
    /// The SoftNPU PCI port device.
    SoftNpuPciPort { pci_slot: u8 },
    /// A virtio network device.
    VirtioNic { backend_key: String, interface_id: String, pci_slot: u8 },
    /// The vnic-backed backend of a virtio network device.
    VirtioNetworkBackend { vnic_name: String },
    /// The vnic-backed backend of a SoftNPU port.
    DlpiNetworkBackend { vnic_name: String },
    /// A SoftNPU port device.
    SoftNpuPort { link_name: String, backend_key: String },
}

/// The specification-level value of a component: the same shape with
/// character sequences for the strings.
pub enum CompView {
    SerialPort { com: u8 },
    VirtioDisk { backend_key: Seq<char>, pci_slot: u8 },
    FileStorageBackend { path: Seq<char>, readonly: bool, block_size: u32 },
    P9fs { source: Seq<char>, target: Seq<char>, chunk_size: u32, pci_slot: u8 },
    SoftNpuP9 { pci_slot: u8 },
    SoftNpuPciPort { pci_slot: u8 },
    VirtioNic { backend_key: Seq<char>, interface_id: Seq<char>, pci_slot: u8 },
    VirtioNetworkBackend { vnic_name: Seq<char> },
    DlpiNetworkBackend { vnic_name: Seq<char> },
    SoftNpuPort { link_name: Seq<char>, backend_key: Seq<char> },
}

/// The specification-level value of a component.
pub open spec fn comp_view(c: Component) -> CompView {
    match c {
        Component::SerialPort { com } => CompView::SerialPort { com },
        Component::VirtioDisk { backend_key, pci_slot } => (CompView::VirtioDisk {
            backend_key: backend_key@,
            pci_slot,
        }),
        Component::FileStorageBackend { path, readonly, block_size } => (
        CompView::FileStorageBackend { path: path@, readonly, block_size }),
        Component::P9fs { source, target, chunk_size, pci_slot } => (CompView::P9fs {
            source: source@,
            target: target@,
            chunk_size,
            pci_slot,
        }),
        Component::SoftNpuP9 { pci_slot } => CompView::SoftNpuP9 { pci_slot },
        Component::SoftNpuPciPort { pci_slot } => CompView::SoftNpuPciPort { pci_slot },
        Component::VirtioNic { backend_key, interface_id, pci_slot } => (CompView::VirtioNic {
            backend_key: backend_key@,
            interface_id: interface_id@,
            pci_slot,
        }),
        Component::VirtioNetworkBackend { vnic_name } => (CompView::VirtioNetworkBackend {
            vnic_name: vnic_name@,
        }),
        Component::DlpiNetworkBackend { vnic_name } => (CompView::DlpiNetworkBackend {
            vnic_name: vnic_name@,
        }),
        Component::SoftNpuPort { link_name, backend_key } => (CompView::SoftNpuPort {
            link_name: link_name@,
            backend_key: backend_key@,
        }),
    }
}

/// The specification-level value of a keyed component list.
pub open spec fn plan_view(v: Seq<(String, Component)>) -> Seq<(Seq<char>, CompView)> {
    v.map_values(|p: (String, Component)| (p.0@, comp_view(p.1)))
}

/// The key of the 9p device for mount `i`.
pub open spec fn fs_key(i: nat) -> Seq<char> {
    "fs"@ + dec_rep(i)
}

/// The key of the viona NIC device numbered `v`.
pub open spec fn net_key(v: nat) -> Seq<char> {
    "net"@ + dec_rep(v)
}

/// The key of the backend of the viona NIC numbered `v`.
pub open spec fn net_backing_key(v: nat) -> Seq<char> {
    net_key(v) + "-backing"@
}

/// The guest-visible link name of the SoftNPU port numbered `k`.
pub open spec fn softnpu_link_key(k: nat) -> Seq<char> {
    "softnpu"@ + dec_rep(k)
}

/// The key of the backend of the SoftNPU port numbered `k`.
pub open spec fn softnpu_backing_key(k: nat) -> Seq<char> {
    softnpu_link_key(k) + "-backing"@
}

/// The key of the SoftNPU port device numbered `k`.
pub open spec fn softnpu_port_key(k: nat) -> Seq<char> {
    softnpu_link_key(k) + "-port"@
}

/// An endpoint paired with the host vnic name that backs it.
#[derive(Debug, Clone)]
pub struct NodeEndpoint {
    /// The vnic the hypervisor attaches to for this endpoint.
    pub vnic_name: String,
    /// The endpoint itself.
    pub endpoint: Endpoint,
}

/// The serial-port, disk and disk-backend entries every node starts with.
pub open spec fn base_entries(backing: Seq<char>) -> Seq<(Seq<char>, CompView)> {
    seq![
        ("com1"@, CompView::SerialPort { com: 1 }),
        ("com2"@, CompView::SerialPort { com: 2 }),
        ("com3"@, CompView::SerialPort { com: 3 }),
        (
            "main_disk"@,
            CompView::VirtioDisk {
                backend_key: "main_disk_backing"@,
                pci_slot: MAIN_DISK_PCI_SLOT,
            },
        ),
        (
            "main_disk_backing"@,
            CompView::FileStorageBackend {
                path: backing,
                readonly: false,
                block_size: MAIN_DISK_BLOCK_SIZE,
            },
        ),
    ]
}

/// The 9p entries for the node's mounts, one per mount in declared order,
/// on consecutive PCI slots from `FIRST_MOUNT_PCI_SLOT`.
pub open spec fn mount_entries(mounts: Seq<Mount>) -> Seq<(Seq<char>, CompView)> {
    Seq::new(
        mounts.len(),
        |i: int|
            (
                fs_key(i as nat),
                CompView::P9fs {
                    source: mounts[i].source@,
                    target: mounts[i].destination@,
                    chunk_size: P9FS_CHUNK_SIZE,
                    pci_slot: (FIRST_MOUNT_PCI_SLOT + i) as u8,
                },
            ),
    )
}

/// The SoftNPU control entries, on the two slots after the mounts.
pub open spec fn softnpu_control_entries(slot: int) -> Seq<(Seq<char>, CompView)> {
    seq![
        ("softnpu-p9"@, CompView::SoftNpuP9 { pci_slot: slot as u8 }),
        ("softnpu-pci-port"@, CompView::SoftNpuPciPort { pci_slot: (slot + 1) as u8 }),
    ]
}

/// Whether an endpoint is realized by a viona device.
pub open spec fn is_viona(e: Endpoint) -> bool {
    e.kind is Viona
}

/// How many of the endpoints are viona endpoints.
pub open spec fn count_viona(eps: Seq<NodeEndpoint>) -> int
    decreases eps.len(),
{
    if eps.len() == 0 {
        0
    } else {
        (if is_viona(eps.first().endpoint) {
            1int
        } else {
            0int
        }) + count_viona(eps.skip(1))
    }
}

/// The network entries for the node's endpoints, processed in order.
/// A viona endpoint takes the next viona number `v`, its identifier from
/// `ids`, and the next PCI slot; a SoftNPU endpoint takes the next SoftNPU
/// number `k` and no slot.
pub open spec fn endpoint_entries(
    eps: Seq<NodeEndpoint>,
    ids: Seq<Seq<char>>,
    v: int,
    k: int,
    slot: int,
) -> Seq<(Seq<char>, CompView)>
    decreases eps.len(),
{
    if eps.len() == 0 {
        Seq::empty()
    } else {
        let e = eps.first();
        if is_viona(e.endpoint) {
            seq![
                (net_backing_key(v as nat), CompView::VirtioNetworkBackend { vnic_name: e.vnic_name@ }),
                (
                    net_key(v as nat),
                    CompView::VirtioNic {
                        backend_key: net_backing_key(v as nat),
                        interface_id: ids[v],
                        pci_slot: slot as u8,
                    },
                ),
            ] + endpoint_entries(eps.skip(1), ids, v + 1, k, slot + 1)
        } else {
            seq![
                (softnpu_backing_key(k as nat), CompView::DlpiNetworkBackend { vnic_name: e.vnic_name@ }),
                (
                    softnpu_port_key(k as nat),
                    CompView::SoftNpuPort {
                        link_name: softnpu_link_key(k as nat),
                        backend_key: softnpu_backing_key(k as nat),
                    },
                ),
            ] + endpoint_entries(eps.skip(1), ids, v, k + 1, slot)
        }
    }
}

/// The full component plan of a node: base entries, mounts, the SoftNPU
/// control pair when the deployment has any SoftNPU endpoint, then the
/// network entries.
pub open spec fn spec_component_plan(
    backing: Seq<char>,
    mounts: Seq<Mount>,
    softnpu_deployment: bool,
    eps: Seq<NodeEndpoint>,
    ids: Seq<Seq<char>>,
) -> Seq<(Seq<char>, CompView)> {
    let soft = if softnpu_deployment {
        softnpu_control_entries(FIRST_MOUNT_PCI_SLOT + mounts.len())
    } else {
        Seq::empty()
    };
    let first_net_slot = FIRST_MOUNT_PCI_SLOT + mounts.len() + soft.len();
    base_entries(backing) + mount_entries(mounts) + soft + endpoint_entries(
        eps,
        ids,
        0,
        0,
        first_net_slot,
    )
}

/// Append the network entries for `eps[i..]` to `out`.
fn push_endpoint_entries(
    out: &mut Vec<(String, Component)>,
    eps: &Vec<NodeEndpoint>,
    ids: &Vec<String>,
    i: usize,
    v: usize,
    k: usize,
    slot: u8,
)
    requires
        i <= eps@.len(),
        v + count_viona(eps@.skip(i as int)) <= ids@.len(),
        slot + count_viona(eps@.skip(i as int)) <= PCI_SLOT_COUNT,
        k <= i,
    ensures
        plan_view(final(out)@) == plan_view(old(out)@) + endpoint_entries(
            eps@.skip(i as int),
            ids@.map_values(|s: String| s@),
            v as int,
            k as int,
            slot as int,
        ),
    decreases eps@.len() - i,
{
    let ghost ids_len: int = ids@.len() as int;
    proof {
        lemma_count_viona_nonneg(eps@.skip(i as int));
        assert(ids@.len() == ids.len());
    }
    if i == eps.len() {
        proof {
            assert(plan_view(out@) =~~= plan_view(out@) + endpoint_entries(
                eps@.skip(i as int),
                ids@.map_values(|s: String| s@),
                v as int,
                k as int,
                slot as int,
            ));
        }
        return ;
    }
    let ghost rest = eps@.skip(i as int);
    proof {
        assert(rest.first() == eps@[i as int]);
        assert(rest.skip(1) =~= eps@.skip(i as int + 1));
        lemma_count_viona_nonneg(rest.skip(1));
    }
    let e = &eps[i];
    let is_v = match &e.endpoint.kind {
        EndpointKind::Viona(_) => true,
        EndpointKind::SoftNPU(_) => false,
    };
    proof {
        assert(is_v == is_viona(rest.first().endpoint));
        assert(count_viona(rest) == (if is_viona(rest.first().endpoint) {
            1int
        } else {
            0int
        }) + count_viona(rest.skip(1)));
    }
    if is_v {
        let mut key = "net".to_owned();
        key.append(u64_to_string(v as u64).as_str());
        let mut bkey = key.clone();
        bkey.append("-backing");
        proof {
            assert(key@ == net_key(v as nat));
            assert(bkey@ == net_backing_key(v as nat));
        }
        let bkey2 = bkey.clone();
        out.push((bkey, Component::VirtioNetworkBackend { vnic_name: e.vnic_name.clone() }));
        out.push(
            (
                key,
                Component::VirtioNic {
                    backend_key: bkey2,
                    interface_id: ids[v].clone(),
                    pci_slot: slot,
                },
            ),
        );
        proof {
            assert(plan_view(out@) =~~= plan_view(old(out)@) + seq![
                (
                    net_backing_key(v as nat),
                    (CompView::VirtioNetworkBackend { vnic_name: e.vnic_name@ }),
                ),
                (
                    net_key(v as nat),
                    (CompView::VirtioNic {
                        backend_key: net_backing_key(v as nat),
                        interface_id: ids@.map_values(|s: String| s@)[v as int],
                        pci_slot: slot,
                    }),
                ),
            ]);
        }
        push_endpoint_entries(out, eps, ids, i + 1, v + 1, k, slot + 1);
        proof {
            assert(plan_view(out@) =~~= plan_view(old(out)@) + endpoint_entries(
                eps@.skip(i as int),
                ids@.map_values(|s: String| s@),
                v as int,
                k as int,
                slot as int,
            ));
        }
    } else {
        let mut lkey = "softnpu".to_owned();
        lkey.append(u64_to_string(k as u64).as_str());
        let mut bkey = lkey.clone();
        bkey.append("-backing");
        let mut pkey = lkey.clone();
        pkey.append("-port");
        proof {
            assert(lkey@ == softnpu_link_key(k as nat));
            assert(bkey@ == softnpu_backing_key(k as nat));
            assert(pkey@ == softnpu_port_key(k as nat));
        }
        let bkey2 = bkey.clone();
        out.push((bkey, Component::DlpiNetworkBackend { vnic_name: e.vnic_name.clone() }));
        out.push((pkey, Component::SoftNpuPort { link_name: lkey, backend_key: bkey2 }));
        proof {
            assert(plan_view(out@) =~~= plan_view(old(out)@) + seq![
                (
                    softnpu_backing_key(k as nat),
                    (CompView::DlpiNetworkBackend { vnic_name: e.vnic_name@ }),
                ),
                (
                    softnpu_port_key(k as nat),
                    (CompView::SoftNpuPort {
                        link_name: softnpu_link_key(k as nat),
                        backend_key: softnpu_backing_key(k as nat),
                    }),
                ),
            ]);
        }
        push_endpoint_entries(out, eps, ids, i + 1, v, k + 1, slot);
        proof {
            assert(plan_view(out@) =~~= plan_view(old(out)@) + endpoint_entries(
                eps@.skip(i as int),
                ids@.map_values(|s: String| s@),
                v as int,
                k as int,
                slot as int,
            ));
        }
    }
}

/// Pushing an entry extends the plan view by its view.
proof fn lemma_plan_view_push(v: Seq<(String, Component)>, x: (String, Component))
    ensures
        plan_view(v.push(x)) =~= plan_view(v).push((x.0@, comp_view(x.1))),
{
}

/// The viona count of any endpoint list is not negative.
pub proof fn lemma_count_viona_nonneg(eps: Seq<NodeEndpoint>)
    ensures
        0 <= count_viona(eps) <= eps.len(),
    decreases eps.len(),
{
    if eps.len() > 0 {
        lemma_count_viona_nonneg(eps.skip(1));
    }
}

/// Count the viona endpoints of `eps`.
pub fn count_viona_endpoints(eps: &Vec<NodeEndpoint>) -> (r: usize)
    ensures
        r == count_viona(eps@),
{
    proof {
        lemma_count_viona_nonneg(eps@);
        assert(eps@.skip(0) =~= eps@);
    }
    let mut r: usize = 0;
    let mut i: usize = 0;
    while i < eps.len()
        invariant
            0 <= i <= eps@.len(),
            r + count_viona(eps@.skip(i as int)) == count_viona(eps@),
            r <= i,
        decreases eps@.len() - i,
    {
        proof {
            assert(eps@.skip(i as int).first() == eps@[i as int]);
            assert(eps@.skip(i as int).skip(1) =~= eps@.skip(i as int + 1));
            lemma_count_viona_nonneg(eps@.skip(i as int + 1));
        }
        let keep = match &eps[i].endpoint.kind {
            EndpointKind::Viona(_) => true,
            EndpointKind::SoftNPU(_) => false,
        };
        if keep {
            r = r + 1;
        }
        i = i + 1;
    }
    proof {
        assert(eps@.skip(eps@.len() as int).len() == 0);
    }
    r
}

/// Build the full component plan of a node.
///
/// `backing` is the primary-disk backing path, `mounts` the node's mounts,
/// `softnpu_deployment` whether any endpoint of the whole deployment is a
/// SoftNPU endpoint, `eps` the node's endpoints paired with their vnic
/// names, and `ids` one fresh interface identifier per viona endpoint.
pub fn component_plan(
    backing: &str,
    mounts: &Vec<Mount>,
    softnpu_deployment: bool,
    eps: &Vec<NodeEndpoint>,
    ids: &Vec<String>,
) -> (r: Vec<(String, Component)>)
    requires
        ids@.len() == count_viona(eps@),
        5 + mounts@.len() + (if softnpu_deployment {
            2int
        } else {
            0int
        }) + count_viona(eps@) <= PCI_SLOT_COUNT,
    ensures
        plan_view(r@) == spec_component_plan(
            backing@,
            mounts@,
            softnpu_deployment,
            eps@,
            ids@.map_values(|s: String| s@),
        ),
{
    proof {
        lemma_count_viona_nonneg(eps@);
    }
    let mut out: Vec<(String, Component)> = Vec::new();
    out.push(("com1".to_owned(), Component::SerialPort { com: 1 }));
    out.push(("com2".to_owned(), Component::SerialPort { com: 2 }));
    out.push(("com3".to_owned(), Component::SerialPort { com: 3 }));
    out.push(
        (
            "main_disk".to_owned(),
            Component::VirtioDisk {
                backend_key: "main_disk_backing".to_owned(),
                pci_slot: MAIN_DISK_PCI_SLOT,
            },
        ),
    );
    out.push(
        (
            "main_disk_backing".to_owned(),
            Component::FileStorageBackend {
                path: backing.to_owned(),
                readonly: false,
                block_size: MAIN_DISK_BLOCK_SIZE,
            },
        ),
    );
    proof {
        assert(plan_view(out@) =~~= base_entries(backing@));
    }
    let mut i: usize = 0;
    while i < mounts.len()
        invariant
            0 <= i <= mounts@.len(),
            mounts@.len() + 5 <= PCI_SLOT_COUNT,
            plan_view(out@) == base_entries(backing@) + mount_entries(mounts@.take(i as int)),
        decreases mounts@.len() - i,
    {
        let mut key = "fs".to_owned();
        key.append(u64_to_string(i as u64).as_str());
        proof {
            assert(key@ == fs_key(i as nat));
        }
        let m = &mounts[i];
        let ghost prev = out@;
        let entry = (
            key,
            Component::P9fs {
                source: m.source.clone(),
                target: m.destination.clone(),
                chunk_size: P9FS_CHUNK_SIZE,
                pci_slot: FIRST_MOUNT_PCI_SLOT + (i as u8),
            },
        );
        out.push(entry);
        proof {
            lemma_plan_view_push(prev, entry);
            assert(mount_entries(mounts@.take(i as int + 1)) =~~= mount_entries(
                mounts@.take(i as int),
            ).push(
                (
                    fs_key(i as nat),
                    (CompView::P9fs {
                        source: mounts@[i as int].source@,
                        target: mounts@[i as int].destination@,
                        chunk_size: P9FS_CHUNK_SIZE,
                        pci_slot: (FIRST_MOUNT_PCI_SLOT + i) as u8,
                    }),
                ),
            ));
            assert(plan_view(out@) =~~= base_entries(backing@) + mount_entries(
                mounts@.take(i as int + 1),
            ));
        }
        i = i + 1;
    }
    proof {
        assert(mounts@.take(mounts@.len() as int) =~= mounts@);
    }
    let soft_len: usize = if softnpu_deployment {
        2
    } else {
        0
    };
    let next_slot: u8 = FIRST_MOUNT_PCI_SLOT + (mounts.len() as u8);
    if softnpu_deployment {
        out.push(("softnpu-p9".to_owned(), Component::SoftNpuP9 { pci_slot: next_slot }));
        out.push(
            ("softnpu-pci-port".to_owned(), Component::SoftNpuPciPort { pci_slot: next_slot + 1 }),
        );
    }
    let ghost soft = if softnpu_deployment {
        softnpu_control_entries(FIRST_MOUNT_PCI_SLOT + mounts@.len())
    } else {
        Seq::<(Seq<char>, CompView)>::empty()
    };
    proof {
        assert(plan_view(out@) =~~= base_entries(backing@) + mount_entries(mounts@) + soft);
    }
    let first_net_slot: u8 = next_slot + (soft_len as u8);
    proof {
        assert(eps@.skip(0) =~= eps@);
    }
    push_endpoint_entries(&mut out, eps, ids, 0, 0, 0, first_net_slot);
    proof {
        assert(plan_view(out@) =~~= spec_component_plan(
            backing@,
            mounts@,
            softnpu_deployment,
            eps@,
            ids@.map_values(|s: String| s@),
        ));
    }
    out
}

/// Generate one fresh interface identifier per viona endpoint.
pub fn gen_nic_ids(n: usize) -> (r: Vec<String>)
    ensures
        r@.len() == n,
        forall|i: int| 0 <= i < n ==> crate::ids::is_uuid_canonical(#[trigger] r@[i]@),
{
    let mut r: Vec<String> = Vec::new();
    let mut i: usize = 0;
    while i < n
        invariant
            0 <= i <= n,
            r@.len() == i,
            forall|j: int| 0 <= j < i ==> crate::ids::is_uuid_canonical(#[trigger] r@[j]@),
        decreases n - i,
    {
        r.push(crate::ids::uuid_v4_string());
        i = i + 1;
    }
    r
}

} // verus!
