//! The serialized topology: a plain-text, line-oriented document that
//! `destroy` and `exec` re-parse when the building program is gone.
//!
//! The document holds one value per line, in a fixed order that is part
//! of the format: a tag line, the deployment name, then each node with
//! its mounts and SMBIOS information, the links, the external links,
//! and a closing line.  Numbers are decimal, booleans are `0`/`1`,
//! strings stand raw on their own line.  A deployment is serializable
//! when none of its strings carries a line break and no node has a
//! computed device plan yet, which is the state the file is written in.

use vstd::prelude::*;
use vstd::string::*;

use crate::names::dec_rep;
use crate::serial::{join_nl, spec_lines, strip_tail_cr};
use crate::sidecar::spec_parse_u64;
use crate::topology::{
    Deployment, Endpoint, EndpointKind, ExtLink, GuestMountMechanism, Link, Mount, Node, NodeRef,
    PrimaryDiskBacking, SmbiosInfo,
};

verus! {

/// The specification-level value of a mount.
pub struct MountV {
    pub source: Seq<char>,
    pub destination: Seq<char>,
    pub p9kp: bool,
}

/// The specification-level value of an endpoint.
pub struct EndpointV {
    pub node: int,
    pub index: int,
    pub viona: bool,
    pub mac: Option<Seq<char>>,
}

/// The specification-level value of a link.
pub struct LinkV {
    pub e0: EndpointV,
    pub e1: EndpointV,
}

/// The specification-level value of an external link.
pub struct ExtV {
    pub endpoint: EndpointV,
    pub host_ifx: Seq<char>,
}

/// The specification-level value of SMBIOS information.
pub struct SmbiosV {
    pub manufacturer: Seq<char>,
    pub product_name: Seq<char>,
    pub version: Seq<char>,
    pub serial_number: Seq<char>,
    pub uuid: Seq<char>,
    pub sku: Seq<char>,
    pub family: Seq<char>,
}

/// The specification-level value of a node.
pub struct NodeV {
    pub name: Seq<char>,
    pub image: Seq<char>,
    pub radix: int,
    pub id: Seq<char>,
    pub cores: int,
    pub memory: int,
    pub dataset: Seq<char>,
    pub do_setup: bool,
    pub reserved: int,
    pub zvol: bool,
    pub vnc_port: Option<int>,
    pub mounts: Seq<MountV>,
    pub smbios: Option<SmbiosV>,
}

/// The specification-level value of a deployment.
pub struct DeplV {
    pub name: Seq<char>,
    pub nodes: Seq<NodeV>,
    pub links: Seq<LinkV>,
    pub ext_links: Seq<ExtV>,
}

/// The value of a mount.
pub open spec fn mount_v(m: Mount) -> MountV {
    MountV {
        source: m.source@,
        destination: m.destination@,
        p9kp: m.mechanism is P9kp,
    }
}

/// The value of an endpoint.
pub open spec fn endpoint_v(e: Endpoint) -> EndpointV {
    EndpointV {
        node: e.node.index as int,
        index: e.index as int,
        viona: e.kind is Viona,
        mac: match e.kind {
            EndpointKind::Viona(Some(m)) => Some(m@),
            EndpointKind::SoftNPU(Some(m)) => Some(m@),
            _ => None,
        },
    }
}

/// The value of a link.
pub open spec fn link_v(l: Link) -> LinkV {
    LinkV { e0: endpoint_v(l.endpoints[0]), e1: endpoint_v(l.endpoints[1]) }
}

/// The value of an external link.
pub open spec fn ext_v(x: ExtLink) -> ExtV {
    ExtV { endpoint: endpoint_v(x.endpoint), host_ifx: x.host_ifx@ }
}

/// The value of SMBIOS information.
pub open spec fn smbios_v(s: SmbiosInfo) -> SmbiosV {
    SmbiosV {
        manufacturer: s.manufacturer@,
        product_name: s.product_name@,
        version: s.version@,
        serial_number: s.serial_number@,
        uuid: s.uuid@,
        sku: s.sku@,
        family: s.family@,
    }
}

/// The value of a node.
pub open spec fn node_v(n: Node) -> NodeV {
    NodeV {
        name: n.name@,
        image: n.image@,
        radix: n.radix as int,
        id: n.id@,
        cores: n.cores as int,
        memory: n.memory as int,
        dataset: n.dataset@,
        do_setup: n.do_setup,
        reserved: n.reserved as int,
        zvol: n.primary_disk_backing is Zvol,
        vnc_port: match n.vnc_port {
            Some(p) => Some(p as int),
            None => None,
        },
        mounts: n.mounts@.map_values(|m: Mount| mount_v(m)),
        smbios: match n.smbios {
            Some(s) => Some(smbios_v(s)),
            None => None,
        },
    }
}

/// The value of a deployment.
pub open spec fn depl_v(d: Deployment) -> DeplV {
    DeplV {
        name: d.name@,
        nodes: d.nodes@.map_values(|n: Node| node_v(n)),
        links: d.links@.map_values(|l: Link| link_v(l)),
        ext_links: d.ext_links@.map_values(|x: ExtLink| ext_v(x)),
    }
}

/// A text value that can stand on a line of the document.
pub open spec fn line_ok(s: Seq<char>) -> bool {
    forall|i: int| 0 <= i < s.len() ==> s[i] != '\n' && s[i] != '\r'
}

/// A serializable endpoint value: an in-range MAC text.
pub open spec fn ep_serial_ok(e: EndpointV) -> bool {
    &&& 0 <= e.node <= usize::MAX
    &&& 0 <= e.index <= usize::MAX
    &&& match e.mac {
        Some(m) => line_ok(m),
        None => true,
    }
}

/// A serializable deployment value: every text line-clean, every number
/// in range, and no node carrying a computed device plan.
pub open spec fn serial_ok(d: Deployment) -> bool {
    let v = depl_v(d);
    &&& line_ok(v.name)
    &&& forall|i: int|
        0 <= i < v.nodes.len() ==> {
            let n = #[trigger] v.nodes[i];
            &&& line_ok(n.name)
            &&& line_ok(n.image)
            &&& line_ok(n.id)
            &&& line_ok(n.dataset)
            &&& (forall|j: int|
                0 <= j < n.mounts.len() ==> line_ok((#[trigger] n.mounts[j]).source) && line_ok(
                    n.mounts[j].destination,
                ))
            &&& match n.smbios {
                Some(s) => line_ok(s.manufacturer) && line_ok(s.product_name) && line_ok(s.version)
                    && line_ok(s.serial_number) && line_ok(s.uuid) && line_ok(s.sku) && line_ok(
                    s.family,
                ),
                None => true,
            }
        }
    &&& forall|i: int| 0 <= i < d.nodes@.len() ==> (#[trigger] d.nodes@[i]).components@.len() == 0
    &&& forall|i: int|
        0 <= i < v.links.len() ==> ep_serial_ok((#[trigger] v.links[i]).e0) && ep_serial_ok(
            v.links[i].e1,
        )
    &&& forall|i: int|
        0 <= i < v.ext_links.len() ==> ep_serial_ok((#[trigger] v.ext_links[i]).endpoint)
            && line_ok(v.ext_links[i].host_ifx)
}

/// The lines of one endpoint: node index, endpoint index, kind, a MAC
/// flag, and the MAC text (empty when absent).
pub open spec fn ep_lines(e: EndpointV) -> Seq<Seq<char>> {
    seq![
        dec_rep(e.node as nat),
        dec_rep(e.index as nat),
        if e.viona {
            "viona"@
        } else {
            "softnpu"@
        },
        match e.mac {
            Some(_) => "1"@,
            None => "0"@,
        },
        match e.mac {
            Some(m) => m,
            None => Seq::empty(),
        },
    ]
}

/// The lines of one mount.
pub open spec fn mount_lines(m: MountV) -> Seq<Seq<char>> {
    seq![
        m.source,
        m.destination,
        if m.p9kp {
            "p9kp"@
        } else {
            "mount"@
        },
    ]
}

/// The lines of a list of mounts.
pub open spec fn mounts_lines(ms: Seq<MountV>) -> Seq<Seq<char>>
    decreases ms.len(),
{
    if ms.len() == 0 {
        Seq::empty()
    } else {
        mounts_lines(ms.drop_last()) + mount_lines(ms.last())
    }
}

/// The SMBIOS lines: always seven, empty when absent.
pub open spec fn smbios_lines(s: Option<SmbiosV>) -> Seq<Seq<char>> {
    match s {
        Some(v) => seq![
            v.manufacturer,
            v.product_name,
            v.version,
            v.serial_number,
            v.uuid,
            v.sku,
            v.family,
        ],
        None => seq![
            Seq::empty(),
            Seq::empty(),
            Seq::empty(),
            Seq::empty(),
            Seq::empty(),
            Seq::empty(),
            Seq::empty(),
        ],
    }
}

/// The lines of one node.
pub open spec fn node_lines(n: NodeV) -> Seq<Seq<char>> {
    seq![
        n.name,
        n.image,
        dec_rep(n.radix as nat),
        n.id,
        dec_rep(n.cores as nat),
        dec_rep(n.memory as nat),
        n.dataset,
        if n.do_setup {
            "1"@
        } else {
            "0"@
        },
        dec_rep(n.reserved as nat),
        if n.zvol {
            "zvol"@
        } else {
            "file"@
        },
        match n.vnc_port {
            Some(_) => "1"@,
            None => "0"@,
        },
        match n.vnc_port {
            Some(p) => dec_rep(p as nat),
            None => Seq::empty(),
        },
        dec_rep(n.mounts.len()),
    ] + mounts_lines(n.mounts) + seq![
        match n.smbios {
            Some(_) => "1"@,
            None => "0"@,
        },
    ] + smbios_lines(n.smbios)
}

/// The lines of a list of nodes.
pub open spec fn nodes_lines(ns: Seq<NodeV>) -> Seq<Seq<char>>
    decreases ns.len(),
{
    if ns.len() == 0 {
        Seq::empty()
    } else {
        nodes_lines(ns.drop_last()) + node_lines(ns.last())
    }
}

/// The lines of one link: its two endpoints.
pub open spec fn link_lines(l: LinkV) -> Seq<Seq<char>> {
    ep_lines(l.e0) + ep_lines(l.e1)
}

/// The lines of a list of links.
pub open spec fn links_lines(ls: Seq<LinkV>) -> Seq<Seq<char>>
    decreases ls.len(),
{
    if ls.len() == 0 {
        Seq::empty()
    } else {
        links_lines(ls.drop_last()) + link_lines(ls.last())
    }
}

/// The lines of one external link.
pub open spec fn extl_lines(x: ExtV) -> Seq<Seq<char>> {
    ep_lines(x.endpoint) + seq![x.host_ifx]
}

/// The lines of a list of external links.
pub open spec fn exts_lines(xs: Seq<ExtV>) -> Seq<Seq<char>>
    decreases xs.len(),
{
    if xs.len() == 0 {
        Seq::empty()
    } else {
        exts_lines(xs.drop_last()) + extl_lines(xs.last())
    }
}

/// The whole document, as lines: tag, name, the counted node, link and
/// external-link blocks, and the closing line.
pub open spec fn depl_lines(v: DeplV) -> Seq<Seq<char>> {
    seq!["falcon-topology"@, v.name, dec_rep(v.nodes.len())] + nodes_lines(v.nodes) + seq![
        dec_rep(v.links.len()),
    ] + links_lines(v.links) + seq![dec_rep(v.ext_links.len())] + exts_lines(v.ext_links) + seq![
        "end"@,
    ]
}

/// Splitting the joined lines gives the lines back, provided every line
/// is free of line breaks and the last line is nonempty.
pub proof fn lemma_lines_join(ls: Seq<Seq<char>>)
    requires
        ls.len() >= 1,
        forall|i: int| 0 <= i < ls.len() ==> line_ok(#[trigger] ls[i]),
        ls.last().len() > 0,
    ensures
        spec_lines(join_nl(ls)) == ls,
    decreases ls.len(),
{
    let s = join_nl(ls);
    if ls.len() == 1 {
        assert(s == ls[0]);
        crate::serial::lemma_find_nl_full(s);
        assert(spec_lines(s) =~= ls);
    } else {
        let rest = join_nl(ls.skip(1));
        assert(s == ls[0] + seq!['\n'] + rest);
        let k = ls[0].len() as int;
        assert forall|m: int| 0 <= m < k implies s[m] != '\n' by {
            assert(s[m] == ls[0][m]);
        }
        assert(s[k] == '\n');
        crate::serial::lemma_find_nl_at(s, k);
        assert(strip_tail_cr(s.subrange(0, k)) =~= ls[0]) by {
            assert(s.subrange(0, k) =~= ls[0]);
            if ls[0].len() > 0 {
                assert(ls[0].last() != '\r');
            }
        }
        assert(s.skip(k + 1) =~= rest);
        assert forall|i: int| 0 <= i < ls.skip(1).len() implies line_ok(#[trigger] ls.skip(1)[i]) by {
            assert(ls.skip(1)[i] == ls[i + 1]);
        }
        assert(ls.skip(1).last() == ls.last());
        lemma_lines_join(ls.skip(1));
        assert(spec_lines(s) == seq![strip_tail_cr(s.subrange(0, k))] + spec_lines(s.skip(k + 1)));
        assert(spec_lines(s) =~= ls);
    }
}

/// Parse a `0`/`1` flag line.
pub open spec fn sp_flag(l: Seq<char>) -> Option<bool> {
    if l == "1"@ {
        Some(true)
    } else if l == "0"@ {
        Some(false)
    } else {
        None
    }
}

/// Parse an endpoint record: five lines from `i`.
pub open spec fn sp_ep(ls: Seq<Seq<char>>, i: int) -> Option<EndpointV> {
    if 0 <= i && i + 5 <= ls.len() {
        let node = spec_parse_u64(ls[i]);
        let idx = spec_parse_u64(ls[i + 1]);
        let kind: Option<bool> = if ls[i + 2] == "viona"@ {
            Some(true)
        } else if ls[i + 2] == "softnpu"@ {
            Some(false)
        } else {
            None
        };
        let mf = sp_flag(ls[i + 3]);
        if node is Some && node.unwrap() <= usize::MAX && idx is Some && idx.unwrap() <= usize::MAX
            && kind is Some && mf is Some {
            Some(
                EndpointV {
                    node: node.unwrap(),
                    index: idx.unwrap(),
                    viona: kind.unwrap(),
                    mac: if mf.unwrap() {
                        Some(ls[i + 4])
                    } else {
                        None
                    },
                },
            )
        } else {
            None
        }
    } else {
        None
    }
}

/// Parse a mount record: three lines from `i`.
pub open spec fn sp_mount(ls: Seq<Seq<char>>, i: int) -> Option<MountV> {
    if 0 <= i && i + 3 <= ls.len() {
        let mech: Option<bool> = if ls[i + 2] == "p9kp"@ {
            Some(true)
        } else if ls[i + 2] == "mount"@ {
            Some(false)
        } else {
            None
        };
        if mech is Some {
            Some(MountV { source: ls[i], destination: ls[i + 1], p9kp: mech.unwrap() })
        } else {
            None
        }
    } else {
        None
    }
}

/// Parse `m` mount records from `i`.
pub open spec fn sp_mounts(ls: Seq<Seq<char>>, i: int, m: int) -> Option<Seq<MountV>>
    decreases m,
{
    if m <= 0 {
        Some(Seq::empty())
    } else {
        match sp_mount(ls, i) {
            Some(mv) => match sp_mounts(ls, i + 3, m - 1) {
                Some(t) => Some(seq![mv] + t),
                None => None,
            },
            None => None,
        }
    }
}

/// Parse the SMBIOS block: a flag line then seven lines, from `i`.
pub open spec fn sp_smbios(ls: Seq<Seq<char>>, i: int) -> Option<Option<SmbiosV>> {
    if 0 <= i && i + 8 <= ls.len() {
        match sp_flag(ls[i]) {
            Some(true) => Some(
                Some(
                    SmbiosV {
                        manufacturer: ls[i + 1],
                        product_name: ls[i + 2],
                        version: ls[i + 3],
                        serial_number: ls[i + 4],
                        uuid: ls[i + 5],
                        sku: ls[i + 6],
                        family: ls[i + 7],
                    },
                ),
            ),
            Some(false) => Some(None),
            None => None,
        }
    } else {
        None
    }
}

/// Parse one node from `i`, yielding the node and the position after
/// it.
pub open spec fn sp_node(ls: Seq<Seq<char>>, i: int) -> Option<(NodeV, int)> {
    if 0 <= i && i + 13 <= ls.len() {
        let radix = spec_parse_u64(ls[i + 2]);
        let cores = spec_parse_u64(ls[i + 4]);
        let memory = spec_parse_u64(ls[i + 5]);
        let setup = sp_flag(ls[i + 7]);
        let reserved = spec_parse_u64(ls[i + 8]);
        let zvol: Option<bool> = if ls[i + 9] == "zvol"@ {
            Some(true)
        } else if ls[i + 9] == "file"@ {
            Some(false)
        } else {
            None
        };
        let vf = sp_flag(ls[i + 10]);
        let vport = spec_parse_u64(ls[i + 11]);
        let mcount = spec_parse_u64(ls[i + 12]);
        if radix is Some && radix.unwrap() <= usize::MAX && cores is Some && cores.unwrap() <= 255
            && memory is Some && setup is Some && reserved is Some && reserved.unwrap()
            <= usize::MAX && zvol is Some && vf is Some && (vf.unwrap() ==> vport is Some
            && vport.unwrap() <= 65535) && mcount is Some && mcount.unwrap() <= usize::MAX {
            match sp_mounts(ls, i + 13, mcount.unwrap()) {
                Some(ms) => {
                    let si = i + 13 + 3 * mcount.unwrap();
                    match sp_smbios(ls, si) {
                        Some(sm) => Some(
                            (
                                NodeV {
                                    name: ls[i],
                                    image: ls[i + 1],
                                    radix: radix.unwrap(),
                                    id: ls[i + 3],
                                    cores: cores.unwrap(),
                                    memory: memory.unwrap(),
                                    dataset: ls[i + 6],
                                    do_setup: setup.unwrap(),
                                    reserved: reserved.unwrap(),
                                    zvol: zvol.unwrap(),
                                    vnc_port: if vf.unwrap() {
                                        Some(vport.unwrap())
                                    } else {
                                        None
                                    },
                                    mounts: ms,
                                    smbios: sm,
                                },
                                si + 8,
                            ),
                        ),
                        None => None,
                    }
                },
                None => None,
            }
        } else {
            None
        }
    } else {
        None
    }
}

/// Parse `k` nodes from `i`.
pub open spec fn sp_nodes(ls: Seq<Seq<char>>, i: int, k: int) -> Option<(Seq<NodeV>, int)>
    decreases k,
{
    if k <= 0 {
        Some((Seq::empty(), i))
    } else {
        match sp_node(ls, i) {
            Some((n, j)) => match sp_nodes(ls, j, k - 1) {
                Some((t, e)) => Some((seq![n] + t, e)),
                None => None,
            },
            None => None,
        }
    }
}

/// Parse one link from `i`: two endpoint records.
pub open spec fn sp_link(ls: Seq<Seq<char>>, i: int) -> Option<LinkV> {
    match sp_ep(ls, i) {
        Some(e0) => match sp_ep(ls, i + 5) {
            Some(e1) => Some(LinkV { e0, e1 }),
            None => None,
        },
        None => None,
    }
}

/// Parse `k` links from `i`.
pub open spec fn sp_links(ls: Seq<Seq<char>>, i: int, k: int) -> Option<Seq<LinkV>>
    decreases k,
{
    if k <= 0 {
        Some(Seq::empty())
    } else {
        match sp_link(ls, i) {
            Some(l) => match sp_links(ls, i + 10, k - 1) {
                Some(t) => Some(seq![l] + t),
                None => None,
            },
            None => None,
        }
    }
}

/// Parse one external link from `i`: an endpoint and a host interface.
pub open spec fn sp_ext(ls: Seq<Seq<char>>, i: int) -> Option<ExtV> {
    if 0 <= i && i + 6 <= ls.len() {
        match sp_ep(ls, i) {
            Some(e) => Some(ExtV { endpoint: e, host_ifx: ls[i + 5] }),
            None => None,
        }
    } else {
        None
    }
}

/// Parse `k` external links from `i`.
pub open spec fn sp_exts(ls: Seq<Seq<char>>, i: int, k: int) -> Option<Seq<ExtV>>
    decreases k,
{
    if k <= 0 {
        Some(Seq::empty())
    } else {
        match sp_ext(ls, i) {
            Some(x) => match sp_exts(ls, i + 6, k - 1) {
                Some(t) => Some(seq![x] + t),
                None => None,
            },
            None => None,
        }
    }
}

/// Parse the whole document.
pub open spec fn sp_depl(ls: Seq<Seq<char>>) -> Option<DeplV> {
    if ls.len() >= 3 && ls[0] == "falcon-topology"@ {
        let nc = spec_parse_u64(ls[2]);
        if nc is Some && nc.unwrap() <= usize::MAX {
            match sp_nodes(ls, 3, nc.unwrap()) {
                Some((nodes, i1)) => {
                    if i1 + 1 <= ls.len() {
                        let lc = spec_parse_u64(ls[i1]);
                        if lc is Some && lc.unwrap() <= usize::MAX {
                            match sp_links(ls, i1 + 1, lc.unwrap()) {
                                Some(links) => {
                                    let i2 = i1 + 1 + 10 * lc.unwrap();
                                    if i2 + 1 <= ls.len() {
                                        let ec = spec_parse_u64(ls[i2]);
                                        if ec is Some && ec.unwrap() <= usize::MAX {
                                            match sp_exts(ls, i2 + 1, ec.unwrap()) {
                                                Some(exts) => {
                                                    let i3 = i2 + 1 + 6 * ec.unwrap();
                                                    if i3 + 1 == ls.len() && ls[i3] == "end"@ {
                                                        Some(
                                                            DeplV {
                                                                name: ls[1],
                                                                nodes,
                                                                links,
                                                                ext_links: exts,
                                                            },
                                                        )
                                                    } else {
                                                        None
                                                    }
                                                },
                                                None => None,
                                            }
                                        } else {
                                            None
                                        }
                                    } else {
                                        None
                                    }
                                },
                                None => None,
                            }
                        } else {
                            None
                        }
                    } else {
                        None
                    }
                },
                None => None,
            }
        } else {
            None
        }
    } else {
        None
    }
}

/// The lines of a mount block number three per mount.
proof fn lemma_mounts_lines_len(ms: Seq<MountV>)
    ensures
        mounts_lines(ms).len() == 3 * ms.len(),
    decreases ms.len(),
{
    if ms.len() > 0 {
        lemma_mounts_lines_len(ms.drop_last());
    }
}

/// A mount block decomposes from the front.
proof fn lemma_mounts_lines_front(ms: Seq<MountV>)
    requires
        ms.len() > 0,
    ensures
        mounts_lines(ms) == mount_lines(ms[0]) + mounts_lines(ms.skip(1)),
    decreases ms.len(),
{
    if ms.len() == 1 {
        assert(ms.drop_last().len() == 0);
        assert(ms.last() == ms[0]);
        assert(ms.skip(1).len() == 0);
        assert(mounts_lines(ms.drop_last()) =~= Seq::<Seq<char>>::empty());
        assert(mounts_lines(ms.skip(1)) =~= Seq::<Seq<char>>::empty());
        assert(mounts_lines(ms) =~= mount_lines(ms[0]) + mounts_lines(ms.skip(1)));
    } else {
        lemma_mounts_lines_front(ms.drop_last());
        assert(ms.drop_last()[0] == ms[0]);
        assert(ms.drop_last().skip(1) =~= ms.skip(1).drop_last());
        assert(ms.skip(1).last() == ms.last());
        assert(mounts_lines(ms.skip(1)) == mounts_lines(ms.skip(1).drop_last()) + mount_lines(
            ms.last(),
        ));
        assert(mounts_lines(ms) =~= mount_lines(ms[0]) + mounts_lines(ms.skip(1)));
    }
}

/// A node block decomposes from the front.
proof fn lemma_nodes_lines_front(ns: Seq<NodeV>)
    requires
        ns.len() > 0,
    ensures
        nodes_lines(ns) == node_lines(ns[0]) + nodes_lines(ns.skip(1)),
    decreases ns.len(),
{
    if ns.len() == 1 {
        assert(ns.drop_last().len() == 0);
        assert(ns.last() == ns[0]);
        assert(ns.skip(1).len() == 0);
        assert(nodes_lines(ns.drop_last()) =~= Seq::<Seq<char>>::empty());
        assert(nodes_lines(ns.skip(1)) =~= Seq::<Seq<char>>::empty());
        assert(nodes_lines(ns) =~= node_lines(ns[0]) + nodes_lines(ns.skip(1)));
    } else {
        lemma_nodes_lines_front(ns.drop_last());
        assert(ns.drop_last()[0] == ns[0]);
        assert(ns.drop_last().skip(1) =~= ns.skip(1).drop_last());
        assert(ns.skip(1).last() == ns.last());
        assert(nodes_lines(ns.skip(1)) == nodes_lines(ns.skip(1).drop_last()) + node_lines(
            ns.last(),
        ));
        assert(nodes_lines(ns) =~= node_lines(ns[0]) + nodes_lines(ns.skip(1)));
    }
}

/// A link block decomposes from the front.
proof fn lemma_links_lines_front(ls: Seq<LinkV>)
    requires
        ls.len() > 0,
    ensures
        links_lines(ls) == link_lines(ls[0]) + links_lines(ls.skip(1)),
    decreases ls.len(),
{
    if ls.len() == 1 {
        assert(ls.drop_last().len() == 0);
        assert(ls.last() == ls[0]);
        assert(ls.skip(1).len() == 0);
        assert(links_lines(ls.drop_last()) =~= Seq::<Seq<char>>::empty());
        assert(links_lines(ls.skip(1)) =~= Seq::<Seq<char>>::empty());
        assert(links_lines(ls) =~= link_lines(ls[0]) + links_lines(ls.skip(1)));
    } else {
        lemma_links_lines_front(ls.drop_last());
        assert(ls.drop_last()[0] == ls[0]);
        assert(ls.drop_last().skip(1) =~= ls.skip(1).drop_last());
        assert(ls.skip(1).last() == ls.last());
        assert(links_lines(ls.skip(1)) == links_lines(ls.skip(1).drop_last()) + link_lines(
            ls.last(),
        ));
        assert(links_lines(ls) =~= link_lines(ls[0]) + links_lines(ls.skip(1)));
    }
}

/// The lines of a link block number ten per link.
proof fn lemma_links_lines_len(ls: Seq<LinkV>)
    ensures
        links_lines(ls).len() == 10 * ls.len(),
    decreases ls.len(),
{
    if ls.len() > 0 {
        lemma_links_lines_len(ls.drop_last());
    }
}

/// An external-link block decomposes from the front.
proof fn lemma_exts_lines_front(xs: Seq<ExtV>)
    requires
        xs.len() > 0,
    ensures
        exts_lines(xs) == extl_lines(xs[0]) + exts_lines(xs.skip(1)),
    decreases xs.len(),
{
    if xs.len() == 1 {
        assert(xs.drop_last().len() == 0);
        assert(xs.last() == xs[0]);
        assert(xs.skip(1).len() == 0);
        assert(exts_lines(xs.drop_last()) =~= Seq::<Seq<char>>::empty());
        assert(exts_lines(xs.skip(1)) =~= Seq::<Seq<char>>::empty());
        assert(exts_lines(xs) =~= extl_lines(xs[0]) + exts_lines(xs.skip(1)));
    } else {
        lemma_exts_lines_front(xs.drop_last());
        assert(xs.drop_last()[0] == xs[0]);
        assert(xs.drop_last().skip(1) =~= xs.skip(1).drop_last());
        assert(xs.skip(1).last() == xs.last());
        assert(exts_lines(xs.skip(1)) == exts_lines(xs.skip(1).drop_last()) + extl_lines(
            xs.last(),
        ));
        assert(exts_lines(xs) =~= extl_lines(xs[0]) + exts_lines(xs.skip(1)));
    }
}

/// The lines of an external-link block number six per link.
proof fn lemma_exts_lines_len(xs: Seq<ExtV>)
    ensures
        exts_lines(xs).len() == 6 * xs.len(),
    decreases xs.len(),
{
    if xs.len() > 0 {
        lemma_exts_lines_len(xs.drop_last());
    }
}

/// An endpoint record parses back to the endpoint it was written from.
proof fn lemma_rt_ep(ls: Seq<Seq<char>>, i: int, e: EndpointV)
    requires
        ep_serial_ok(e),
        0 <= i,
        i + 5 <= ls.len(),
        forall|k: int| 0 <= k < 5 ==> ls[i + k] == ep_lines(e)[k],
    ensures
        sp_ep(ls, i) == Some(e),
{
    reveal_strlit("viona");
    reveal_strlit("softnpu");
    reveal_strlit("1");
    reveal_strlit("0");
    crate::sidecar::lemma_parse_dec_rep(e.node as u64);
    crate::sidecar::lemma_parse_dec_rep(e.index as u64);
    assert(ls[i + 0] == ep_lines(e)[0]);
    assert(ls[i + 1] == ep_lines(e)[1]);
    assert(ls[i + 2] == ep_lines(e)[2]);
    assert(ls[i + 3] == ep_lines(e)[3]);
    assert(ls[i + 4] == ep_lines(e)[4]);
    assert(ls[i] == dec_rep(e.node as nat));
    assert(ls[i + 1] == dec_rep(e.index as nat));
    assert("viona"@.len() == 5 && "softnpu"@.len() == 7);
    assert("1"@.len() == 1 && "0"@.len() == 1);
    assert("1"@ != "0"@) by {
        assert("1"@[0] == '1' && "0"@[0] == '0');
    }
}

/// A mount record parses back to the mount it was written from.
proof fn lemma_rt_mount(ls: Seq<Seq<char>>, i: int, m: MountV)
    requires
        0 <= i,
        i + 3 <= ls.len(),
        forall|k: int| 0 <= k < 3 ==> ls[i + k] == mount_lines(m)[k],
    ensures
        sp_mount(ls, i) == Some(m),
{
    reveal_strlit("p9kp");
    reveal_strlit("mount");
    assert(ls[i + 0] == mount_lines(m)[0]);
    assert(ls[i + 1] == mount_lines(m)[1]);
    assert(ls[i + 2] == mount_lines(m)[2]);
    assert("p9kp"@.len() == 4 && "mount"@.len() == 5);
}

/// A mount block parses back to the mounts it was written from.
proof fn lemma_rt_mounts(ls: Seq<Seq<char>>, i: int, ms: Seq<MountV>)
    requires
        0 <= i,
        i + 3 * ms.len() <= ls.len(),
        forall|k: int| 0 <= k < 3 * ms.len() ==> ls[i + k] == mounts_lines(ms)[k],
    ensures
        sp_mounts(ls, i, ms.len() as int) == Some(ms),
    decreases ms.len(),
{
    lemma_mounts_lines_len(ms);
    if ms.len() == 0 {
        assert(sp_mounts(ls, i, 0) == Some(Seq::<MountV>::empty()));
        assert(ms =~= Seq::<MountV>::empty());
    } else {
        lemma_mounts_lines_front(ms);
        lemma_mounts_lines_len(ms.skip(1));
        assert forall|k: int| 0 <= k < 3 implies ls[i + k] == mount_lines(ms[0])[k] by {
            assert(mounts_lines(ms)[k] == mount_lines(ms[0])[k]);
        }
        lemma_rt_mount(ls, i, ms[0]);
        assert forall|k: int|
            0 <= k < 3 * ms.skip(1).len() implies ls[i + 3 + k] == mounts_lines(ms.skip(1))[k] by {
            assert(mounts_lines(ms)[3 + k] == mounts_lines(ms.skip(1))[k]);
        }
        lemma_rt_mounts(ls, i + 3, ms.skip(1));
        assert(ms =~= seq![ms[0]] + ms.skip(1));
    }
}

/// An SMBIOS block parses back to what it was written from.
proof fn lemma_rt_smbios(ls: Seq<Seq<char>>, i: int, s: Option<SmbiosV>)
    requires
        0 <= i,
        i + 8 <= ls.len(),
        ls[i] == (match s {
            Some(_) => "1"@,
            None => "0"@,
        }),
        forall|k: int| 0 <= k < 7 ==> ls[i + 1 + k] == smbios_lines(s)[k],
    ensures
        sp_smbios(ls, i) == Some(s),
{
    reveal_strlit("1");
    reveal_strlit("0");
    assert("1"@.len() == 1 && "0"@.len() == 1);
    assert("1"@ != "0"@) by {
        assert("1"@[0] == '1' && "0"@[0] == '0');
    }
    match s {
        Some(v) => {
            assert(ls[i + 1] == smbios_lines(s)[0]);
            assert(ls[i + 2] == smbios_lines(s)[1]);
            assert(ls[i + 3] == smbios_lines(s)[2]);
            assert(ls[i + 4] == smbios_lines(s)[3]);
            assert(ls[i + 5] == smbios_lines(s)[4]);
            assert(ls[i + 6] == smbios_lines(s)[5]);
            assert(ls[i + 7] == smbios_lines(s)[6]);
            assert(ls[i + 1] == v.manufacturer);
            assert(ls[i + 2] == v.product_name);
            assert(ls[i + 3] == v.version);
            assert(ls[i + 4] == v.serial_number);
            assert(ls[i + 5] == v.uuid);
            assert(ls[i + 6] == v.sku);
            assert(ls[i + 7] == v.family);
        },
        None => {},
    }
}

/// The in-range conditions a node value written from a real node meets.
pub open spec fn node_bounds(n: NodeV) -> bool {
    &&& 0 <= n.radix <= usize::MAX
    &&& 0 <= n.cores <= 255
    &&& 0 <= n.memory <= u64::MAX
    &&& 0 <= n.reserved <= usize::MAX
    &&& match n.vnc_port {
        Some(p) => 0 <= p <= 65535,
        None => true,
    }
    &&& n.mounts.len() <= usize::MAX
}

/// A node record parses back to the node it was written from, and the
/// cursor lands after its block.
proof fn lemma_rt_node(ls: Seq<Seq<char>>, i: int, n: NodeV)
    requires
        node_bounds(n),
        0 <= i,
        i + node_lines(n).len() <= ls.len(),
        forall|k: int| 0 <= k < node_lines(n).len() ==> ls[i + k] == node_lines(n)[k],
    ensures
        node_lines(n).len() == 21 + 3 * n.mounts.len(),
        sp_node(ls, i) == Some((n, i + 21 + 3 * n.mounts.len())),
{
    lemma_mounts_lines_len(n.mounts);
    assert(node_lines(n).len() == 21 + 3 * n.mounts.len());
    reveal_strlit("1");
    reveal_strlit("0");
    reveal_strlit("zvol");
    reveal_strlit("file");
    assert("1"@.len() == 1 && "0"@.len() == 1);
    assert("1"@ != "0"@) by {
        assert("1"@[0] == '1' && "0"@[0] == '0');
    }
    assert("zvol"@.len() == 4 && "file"@.len() == 4);
    assert("zvol"@ != "file"@) by {
        assert("zvol"@[0] == 'z' && "file"@[0] == 'f');
    }
    crate::sidecar::lemma_parse_dec_rep(n.radix as u64);
    crate::sidecar::lemma_parse_dec_rep(n.cores as u64);
    crate::sidecar::lemma_parse_dec_rep(n.memory as u64);
    crate::sidecar::lemma_parse_dec_rep(n.reserved as u64);
    crate::sidecar::lemma_parse_dec_rep(n.mounts.len() as u64);
    if n.vnc_port is Some {
        crate::sidecar::lemma_parse_dec_rep(n.vnc_port.unwrap() as u64);
    }
    assert(ls[i + 0] == node_lines(n)[0]);
    assert(ls[i + 1] == node_lines(n)[1]);
    assert(ls[i + 2] == node_lines(n)[2]);
    assert(ls[i + 3] == node_lines(n)[3]);
    assert(ls[i + 4] == node_lines(n)[4]);
    assert(ls[i + 5] == node_lines(n)[5]);
    assert(ls[i + 6] == node_lines(n)[6]);
    assert(ls[i + 7] == node_lines(n)[7]);
    assert(ls[i + 8] == node_lines(n)[8]);
    assert(ls[i + 9] == node_lines(n)[9]);
    assert(ls[i + 10] == node_lines(n)[10]);
    assert(ls[i + 11] == node_lines(n)[11]);
    assert(ls[i + 12] == node_lines(n)[12]);
    assert(ls[i] == n.name);
    assert(ls[i + 1] == n.image);
    assert(ls[i + 2] == dec_rep(n.radix as nat));
    assert(ls[i + 3] == n.id);
    assert(ls[i + 4] == dec_rep(n.cores as nat));
    assert(ls[i + 5] == dec_rep(n.memory as nat));
    assert(ls[i + 6] == n.dataset);
    assert(ls[i + 8] == dec_rep(n.reserved as nat));
    assert(ls[i + 12] == dec_rep(n.mounts.len() as nat));
    assert forall|k: int|
        0 <= k < 3 * n.mounts.len() implies ls[i + 13 + k] == mounts_lines(n.mounts)[k] by {
        assert(node_lines(n)[13 + k] == mounts_lines(n.mounts)[k]);
    }
    lemma_rt_mounts(ls, i + 13, n.mounts);
    let si = i + 13 + 3 * n.mounts.len() as int;
    assert(ls[si] == node_lines(n)[13 + 3 * n.mounts.len() as int]);
    assert forall|k: int| 0 <= k < 7 implies ls[si + 1 + k] == smbios_lines(n.smbios)[k] by {
        assert(node_lines(n)[14 + 3 * n.mounts.len() as int + k] == smbios_lines(n.smbios)[k]);
    }
    lemma_rt_smbios(ls, si, n.smbios);
}

/// A node block parses back to the nodes it was written from.
proof fn lemma_rt_nodes(ls: Seq<Seq<char>>, i: int, ns: Seq<NodeV>)
    requires
        0 <= i,
        i + nodes_lines(ns).len() <= ls.len(),
        forall|k: int| 0 <= k < nodes_lines(ns).len() ==> ls[i + k] == nodes_lines(ns)[k],
        forall|j: int| 0 <= j < ns.len() ==> node_bounds(#[trigger] ns[j]),
    ensures
        sp_nodes(ls, i, ns.len() as int) == Some((ns, i + nodes_lines(ns).len())),
    decreases ns.len(),
{
    if ns.len() == 0 {
        assert(ns =~= Seq::<NodeV>::empty());
    } else {
        lemma_nodes_lines_front(ns);
        let hd = node_lines(ns[0]);
        assert forall|k: int| 0 <= k < hd.len() implies ls[i + k] == hd[k] by {
            assert(nodes_lines(ns)[k] == hd[k]);
        }
        lemma_rt_node(ls, i, ns[0]);
        let j = i + hd.len();
        assert forall|k: int|
            0 <= k < nodes_lines(ns.skip(1)).len() implies ls[j + k] == nodes_lines(
            ns.skip(1),
        )[k] by {
            assert(nodes_lines(ns)[hd.len() + k] == nodes_lines(ns.skip(1))[k]);
        }
        assert forall|t: int| 0 <= t < ns.skip(1).len() implies node_bounds(
            #[trigger] ns.skip(1)[t],
        ) by {
            assert(ns.skip(1)[t] == ns[t + 1]);
        }
        lemma_rt_nodes(ls, j, ns.skip(1));
        assert(ns =~= seq![ns[0]] + ns.skip(1));
    }
}

/// A link record parses back to the link it was written from.
proof fn lemma_rt_link(ls: Seq<Seq<char>>, i: int, l: LinkV)
    requires
        ep_serial_ok(l.e0),
        ep_serial_ok(l.e1),
        0 <= i,
        i + 10 <= ls.len(),
        forall|k: int| 0 <= k < 10 ==> ls[i + k] == link_lines(l)[k],
    ensures
        sp_link(ls, i) == Some(l),
{
    assert forall|k: int| 0 <= k < 5 implies ls[i + k] == ep_lines(l.e0)[k] by {
        assert(link_lines(l)[k] == ep_lines(l.e0)[k]);
    }
    lemma_rt_ep(ls, i, l.e0);
    assert forall|k: int| 0 <= k < 5 implies ls[i + 5 + k] == ep_lines(l.e1)[k] by {
        assert(link_lines(l)[5 + k] == ep_lines(l.e1)[k]);
    }
    lemma_rt_ep(ls, i + 5, l.e1);
}

/// A link block parses back to the links it was written from.
proof fn lemma_rt_links(ls: Seq<Seq<char>>, i: int, lks: Seq<LinkV>)
    requires
        0 <= i,
        i + 10 * lks.len() <= ls.len(),
        forall|k: int| 0 <= k < 10 * lks.len() ==> ls[i + k] == links_lines(lks)[k],
        forall|j: int|
            0 <= j < lks.len() ==> ep_serial_ok((#[trigger] lks[j]).e0) && ep_serial_ok(lks[j].e1),
    ensures
        sp_links(ls, i, lks.len() as int) == Some(lks),
    decreases lks.len(),
{
    lemma_links_lines_len(lks);
    if lks.len() == 0 {
        assert(lks =~= Seq::<LinkV>::empty());
    } else {
        lemma_links_lines_front(lks);
        lemma_links_lines_len(lks.skip(1));
        assert forall|k: int| 0 <= k < 10 implies ls[i + k] == link_lines(lks[0])[k] by {
            assert(links_lines(lks)[k] == link_lines(lks[0])[k]);
        }
        lemma_rt_link(ls, i, lks[0]);
        assert forall|k: int|
            0 <= k < 10 * lks.skip(1).len() implies ls[i + 10 + k] == links_lines(
            lks.skip(1),
        )[k] by {
            assert(links_lines(lks)[10 + k] == links_lines(lks.skip(1))[k]);
        }
        lemma_rt_links(ls, i + 10, lks.skip(1));
        assert(lks =~= seq![lks[0]] + lks.skip(1));
    }
}

/// An external-link record parses back to what it was written from.
proof fn lemma_rt_ext(ls: Seq<Seq<char>>, i: int, x: ExtV)
    requires
        ep_serial_ok(x.endpoint),
        0 <= i,
        i + 6 <= ls.len(),
        forall|k: int| 0 <= k < 6 ==> ls[i + k] == extl_lines(x)[k],
    ensures
        sp_ext(ls, i) == Some(x),
{
    assert forall|k: int| 0 <= k < 5 implies ls[i + k] == ep_lines(x.endpoint)[k] by {
        assert(extl_lines(x)[k] == ep_lines(x.endpoint)[k]);
    }
    lemma_rt_ep(ls, i, x.endpoint);
    assert(ls[i + 5] == extl_lines(x)[5]);
}

/// An external-link block parses back to what it was written from.
proof fn lemma_rt_exts(ls: Seq<Seq<char>>, i: int, xs: Seq<ExtV>)
    requires
        0 <= i,
        i + 6 * xs.len() <= ls.len(),
        forall|k: int| 0 <= k < 6 * xs.len() ==> ls[i + k] == exts_lines(xs)[k],
        forall|j: int| 0 <= j < xs.len() ==> ep_serial_ok((#[trigger] xs[j]).endpoint),
    ensures
        sp_exts(ls, i, xs.len() as int) == Some(xs),
    decreases xs.len(),
{
    lemma_exts_lines_len(xs);
    if xs.len() == 0 {
        assert(xs =~= Seq::<ExtV>::empty());
    } else {
        lemma_exts_lines_front(xs);
        lemma_exts_lines_len(xs.skip(1));
        assert forall|k: int| 0 <= k < 6 implies ls[i + k] == extl_lines(xs[0])[k] by {
            assert(exts_lines(xs)[k] == extl_lines(xs[0])[k]);
        }
        lemma_rt_ext(ls, i, xs[0]);
        assert forall|k: int|
            0 <= k < 6 * xs.skip(1).len() implies ls[i + 6 + k] == exts_lines(xs.skip(1))[k] by {
            assert(exts_lines(xs)[6 + k] == exts_lines(xs.skip(1))[k]);
        }
        lemma_rt_exts(ls, i + 6, xs.skip(1));
        assert(xs =~= seq![xs[0]] + xs.skip(1));
    }
}

/// Parsing the emitted lines of a deployment yields its value back.
#[verifier::rlimit(100)]
pub proof fn lemma_rt_depl_lines(d: Deployment)
    requires
        serial_ok(d),
    ensures
        sp_depl(depl_lines(depl_v(d))) == Some(depl_v(d)),
{
    let v = depl_v(d);
    let ls = depl_lines(v);
    let nlines = nodes_lines(v.nodes);
    let llines = links_lines(v.links);
    let elines = exts_lines(v.ext_links);
    lemma_links_lines_len(v.links);
    lemma_exts_lines_len(v.ext_links);
    crate::sidecar::lemma_parse_dec_rep(v.nodes.len() as u64);
    crate::sidecar::lemma_parse_dec_rep(v.links.len() as u64);
    crate::sidecar::lemma_parse_dec_rep(v.ext_links.len() as u64);
    assert(d.nodes.len() == d.nodes@.len());
    assert(d.links.len() == d.links@.len());
    assert(d.ext_links.len() == d.ext_links@.len());
    assert(v.nodes.len() <= usize::MAX);
    assert(v.links.len() <= usize::MAX);
    assert(v.ext_links.len() <= usize::MAX);
    let a = seq!["falcon-topology"@, v.name, dec_rep(v.nodes.len())];
    let c = seq![dec_rep(v.links.len())];
    let e = seq![dec_rep(v.ext_links.len())];
    let g = seq!["end"@];
    assert(a.len() == 3 && c.len() == 1 && e.len() == 1 && g.len() == 1);
    assert(ls == a + nlines + c + llines + e + elines + g);
    assert(ls.len() == 6 + nlines.len() + llines.len() + elines.len());
    let i1 = 3 + nlines.len() as int;
    let i2 = i1 + 1 + 10 * v.links.len() as int;
    let i3 = i2 + 1 + 6 * v.ext_links.len() as int;
    assert(ls.len() == i3 + 1);
    assert(ls[0] == a[0]);
    assert(ls[1] == a[1]);
    assert(ls[2] == a[2]);
    assert forall|j: int| 0 <= j < v.nodes.len() implies node_bounds(#[trigger] v.nodes[j]) by {
        assert(v.nodes[j] == node_v(d.nodes@[j]));
        assert(d.nodes@[j].mounts.len() == d.nodes@[j].mounts@.len());
    }
    assert forall|k: int| 0 <= k < nlines.len() implies ls[3 + k] == nlines[k] by {
        assert((a + nlines)[3 + k] == nlines[k]);
        assert(ls[3 + k] == (a + nlines)[3 + k]);
    }
    lemma_rt_nodes(ls, 3, v.nodes);
    assert(ls[i1] == c[0]) by {
        assert((a + nlines + c)[i1] == c[0]);
        assert(ls[i1] == (a + nlines + c)[i1]);
    }
    assert forall|j: int| 0 <= j < v.links.len() implies ep_serial_ok((#[trigger] v.links[j]).e0)
        && ep_serial_ok(v.links[j].e1) by {}
    assert forall|k: int| 0 <= k < 10 * v.links.len() implies ls[i1 + 1 + k] == llines[k] by {
        assert((a + nlines + c + llines)[i1 + 1 + k] == llines[k]);
        assert(ls[i1 + 1 + k] == (a + nlines + c + llines)[i1 + 1 + k]);
    }
    lemma_rt_links(ls, i1 + 1, v.links);
    assert(ls[i2] == e[0]) by {
        assert((a + nlines + c + llines + e)[i2] == e[0]);
        assert(ls[i2] == (a + nlines + c + llines + e)[i2]);
    }
    assert forall|j: int| 0 <= j < v.ext_links.len() implies ep_serial_ok(
        (#[trigger] v.ext_links[j]).endpoint,
    ) by {}
    assert forall|k: int| 0 <= k < 6 * v.ext_links.len() implies ls[i2 + 1 + k] == elines[k] by {
        assert((a + nlines + c + llines + e + elines)[i2 + 1 + k] == elines[k]);
        assert(ls[i2 + 1 + k] == (a + nlines + c + llines + e + elines)[i2 + 1 + k]);
    }
    lemma_rt_exts(ls, i2 + 1, v.ext_links);
    assert(ls[i3] == g[0]);
    assert(i3 + 1 == ls.len());
}

/// Every line of the list is free of line breaks.
pub open spec fn all_lines_ok(ls: Seq<Seq<char>>) -> bool {
    forall|i: int| 0 <= i < ls.len() ==> line_ok(#[trigger] ls[i])
}

/// Clean lines concatenate to clean lines.
proof fn lemma_all_ok_concat(a: Seq<Seq<char>>, b: Seq<Seq<char>>)
    requires
        all_lines_ok(a),
        all_lines_ok(b),
    ensures
        all_lines_ok(a + b),
{
    assert forall|i: int| 0 <= i < (a + b).len() implies line_ok(#[trigger] (a + b)[i]) by {
        if i < a.len() {
            assert((a + b)[i] == a[i]);
        } else {
            assert((a + b)[i] == b[i - a.len()]);
        }
    }
}

/// A decimal rendering is a clean line.
proof fn lemma_dec_line_ok(n: nat)
    ensures
        line_ok(dec_rep(n)),
{
    crate::names::lemma_dec_rep_digits(n);
    assert forall|i: int| 0 <= i < dec_rep(n).len() implies dec_rep(n)[i] != '\n' && dec_rep(n)[i]
        != '\r' by {
        assert(crate::names::is_digit(dec_rep(n)[i]));
    }
}

/// An endpoint's lines are clean.
proof fn lemma_ep_lines_ok(e: EndpointV)
    requires
        ep_serial_ok(e),
    ensures
        all_lines_ok(ep_lines(e)),
{
    reveal_strlit("viona");
    reveal_strlit("softnpu");
    reveal_strlit("1");
    reveal_strlit("0");
    lemma_dec_line_ok(e.node as nat);
    lemma_dec_line_ok(e.index as nat);
    assert(line_ok("viona"@));
    assert(line_ok("softnpu"@));
    assert(line_ok("1"@));
    assert(line_ok("0"@));
    assert(line_ok(Seq::<char>::empty()));
    assert forall|i: int| 0 <= i < ep_lines(e).len() implies line_ok(#[trigger] ep_lines(e)[i]) by {}
}

/// A mount's lines are clean.
proof fn lemma_mount_lines_ok(m: MountV)
    requires
        line_ok(m.source),
        line_ok(m.destination),
    ensures
        all_lines_ok(mount_lines(m)),
{
    reveal_strlit("p9kp");
    reveal_strlit("mount");
    assert(line_ok("p9kp"@));
    assert(line_ok("mount"@));
    assert forall|i: int| 0 <= i < 3 implies line_ok(#[trigger] mount_lines(m)[i]) by {}
}

/// A mount block's lines are clean.
proof fn lemma_mounts_lines_ok(ms: Seq<MountV>)
    requires
        forall|j: int|
            0 <= j < ms.len() ==> line_ok((#[trigger] ms[j]).source) && line_ok(ms[j].destination),
    ensures
        all_lines_ok(mounts_lines(ms)),
    decreases ms.len(),
{
    if ms.len() == 0 {
        assert(all_lines_ok(mounts_lines(ms)));
    } else {
        lemma_mounts_lines_ok(ms.drop_last());
        lemma_mount_lines_ok(ms.last());
        lemma_all_ok_concat(mounts_lines(ms.drop_last()), mount_lines(ms.last()));
    }
}

/// An SMBIOS block's lines are clean.
proof fn lemma_smbios_lines_ok(s: Option<SmbiosV>)
    requires
        match s {
            Some(v) => line_ok(v.manufacturer) && line_ok(v.product_name) && line_ok(v.version)
                && line_ok(v.serial_number) && line_ok(v.uuid) && line_ok(v.sku) && line_ok(
                v.family,
            ),
            None => true,
        },
    ensures
        all_lines_ok(smbios_lines(s)),
{
    assert(line_ok(Seq::<char>::empty()));
    assert forall|i: int| 0 <= i < 7 implies line_ok(#[trigger] smbios_lines(s)[i]) by {}
}

/// A node's lines are clean.
proof fn lemma_node_lines_ok(n: NodeV)
    requires
        line_ok(n.name),
        line_ok(n.image),
        line_ok(n.id),
        line_ok(n.dataset),
        forall|j: int|
            0 <= j < n.mounts.len() ==> line_ok((#[trigger] n.mounts[j]).source) && line_ok(
                n.mounts[j].destination,
            ),
        match n.smbios {
            Some(v) => line_ok(v.manufacturer) && line_ok(v.product_name) && line_ok(v.version)
                && line_ok(v.serial_number) && line_ok(v.uuid) && line_ok(v.sku) && line_ok(
                v.family,
            ),
            None => true,
        },
    ensures
        all_lines_ok(node_lines(n)),
{
    reveal_strlit("1");
    reveal_strlit("0");
    reveal_strlit("zvol");
    reveal_strlit("file");
    lemma_dec_line_ok(n.radix as nat);
    lemma_dec_line_ok(n.cores as nat);
    lemma_dec_line_ok(n.memory as nat);
    lemma_dec_line_ok(n.reserved as nat);
    lemma_dec_line_ok(n.mounts.len());
    if n.vnc_port is Some {
        lemma_dec_line_ok(n.vnc_port.unwrap() as nat);
    }
    assert(line_ok("1"@));
    assert(line_ok("0"@));
    assert(line_ok("zvol"@));
    assert(line_ok("file"@));
    assert(line_ok(Seq::<char>::empty()));
    let scalars = node_lines(n).take(13);
    assert forall|i: int| 0 <= i < 13 implies line_ok(#[trigger] node_lines(n)[i]) by {}
    lemma_mounts_lines_ok(n.mounts);
    lemma_smbios_lines_ok(n.smbios);
    lemma_mounts_lines_len(n.mounts);
    assert forall|i: int|
        0 <= i < node_lines(n).len() implies line_ok(#[trigger] node_lines(n)[i]) by {
        if i < 13 {
        } else if i < 13 + 3 * n.mounts.len() {
            assert(node_lines(n)[i] == mounts_lines(n.mounts)[i - 13]);
            assert(line_ok(mounts_lines(n.mounts)[i - 13]));
        } else if i == 13 + 3 * n.mounts.len() {
            assert(node_lines(n)[i] == (match n.smbios {
                Some(_) => "1"@,
                None => "0"@,
            }));
        } else {
            assert(node_lines(n)[i] == smbios_lines(n.smbios)[i - 14 - 3 * n.mounts.len() as int]);
            assert(line_ok(smbios_lines(n.smbios)[i - 14 - 3 * n.mounts.len() as int]));
        }
    }
}

/// A node block's lines are clean.
proof fn lemma_nodes_lines_ok(d: Deployment, ns: Seq<NodeV>)
    requires
        serial_ok(d),
        ns.len() <= depl_v(d).nodes.len(),
        ns == depl_v(d).nodes.take(ns.len() as int),
    ensures
        all_lines_ok(nodes_lines(ns)),
    decreases ns.len(),
{
    if ns.len() > 0 {
        assert(ns.drop_last() =~= depl_v(d).nodes.take(ns.len() - 1));
        lemma_nodes_lines_ok(d, ns.drop_last());
        assert(ns.last() == depl_v(d).nodes[ns.len() - 1]);
        lemma_node_lines_ok(ns.last());
        lemma_all_ok_concat(nodes_lines(ns.drop_last()), node_lines(ns.last()));
    }
}

/// A link block's lines are clean.
proof fn lemma_links_lines_ok(d: Deployment, ls: Seq<LinkV>)
    requires
        serial_ok(d),
        ls.len() <= depl_v(d).links.len(),
        ls == depl_v(d).links.take(ls.len() as int),
    ensures
        all_lines_ok(links_lines(ls)),
    decreases ls.len(),
{
    if ls.len() > 0 {
        assert(ls.drop_last() =~= depl_v(d).links.take(ls.len() - 1));
        lemma_links_lines_ok(d, ls.drop_last());
        assert(ls.last() == depl_v(d).links[ls.len() - 1]);
        lemma_ep_lines_ok(ls.last().e0);
        lemma_ep_lines_ok(ls.last().e1);
        lemma_all_ok_concat(ep_lines(ls.last().e0), ep_lines(ls.last().e1));
        lemma_all_ok_concat(links_lines(ls.drop_last()), link_lines(ls.last()));
    }
}

/// An external-link block's lines are clean.
proof fn lemma_exts_lines_ok(d: Deployment, xs: Seq<ExtV>)
    requires
        serial_ok(d),
        xs.len() <= depl_v(d).ext_links.len(),
        xs == depl_v(d).ext_links.take(xs.len() as int),
    ensures
        all_lines_ok(exts_lines(xs)),
    decreases xs.len(),
{
    if xs.len() > 0 {
        assert(xs.drop_last() =~= depl_v(d).ext_links.take(xs.len() - 1));
        lemma_exts_lines_ok(d, xs.drop_last());
        assert(xs.last() == depl_v(d).ext_links[xs.len() - 1]);
        lemma_ep_lines_ok(xs.last().endpoint);
        assert(all_lines_ok(seq![xs.last().host_ifx])) by {
            assert(seq![xs.last().host_ifx][0] == xs.last().host_ifx);
        }
        lemma_all_ok_concat(ep_lines(xs.last().endpoint), seq![xs.last().host_ifx]);
        lemma_all_ok_concat(exts_lines(xs.drop_last()), extl_lines(xs.last()));
    }
}

/// Every line of a serializable deployment's document is clean, and the
/// closing line is nonempty.
proof fn lemma_depl_lines_ok(d: Deployment)
    requires
        serial_ok(d),
    ensures
        all_lines_ok(depl_lines(depl_v(d))),
        depl_lines(depl_v(d)).len() >= 1,
        depl_lines(depl_v(d)).last().len() > 0,
{
    let v = depl_v(d);
    reveal_strlit("falcon-topology");
    reveal_strlit("end");
    lemma_dec_line_ok(v.nodes.len());
    lemma_dec_line_ok(v.links.len());
    lemma_dec_line_ok(v.ext_links.len());
    assert(line_ok("falcon-topology"@));
    assert(line_ok("end"@));
    let a = seq!["falcon-topology"@, v.name, dec_rep(v.nodes.len())];
    let c = seq![dec_rep(v.links.len())];
    let e = seq![dec_rep(v.ext_links.len())];
    let g = seq!["end"@];
    assert(all_lines_ok(a)) by {
        assert(a[0] == "falcon-topology"@ && a[1] == v.name && a[2] == dec_rep(v.nodes.len()));
    }
    assert(all_lines_ok(c)) by {
        assert(c[0] == dec_rep(v.links.len()));
    }
    assert(all_lines_ok(e)) by {
        assert(e[0] == dec_rep(v.ext_links.len()));
    }
    assert(all_lines_ok(g)) by {
        assert(g[0] == "end"@);
    }
    assert(v.nodes.take(v.nodes.len() as int) =~= v.nodes);
    assert(v.links.take(v.links.len() as int) =~= v.links);
    assert(v.ext_links.take(v.ext_links.len() as int) =~= v.ext_links);
    lemma_nodes_lines_ok(d, v.nodes);
    lemma_links_lines_ok(d, v.links);
    lemma_exts_lines_ok(d, v.ext_links);
    lemma_all_ok_concat(a, nodes_lines(v.nodes));
    lemma_all_ok_concat(a + nodes_lines(v.nodes), c);
    lemma_all_ok_concat(a + nodes_lines(v.nodes) + c, links_lines(v.links));
    lemma_all_ok_concat(a + nodes_lines(v.nodes) + c + links_lines(v.links), e);
    lemma_all_ok_concat(
        a + nodes_lines(v.nodes) + c + links_lines(v.links) + e,
        exts_lines(v.ext_links),
    );
    lemma_all_ok_concat(
        a + nodes_lines(v.nodes) + c + links_lines(v.links) + e + exts_lines(v.ext_links),
        g,
    );
    assert(depl_lines(v) == a + nodes_lines(v.nodes) + c + links_lines(v.links) + e + exts_lines(
        v.ext_links,
    ) + g);
    assert(depl_lines(v).last() == "end"@);
    assert("end"@.len() == 3);
}

/// Joining one more line appends a newline and the line.
proof fn lemma_join_push(ls: Seq<Seq<char>>, l: Seq<char>)
    ensures
        join_nl(ls.push(l)) == if ls.len() == 0 {
            l
        } else {
            join_nl(ls) + seq!['\n'] + l
        },
    decreases ls.len(),
{
    if ls.len() == 0 {
        assert(ls.push(l)[0] == l);
        assert(ls.push(l).len() == 1);
    } else {
        assert(ls.push(l).len() >= 2);
        assert(ls.push(l)[0] == ls[0]);
        assert(ls.push(l).skip(1) =~= ls.skip(1).push(l));
        lemma_join_push(ls.skip(1), l);
        if ls.len() == 1 {
            assert(ls.skip(1).len() == 0);
            assert(join_nl(ls.push(l)) == ls[0] + seq!['\n'] + l);
            assert(join_nl(ls) == ls[0]);
        } else {
            assert(join_nl(ls.push(l)) == ls[0] + seq!['\n'] + (join_nl(ls.skip(1)) + seq!['\n']
                + l));
            assert(join_nl(ls) == ls[0] + seq!['\n'] + join_nl(ls.skip(1)));
            assert(ls[0] + seq!['\n'] + (join_nl(ls.skip(1)) + seq!['\n'] + l) =~= (ls[0]
                + seq!['\n'] + join_nl(ls.skip(1))) + seq!['\n'] + l);
        }
    }
}

/// Join lines into the document text, separated by newlines.
fn join_text(lines: &Vec<String>) -> (r: String)
    ensures
        r@ == join_nl(lines@.map_values(|s: String| s@)),
{
    let ghost lv = lines@.map_values(|s: String| s@);
    let mut out = String::new();
    let mut i: usize = 0;
    proof {
        assert(lv.take(0) =~= Seq::<Seq<char>>::empty());
    }
    while i < lines.len()
        invariant
            0 <= i <= lines@.len(),
            lv == lines@.map_values(|s: String| s@),
            out@ == join_nl(lv.take(i as int)),
        decreases lines@.len() - i,
    {
        proof {
            reveal_strlit("\n");
            assert("\n"@ =~= seq!['\n']);
            lemma_join_push(lv.take(i as int), lv[i as int]);
            assert(lv.take(i as int).push(lv[i as int]) =~= lv.take(i as int + 1));
        }
        if i > 0 {
            out.append("\n");
        }
        out.append(lines[i].as_str());
        proof {
            if i == 0 {
                assert(lv.take(0).len() == 0);
                assert(out@ =~= join_nl(lv.take(1)));
            } else {
                assert(out@ =~= join_nl(lv.take(i as int + 1)));
            }
        }
        i = i + 1;
    }
    proof {
        assert(lv.take(lines@.len() as int) =~= lv);
    }
    out
}

/// Split the document text into lines.
fn split_text(s: &str) -> (r: Vec<String>)
    ensures
        r@.map_values(|t: String| t@) == spec_lines(s@),
    decreases s@.len(),
{
    let n = s.unicode_len();
    if n == 0 {
        let r: Vec<String> = Vec::new();
        proof {
            assert(r@.map_values(|t: String| t@) =~= spec_lines(s@));
        }
        return r;
    }
    let f = crate::serial::first_newline(s);
    if f == n {
        let mut r: Vec<String> = Vec::new();
        r.push(s.to_owned());
        proof {
            assert(spec_lines(s@) == seq![s@]);
            assert(r@.map_values(|t: String| t@) =~= spec_lines(s@));
        }
        return r;
    }
    let line_end: usize = if f > 0 && s.get_char(f - 1) == '\r' {
        f - 1
    } else {
        f
    };
    let line = s.substring_char(0, line_end).to_owned();
    let rest = s.substring_char(f + 1, n);
    proof {
        assert(line@ =~= strip_tail_cr(s@.subrange(0, f as int)));
        assert(rest@ =~= s@.skip(f as int + 1));
        assert(spec_lines(s@) == seq![strip_tail_cr(s@.subrange(0, f as int))] + spec_lines(
            s@.skip(f as int + 1),
        ));
    }
    let tail = split_text(rest);
    let mut r: Vec<String> = Vec::new();
    r.push(line);
    let mut i: usize = 0;
    while i < tail.len()
        invariant
            0 <= i <= tail@.len(),
            r@.len() == i + 1,
            r@[0]@ == strip_tail_cr(s@.subrange(0, f as int)),
            forall|t: int| 0 <= t < i ==> r@[t + 1]@ == (#[trigger] tail@[t])@,
        decreases tail@.len() - i,
    {
        r.push(tail[i].clone());
        i = i + 1;
    }
    proof {
        assert(r@.map_values(|t: String| t@) =~= spec_lines(s@)) by {
            assert forall|k: int|
                0 <= k < r@.len() implies r@.map_values(|t: String| t@)[k] == spec_lines(s@)[k] by {
                if k > 0 {
                    assert(r@[k - 1 + 1]@ == tail@[k - 1]@);
                    assert(r@[k]@ == tail@[k - 1]@);
                    assert(tail@.map_values(|t: String| t@)[k - 1] == tail@[k - 1]@);
                    assert(spec_lines(s@)[k] == spec_lines(rest@)[k - 1]);
                }
            }
        }
    }
    r
}

/// Pushing a line extends the line view.
proof fn lemma_sv_push(v: Seq<String>, x: String)
    ensures
        v.push(x).map_values(|s: String| s@) =~= v.map_values(|s: String| s@).push(x@),
{
}

/// Append the lines of one endpoint.
fn push_ep_lines(out: &mut Vec<String>, e: &Endpoint)
    ensures
        final(out)@.map_values(|s: String| s@) == old(out)@.map_values(|s: String| s@) + ep_lines(
            endpoint_v(*e),
        ),
{
    let ghost prev = out@.map_values(|s: String| s@);
    out.push(crate::names::u64_to_string(e.node.index as u64));
    out.push(crate::names::u64_to_string(e.index as u64));
    let kind_line: String = match &e.kind {
        EndpointKind::Viona(_) => "viona".to_owned(),
        EndpointKind::SoftNPU(_) => "softnpu".to_owned(),
    };
    out.push(kind_line);
    let flag: String;
    let macv: String;
    match &e.kind {
        EndpointKind::Viona(Some(m)) => {
            flag = "1".to_owned();
            macv = m.clone();
        },
        EndpointKind::SoftNPU(Some(m)) => {
            flag = "1".to_owned();
            macv = m.clone();
        },
        _ => {
            flag = "0".to_owned();
            macv = String::new();
        },
    }
    out.push(flag);
    out.push(macv);
    proof {
        assert(out@.map_values(|s: String| s@) =~~= prev + ep_lines(endpoint_v(*e)));
    }
}

/// Append the lines of one node.
fn push_node_lines(out: &mut Vec<String>, n: &Node)
    ensures
        final(out)@.map_values(|s: String| s@) == old(out)@.map_values(|s: String| s@) + node_lines(
            node_v(*n),
        ),
{
    let ghost prev = out@.map_values(|s: String| s@);
    let ghost nv = node_v(*n);
    out.push(n.name.clone());
    out.push(n.image.clone());
    out.push(crate::names::u64_to_string(n.radix as u64));
    out.push(n.id.clone());
    out.push(crate::names::u64_to_string(n.cores as u64));
    out.push(crate::names::u64_to_string(n.memory));
    out.push(n.dataset.clone());
    out.push(
        if n.do_setup {
            "1".to_owned()
        } else {
            "0".to_owned()
        },
    );
    out.push(crate::names::u64_to_string(n.reserved as u64));
    out.push(
        match n.primary_disk_backing {
            PrimaryDiskBacking::Zvol => "zvol".to_owned(),
            PrimaryDiskBacking::File => "file".to_owned(),
        },
    );
    match n.vnc_port {
        Some(p) => {
            out.push("1".to_owned());
            out.push(crate::names::u64_to_string(p as u64));
        },
        None => {
            out.push("0".to_owned());
            out.push(String::new());
        },
    }
    out.push(crate::names::u64_to_string(n.mounts.len() as u64));
    proof {
        assert(out@.map_values(|s: String| s@) =~~= prev + node_lines(nv).take(13));
    }
    let mut j: usize = 0;
    proof {
        assert(nv.mounts.take(0) =~= Seq::<MountV>::empty());
    }
    while j < n.mounts.len()
        invariant
            0 <= j <= n.mounts@.len(),
            nv == node_v(*n),
            nv.mounts.len() == n.mounts@.len(),
            out@.map_values(|s: String| s@) == prev + node_lines(nv).take(13) + mounts_lines(
                nv.mounts.take(j as int),
            ),
        decreases n.mounts@.len() - j,
    {
        let ghost mid = out@.map_values(|s: String| s@);
        let m = &n.mounts[j];
        out.push(m.source.clone());
        out.push(m.destination.clone());
        out.push(
            match m.mechanism {
                GuestMountMechanism::P9kp => "p9kp".to_owned(),
                GuestMountMechanism::Mount => "mount".to_owned(),
            },
        );
        proof {
            assert(nv.mounts[j as int] == mount_v(n.mounts@[j as int]));
            assert(nv.mounts.take(j as int + 1).drop_last() =~= nv.mounts.take(j as int));
            assert(nv.mounts.take(j as int + 1).last() == nv.mounts[j as int]);
            assert(out@.map_values(|s: String| s@) =~~= mid + mount_lines(nv.mounts[j as int]));
            assert(out@.map_values(|s: String| s@) =~~= prev + node_lines(nv).take(13)
                + mounts_lines(nv.mounts.take(j as int + 1)));
        }
        j = j + 1;
    }
    proof {
        assert(nv.mounts.take(n.mounts@.len() as int) =~= nv.mounts);
    }
    let ghost mid2 = out@.map_values(|s: String| s@);
    match &n.smbios {
        Some(s) => {
            out.push("1".to_owned());
            out.push(s.manufacturer.clone());
            out.push(s.product_name.clone());
            out.push(s.version.clone());
            out.push(s.serial_number.clone());
            out.push(s.uuid.clone());
            out.push(s.sku.clone());
            out.push(s.family.clone());
            proof {
                assert(out@.map_values(|t: String| t@) =~~= mid2 + seq!["1"@] + smbios_lines(
                    nv.smbios,
                ));
            }
        },
        None => {
            out.push("0".to_owned());
            let mut z: usize = 0;
            while z < 7
                invariant
                    0 <= z <= 7,
                    out@.map_values(|s: String| s@) == mid2 + seq!["0"@] + smbios_lines(
                        nv.smbios,
                    ).take(z as int),
                    nv.smbios is None,
                decreases 7 - z,
            {
                let ghost mid3 = out@.map_values(|s: String| s@);
                let empty_line = String::new();
                proof {
                    assert(empty_line@ =~= Seq::<char>::empty());
                }
                out.push(empty_line);
                proof {
                    assert(out@.map_values(|s: String| s@) =~= mid3.push(Seq::<char>::empty()));
                    assert(smbios_lines(nv.smbios).take(z as int + 1).drop_last()
                        =~= smbios_lines(nv.smbios).take(z as int));
                    assert(smbios_lines(nv.smbios).take(z as int + 1).last() == smbios_lines(
                        nv.smbios,
                    )[z as int]);
                    assert(smbios_lines(nv.smbios)[z as int] =~= Seq::<char>::empty());
                    assert(out@.map_values(|s: String| s@) =~~= mid2 + seq!["0"@] + smbios_lines(
                        nv.smbios,
                    ).take(z as int + 1));
                }
                z = z + 1;
            }
            proof {
                assert(smbios_lines(nv.smbios).take(7) =~= smbios_lines(nv.smbios));
                assert(out@.map_values(|t: String| t@) =~~= mid2 + seq!["0"@] + smbios_lines(
                    nv.smbios,
                ));
            }
        },
    }
    proof {
        let flag_line = (match nv.smbios {
            Some(_) => "1"@,
            None => "0"@,
        });
        assert(node_lines(nv) =~~= node_lines(nv).take(13) + mounts_lines(nv.mounts) + seq![
            flag_line,
        ] + smbios_lines(nv.smbios));
        assert(out@.map_values(|s: String| s@) =~~= prev + node_lines(nv));
    }
}

/// The document lines of a deployment.
fn emit_lines(d: &Deployment) -> (r: Vec<String>)
    ensures
        r@.map_values(|s: String| s@) == depl_lines(depl_v(*d)),
{
    let ghost v = depl_v(*d);
    let mut out: Vec<String> = Vec::new();
    out.push("falcon-topology".to_owned());
    out.push(d.name.clone());
    out.push(crate::names::u64_to_string(d.nodes.len() as u64));
    let ghost head = seq!["falcon-topology"@, v.name, dec_rep(v.nodes.len())];
    proof {
        assert(d.nodes@.len() == v.nodes.len());
        assert(out@.map_values(|s: String| s@) =~~= head);
        assert(v.nodes.take(0) =~= Seq::<NodeV>::empty());
    }
    let mut i: usize = 0;
    while i < d.nodes.len()
        invariant
            0 <= i <= d.nodes@.len(),
            v == depl_v(*d),
            v.nodes.len() == d.nodes@.len(),
            out@.map_values(|s: String| s@) == head + nodes_lines(v.nodes.take(i as int)),
        decreases d.nodes@.len() - i,
    {
        push_node_lines(&mut out, &d.nodes[i]);
        proof {
            assert(v.nodes[i as int] == node_v(d.nodes@[i as int]));
            assert(v.nodes.take(i as int + 1).drop_last() =~= v.nodes.take(i as int));
            assert(v.nodes.take(i as int + 1).last() == v.nodes[i as int]);
            assert(out@.map_values(|s: String| s@) =~~= head + nodes_lines(
                v.nodes.take(i as int + 1),
            ));
        }
        i = i + 1;
    }
    proof {
        assert(v.nodes.take(d.nodes@.len() as int) =~= v.nodes);
    }
    let ghost mid = head + nodes_lines(v.nodes);
    out.push(crate::names::u64_to_string(d.links.len() as u64));
    proof {
        assert(d.links@.len() == v.links.len());
        assert(out@.map_values(|s: String| s@) =~~= mid + seq![dec_rep(v.links.len())]);
        assert(v.links.take(0) =~= Seq::<LinkV>::empty());
    }
    let ghost mid2 = mid + seq![dec_rep(v.links.len())];
    let mut i: usize = 0;
    while i < d.links.len()
        invariant
            0 <= i <= d.links@.len(),
            v == depl_v(*d),
            v.links.len() == d.links@.len(),
            out@.map_values(|s: String| s@) == mid2 + links_lines(v.links.take(i as int)),
        decreases d.links@.len() - i,
    {
        let ghost before = out@.map_values(|s: String| s@);
        push_ep_lines(&mut out, &d.links[i].endpoints[0]);
        push_ep_lines(&mut out, &d.links[i].endpoints[1]);
        proof {
            assert(v.links[i as int] == link_v(d.links@[i as int]));
            assert(v.links.take(i as int + 1).drop_last() =~= v.links.take(i as int));
            assert(v.links.take(i as int + 1).last() == v.links[i as int]);
            assert(out@.map_values(|s: String| s@) =~~= before + link_lines(v.links[i as int]));
            assert(out@.map_values(|s: String| s@) =~~= mid2 + links_lines(
                v.links.take(i as int + 1),
            ));
        }
        i = i + 1;
    }
    proof {
        assert(v.links.take(d.links@.len() as int) =~= v.links);
    }
    let ghost mid3 = mid2 + links_lines(v.links);
    out.push(crate::names::u64_to_string(d.ext_links.len() as u64));
    proof {
        assert(d.ext_links@.len() == v.ext_links.len());
        assert(out@.map_values(|s: String| s@) =~~= mid3 + seq![dec_rep(v.ext_links.len())]);
        assert(v.ext_links.take(0) =~= Seq::<ExtV>::empty());
    }
    let ghost mid4 = mid3 + seq![dec_rep(v.ext_links.len())];
    let mut i: usize = 0;
    while i < d.ext_links.len()
        invariant
            0 <= i <= d.ext_links@.len(),
            v == depl_v(*d),
            v.ext_links.len() == d.ext_links@.len(),
            out@.map_values(|s: String| s@) == mid4 + exts_lines(v.ext_links.take(i as int)),
        decreases d.ext_links@.len() - i,
    {
        let ghost before = out@.map_values(|s: String| s@);
        push_ep_lines(&mut out, &d.ext_links[i].endpoint);
        let ghost after_ep = out@.map_values(|s: String| s@);
        out.push(d.ext_links[i].host_ifx.clone());
        proof {
            assert(out@.map_values(|s: String| s@) =~= after_ep.push(
                d.ext_links@[i as int].host_ifx@,
            ));
            assert(v.ext_links[i as int] == ext_v(d.ext_links@[i as int]));
            assert(v.ext_links.take(i as int + 1).drop_last() =~= v.ext_links.take(i as int));
            assert(v.ext_links.take(i as int + 1).last() == v.ext_links[i as int]);
            assert(out@.map_values(|s: String| s@) =~~= before + extl_lines(
                v.ext_links[i as int],
            ));
            assert(out@.map_values(|s: String| s@) =~~= mid4 + exts_lines(
                v.ext_links.take(i as int + 1),
            ));
        }
        i = i + 1;
    }
    proof {
        assert(v.ext_links.take(d.ext_links@.len() as int) =~= v.ext_links);
    }
    out.push("end".to_owned());
    proof {
        assert(out@.map_values(|s: String| s@) =~~= depl_lines(v));
    }
    out
}

/// Serialize a deployment to its document text.
pub fn emit_topology(d: &Deployment) -> (r: String)
    ensures
        r@ == join_nl(depl_lines(depl_v(*d))),
{
    let lines = emit_lines(d);
    join_text(&lines)
}

/// Whether a document line equals a fixed text.
fn line_is(s: &String, lit: &str) -> (r: bool)
    ensures
        r == (s@ == lit@),
{
    let l = lit.to_owned();
    s.eq(&l)
}

/// Parse an endpoint record.
fn parse_ep(lines: &Vec<String>, i: usize) -> (r: Option<Endpoint>)
    ensures
        match r {
            Some(e) => sp_ep(lines@.map_values(|s: String| s@), i as int) == Some(endpoint_v(e)),
            None => sp_ep(lines@.map_values(|s: String| s@), i as int) is None,
        },
{
    let ghost lv = lines@.map_values(|s: String| s@);
    if lines.len() < 5 || i > lines.len() - 5 {
        return None;
    }
    let node = match crate::sidecar::parse_u64(lines[i].as_str()) {
        Some(v) => v,
        None => {
            return None;
        },
    };
    if node > usize::MAX as u64 {
        return None;
    }
    let idx = match crate::sidecar::parse_u64(lines[i + 1].as_str()) {
        Some(v) => v,
        None => {
            return None;
        },
    };
    if idx > usize::MAX as u64 {
        return None;
    }
    let viona: bool = if line_is(&lines[i + 2], "viona") {
        true
    } else if line_is(&lines[i + 2], "softnpu") {
        false
    } else {
        return None;
    };
    let macflag: bool = if line_is(&lines[i + 3], "1") {
        true
    } else if line_is(&lines[i + 3], "0") {
        false
    } else {
        return None;
    };
    let mac: Option<String> = if macflag {
        Some(lines[i + 4].clone())
    } else {
        None
    };
    let kind = if viona {
        EndpointKind::Viona(mac)
    } else {
        EndpointKind::SoftNPU(mac)
    };
    let e = Endpoint { node: NodeRef { index: node as usize }, index: idx as usize, kind };
    Some(e)
}

/// Parse a mount record.
fn parse_mount(lines: &Vec<String>, i: usize) -> (r: Option<Mount>)
    ensures
        match r {
            Some(m) => sp_mount(lines@.map_values(|s: String| s@), i as int) == Some(mount_v(m)),
            None => sp_mount(lines@.map_values(|s: String| s@), i as int) is None,
        },
{
    if lines.len() < 3 || i > lines.len() - 3 {
        return None;
    }
    let p9kp: bool = if line_is(&lines[i + 2], "p9kp") {
        true
    } else if line_is(&lines[i + 2], "mount") {
        false
    } else {
        return None;
    };
    Some(
        Mount {
            source: lines[i].clone(),
            destination: lines[i + 1].clone(),
            mechanism: if p9kp {
                GuestMountMechanism::P9kp
            } else {
                GuestMountMechanism::Mount
            },
        },
    )
}

/// Parse `m` mount records.
fn parse_mounts(lines: &Vec<String>, i: usize, m: usize) -> (r: Option<Vec<Mount>>)
    requires
        i <= lines@.len(),
    ensures
        match r {
            Some(v) => sp_mounts(lines@.map_values(|s: String| s@), i as int, m as int) == Some(
                v@.map_values(|x: Mount| mount_v(x)),
            ) && i + 3 * m <= lines@.len(),
            None => sp_mounts(lines@.map_values(|s: String| s@), i as int, m as int) is None,
        },
    decreases m,
{
    let ghost lv = lines@.map_values(|s: String| s@);
    if m == 0 {
        let v: Vec<Mount> = Vec::new();
        proof {
            assert(v@.map_values(|x: Mount| mount_v(x)) =~= Seq::<MountV>::empty());
        }
        return Some(v);
    }
    let first = match parse_mount(lines, i) {
        Some(x) => x,
        None => {
            return None;
        },
    };
    proof {
        assert(lines@.len() == lines.len());
        assert(i + 3 <= lv.len());
    }
    let ghost firstg = first;
    let mut tail = match parse_mounts(lines, i + 3, m - 1) {
        Some(t) => t,
        None => {
            return None;
        },
    };
    let ghost tailv = tail@;
    tail.insert(0, first);
    proof {
        assert(tail@.map_values(|x: Mount| mount_v(x)) =~~= seq![mount_v(firstg)]
            + tailv.map_values(|x: Mount| mount_v(x))) by {
            assert forall|q: int|
                #![trigger tail@[q]]
                0 <= q < tail@.len() implies tail@.map_values(|x: Mount| mount_v(x))[q] == (seq![
                mount_v(firstg),
            ] + tailv.map_values(|x: Mount| mount_v(x)))[q] by {
                assert(tail@ == tailv.insert(0, firstg));
            }
        }
    }
    Some(tail)
}

/// Parse the SMBIOS block.
fn parse_smbios(lines: &Vec<String>, i: usize) -> (r: Option<Option<SmbiosInfo>>)
    ensures
        match r {
            Some(s) => sp_smbios(lines@.map_values(|t: String| t@), i as int) == Some(
                match s {
                    Some(v) => Some(smbios_v(v)),
                    None => None,
                },
            ) && i + 8 <= lines@.len(),
            None => sp_smbios(lines@.map_values(|t: String| t@), i as int) is None,
        },
{
    if lines.len() < 8 || i > lines.len() - 8 {
        return None;
    }
    if line_is(&lines[i], "1") {
        Some(
            Some(
                SmbiosInfo {
                    manufacturer: lines[i + 1].clone(),
                    product_name: lines[i + 2].clone(),
                    version: lines[i + 3].clone(),
                    serial_number: lines[i + 4].clone(),
                    uuid: lines[i + 5].clone(),
                    sku: lines[i + 6].clone(),
                    family: lines[i + 7].clone(),
                },
            ),
        )
    } else if line_is(&lines[i], "0") {
        Some(None)
    } else {
        None
    }
}

/// Too few lines leave a mount block unparsable.
proof fn lemma_sp_mounts_short(ls: Seq<Seq<char>>, i: int, m: int)
    requires
        m > 0,
        i + 3 * m > ls.len(),
        0 <= i,
    ensures
        sp_mounts(ls, i, m) is None,
    decreases m,
{
    if i + 3 <= ls.len() {
        if m > 1 {
            lemma_sp_mounts_short(ls, i + 3, m - 1);
        }
    }
}

/// Parse one node, yielding the node and the position after it.
fn parse_node(lines: &Vec<String>, i: usize) -> (r: Option<(Node, usize)>)
    ensures
        match r {
            Some((n, j)) => sp_node(lines@.map_values(|s: String| s@), i as int) == Some(
                (node_v(n), j as int),
            ) && j <= lines@.len() && i < j && n.components@.len() == 0,
            None => sp_node(lines@.map_values(|s: String| s@), i as int) is None,
        },
{
    let ghost lv = lines@.map_values(|s: String| s@);
    if lines.len() < 13 || i > lines.len() - 13 {
        return None;
    }
    let radix = match crate::sidecar::parse_u64(lines[i + 2].as_str()) {
        Some(v) if v <= usize::MAX as u64 => v as usize,
        _ => {
            return None;
        },
    };
    let cores = match crate::sidecar::parse_u64(lines[i + 4].as_str()) {
        Some(v) if v <= 255 => v as u8,
        _ => {
            return None;
        },
    };
    let memory = match crate::sidecar::parse_u64(lines[i + 5].as_str()) {
        Some(v) => v,
        None => {
            return None;
        },
    };
    let do_setup: bool = if line_is(&lines[i + 7], "1") {
        true
    } else if line_is(&lines[i + 7], "0") {
        false
    } else {
        return None;
    };
    let reserved = match crate::sidecar::parse_u64(lines[i + 8].as_str()) {
        Some(v) if v <= usize::MAX as u64 => v as usize,
        _ => {
            return None;
        },
    };
    let zvol: bool = if line_is(&lines[i + 9], "zvol") {
        true
    } else if line_is(&lines[i + 9], "file") {
        false
    } else {
        return None;
    };
    let vnc_flag: bool = if line_is(&lines[i + 10], "1") {
        true
    } else if line_is(&lines[i + 10], "0") {
        false
    } else {
        return None;
    };
    let vnc_port: Option<u16> = if vnc_flag {
        match crate::sidecar::parse_u64(lines[i + 11].as_str()) {
            Some(v) if v <= 65535 => Some(v as u16),
            _ => {
                return None;
            },
        }
    } else {
        None
    };
    let mcount = match crate::sidecar::parse_u64(lines[i + 12].as_str()) {
        Some(v) if v <= usize::MAX as u64 => v as usize,
        _ => {
            return None;
        },
    };
    if mcount > (lines.len() - (i + 13)) / 3 {
        proof {
            if mcount > 0 {
                assert(i + 13 + 3 * mcount > lv.len());
                lemma_sp_mounts_short(lv, i as int + 13, mcount as int);
            }
        }
        return None;
    }
    proof {
        assert(lines@.len() == lines.len());
    }
    let mounts = match parse_mounts(lines, i + 13, mcount) {
        Some(v) => v,
        None => {
            return None;
        },
    };
    let si = i + 13 + 3 * mcount;
    let smbios = match parse_smbios(lines, si) {
        Some(s) => s,
        None => {
            return None;
        },
    };
    let n = Node {
        name: lines[i].clone(),
        image: lines[i + 1].clone(),
        radix,
        id: lines[i + 3].clone(),
        cores,
        memory,
        dataset: lines[i + 6].clone(),
        do_setup,
        reserved,
        primary_disk_backing: if zvol {
            PrimaryDiskBacking::Zvol
        } else {
            PrimaryDiskBacking::File
        },
        vnc_port,
        mounts,
        components: Vec::new(),
        smbios,
    };
    proof {
        assert(node_v(n).mounts =~= n.mounts@.map_values(|m: Mount| mount_v(m)));
    }
    Some((n, si + 8))
}

/// Parse `k` nodes, yielding them and the position after them.
fn parse_nodes(lines: &Vec<String>, i: usize, k: usize) -> (r: Option<(Vec<Node>, usize)>)
    requires
        i <= lines@.len(),
    ensures
        match r {
            Some((ns, j)) => sp_nodes(lines@.map_values(|s: String| s@), i as int, k as int)
                == Some((ns@.map_values(|n: Node| node_v(n)), j as int)) && j <= lines@.len() && (
            forall|q: int| 0 <= q < ns@.len() ==> (#[trigger] ns@[q]).components@.len() == 0),
            None => sp_nodes(lines@.map_values(|s: String| s@), i as int, k as int) is None,
        },
    decreases k,
{
    let ghost lv = lines@.map_values(|s: String| s@);
    if k == 0 {
        let ns: Vec<Node> = Vec::new();
        proof {
            assert(ns@.map_values(|n: Node| node_v(n)) =~= Seq::<NodeV>::empty());
        }
        return Some((ns, i));
    }
    let (first, j) = match parse_node(lines, i) {
        Some(x) => x,
        None => {
            return None;
        },
    };
    let ghost firstg = first;
    let (mut ns, e) = match parse_nodes(lines, j, k - 1) {
        Some(t) => t,
        None => {
            return None;
        },
    };
    let ghost tailv = ns@;
    ns.insert(0, first);
    proof {
        assert(ns@.map_values(|n: Node| node_v(n)) =~~= seq![node_v(firstg)] + tailv.map_values(
            |n: Node| node_v(n),
        )) by {
            assert forall|q: int|
                #![trigger ns@[q]]
                0 <= q < ns@.len() implies ns@.map_values(|n: Node| node_v(n))[q] == (seq![
                node_v(firstg),
            ] + tailv.map_values(|n: Node| node_v(n)))[q] by {
                assert(ns@ == tailv.insert(0, firstg));
            }
        }
        assert forall|q: int| 0 <= q < ns@.len() implies (#[trigger] ns@[q]).components@.len()
            == 0 by {
            assert(ns@ == tailv.insert(0, firstg));
            if q > 0 {
                assert(ns@[q] == tailv[q - 1]);
            }
        }
    }
    Some((ns, e))
}

/// Parse `k` links, yielding them and the position after them.
fn parse_links(lines: &Vec<String>, i: usize, k: usize) -> (r: Option<(Vec<Link>, usize)>)
    requires
        i <= lines@.len(),
    ensures
        match r {
            Some((ls, j)) => sp_links(lines@.map_values(|s: String| s@), i as int, k as int)
                == Some(ls@.map_values(|l: Link| link_v(l))) && j as int == i + 10 * k && j
                <= lines@.len(),
            None => sp_links(lines@.map_values(|s: String| s@), i as int, k as int) is None,
        },
    decreases k,
{
    let ghost lv = lines@.map_values(|s: String| s@);
    if k == 0 {
        let ls: Vec<Link> = Vec::new();
        proof {
            assert(ls@.map_values(|l: Link| link_v(l)) =~= Seq::<LinkV>::empty());
        }
        return Some((ls, i));
    }
    let e0 = match parse_ep(lines, i) {
        Some(x) => x,
        None => {
            return None;
        },
    };
    proof {
        assert(lines@.len() == lines.len());
        assert(i + 5 <= lv.len());
    }
    let e1 = match parse_ep(lines, i + 5) {
        Some(x) => x,
        None => {
            return None;
        },
    };
    proof {
        assert(i + 10 <= lv.len());
    }
    let first = Link { endpoints: [e0, e1] };
    let ghost firstg = first;
    let (mut ls, j) = match parse_links(lines, i + 10, k - 1) {
        Some(t) => t,
        None => {
            return None;
        },
    };
    let ghost tailv = ls@;
    ls.insert(0, first);
    proof {
        assert(ls@.map_values(|l: Link| link_v(l)) =~~= seq![link_v(firstg)] + tailv.map_values(
            |l: Link| link_v(l),
        )) by {
            assert forall|q: int|
                #![trigger ls@[q]]
                0 <= q < ls@.len() implies ls@.map_values(|l: Link| link_v(l))[q] == (seq![
                link_v(firstg),
            ] + tailv.map_values(|l: Link| link_v(l)))[q] by {
                assert(ls@ == tailv.insert(0, firstg));
            }
        }
    }
    Some((ls, j))
}

/// Parse `k` external links, yielding them and the position after them.
fn parse_exts(lines: &Vec<String>, i: usize, k: usize) -> (r: Option<(Vec<ExtLink>, usize)>)
    requires
        i <= lines@.len(),
    ensures
        match r {
            Some((xs, j)) => sp_exts(lines@.map_values(|s: String| s@), i as int, k as int) == Some(
                xs@.map_values(|x: ExtLink| ext_v(x)),
            ) && j as int == i + 6 * k && j <= lines@.len(),
            None => sp_exts(lines@.map_values(|s: String| s@), i as int, k as int) is None,
        },
    decreases k,
{
    let ghost lv = lines@.map_values(|s: String| s@);
    if k == 0 {
        let xs: Vec<ExtLink> = Vec::new();
        proof {
            assert(xs@.map_values(|x: ExtLink| ext_v(x)) =~= Seq::<ExtV>::empty());
        }
        return Some((xs, i));
    }
    if lines.len() < 6 || i > lines.len() - 6 {
        return None;
    }
    let ep = match parse_ep(lines, i) {
        Some(x) => x,
        None => {
            return None;
        },
    };
    proof {
        assert(lines@.len() == lines.len());
    }
    let first = ExtLink { endpoint: ep, host_ifx: lines[i + 5].clone() };
    let ghost firstg = first;
    let (mut xs, j) = match parse_exts(lines, i + 6, k - 1) {
        Some(t) => t,
        None => {
            return None;
        },
    };
    let ghost tailv = xs@;
    xs.insert(0, first);
    proof {
        assert(xs@.map_values(|x: ExtLink| ext_v(x)) =~~= seq![ext_v(firstg)] + tailv.map_values(
            |x: ExtLink| ext_v(x),
        )) by {
            assert forall|q: int|
                #![trigger xs@[q]]
                0 <= q < xs@.len() implies xs@.map_values(|x: ExtLink| ext_v(x))[q] == (seq![
                ext_v(firstg),
            ] + tailv.map_values(|x: ExtLink| ext_v(x)))[q] by {
                assert(xs@ == tailv.insert(0, firstg));
            }
        }
    }
    Some((xs, j))
}

/// Parse a topology document back into a deployment.  The nodes come
/// back with no computed device plan, as they were when the document
/// was written.
pub fn parse_topology(s: &str) -> (r: Option<Deployment>)
    ensures
        match r {
            Some(d) => sp_depl(spec_lines(s@)) == Some(depl_v(d)),
            None => sp_depl(spec_lines(s@)) is None,
        },
{
    let lines = split_text(s);
    let ghost lv = lines@.map_values(|t: String| t@);
    if lines.len() < 3 {
        return None;
    }
    if !line_is(&lines[0], "falcon-topology") {
        return None;
    }
    let nc = match crate::sidecar::parse_u64(lines[2].as_str()) {
        Some(v) if v <= usize::MAX as u64 => v as usize,
        _ => {
            return None;
        },
    };
    let (nodes, i1) = match parse_nodes(&lines, 3, nc) {
        Some(x) => x,
        None => {
            return None;
        },
    };
    if i1 >= lines.len() {
        return None;
    }
    let lc = match crate::sidecar::parse_u64(lines[i1].as_str()) {
        Some(v) if v <= usize::MAX as u64 => v as usize,
        _ => {
            return None;
        },
    };
    let (links, i2) = match parse_links(&lines, i1 + 1, lc) {
        Some(x) => x,
        None => {
            return None;
        },
    };
    if i2 >= lines.len() {
        return None;
    }
    let ec = match crate::sidecar::parse_u64(lines[i2].as_str()) {
        Some(v) if v <= usize::MAX as u64 => v as usize,
        _ => {
            return None;
        },
    };
    let (ext_links, i3) = match parse_exts(&lines, i2 + 1, ec) {
        Some(x) => x,
        None => {
            return None;
        },
    };
    if i3 >= lines.len() || i3 + 1 != lines.len() {
        return None;
    }
    if !line_is(&lines[i3], "end") {
        return None;
    }
    let d = Deployment { name: lines[1].clone(), nodes, links, ext_links };
    proof {
        assert(depl_v(d).nodes =~= d.nodes@.map_values(|n: Node| node_v(n)));
        assert(depl_v(d).links =~= d.links@.map_values(|l: Link| link_v(l)));
        assert(depl_v(d).ext_links =~= d.ext_links@.map_values(|x: ExtLink| ext_v(x)));
    }
    Some(d)
}

/// The serialization round trip: writing a serializable deployment to
/// its document text and parsing the text back yields the very value
/// that was written.
pub proof fn lemma_topology_round_trip(d: Deployment)
    requires
        serial_ok(d),
    ensures
        sp_depl(spec_lines(join_nl(depl_lines(depl_v(d))))) == Some(depl_v(d)),
{
    lemma_depl_lines_ok(d);
    lemma_lines_join(depl_lines(depl_v(d)));
    lemma_rt_depl_lines(d);
}

} // verus!
