//! Storage and process plans: the exact host commands and paths the
//! driver runs to materialize images, back node disks, spawn the
//! hypervisor, and clean up.
//!
//! Every function here builds the precise text handed to a host
//! command; nothing executes.  The driver invokes the commands and maps
//! their failures to errors.

use vstd::prelude::*;
use vstd::string::*;

use crate::names::{dec_rep, u64_to_string};
use crate::topology::{GuestMountMechanism, Mount};

verus! {

/// The fixed base URL of downloadable assets.
pub open spec fn asset_base_url() -> Seq<char> {
    "https://oxide-falcon-assets.s3.us-west-2.amazonaws.com/"@
}

/// The block granularity of image volumes, in bytes.
pub const IMAGE_BLOCK_SIZE: u64 = 4096;

/// The allocation size for an image of `len` bytes: the length rounded
/// up to the volume block granularity.
pub open spec fn spec_alloc_size(len: int) -> int {
    ((len + 4095) / 4096) * 4096
}

/// Round an image length up to the volume block granularity.
pub fn alloc_size(len: u64) -> (r: u64)
    requires
        len <= u64::MAX - 4096,
    ensures
        r == spec_alloc_size(len as int),
        r >= len,
        r % 4096 == 0,
        r < len + 4096,
{
    let rem = len % 4096;
    if rem == 0 {
        proof {
            assert(len == (len as int / 4096) * 4096 + len as int % 4096) by (nonlinear_arith);
            assert(((len + 4095) / 4096) * 4096 == len) by (nonlinear_arith)
                requires
                    len as int % 4096 == 0,
                    len <= u64::MAX - 4096,
            ;
        }
        len
    } else {
        let r = len + (4096 - rem);
        proof {
            assert(r == ((len + 4095) / 4096) * 4096 && r % 4096 == 0 && r < len + 4096) by (nonlinear_arith)
                requires
                    rem == len as int % 4096,
                    rem != 0,
                    r == len + 4096 - rem,
                    len <= u64::MAX - 4096,
            ;
        }
        r
    }
}

/// The snapshot name a base image lives under: `{dataset}/img/{image}@base`.
pub open spec fn spec_image_snapshot(dataset: Seq<char>, image: Seq<char>) -> Seq<char> {
    dataset + "/img/"@ + image + "@base"@
}

/// The dataset a base image lives under: `{dataset}/img/{image}`.
pub open spec fn spec_image_dataset(dataset: Seq<char>, image: Seq<char>) -> Seq<char> {
    dataset + "/img/"@ + image
}

/// Build `{dataset}/img/{image}`.
pub fn image_dataset(dataset: &str, image: &str) -> (r: String)
    ensures
        r@ == spec_image_dataset(dataset@, image@),
{
    let mut s = dataset.to_owned();
    s.append("/img/");
    s.append(image);
    s
}

/// Build `{dataset}/img/{image}@base`.
pub fn image_snapshot(dataset: &str, image: &str) -> (r: String)
    ensures
        r@ == spec_image_snapshot(dataset@, image@),
{
    let mut s = image_dataset(dataset, image);
    s.append("@base");
    s
}

/// The arguments that ask `zfs` whether the base snapshot exists.
pub fn zfs_list_snapshot_args(dataset: &str, image: &str) -> (r: Vec<String>)
    ensures
        r@.len() == 4,
        r@[0]@ == "list"@,
        r@[1]@ == "-t"@,
        r@[2]@ == "snapshot"@,
        r@[3]@ == spec_image_snapshot(dataset@, image@),
{
    let mut r: Vec<String> = Vec::new();
    r.push("list".to_owned());
    r.push("-t".to_owned());
    r.push("snapshot".to_owned());
    r.push(image_snapshot(dataset, image));
    r
}

/// The arguments that create the image volume with 4 KiB blocks.
pub fn zfs_create_volume_args(dataset: &str, image: &str, size: u64) -> (r: Vec<String>)
    ensures
        r@.len() == 7,
        r@[0]@ == "create"@,
        r@[1]@ == "-p"@,
        r@[2]@ == "-V"@,
        r@[3]@ == dec_rep(size as nat),
        r@[4]@ == "-o"@,
        r@[5]@ == "volblocksize=4k"@,
        r@[6]@ == spec_image_dataset(dataset@, image@),
{
    let mut r: Vec<String> = Vec::new();
    r.push("create".to_owned());
    r.push("-p".to_owned());
    r.push("-V".to_owned());
    r.push(u64_to_string(size));
    r.push("-o".to_owned());
    r.push("volblocksize=4k".to_owned());
    r.push(image_dataset(dataset, image));
    r
}

/// The arguments that snapshot the image volume as `@base`.
pub fn zfs_snapshot_base_args(dataset: &str, image: &str) -> (r: Vec<String>)
    ensures
        r@.len() == 2,
        r@[0]@ == "snapshot"@,
        r@[1]@ == spec_image_snapshot(dataset@, image@),
{
    let mut r: Vec<String> = Vec::new();
    r.push("snapshot".to_owned());
    r.push(image_snapshot(dataset, image));
    r
}

/// The raw block device of an image volume.
pub fn zvol_image_rdsk_path(dataset: &str, image: &str) -> (r: String)
    ensures
        r@ == "/dev/zvol/rdsk/"@ + spec_image_dataset(dataset@, image@),
{
    let mut s = "/dev/zvol/rdsk/".to_owned();
    s.append(image_dataset(dataset, image).as_str());
    s
}

/// The per-node clone dataset: `{dataset}/topo/{deployment}/{node}`.
pub open spec fn spec_clone_dataset(dataset: Seq<char>, depl: Seq<char>, node: Seq<char>) -> Seq<
    char,
> {
    dataset + "/topo/"@ + depl + "/"@ + node
}

/// Build `{dataset}/topo/{deployment}/{node}`.
pub fn clone_dataset(dataset: &str, depl: &str, node: &str) -> (r: String)
    ensures
        r@ == spec_clone_dataset(dataset@, depl@, node@),
{
    let mut s = dataset.to_owned();
    s.append("/topo/");
    s.append(depl);
    s.append("/");
    s.append(node);
    s
}

/// The arguments that clone a base image for one node.
pub fn zfs_clone_args(dataset: &str, image: &str, depl: &str, node: &str) -> (r: Vec<String>)
    ensures
        r@.len() == 4,
        r@[0]@ == "clone"@,
        r@[1]@ == "-p"@,
        r@[2]@ == spec_image_snapshot(dataset@, image@),
        r@[3]@ == spec_clone_dataset(dataset@, depl@, node@),
{
    let mut r: Vec<String> = Vec::new();
    r.push("clone".to_owned());
    r.push("-p".to_owned());
    r.push(image_snapshot(dataset, image));
    r.push(clone_dataset(dataset, depl, node));
    r
}

/// `zfs set` arguments: `{property}` on the node's clone.
fn zfs_set_args(prop: String, dataset: &str, depl: &str, node: &str) -> (r: Vec<String>)
    ensures
        r@.len() == 3,
        r@[0]@ == "set"@,
        r@[1]@ == prop@,
        r@[2]@ == spec_clone_dataset(dataset@, depl@, node@),
{
    let mut r: Vec<String> = Vec::new();
    r.push("set".to_owned());
    r.push(prop);
    r.push(clone_dataset(dataset, depl, node));
    r
}

/// The arguments that set the clone's volume size to `{gb}G`.
pub fn zfs_set_volsize_args(dataset: &str, depl: &str, node: &str, gb: u64) -> (r: Vec<String>)
    ensures
        r@.len() == 3,
        r@[0]@ == "set"@,
        r@[1]@ == "volsize="@ + dec_rep(gb as nat) + "G"@,
        r@[2]@ == spec_clone_dataset(dataset@, depl@, node@),
{
    let mut p = "volsize=".to_owned();
    p.append(u64_to_string(gb).as_str());
    p.append("G");
    zfs_set_args(p, dataset, depl, node)
}

/// The arguments that set the clone's reservation to `{gb}G`.
pub fn zfs_set_reservation_args(dataset: &str, depl: &str, node: &str, gb: u64) -> (r: Vec<String>)
    ensures
        r@.len() == 3,
        r@[0]@ == "set"@,
        r@[1]@ == "reservation="@ + dec_rep(gb as nat) + "G"@,
        r@[2]@ == spec_clone_dataset(dataset@, depl@, node@),
{
    let mut p = "reservation=".to_owned();
    p.append(u64_to_string(gb).as_str());
    p.append("G");
    zfs_set_args(p, dataset, depl, node)
}

/// The arguments that disable synchronous writes on the clone.
pub fn zfs_set_sync_disabled_args(dataset: &str, depl: &str, node: &str) -> (r: Vec<String>)
    ensures
        r@.len() == 3,
        r@[0]@ == "set"@,
        r@[1]@ == "sync=disabled"@,
        r@[2]@ == spec_clone_dataset(dataset@, depl@, node@),
{
    zfs_set_args("sync=disabled".to_owned(), dataset, depl, node)
}

/// The raw block device of a node's clone.
pub fn zvol_clone_rdsk_path(dataset: &str, depl: &str, node: &str) -> (r: String)
    ensures
        r@ == "/dev/zvol/rdsk/"@ + spec_clone_dataset(dataset@, depl@, node@),
{
    let mut s = "/dev/zvol/rdsk/".to_owned();
    s.append(clone_dataset(dataset, depl, node).as_str());
    s
}

/// The directory of file-backed disks of a deployment.
pub fn file_backing_dir(depl: &str) -> (r: String)
    ensures
        r@ == "/var/falcon/dsk/"@ + depl@,
{
    let mut s = "/var/falcon/dsk/".to_owned();
    s.append(depl);
    s
}

/// A node's file-backed disk path.
pub fn file_backing_path(depl: &str, node: &str) -> (r: String)
    ensures
        r@ == "/var/falcon/dsk/"@ + depl@ + "/"@ + node@,
{
    let mut s = file_backing_dir(depl);
    s.append("/");
    s.append(node);
    s
}

/// The buffered block device of a base image, as `dd` reads it.
pub fn zvol_image_dsk_path(dataset: &str, image: &str) -> (r: String)
    ensures
        r@ == "/dev/zvol/dsk/"@ + spec_image_snapshot(dataset@, image@),
{
    let mut s = "/dev/zvol/dsk/".to_owned();
    s.append(image_snapshot(dataset, image).as_str());
    s
}

/// The arguments that copy a base image into a file backing.
pub fn dd_args(source: &str, backing: &str) -> (r: Vec<String>)
    ensures
        r@.len() == 3,
        r@[0]@ == "if="@ + source@,
        r@[1]@ == "of="@ + backing@,
        r@[2]@ == "bs=1024M"@,
{
    let mut a = "if=".to_owned();
    a.append(source);
    let mut b = "of=".to_owned();
    b.append(backing);
    let mut r: Vec<String> = Vec::new();
    r.push(a);
    r.push(b);
    r.push("bs=1024M".to_owned());
    r
}

/// The arguments that truncate a file backing to `{gb}G`.
pub fn truncate_args(gb: u64, backing: &str) -> (r: Vec<String>)
    ensures
        r@.len() == 3,
        r@[0]@ == "-s"@,
        r@[1]@ == dec_rep(gb as nat) + "G"@,
        r@[2]@ == backing@,
{
    let mut size = u64_to_string(gb);
    size.append("G");
    let mut r: Vec<String> = Vec::new();
    r.push("-s".to_owned());
    r.push(size);
    r.push(backing.to_owned());
    r
}

/// The arguments that destroy a deployment's whole clone tree.
pub fn zfs_destroy_tree_args(dataset: &str, depl: &str) -> (r: Vec<String>)
    ensures
        r@.len() == 3,
        r@[0]@ == "destroy"@,
        r@[1]@ == "-r"@,
        r@[2]@ == dataset@ + "/topo/"@ + depl@,
{
    let mut t = dataset.to_owned();
    t.append("/topo/");
    t.append(depl);
    let mut r: Vec<String> = Vec::new();
    r.push("destroy".to_owned());
    r.push("-r".to_owned());
    r.push(t);
    r
}

/// The arguments that remove a deployment's file backings.
pub fn rm_backing_args(depl: &str) -> (r: Vec<String>)
    ensures
        r@.len() == 2,
        r@[0]@ == "-rf"@,
        r@[1]@ == "/var/falcon/dsk/"@ + depl@,
{
    let mut r: Vec<String> = Vec::new();
    r.push("-rf".to_owned());
    r.push(file_backing_dir(depl));
    r
}

/// The four `zfs` invocations that snapshot a node's disk into a new
/// reusable base image: snapshot the node's clone, clone that snapshot
/// to `{dataset}/img/{name}`, promote the new image, and snapshot it as
/// `@base`.
pub fn snapshot_plan(dataset: &str, depl: &str, node: &str, name: &str) -> (r: Vec<Vec<String>>)
    ensures
        r@.len() == 4,
        r@[0]@.len() == 2 && r@[0]@[0]@ == "snapshot"@ && r@[0]@[1]@ == spec_clone_dataset(
            dataset@,
            depl@,
            node@,
        ) + "@base"@,
        r@[1]@.len() == 3 && r@[1]@[0]@ == "clone"@ && r@[1]@[1]@ == spec_clone_dataset(
            dataset@,
            depl@,
            node@,
        ) + "@base"@ && r@[1]@[2]@ == spec_image_dataset(dataset@, name@),
        r@[2]@.len() == 2 && r@[2]@[0]@ == "promote"@ && r@[2]@[1]@ == spec_image_dataset(
            dataset@,
            name@,
        ),
        r@[3]@.len() == 2 && r@[3]@[0]@ == "snapshot"@ && r@[3]@[1]@ == spec_image_snapshot(
            dataset@,
            name@,
        ),
{
    let mut source_snap = clone_dataset(dataset, depl, node);
    source_snap.append("@base");
    let dest = image_dataset(dataset, name);
    let mut r: Vec<Vec<String>> = Vec::new();
    let mut c0: Vec<String> = Vec::new();
    c0.push("snapshot".to_owned());
    c0.push(source_snap.clone());
    r.push(c0);
    let mut c1: Vec<String> = Vec::new();
    c1.push("clone".to_owned());
    c1.push(source_snap);
    c1.push(dest.clone());
    r.push(c1);
    let mut c2: Vec<String> = Vec::new();
    c2.push("promote".to_owned());
    c2.push(dest);
    r.push(c2);
    let mut c3: Vec<String> = Vec::new();
    c3.push("snapshot".to_owned());
    c3.push(image_snapshot(dataset, name));
    r.push(c3);
    r
}

/// The compressed asset name of an image: `{image}_0.raw.xz`.
pub fn image_asset_name(image: &str) -> (r: String)
    ensures
        r@ == image@ + "_0.raw.xz"@,
{
    let mut s = image.to_owned();
    s.append("_0.raw.xz");
    s
}

/// The download URL of an image asset.
pub fn image_url(image: &str) -> (r: String)
    ensures
        r@ == asset_base_url() + image@ + "_0.raw.xz"@,
{
    let mut s = "https://oxide-falcon-assets.s3.us-west-2.amazonaws.com/".to_owned();
    s.append(image_asset_name(image).as_str());
    s
}

/// The temporary download path of an image asset.
pub fn image_tmp_path(image: &str) -> (r: String)
    ensures
        r@ == "/tmp/"@ + image@ + "_0.raw.xz"@,
{
    let mut s = "/tmp/".to_owned();
    s.append(image_asset_name(image).as_str());
    s
}

/// The extracted image path: the download path without `.xz`.
pub fn image_extracted_path(image: &str) -> (r: String)
    ensures
        r@ == "/tmp/"@ + image@ + "_0.raw"@,
{
    let mut s = "/tmp/".to_owned();
    s.append(image);
    s.append("_0.raw");
    s
}

/// The firmware path under a workspace.
pub fn ovmf_path(falcon_dir: &str) -> (r: String)
    ensures
        r@ == falcon_dir@ + "/bin/OVMF_CODE.fd"@,
{
    let mut s = falcon_dir.to_owned();
    s.append("/bin/OVMF_CODE.fd");
    s
}

/// The firmware download URL.
pub fn ovmf_url() -> (r: String)
    ensures
        r@ == asset_base_url() + "OVMF_CODE.fd"@,
{
    let mut s = "https://oxide-falcon-assets.s3.us-west-2.amazonaws.com/".to_owned();
    s.append("OVMF_CODE.fd");
    s
}

/// The firmware digest URL.
pub fn ovmf_digest_url() -> (r: String)
    ensures
        r@ == asset_base_url() + "OVMF_CODE.fd.sha256.txt"@,
{
    let mut s = "https://oxide-falcon-assets.s3.us-west-2.amazonaws.com/".to_owned();
    s.append("OVMF_CODE.fd.sha256.txt");
    s
}

/// The hypervisor binary download URL for a pinned revision.
pub fn propolis_url(rev: &str) -> (r: String)
    ensures
        r@ == "https://buildomat.eng.oxide.computer/public/file/oxidecomputer/propolis/falcon/"@
            + rev@ + "/propolis-server"@,
{
    let mut s =
        "https://buildomat.eng.oxide.computer/public/file/oxidecomputer/propolis/falcon/".to_owned();
    s.append(rev);
    s.append("/propolis-server");
    s
}

/// The hypervisor digest URL for a pinned revision.
pub fn propolis_digest_url(rev: &str) -> (r: String)
    ensures
        r@ == "https://buildomat.eng.oxide.computer/public/file/oxidecomputer/propolis/falcon/"@
            + rev@ + "/propolis-server.sha256.txt"@,
{
    let mut s =
        "https://buildomat.eng.oxide.computer/public/file/oxidecomputer/propolis/falcon/".to_owned();
    s.append(rev);
    s.append("/propolis-server.sha256.txt");
    s
}

/// The serialized-topology path under a workspace.
pub fn topology_path(falcon_dir: &str) -> (r: String)
    ensures
        r@ == falcon_dir@ + "/topology.ron"@,
{
    let mut s = falcon_dir.to_owned();
    s.append("/topology.ron");
    s
}

/// The arguments the hypervisor is spawned with: `run`, the firmware
/// path, the wildcard control address, and the optional VNC address.
pub fn propolis_spawn_args(falcon_dir: &str, vnc_port: Option<u16>) -> (r: Vec<String>)
    ensures
        match vnc_port {
            None => r@.len() == 3,
            Some(p) => r@.len() == 4 && r@[3]@ == "[::]:"@ + dec_rep(p as nat),
        },
        r@[0]@ == "run"@,
        r@[1]@ == falcon_dir@ + "/bin/OVMF_CODE.fd"@,
        r@[2]@ == "[::]:0"@,
{
    let mut r: Vec<String> = Vec::new();
    r.push("run".to_owned());
    r.push(ovmf_path(falcon_dir));
    r.push("[::]:0".to_owned());
    match vnc_port {
        Some(p) => {
            let mut a = "[::]:".to_owned();
            a.append(u64_to_string(p as u64).as_str());
            r.push(a);
        },
        None => {},
    }
    r
}

/// The arguments that switch promiscuous filtering off on a vnic.
pub fn dladm_promisc_off_args(vnic: &str) -> (r: Vec<String>)
    ensures
        r@.len() == 4,
        r@[0]@ == "set-linkprop"@,
        r@[1]@ == "-p"@,
        r@[2]@ == "promisc-filtered=off"@,
        r@[3]@ == vnic@,
{
    let mut r: Vec<String> = Vec::new();
    r.push("set-linkprop".to_owned());
    r.push("-p".to_owned());
    r.push("promisc-filtered=off".to_owned());
    r.push(vnic.to_owned());
    r
}

/// The arguments that destroy a bhyve virtual machine.
pub fn bhyvectl_destroy_args(uuid: &str) -> (r: Vec<String>)
    ensures
        r@.len() == 2,
        r@[0]@ == "--destroy"@,
        r@[1]@ == "--vm="@ + uuid@,
{
    let mut a = "--vm=".to_owned();
    a.append(uuid);
    let mut r: Vec<String> = Vec::new();
    r.push("--destroy".to_owned());
    r.push(a);
    r
}

/// The local control address of a hypervisor on `port`.
pub fn control_addr(port: u16) -> (r: String)
    ensures
        r@ == "[::1]:"@ + dec_rep(port as nat),
{
    let mut s = "[::1]:".to_owned();
    s.append(u64_to_string(port as u64).as_str());
    s
}

/// The guest command that attaches one shared directory: a kernel 9p
/// mount for guests that support it, else a `p9kp` pull into the
/// directory.
pub fn mount_command(m: &Mount) -> (r: String)
    ensures
        m.mechanism is Mount ==> r@ == "mkdir -p "@ + m.destination@ + "; mount -t 9p -o ro,msize=65536 "@
            + m.destination@ + " "@ + m.destination@,
        m.mechanism is P9kp ==> r@ == "mkdir -p "@ + m.destination@ + "; cd "@ + m.destination@
            + "; p9kp pull"@,
{
    let mut s = "mkdir -p ".to_owned();
    s.append(m.destination.as_str());
    match m.mechanism {
        GuestMountMechanism::Mount => {
            s.append("; mount -t 9p -o ro,msize=65536 ");
            s.append(m.destination.as_str());
            s.append(" ");
            s.append(m.destination.as_str());
        },
        GuestMountMechanism::P9kp => {
            s.append("; cd ");
            s.append(m.destination.as_str());
            s.append("; p9kp pull");
        },
    }
    s
}

/// The guest command that sets the hostname.
pub fn hostname_command(name: &str) -> (r: String)
    ensures
        r@ == "hostname "@ + name@,
{
    let mut s = "hostname ".to_owned();
    s.append(name);
    s
}

/// The guest command that writes the node name file.
pub fn nodename_command(name: &str) -> (r: String)
    ensures
        r@ == "echo '"@ + name@ + "' > /etc/nodename"@,
{
    let mut s = "echo '".to_owned();
    s.append(name);
    s.append("' > /etc/nodename");
    s
}

/// The guest command that appends the IPv6 localhost entry.
pub fn hosts_v6_command(name: &str) -> (r: String)
    ensures
        r@ == "echo '::1 "@ + name@ + ".local "@ + name@ + "' >> /etc/hosts"@,
{
    let mut s = "echo '::1 ".to_owned();
    s.append(name);
    s.append(".local ");
    s.append(name);
    s.append("' >> /etc/hosts");
    s
}

/// The guest command that appends the IPv4 localhost entry.
pub fn hosts_v4_command(name: &str) -> (r: String)
    ensures
        r@ == "echo '127.0.0.1 "@ + name@ + ".local "@ + name@ + "' >> /etc/hosts"@,
{
    let mut s = "echo '127.0.0.1 ".to_owned();
    s.append(name);
    s.append(".local ");
    s.append(name);
    s.append("' >> /etc/hosts");
    s
}

} // verus!
