use falcon::digest::{needs_download, prepare_image, sha256_hex};
use falcon::topology::{GuestMountMechanism, Mount};
use falcon::zfsplan::{
    alloc_size, bhyvectl_destroy_args, control_addr, dd_args, dladm_promisc_off_args,
    file_backing_path, hostname_command, hosts_v4_command, hosts_v6_command, image_extracted_path,
    image_tmp_path, image_url, mount_command, nodename_command, ovmf_path, ovmf_url,
    propolis_spawn_args, propolis_url, rm_backing_args, snapshot_plan, topology_path,
    truncate_args, zfs_clone_args, zfs_create_volume_args, zfs_destroy_tree_args,
    zfs_list_snapshot_args, zfs_set_reservation_args, zfs_set_sync_disabled_args,
    zfs_set_volsize_args, zvol_clone_rdsk_path,
};
use falcon::zones::{launch_bhyve_zone, svc_online, Etherstub, FsMount, Zfs, ZoneBoot, ZoneInstall};

#[test]
fn allocation_size_rounds_up_to_blocks() {
    assert_eq!(alloc_size(0), 0);
    assert_eq!(alloc_size(1), 4096);
    assert_eq!(alloc_size(4095), 4096);
    assert_eq!(alloc_size(4096), 4096);
    assert_eq!(alloc_size(4097), 8192);
    assert_eq!(alloc_size(3 * 1024 * 1024 * 1024 + 5), 3 * 1024 * 1024 * 1024 + 4096);
}

#[test]
fn image_store_commands() {
    assert_eq!(
        zfs_list_snapshot_args("rpool/falcon", "helios-2.5"),
        vec!["list", "-t", "snapshot", "rpool/falcon/img/helios-2.5@base"]
    );
    assert_eq!(
        zfs_create_volume_args("rpool/falcon", "helios-2.5", 8192),
        vec!["create", "-p", "-V", "8192", "-o", "volblocksize=4k", "rpool/falcon/img/helios-2.5"]
    );
    assert_eq!(
        zfs_clone_args("rpool/falcon", "helios-2.5", "duo", "violin"),
        vec!["clone", "-p", "rpool/falcon/img/helios-2.5@base", "rpool/falcon/topo/duo/violin"]
    );
    assert_eq!(
        zfs_set_volsize_args("rpool/falcon", "duo", "violin", 20),
        vec!["set", "volsize=20G", "rpool/falcon/topo/duo/violin"]
    );
    assert_eq!(
        zfs_set_reservation_args("rpool/falcon", "duo", "violin", 20),
        vec!["set", "reservation=20G", "rpool/falcon/topo/duo/violin"]
    );
    assert_eq!(
        zfs_set_sync_disabled_args("rpool/falcon", "duo", "violin"),
        vec!["set", "sync=disabled", "rpool/falcon/topo/duo/violin"]
    );
    assert_eq!(
        zvol_clone_rdsk_path("rpool/falcon", "duo", "violin"),
        "/dev/zvol/rdsk/rpool/falcon/topo/duo/violin"
    );
    assert_eq!(file_backing_path("duo", "violin"), "/var/falcon/dsk/duo/violin");
    assert_eq!(
        dd_args("/dev/zvol/dsk/rpool/falcon/img/helios-2.5@base", "/var/falcon/dsk/duo/violin"),
        vec![
            "if=/dev/zvol/dsk/rpool/falcon/img/helios-2.5@base",
            "of=/var/falcon/dsk/duo/violin",
            "bs=1024M"
        ]
    );
    assert_eq!(
        truncate_args(20, "/var/falcon/dsk/duo/violin"),
        vec!["-s", "20G", "/var/falcon/dsk/duo/violin"]
    );
}

#[test]
fn teardown_commands() {
    assert_eq!(
        zfs_destroy_tree_args("rpool/falcon", "duo"),
        vec!["destroy", "-r", "rpool/falcon/topo/duo"]
    );
    assert_eq!(rm_backing_args("duo"), vec!["-rf", "/var/falcon/dsk/duo"]);
    assert_eq!(
        bhyvectl_destroy_args("9e5c27cb-86a1-4d6e-9ddc-1a8f0a0d60bc"),
        vec!["--destroy", "--vm=9e5c27cb-86a1-4d6e-9ddc-1a8f0a0d60bc"]
    );
}

#[test]
fn snapshot_produces_a_new_base_image() {
    let plan = snapshot_plan("rpool/falcon", "duo", "violin", "my-image");
    assert_eq!(plan.len(), 4);
    assert_eq!(plan[0], vec!["snapshot", "rpool/falcon/topo/duo/violin@base"]);
    assert_eq!(
        plan[1],
        vec!["clone", "rpool/falcon/topo/duo/violin@base", "rpool/falcon/img/my-image"]
    );
    assert_eq!(plan[2], vec!["promote", "rpool/falcon/img/my-image"]);
    assert_eq!(plan[3], vec!["snapshot", "rpool/falcon/img/my-image@base"]);
}

#[test]
fn asset_urls_and_paths() {
    assert_eq!(
        image_url("helios-2.5"),
        "https://oxide-falcon-assets.s3.us-west-2.amazonaws.com/helios-2.5_0.raw.xz"
    );
    assert_eq!(image_tmp_path("helios-2.5"), "/tmp/helios-2.5_0.raw.xz");
    assert_eq!(image_extracted_path("helios-2.5"), "/tmp/helios-2.5_0.raw");
    assert_eq!(ovmf_path(".falcon"), ".falcon/bin/OVMF_CODE.fd");
    assert_eq!(ovmf_url(), "https://oxide-falcon-assets.s3.us-west-2.amazonaws.com/OVMF_CODE.fd");
    assert_eq!(
        propolis_url("abc123"),
        "https://buildomat.eng.oxide.computer/public/file/oxidecomputer/propolis/falcon/abc123/propolis-server"
    );
    assert_eq!(topology_path(".falcon"), ".falcon/topology.ron");
    assert_eq!(control_addr(4522), "[::1]:4522");
}

#[test]
fn hypervisor_spawn_arguments() {
    assert_eq!(
        propolis_spawn_args(".falcon", None),
        vec!["run", ".falcon/bin/OVMF_CODE.fd", "[::]:0"]
    );
    assert_eq!(
        propolis_spawn_args(".falcon", Some(5900)),
        vec!["run", ".falcon/bin/OVMF_CODE.fd", "[::]:0", "[::]:5900"]
    );
    assert_eq!(
        dladm_promisc_off_args("duo_violin_vn_vnic0"),
        vec!["set-linkprop", "-p", "promisc-filtered=off", "duo_violin_vn_vnic0"]
    );
}

#[test]
fn guest_setup_commands() {
    let pull = Mount {
        source: "/tmp/solo".to_string(),
        destination: "/opt/solo".to_string(),
        mechanism: GuestMountMechanism::P9kp,
    };
    assert_eq!(mount_command(&pull), "mkdir -p /opt/solo; cd /opt/solo; p9kp pull");
    let kernel = Mount {
        source: "/tmp/solo".to_string(),
        destination: "/opt/solo".to_string(),
        mechanism: GuestMountMechanism::Mount,
    };
    assert_eq!(
        mount_command(&kernel),
        "mkdir -p /opt/solo; mount -t 9p -o ro,msize=65536 /opt/solo /opt/solo"
    );
    assert_eq!(hostname_command("violin"), "hostname violin");
    assert_eq!(nodename_command("violin"), "echo 'violin' > /etc/nodename");
    assert_eq!(hosts_v6_command("violin"), "echo '::1 violin.local violin' >> /etc/hosts");
    assert_eq!(
        hosts_v4_command("violin"),
        "echo '127.0.0.1 violin.local violin' >> /etc/hosts"
    );
}

#[test]
fn digest_checks() {
    // The published SHA-256 of the three bytes `abc`.
    let data = vec![b'a', b'b', b'c'];
    let hex = sha256_hex(&data);
    assert_eq!(hex, "ba7816bf8f01cfea414140de5dae2223b00361a396177a9cb410ff61f20015ad");
    assert!(needs_download(None, &hex));
    assert!(!needs_download(Some(&hex), &hex));
    assert!(needs_download(Some(&"deadbeef".to_string()), &hex));
}

#[test]
fn image_decompression_and_sizing() {
    // Compress a small image, then let the library decompress it and size
    // its volume.
    let original: Vec<u8> = (0..10000u32).map(|i| (i % 251) as u8).collect();
    let mut encoder = xz2::write::XzEncoder::new(Vec::new(), 6);
    std::io::Write::write_all(&mut encoder, &original).unwrap();
    let compressed = encoder.finish().unwrap();
    let (bytes, size) = prepare_image(&compressed).unwrap();
    assert_eq!(bytes, original);
    assert_eq!(size, 12288);
    assert!(prepare_image(&vec![1, 2, 3]).is_err());
}

#[test]
fn zone_helpers() {
    let zfs = Zfs::new("ztest");
    assert_eq!(zfs.create_args(), vec!["create", "-p", "-o", "mountpoint=/ztest", "rpool/ztest"]);
    assert_eq!(zfs.destroy_args(), vec!["destroy", "-rf", "rpool/ztest"]);
    assert_eq!(zfs.path_for("z1"), "/ztest/z1");
    assert_eq!(zfs.copy_to_zone("z1", "/src/f", "opt/f"), vec!["/src/f", "/ztest/z1/root/opt/f"]);
    assert_eq!(
        zfs.copy_from_zone("z1", "var/log/x", "/tmp/x"),
        vec!["/ztest/z1/root/var/log/x", "/tmp/x"]
    );
    assert_eq!(
        zfs.copy_to_zone_recursive("z1", "/src/dir", "opt/dir"),
        vec!["-r", "/src/dir", "/ztest/z1/root/opt/dir"]
    );
    assert_eq!(
        zfs.copy_bin_to_zone("z1", "tool", "/ws/", true),
        vec!["/ws/target/debug/tool", "/ztest/z1/root/opt/tool"]
    );
    assert_eq!(
        zfs.copy_bin_to_zone("z1", "tool", "", false),
        vec!["target/release/tool", "/ztest/z1/root/opt/tool"]
    );
    assert_eq!(
        zfs.copy_workspace_to_zone("z1", "cfg/a.toml", "opt/a.toml", "/ws/"),
        vec!["/ws/cfg/a.toml", "/ztest/z1/root/opt/a.toml"]
    );
    assert_eq!(
        zfs.copy_workspace_to_zone_recursive("z1", "cfg", "opt/cfg", "/ws/"),
        vec!["-r", "/ws/cfg", "/ztest/z1/root/opt/cfg"]
    );
    let fsm = FsMount::new("/src", "/dst");
    assert_eq!(fsm.source, "/src");
    assert_eq!(fsm.target, "/dst");
    let stub = Etherstub::new("stub0");
    assert_eq!(stub.create_args(), vec!["create-etherstub", "-t", "stub0"]);
    assert_eq!(stub.delete_args(), vec!["delete-etherstub", "stub0"]);
    assert_eq!(ZoneBoot::new("z1").name, "z1");
    assert_eq!(ZoneInstall::new("z1").name, "z1");
    assert!(launch_bhyve_zone("z1", "/z", &Vec::new(), &"img".to_string()).is_err());
    assert!(svc_online("svc:/milestone/network:default online 12:00"));
    assert!(!svc_online("svc:/milestone/network:default offl"));
}

#[test]
fn image_preparation_succeeds_exactly_on_well_formed_streams() {
    // A well-formed stream must prepare; junk must not.
    let original: Vec<u8> = vec![7; 4096];
    let mut encoder = xz2::write::XzEncoder::new(Vec::new(), 6);
    std::io::Write::write_all(&mut encoder, &original).unwrap();
    let compressed = encoder.finish().unwrap();
    let (bytes, size) = prepare_image(&compressed).expect("well-formed stream must prepare");
    assert_eq!(bytes, original);
    assert_eq!(size, 4096);
    assert!(prepare_image(&Vec::new()).is_err());
}
