use falcon::names::name_ok;
use falcon::runner::Runner;
use falcon::topology::{EndpointKind, GuestMountMechanism, PrimaryDiskBacking};

#[test]
fn names_are_checked() {
    assert!(name_ok("violin"));
    assert!(name_ok("a1_b2"));
    assert!(!name_ok(""));
    assert!(!name_ok("9abc"));
    assert!(!name_ok("_abc"));
    assert!(!name_ok("has-dash"));
    assert!(!name_ok("has space"));
}

#[test]
fn designators() {
    assert_eq!(EndpointKind::Viona(None).designator(), "vn");
    assert_eq!(EndpointKind::SoftNPU(None).designator(), "sn");
}

#[test]
fn empty_launch() {
    // A deployment with no nodes plans no link actions and no teardown
    // actions: launching and destroying both have nothing to do.
    let r = Runner::new("empty_launch");
    assert_eq!(r.deployment.nodes.len(), 0);
    let plan = falcon::netplan::net_launch_plan(&r.deployment).unwrap();
    assert_eq!(plan.len(), 0);
    let dplan = falcon::netplan::net_destroy_plan(&r.deployment);
    assert_eq!(dplan.len(), 0);
}

#[test]
fn solo_launch() {
    // One node with one shared directory: the component plan carries the
    // serial ports, the disk pair, and the 9p device at the first mount
    // slot.
    let mut r = Runner::new("solo");
    let z = r.node("violin", "helios-2.5", 1, 1024);
    r.mount("/tmp/solo", "/opt/solo", z).unwrap();
    let node = r.get_node(z);
    assert_eq!(node.name, "violin");
    assert_eq!(node.image, "helios-2.5");
    assert_eq!(node.cores, 1);
    assert_eq!(node.memory, 1024);
    assert_eq!(node.mounts.len(), 1);
    assert_eq!(node.mounts[0].source, "/tmp/solo");
    assert_eq!(node.mounts[0].destination, "/opt/solo");
    assert!(node.mounts[0].mechanism == GuestMountMechanism::P9kp);

    let eps = Vec::new();
    let ids = Vec::new();
    let plan = falcon::components::component_plan(
        "/dev/zvol/rdsk/rpool/falcon/topo/solo/violin",
        &node.mounts,
        false,
        &eps,
        &ids,
    );
    assert_eq!(plan.len(), 6);
    assert_eq!(plan[0].0, "com1");
    assert_eq!(plan[3].0, "main_disk");
    assert_eq!(plan[4].0, "main_disk_backing");
    assert_eq!(plan[5].0, "fs0");
    match &plan[5].1 {
        falcon::components::Component::P9fs { source, target, chunk_size, pci_slot } => {
            assert_eq!(source, "/tmp/solo");
            assert_eq!(target, "/opt/solo");
            assert_eq!(*chunk_size, 65536);
            assert_eq!(*pci_slot, 5);
        }
        other => panic!("unexpected component: {:?}", other),
    }
}

#[test]
fn duo_launch() {
    // Two nodes joined by one link: the derived host link names are the
    // deployment-qualified simnet and vnic names, and the radix totals
    // match the links.
    let mut r = Runner::new("duo");
    let violin = r.node("violin", "helios-2.5", 1, 1024);
    let piano = r.node("piano", "helios-2.5", 1, 1024);
    r.link(violin, piano);

    let d = &r.deployment;
    assert_eq!(d.links.len(), 1);
    let l = &d.links[0];
    assert_eq!(d.simnet_link_name(&l.endpoints[0]), "duo_violin_vn_sim0");
    assert_eq!(d.vnic_link_name(&l.endpoints[0]), "duo_violin_vn_vnic0");
    assert_eq!(d.simnet_link_name(&l.endpoints[1]), "duo_piano_vn_sim0");
    assert_eq!(d.vnic_link_name(&l.endpoints[1]), "duo_piano_vn_vnic0");

    // The radix totals law, on this topology.
    let total: usize = d.nodes.iter().map(|n| n.radix).sum();
    assert_eq!(total, 2 * d.links.len() + d.ext_links.len());
}

#[test]
fn radix_accounting() {
    let mut r = Runner::new("trio");
    let a = r.node("a", "helios-2.5", 1, 512);
    let b = r.node("b", "helios-2.5", 1, 512);
    let c = r.node("c", "helios-2.5", 1, 512);
    r.link(a, b);
    r.link(b, c);
    r.ext_link("igb0", c);
    let d = &r.deployment;
    let total: usize = d.nodes.iter().map(|n| n.radix).sum();
    assert_eq!(total, 2 * d.links.len() + d.ext_links.len());
    assert_eq!(d.nodes[0].radix, 1);
    assert_eq!(d.nodes[1].radix, 2);
    assert_eq!(d.nodes[2].radix, 2);
}

#[test]
fn find_and_list_nodes() {
    let mut r = Runner::new("duo");
    let violin = r.node("violin", "helios-2.5", 1, 1024);
    let _piano = r.node("piano", "helios-2.5", 1, 1024);
    let f = r.find_node("violin").unwrap();
    assert_eq!(f.index, violin.index);
    assert!(r.find_node("cello").is_none());
    let all = r.all_nodes();
    assert_eq!(all.len(), 2);
    assert_eq!(all[0].index, 0);
    assert_eq!(all[1].index, 1);
}

#[test]
fn builder_setters() {
    let mut r = Runner::new("solo");
    let z = r.node("violin", "helios-2.5", 1, 1024);
    assert_eq!(r.get_node(z).reserved, 20);
    r.reserve(z, 64);
    assert_eq!(r.get_node(z).reserved, 64);
    r.set_backing(z, PrimaryDiskBacking::File);
    assert!(r.get_node(z).primary_disk_backing == PrimaryDiskBacking::File);
    r.do_setup(z, false);
    assert!(!r.get_node(z).do_setup);
    let before = r.get_node(z).radix;
    let got = r.bump_radix(z);
    assert_eq!(got, before);
    assert_eq!(r.get_node(z).radix, before + 1);
}

#[test]
fn runner_paths() {
    let mut r = Runner::new("solo");
    assert_eq!(r.get_falcon_dir(), ".falcon");
    assert_eq!(r.get_propolis_binary(), ".falcon/bin/propolis-server");
    r.set_falcon_dir(Some("/tmp/ws".to_string()));
    assert_eq!(r.get_falcon_dir(), "/tmp/ws");
    assert_eq!(r.get_propolis_binary(), "/tmp/ws/bin/propolis-server");
    r.set_propolis_binary(Some("/opt/propolis".to_string()));
    assert_eq!(r.get_propolis_binary(), "/opt/propolis");
    r.set_falcon_dir(None);
    assert_eq!(r.get_falcon_dir(), ".falcon");
}

#[test]
fn index_validation() {
    let mut r = Runner::new("duo");
    let a = r.node("violin", "helios-2.5", 1, 1024);
    let b = r.node("piano", "helios-2.5", 1, 1024);
    r.link(a, b);
    assert!(r.deployment.check_indices());
}
