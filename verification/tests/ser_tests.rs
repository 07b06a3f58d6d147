use falcon::runner::Runner;
use falcon::ser::{emit_topology, parse_topology};
use falcon::topology::{Deployment, GuestMountMechanism, SmbiosInfo};

fn assert_deployments_equal(a: &Deployment, b: &Deployment) {
    assert_eq!(a.name, b.name);
    assert_eq!(a.nodes.len(), b.nodes.len());
    for (x, y) in a.nodes.iter().zip(b.nodes.iter()) {
        assert_eq!(x.name, y.name);
        assert_eq!(x.image, y.image);
        assert_eq!(x.radix, y.radix);
        assert_eq!(x.id, y.id);
        assert_eq!(x.cores, y.cores);
        assert_eq!(x.memory, y.memory);
        assert_eq!(x.dataset, y.dataset);
        assert_eq!(x.do_setup, y.do_setup);
        assert_eq!(x.reserved, y.reserved);
        assert!(x.primary_disk_backing == y.primary_disk_backing);
        assert_eq!(x.vnc_port, y.vnc_port);
        assert_eq!(x.mounts.len(), y.mounts.len());
        for (m, n) in x.mounts.iter().zip(y.mounts.iter()) {
            assert_eq!(m.source, n.source);
            assert_eq!(m.destination, n.destination);
            assert!(m.mechanism == n.mechanism);
        }
        assert_eq!(x.components.len(), y.components.len());
        match (&x.smbios, &y.smbios) {
            (None, None) => {}
            (Some(s), Some(t)) => {
                assert_eq!(s.manufacturer, t.manufacturer);
                assert_eq!(s.product_name, t.product_name);
                assert_eq!(s.version, t.version);
                assert_eq!(s.serial_number, t.serial_number);
                assert_eq!(s.uuid, t.uuid);
                assert_eq!(s.sku, t.sku);
                assert_eq!(s.family, t.family);
            }
            _ => panic!("smbios mismatch"),
        }
    }
    assert_eq!(a.links.len(), b.links.len());
    for (x, y) in a.links.iter().zip(b.links.iter()) {
        for s in 0..2 {
            assert_eq!(x.endpoints[s].node.index, y.endpoints[s].node.index);
            assert_eq!(x.endpoints[s].index, y.endpoints[s].index);
            assert_eq!(x.endpoints[s].kind.designator(), y.endpoints[s].kind.designator());
        }
    }
    assert_eq!(a.ext_links.len(), b.ext_links.len());
    for (x, y) in a.ext_links.iter().zip(b.ext_links.iter()) {
        assert_eq!(x.host_ifx, y.host_ifx);
        assert_eq!(x.endpoint.node.index, y.endpoint.node.index);
        assert_eq!(x.endpoint.index, y.endpoint.index);
    }
}

#[test]
fn round_trip_full_topology() {
    // Serializing then deserializing a deployment yields an equal
    // deployment.
    let mut r = Runner::new("duo");
    let violin = r.node("violin", "helios-2.5", 1, 1024);
    let piano = r.node("piano", "helios-2.5", 2, 2048);
    r.link(violin, piano);
    r.softnpu_link(violin, piano, Some("a8:40:25:00:00:01".to_string()), None);
    r.ext_link("igb0", piano);
    r.mount("/tmp/solo", "/opt/solo", violin).unwrap();
    r.reserve(piano, 64);
    r.do_setup(piano, false);
    r.set_smbios_type1(
        violin,
        SmbiosInfo {
            manufacturer: "Oxide".to_string(),
            product_name: "falcon-vm".to_string(),
            version: "1".to_string(),
            serial_number: "0001".to_string(),
            uuid: "9e5c27cb-86a1-4d6e-9ddc-1a8f0a0d60bc".to_string(),
            sku: "sku".to_string(),
            family: "fam".to_string(),
        },
    );
    let text = emit_topology(&r.deployment);
    let back = parse_topology(&text).expect("document must parse");
    assert_deployments_equal(&r.deployment, &back);
    assert!(back.check_indices());
}

#[test]
fn round_trip_empty_topology() {
    let r = Runner::new("empty_launch");
    let text = emit_topology(&r.deployment);
    let back = parse_topology(&text).expect("document must parse");
    assert_deployments_equal(&r.deployment, &back);
}

#[test]
fn round_trip_preserves_mount_mechanism() {
    let mut r = Runner::new("solo");
    let z = r.node("violin", "helios-2.5", 1, 1024);
    r.mount_linux("/src", "/dst", z).unwrap();
    let back = parse_topology(&emit_topology(&r.deployment)).unwrap();
    assert!(back.nodes[0].mounts[0].mechanism == GuestMountMechanism::Mount);
}

#[test]
fn malformed_documents_are_rejected() {
    assert!(parse_topology("").is_none());
    assert!(parse_topology("not-a-topology\nx\n0\n0\n0\nend").is_none());
    assert!(parse_topology("falcon-topology\nduo\n1\nend").is_none());
    let r = Runner::new("solo");
    let text = emit_topology(&r.deployment);
    let mut truncated = text.clone();
    truncated.truncate(text.len() - 4);
    assert!(parse_topology(&truncated).is_none());
    let mut padded = text.clone();
    padded.push_str("\nextra");
    assert!(parse_topology(&padded).is_none());
}

#[test]
fn node_lookup_in_parsed_topology() {
    let mut r = Runner::new("duo");
    let _violin = r.node("violin", "helios-2.5", 1, 1024);
    let _piano = r.node("piano", "helios-2.5", 1, 1024);
    let back = parse_topology(&emit_topology(&r.deployment)).unwrap();
    assert_eq!(back.find_node_index("piano"), Some(1));
    assert_eq!(back.find_node_index("cello"), None);
}
