use falcon::mac::parse_mac;
use falcon::netplan::{net_destroy_plan, net_launch_plan, LinkAction};
use falcon::runner::Runner;
use falcon::workspace::{clean_plan, node_destroy_steps, should_keep_entry, DestroyStep};

fn duo() -> Runner {
    let mut r = Runner::new("duo");
    let violin = r.node("violin", "helios-2.5", 1, 1024);
    let piano = r.node("piano", "helios-2.5", 1, 1024);
    r.link(violin, piano);
    r
}

#[test]
fn duo_launch_plan_actions() {
    // Creating the duo network: for each side, clear dangling links,
    // create the simnet, create the vnic over it and tune it, then peer
    // the simnets.
    let r = duo();
    let plan = net_launch_plan(&r.deployment).unwrap();
    assert_eq!(plan.len(), 11);
    assert!(matches!(&plan[0], LinkAction::DeleteVnic { name } if name == "duo_violin_vn_vnic0"));
    assert!(matches!(&plan[1], LinkAction::DeleteSimnet { name } if name == "duo_violin_vn_sim0"));
    assert!(matches!(&plan[2], LinkAction::CreateSimnet { name } if name == "duo_violin_vn_sim0"));
    assert!(matches!(&plan[3], LinkAction::CreateVnic { name, over, mac }
        if name == "duo_violin_vn_vnic0" && over == "duo_violin_vn_sim0" && mac.is_none()));
    assert!(matches!(&plan[4], LinkAction::SetPromiscOff { name } if name == "duo_violin_vn_vnic0"));
    assert!(matches!(&plan[8], LinkAction::CreateVnic { name, over, .. }
        if name == "duo_piano_vn_vnic0" && over == "duo_piano_vn_sim0"));
    assert!(matches!(&plan[10], LinkAction::ConnectSimnets { a, b }
        if a == "duo_violin_vn_sim0" && b == "duo_piano_vn_sim0"));
}

#[test]
fn duo_destroy_plan_actions() {
    // Tearing the duo network down: the vnic then the simnet of each
    // side, nothing else.
    let r = duo();
    let plan = net_destroy_plan(&r.deployment);
    assert_eq!(plan.len(), 4);
    assert!(matches!(&plan[0], LinkAction::DeleteVnic { name } if name == "duo_violin_vn_vnic0"));
    assert!(matches!(&plan[1], LinkAction::DeleteSimnet { name } if name == "duo_violin_vn_sim0"));
    assert!(matches!(&plan[2], LinkAction::DeleteVnic { name } if name == "duo_piano_vn_vnic0"));
    assert!(matches!(&plan[3], LinkAction::DeleteSimnet { name } if name == "duo_piano_vn_sim0"));
}

#[test]
fn ext_link_plan_actions() {
    let mut r = Runner::new("edge");
    let n = r.node("gw", "helios-2.5", 1, 1024);
    r.ext_link("igb0", n);
    let plan = net_launch_plan(&r.deployment).unwrap();
    assert_eq!(plan.len(), 2);
    assert!(matches!(&plan[0], LinkAction::DeleteVnic { name } if name == "edge_gw_vn_vnic0"));
    assert!(matches!(&plan[1], LinkAction::CreateVnic { name, over, mac }
        if name == "edge_gw_vn_vnic0" && over == "igb0" && mac.is_none()));
    let dplan = net_destroy_plan(&r.deployment);
    assert_eq!(dplan.len(), 1);
    assert!(matches!(&dplan[0], LinkAction::DeleteVnic { name } if name == "edge_gw_vn_vnic0"));
}

#[test]
fn mac_parsing() {
    assert_eq!(parse_mac("a8:40:25:00:00:01").unwrap(), vec![0xa8, 0x40, 0x25, 0, 0, 1]);
    assert_eq!(parse_mac("0:1:2:3:4:5").unwrap(), vec![0, 1, 2, 3, 4, 5]);
    assert_eq!(parse_mac("A8:FF:0e:3:44:5").unwrap(), vec![0xa8, 0xff, 0x0e, 3, 0x44, 5]);
    assert!(parse_mac("").is_none());
    assert!(parse_mac("a8:40:25:00:00").is_none());
    assert!(parse_mac("a8:40:25:00:00:01:02").is_none());
    assert!(parse_mac("a8:40:25:00:00:zz").is_none());
    assert!(parse_mac("a80:40:25:00:00:01").is_none());
    assert!(parse_mac("a8:40:25:00:00:").is_none());
}

#[test]
fn bad_mac_fails_launch_plan() {
    let mut r = Runner::new("badmac");
    let a = r.node("a", "helios-2.5", 1, 512);
    let b = r.node("b", "helios-2.5", 1, 512);
    r.softnpu_link(a, b, Some("not-a-mac".to_string()), None);
    assert!(net_launch_plan(&r.deployment).is_err());
}

#[test]
fn softnpu_link_kinds() {
    let mut r = Runner::new("npu");
    let s = r.node("scrimlet", "helios-2.5", 4, 4096);
    let g = r.node("gimlet", "helios-2.5", 1, 1024);
    r.softnpu_link(s, g, None, Some("a8:40:25:00:00:01".to_string()));
    let d = &r.deployment;
    let l = &d.links[0];
    assert_eq!(d.simnet_link_name(&l.endpoints[0]), "npu_scrimlet_sn_sim0");
    assert_eq!(d.vnic_link_name(&l.endpoints[1]), "npu_gimlet_vn_vnic0");
}

#[test]
fn workspace_clean_keeps_bin() {
    // Wiping the workspace removes everything but the preserved `bin`
    // subtree with the cached binaries.
    assert!(should_keep_entry("bin"));
    assert!(!should_keep_entry("violin.pid"));
    let entries = vec![
        "topology.ron".to_string(),
        "bin".to_string(),
        "violin.pid".to_string(),
        "violin.uuid".to_string(),
        "violin.port".to_string(),
    ];
    let removed = clean_plan(&entries);
    assert_eq!(
        removed,
        vec![
            "topology.ron".to_string(),
            "violin.pid".to_string(),
            "violin.uuid".to_string(),
            "violin.port".to_string(),
        ]
    );
}

#[test]
fn destroy_after_crash_converges() {
    // The pid file is gone while the hypervisor still runs: teardown
    // warns, still plans the link teardown and the workspace wipe, and a
    // second run plans exactly the same work.
    let uuid = "9e5c27cb-86a1-4d6e-9ddc-1a8f0a0d60bc".to_string();
    let steps = node_destroy_steps(None, Some(&uuid));
    assert_eq!(steps.len(), 1);
    assert!(matches!(&steps[0], DestroyStep::Warn(_)));

    let r = duo();
    let first = net_destroy_plan(&r.deployment);
    let second = net_destroy_plan(&r.deployment);
    assert_eq!(first.len(), second.len());

    let entries = vec!["bin".to_string(), "violin.uuid".to_string()];
    let removed = clean_plan(&entries);
    assert_eq!(removed, vec!["violin.uuid".to_string()]);
}

#[test]
fn destroy_steps_with_sidecars() {
    let pid = "812\n".to_string();
    let uuid = "9e5c27cb-86a1-4d6e-9ddc-1a8f0a0d60bc".to_string();
    let steps = node_destroy_steps(Some(&pid), Some(&uuid));
    assert_eq!(steps.len(), 2);
    assert!(matches!(&steps[0], DestroyStep::KillPid(812)));
    assert!(
        matches!(&steps[1], DestroyStep::BhyvectlDestroy(u) if u == "9e5c27cb-86a1-4d6e-9ddc-1a8f0a0d60bc")
    );
    let steps = node_destroy_steps(Some(&"junk".to_string()), Some(&uuid));
    assert_eq!(steps.len(), 1);
    assert!(matches!(&steps[0], DestroyStep::Warn(_)));
    let steps = node_destroy_steps(Some(&pid), None);
    assert_eq!(steps.len(), 2);
    assert!(matches!(&steps[1], DestroyStep::Warn(_)));
}

#[test]
fn valid_mac_reaches_the_plan() {
    // A well-formed viona MAC must not fail planning: the vnic creation
    // carries exactly its bytes.
    let mut r = Runner::new("npu2");
    let s = r.node("scrimlet", "helios-2.5", 4, 4096);
    let g = r.node("gimlet", "helios-2.5", 1, 1024);
    r.softnpu_link(s, g, Some("a8:40:25:ff:00:01".to_string()), None);
    let plan = net_launch_plan(&r.deployment).unwrap();
    let created: Vec<_> = plan
        .iter()
        .filter_map(|a| match a {
            LinkAction::CreateVnic { name, mac, .. } => Some((name.clone(), mac.clone())),
            _ => None,
        })
        .collect();
    assert_eq!(created.len(), 2);
    assert_eq!(created[0].0, "npu2_scrimlet_sn_vnic0");
    assert_eq!(created[0].1, None);
    assert_eq!(created[1].0, "npu2_gimlet_vn_vnic0");
    assert_eq!(created[1].1, Some(vec![0xa8, 0x40, 0x25, 0xff, 0x00, 0x01]));
}
