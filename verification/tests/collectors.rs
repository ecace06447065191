use vps_monitor::collectors::docker::{
    container_from_summary, containers_from_summaries, port_label_exec, validate_id, ContainerSummary, PortKind,
    PortSummary,
};
use vps_monitor::collectors::pm2::{find_by_name, jlist_is_empty, uptime_ms};
use vps_monitor::collectors::system::{keep_mount, rank_by_mem, traffic_totals, SortBy};

#[test]
fn container_ids() {
    assert!(validate_id("3f2a9c1b"));
    assert!(validate_id("my_app-1.web"));
    assert!(!validate_id(""));
    assert!(!validate_id("a/b"));
    assert!(!validate_id("a b"));
    assert!(!validate_id("--rm;x"));
    assert!(!validate_id("ü"));
    assert!(validate_id(&"a".repeat(256)));
    assert!(!validate_id(&"a".repeat(257)));
}

#[test]
fn port_labels() {
    let p = PortSummary { private_port: 80, public_port: Some(8080), typ: Some(PortKind::Tcp) };
    assert_eq!(port_label_exec(&p), Some("8080->80/tcp".to_string()));
    let p = PortSummary { private_port: 53, public_port: Some(53), typ: Some(PortKind::Udp) };
    assert_eq!(port_label_exec(&p), Some("53->53/udp".to_string()));
    let p = PortSummary { private_port: 0, public_port: Some(65535), typ: None };
    assert_eq!(port_label_exec(&p), Some("65535->0/".to_string()));
    let p = PortSummary { private_port: 1, public_port: Some(2), typ: Some(PortKind::Empty) };
    assert_eq!(port_label_exec(&p), Some("2->1/empty".to_string()));
    let p = PortSummary { private_port: 9, public_port: Some(10), typ: Some(PortKind::Sctp) };
    assert_eq!(port_label_exec(&p), Some("10->9/sctp".to_string()));
    let p = PortSummary { private_port: 80, public_port: None, typ: Some(PortKind::Tcp) };
    assert_eq!(port_label_exec(&p), None);
}

#[test]
fn container_mapping() {
    let c = ContainerSummary {
        id: Some("abc123".into()),
        names: Some(vec!["/web".into(), "//twice".into(), "plain".into()]),
        image: Some("nginx:latest".into()),
        state: Some("running".into()),
        status: None,
        created: None,
        ports: Some(vec![
            PortSummary { private_port: 80, public_port: None, typ: Some(PortKind::Tcp) },
            PortSummary { private_port: 443, public_port: Some(8443), typ: Some(PortKind::Tcp) },
        ]),
    };
    let d = container_from_summary(&c);
    assert_eq!(d.id, "abc123");
    assert_eq!(d.names, vec!["web".to_string(), "twice".to_string(), "plain".to_string()]);
    assert_eq!(d.image, "nginx:latest");
    assert_eq!(d.state, "running");
    assert_eq!(d.status, "");
    assert_eq!(d.created, 0);
    assert_eq!(d.ports, vec!["8443->443/tcp".to_string()]);
    let empty = ContainerSummary {
        id: None,
        names: None,
        image: None,
        state: None,
        status: Some("Up 2 hours".into()),
        created: Some(1_700_000_000),
        ports: None,
    };
    let all = containers_from_summaries(&vec![c, empty]);
    assert_eq!(all.len(), 2);
    assert_eq!(all[1].id, "");
    assert!(all[1].names.is_empty());
    assert_eq!(all[1].status, "Up 2 hours");
    assert_eq!(all[1].created, 1_700_000_000);
    assert!(all[1].ports.is_empty());
}

#[test]
fn sort_keys() {
    assert_eq!(SortBy::parse("mem"), SortBy::Mem);
    assert_eq!(SortBy::parse("memory"), SortBy::Mem);
    assert_eq!(SortBy::parse("ram"), SortBy::Mem);
    assert_eq!(SortBy::parse("cpu"), SortBy::Cpu);
    assert_eq!(SortBy::parse("MEM"), SortBy::Cpu);
    assert_eq!(SortBy::parse(""), SortBy::Cpu);
}

#[test]
fn mounts_listed() {
    assert!(keep_mount("/"));
    assert!(keep_mount("/home"));
    assert!(keep_mount("/snap"));
    assert!(!keep_mount("/snap/core/123"));
    assert!(!keep_mount("/run/user/1000"));
    assert!(!keep_mount("/dev"));
    assert!(!keep_mount("/devices"));
    assert!(keep_mount("/boot/efi"));
}

#[test]
fn traffic_sums() {
    assert_eq!(traffic_totals(&vec![]), Some((0, 0)));
    assert_eq!(traffic_totals(&vec![(1, 2), (10, 20), (100, 200)]), Some((111, 222)));
    assert_eq!(traffic_totals(&vec![(u64::MAX, 0), (1, 0)]), None);
    assert_eq!(traffic_totals(&vec![(0, u64::MAX), (0, 1)]), None);
    assert_eq!(traffic_totals(&vec![(u64::MAX - 1, 5), (1, 5)]), Some((u64::MAX, 10)));
}

#[test]
fn top_by_memory_is_a_stable_descending_prefix() {
    let mems = vec![5u64, 9, 5, 1, 9, 7];
    assert_eq!(rank_by_mem(&mems, 3), vec![1, 4, 5]);
    assert_eq!(rank_by_mem(&mems, 100), vec![1, 4, 5, 0, 2, 3]);
    assert_eq!(rank_by_mem(&mems, 0), Vec::<usize>::new());
    assert_eq!(rank_by_mem(&vec![], 5), Vec::<usize>::new());
    // the same as a stable sort by descending memory, then truncation
    let mut idx: Vec<usize> = (0..mems.len()).collect();
    idx.sort_by(|a, b| mems[*b].cmp(&mems[*a]));
    idx.truncate(4);
    assert_eq!(rank_by_mem(&mems, 4), idx);
}

#[test]
fn pm2_helpers() {
    assert!(jlist_is_empty(""));
    assert!(jlist_is_empty("  \n"));
    assert!(jlist_is_empty(" [] \n"));
    assert!(!jlist_is_empty("[{}]"));
    assert!(!jlist_is_empty("[ ]"));
    assert_eq!(uptime_ms(5000, Some(1000)), 4000);
    assert_eq!(uptime_ms(5000, Some(9000)), 0);
    assert_eq!(uptime_ms(5000, None), 0);
    let names = vec!["api".to_string(), "worker".to_string(), "api".to_string()];
    assert_eq!(find_by_name(&names, "api"), Some(0));
    assert_eq!(find_by_name(&names, "worker"), Some(1));
    assert_eq!(find_by_name(&names, "web"), None);
}
