use aws_tui::instance_info::{parse_instances, format_instance_human, format_json_pretty, info_popup_from_answer, info_popup_error};
use aws_tui::instances::{InstancesState, InstanceFocus, InstancesRequest, InfoTab};
use aws_tui::containers::{ContainersState, ContainersFocus, ContainersSubTab, FetchRequest, FetchResult, EcsCluster};
use aws_tui::cli_output::{chunks, names_from};
use aws_tui::json::parse_json;

const LISTING: &str = "[{\"InstanceId\":\"i-1\",\"Name\":\"web-a\",\"State\":\"running\",\"PrivateIp\":\"10.0.0.1\",\"Type\":\"t3.micro\",\"Platform\":\"Windows\"},{\"InstanceId\":\"i-2\",\"Name\":null},{\"InstanceId\":\"i-3\",\"Name\":\"db\",\"PrivateIp\":\"10.0.0.9\"}]";

#[test]
fn instance_listings_are_read() {
    let v = parse_instances(LISTING);
    assert_eq!(v.len(), 3);
    assert_eq!(v[0].instance_id, "i-1");
    assert_eq!(v[0].platform, "windows");
    assert_eq!(v[1].name, "(no name)");
    assert_eq!(v[1].private_ip, "-");
    assert_eq!(v[1].platform, "linux");
    assert!(parse_instances("{}").is_empty());
    assert!(parse_instances("nope").is_empty());
}

fn listed() -> InstancesState {
    let mut s = InstancesState::new();
    s.profiles = vec!["dev".to_string(), "prod".to_string()];
    s.on_instances(parse_instances(LISTING));
    s
}

#[test]
fn instance_search_and_navigation() {
    let mut s = listed();
    s.search_query = "10.0.0.".to_string();
    s.update_instance_search();
    assert_eq!(s.filtered_instances, vec![0, 2]);
    s.next_instance();
    assert_eq!(s.selected_instance, 2);
    s.next_instance();
    assert_eq!(s.selected_instance, 0);
    s.prev_instance();
    assert_eq!(s.selected_instance, 2);
    s.push_search_char('9');
    assert_eq!(s.filtered_instances, vec![2]);
    for _ in 0..8 {
        s.pop_search_char();
    }
    assert_eq!(s.search_query, "");
    assert!(s.filtered_instances.is_empty());
}

#[test]
fn connecting_reuses_an_open_session() {
    let mut s = listed();
    s.selected_instance = 2;
    match s.connect_ssm() {
        Some(InstancesRequest::StartSession { instance_id, instance_name, profile, region }) => {
            assert_eq!(instance_id, "i-3");
            assert_eq!(instance_name, "db");
            assert_eq!(profile, "dev");
            assert_eq!(region, "us-west-2");
        },
        _ => panic!("expected a new session"),
    }
    s.record_connected("i-3".to_string(), "db".to_string(), 30, 100);
    s.record_connected("i-1".to_string(), "web-a".to_string(), 30, 100);
    assert_eq!(s.active_session_idx, 1);
    assert!(s.connect_ssm().is_none());
    assert_eq!(s.active_session_idx, 0);
    assert_eq!(s.input_session(), Some(0));
    s.on_pty_output(0, true);
    assert_eq!(s.input_session(), None);
    assert_eq!(s.disconnect_ssm(), Some(0));
    assert_eq!(s.ssm_sessions.len(), 1);
    assert_eq!(s.ssm_sessions[0].instance_id, "i-1");
    assert!(s.resize_pty(40, 120));
    assert!(!s.resize_pty(40, 120));
}

#[test]
fn focus_regions_and_profiles_cycle() {
    let mut s = listed();
    assert!(s.focus == InstanceFocus::InstanceList);
    s.cycle_focus();
    assert!(s.focus == InstanceFocus::SsmTerminal);
    s.cycle_focus();
    assert!(s.focus == InstanceFocus::RegionList);
    let r = s.region_idx;
    s.next_region();
    s.prev_region();
    assert_eq!(s.region_idx, r);
    s.prev_profile();
    assert_eq!(s.active_profile_idx, 1);
    s.next_profile();
    assert_eq!(s.active_profile_idx, 0);
}

const FULL_INSTANCE: &str = "{\"Reservations\":[{\"Instances\":[{\"InstanceId\":\"i-1\",\"InstanceType\":\"t3.micro\",\"Architecture\":\"x86_64\",\"ImageId\":\"ami-1\",\"State\":{\"Name\":\"running\"},\"LaunchTime\":\"2024-01-01T00:00:00Z\",\"PrivateIpAddress\":\"10.0.0.1\",\"PrivateDnsName\":\"ip-10-0-0-1\",\"VpcId\":\"vpc-1\",\"SubnetId\":\"subnet-1\",\"Placement\":{\"AvailabilityZone\":\"eu-west-1a\"},\"IamInstanceProfile\":{\"Arn\":\"arn:x\"},\"CpuOptions\":{\"CoreCount\":2,\"ThreadsPerCore\":2},\"Monitoring\":{\"State\":\"disabled\"},\"Tags\":[{\"Key\":\"Name\",\"Value\":\"web\"}]}]}]}";

#[test]
fn the_information_popup_searches_its_lines() {
    let json = FULL_INSTANCE;
    let mut p = info_popup_from_answer(json).unwrap();
    assert!(!p.loading);
    assert!(p.tab == InfoTab::Human);
    assert!(!p.human_lines.is_empty());
    assert!(!p.json_lines.is_empty());
    p.push_search_char('W');
    p.push_search_char('E');
    p.push_search_char('B');
    assert!(!p.search_matches.is_empty());
    let first = p.search_matches[0];
    assert_eq!(p.scroll as usize, first);
    p.switch_tab();
    assert!(p.tab == InfoTab::Json);
    p.clear_search();
    assert!(p.search_matches.is_empty());
    p.scroll_down(1000);
    assert_eq!(p.scroll as usize, p.json_lines.len() - 1);
    p.scroll_up(2000);
    assert_eq!(p.scroll, 0);
    assert!(p.human_lines.contains(&"  Instance ID      i-1".to_string()));
    let e = info_popup_error("boom");
    assert!(!e.loading);
}

#[test]
fn instance_descriptions_in_readable_form() {
    assert_eq!(format_instance_human("{\"Reservations\":[]}"), Some(vec!["No instance data found.".to_string()]));
    let parse_error = format_instance_human("not json").unwrap();
    assert_eq!(parse_error.len(), 1);
    assert!(parse_error[0].starts_with("Parse error: "));
    assert!(format_instance_human("{\"Reservations\":[{\"Instances\":[{\"InstanceId\":\"i-1\"}]}]}").is_none());
    let full = format_instance_human(FULL_INSTANCE).unwrap();
    assert_eq!(full[0], "── Identity ─────────────────────────────────────────");
    assert_eq!(full[1], "  Instance ID      i-1");
    assert_eq!(full[4], "  Platform         Linux");
    let pretty = format_json_pretty("{\"a\":1}");
    assert_eq!(pretty, vec!["{".to_string(), "  \"a\": 1".to_string(), "}".to_string()]);
}

#[test]
fn the_containers_tab_fetches_and_fills_its_tree() {
    let mut c = ContainersState::new();
    assert!(c.fetch_clusters().is_none());
    c.profiles = vec!["dev".to_string()];
    match c.fetch_clusters() {
        Some(FetchRequest::EcsClusters { profile, region }) => {
            assert_eq!(profile, "dev");
            assert_eq!(region, "us-west-2");
        },
        _ => panic!("expected a cluster listing"),
    }
    assert!(c.loading_ecs_clusters);
    c.tick(vec![FetchResult::EcsClusters(vec![
        EcsCluster { name: "prod".to_string(), status: "ACTIVE".to_string(), active_services: 2, running_tasks: 3, pending_tasks: 0 },
        EcsCluster { name: "dev".to_string(), status: "ACTIVE".to_string(), active_services: 1, running_tasks: 1, pending_tasks: 0 },
    ])]);
    assert!(!c.loading_ecs_clusters);
    assert_eq!(c.ecs_tree.len(), 2);
    assert_eq!(c.ecs_tree[0].name, "prod");
    c.focus = ContainersFocus::ClusterList;
    match c.ecs_toggle_selected() {
        Some(FetchRequest::EcsServices { cluster, .. }) => assert_eq!(cluster, "prod"),
        _ => panic!("expected a service listing"),
    }
    assert!(c.ecs_tree[0].loading);
    c.next_cluster();
    assert_eq!(c.selected_ecs_tree, 1);
    c.prev_cluster();
    assert_eq!(c.selected_ecs_tree, 0);
    c.switch_sub_tab();
    assert!(c.sub_tab == ContainersSubTab::Eks);
    match c.fetch_clusters() {
        Some(FetchRequest::EksClusters { .. }) => {},
        _ => panic!("expected an EKS listing"),
    }
    c.tick(vec![FetchResult::Error("denied".to_string())]);
    assert_eq!(c.last_error.as_deref(), Some("denied"));
}

#[test]
fn cli_output_helpers() {
    let j = match parse_json("{\"clusterArns\":[\"a\",\"b\",3]}") {
        Ok(j) => j,
        Err(_) => panic!("expected JSON"),
    };
    assert_eq!(names_from(&j, "clusterArns"), vec!["a".to_string(), "b".to_string()]);
    let items: Vec<String> = (0..5).map(|i| i.to_string()).collect();
    let c = chunks(&items, 2);
    assert_eq!(c.len(), 3);
    assert_eq!(c[2], vec!["4".to_string()]);
}
