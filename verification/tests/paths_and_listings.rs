use aws_tui::containers::{ContainersState, ContainersFocus, EcsCluster, EcsService, FetchResult};
use aws_tui::gui::commands::{EcsListing, ListingRun, ListingStep};
use aws_tui::gui::parser::{alias_path_candidates, resolve_path};
use aws_tui::json::parse_json;
use aws_tui::parser::{alias_file_candidates, choose_alias_file};
use aws_tui::screen::{ecs_counts, ecs_marker};
use aws_tui::session::parse_iso8601_to_unix;
use aws_tui::terminal::Completer;
use aws_tui::text::join_path;

fn s(x: &str) -> String {
    x.to_string()
}

#[test]
fn paths_are_joined_below_directories() {
    assert_eq!(join_path("/home/u", ".zsh_aliases"), "/home/u/.zsh_aliases");
    assert_eq!(join_path("/home/u/", ".zsh_aliases"), "/home/u/.zsh_aliases");
    assert_eq!(join_path("", ".zsh_aliases"), ".zsh_aliases");
}

#[test]
fn the_terminal_app_picks_its_alias_file() {
    let c = alias_file_candidates("/h");
    assert_eq!(
        c,
        vec![s("/h/.zsh_aliases"), s("/h/.profile.d/aws.plugin.zsh"), s("/h/.aws_aliases"), s("/h/.bash_aliases"), s("sample_aliases")]
    );
    let none = vec![false; 5];
    assert_eq!(choose_alias_file(Some(s("a.sh")), Some(s("env.sh")), "/h", &none), "a.sh");
    assert_eq!(choose_alias_file(None, Some(s("env.sh")), "/h", &none), "env.sh");
    assert_eq!(choose_alias_file(None, None, "/h", &vec![false, false, true, true, true]), "/h/.aws_aliases");
    assert_eq!(choose_alias_file(None, None, "/h", &vec![false, false, false, false, true]), "sample_aliases");
    assert_eq!(choose_alias_file(None, None, "/h", &none), "/h/.zsh_aliases");
}

#[test]
fn the_desktop_app_resolves_its_alias_file() {
    let c = alias_path_candidates(Some(s("x")), None, Some(s("/h")));
    assert_eq!(
        c,
        vec![s("x"), s("/h/.zsh_aliases"), s("/h/.bash_aliases"), s("/h/.aliases"), s("sample_aliases"), s("../sample_aliases"), s("../../sample_aliases")]
    );
    assert_eq!(resolve_path(Some(s("x")), None, Some(s("/h")), &vec![false, false, true]), Some(s("/h/.bash_aliases")));
    assert_eq!(resolve_path(Some(s("x")), Some(s("e")), None, &vec![false, true]), Some(s("e")));
    assert_eq!(resolve_path(None, None, None, &vec![false, false, true]), Some(s("../../sample_aliases")));
    assert_eq!(resolve_path(None, None, None, &vec![]), None);
}

fn invoked(step: ListingStep) -> Vec<String> {
    match step {
        ListingStep::Invoke(v) => v,
        ListingStep::Done => panic!("expected a call"),
    }
}

#[test]
fn listings_read_every_page_then_describe_in_batches() {
    let mut run = ListingRun::new(EcsListing::Services { cluster: s("prod") });
    assert_eq!(invoked(run.next_step()), vec![s("ecs"), s("list-services"), s("--cluster"), s("prod"), s("--max-results"), s("100")]);
    let names: Vec<String> = (0..12).map(|i| format!("\"svc{}\"", i)).collect();
    let page1 = parse_json(&format!("{{\"serviceArns\":[{}],\"nextToken\":\"t1\"}}", names[..7].join(","))).unwrap();
    run.on_list_page(&page1);
    assert!(!run.listed);
    let args = invoked(run.next_step());
    assert_eq!(&args[6..], &[s("--next-token"), s("t1")]);
    let page2 = parse_json(&format!("{{\"serviceArns\":[{}]}}", names[7..].join(","))).unwrap();
    run.on_list_page(&page2);
    assert!(run.listed);
    assert_eq!(run.arns.len(), 12);
    let first = invoked(run.next_step());
    assert_eq!(&first[..5], &[s("ecs"), s("describe-services"), s("--cluster"), s("prod"), s("--services")]);
    assert_eq!(first.len(), 15);
    assert_eq!(first[5], "svc0");
    run.on_described();
    let second = invoked(run.next_step());
    assert_eq!(&second[5..], &[s("svc10"), s("svc11")]);
    run.on_described();
    assert!(matches!(run.next_step(), ListingStep::Done));
    run.on_described();
    assert_eq!(run.described, 2);

    let mut empty = ListingRun::new(EcsListing::Clusters);
    empty.on_list_page(&parse_json("{\"clusterArns\":[]}").unwrap());
    assert!(matches!(empty.next_step(), ListingStep::Done));
    let tasks = ListingRun::new(EcsListing::Tasks { cluster: s("c"), service: Some(s("api")) });
    assert_eq!(
        invoked(tasks.next_step()),
        vec![s("ecs"), s("list-tasks"), s("--cluster"), s("c"), s("--max-results"), s("100"), s("--service-name"), s("api")]
    );
}

#[test]
fn ecs_rows_show_markers_and_counts() {
    let mut c = ContainersState::new();
    c.profiles = vec![s("dev")];
    c.fetch_clusters();
    c.tick(vec![FetchResult::EcsClusters(vec![EcsCluster {
        name: s("prod"),
        status: s("ACTIVE"),
        active_services: 2,
        running_tasks: 3,
        pending_tasks: 1,
    }])]);
    assert_eq!(ecs_marker(&c.ecs_tree[0]), "▸ ");
    assert_eq!(ecs_counts(&c.ecs_tree[0]), "  2 svc  3 run  1 pend");
    c.focus = ContainersFocus::ClusterList;
    c.ecs_toggle_selected();
    assert_eq!(ecs_marker(&c.ecs_tree[0]), "… ");
    c.tick(vec![FetchResult::EcsServices(
        s("prod"),
        vec![EcsService { name: s("api"), status: s("ACTIVE"), desired: 2, running: 1, task_definition: s("api:3") }],
    )]);
    assert_eq!(ecs_marker(&c.ecs_tree[0]), "▾ ");
    assert_eq!(ecs_marker(&c.ecs_tree[1]), "  ▸ ");
    assert_eq!(ecs_counts(&c.ecs_tree[1]), "  1/2  api:3");
}

#[test]
fn utc_designators_read_alike() {
    let base = "2024-03-01T12:30:15";
    let v = parse_iso8601_to_unix(base);
    assert_eq!(v, Some(1709296215));
    for sfx in ["Z", "UTC", "+00:00", "+0000"] {
        assert_eq!(parse_iso8601_to_unix(&format!("{}{}", base, sfx)), v);
    }
    assert_eq!(parse_iso8601_to_unix("1969-12-31T23:59:59Z"), None);
}

#[test]
fn a_keystroke_restarts_the_pause() {
    let mut c = Completer::new();
    c.notify_keystroke(1000);
    assert!(!c.should_query("aws s", 1149));
    assert!(c.should_query("aws s", 1150));
    c.notify_keystroke(1100);
    assert!(!c.should_query("aws s", 1200));
    assert!(c.should_query("aws s", 1250));
}
