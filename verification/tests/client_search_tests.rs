use autopilot::client::{http_get_request, response_body, PORT};
use autopilot::duplicates::duplicate_ids;
use autopilot::gui::{tab_order, AutopilotGUI, Tabs, TOP_HEADING, WINDOW_TITLE};
use autopilot::search::{reports_from_matches, search_files, FileLines, FileMatches, SearchError};

fn strings(v: &[&str]) -> Vec<String> {
    v.iter().map(|s| s.to_string()).collect()
}

#[test]
fn health_request_text() {
    assert_eq!(
        http_get_request("/health", PORT),
        "GET /health HTTP/1.1\r\nHost: localhost:7883\r\nConnection: close\r\n\r\n"
    );
    assert_eq!(
        http_get_request("/shutdown", "80"),
        format!("GET /shutdown HTTP/1.1\r\nHost: localhost:{}\r\nConnection: close\r\n\r\n", 80)
    );
}

#[test]
fn body_is_second_piece_trimmed() {
    let resp = "HTTP/1.1 200 OK\r\ncontent-type: application/json\r\n\r\n  {\"status\":\"ok\"}\n";
    assert_eq!(response_body(resp).as_deref(), Some("{\"status\":\"ok\"}"));
    let expected = resp.split("\r\n\r\n").nth(1).map(|b| b.trim().to_string());
    assert_eq!(response_body(resp), expected);
}

#[test]
fn body_stops_at_next_blank_line() {
    let resp = "head\r\n\r\n body \r\n\r\ntail";
    assert_eq!(response_body(resp).as_deref(), Some("body"));
}

#[test]
fn body_missing_without_blank_line() {
    assert_eq!(response_body("HTTP/1.1 200 OK\r\n"), None);
    assert_eq!(response_body(""), None);
}

#[test]
fn body_of_whitespace_only_is_empty() {
    assert_eq!(response_body("h\r\n\r\n \t\u{3000}\u{2009} ").as_deref(), Some(""));
    assert_eq!(response_body("h\r\n\r\n").as_deref(), Some(""));
}

#[test]
fn body_trim_agrees_with_std_on_unicode_spaces() {
    let resp = "x\r\n\r\n\u{a0}\u{85}a b\u{2028}\u{200a}";
    let expected = resp.split("\r\n\r\n").nth(1).map(|b| b.trim().to_string());
    assert_eq!(response_body(resp), expected);
    assert_eq!(response_body(resp).as_deref(), Some("a b"));
}

#[test]
fn duplicates_reported_once_in_order_of_second_sighting() {
    let ids = strings(&["a", "b", "b", "c", "a", "b", "a", "c"]);
    assert_eq!(duplicate_ids(&ids), strings(&["b", "a", "c"]));
}

#[test]
fn no_duplicates_when_ids_distinct() {
    assert!(duplicate_ids(&strings(&["x", "y", "z"])).is_empty());
    assert!(duplicate_ids(&Vec::new()).is_empty());
}

#[test]
fn search_reports_each_matching_line() {
    let files = vec![
        FileLines { path: "/j/one.jsonc".to_string(), lines: strings(&["\"id\": \"job-7\",", "x", "job-7 again"]) },
        FileLines { path: "/j/two.jsonc".to_string(), lines: strings(&["\"id\": \"job-8\""]) },
    ];
    let out = search_files("job-7", &files).unwrap();
    assert_eq!(
        out,
        strings(&[
            "This job file has this id 'job-7' : /j/one.jsonc",
            "This job file has this id 'job-7' : /j/one.jsonc",
        ])
    );
}

#[test]
fn search_reads_id_as_regex() {
    let files = vec![FileLines { path: "p".to_string(), lines: strings(&["job-9", "jobX9", "nothing"]) }];
    let out = search_files("job.9", &files).unwrap();
    assert_eq!(out.len(), 2);
    assert!(search_files("zzz", &files).unwrap().is_empty());
}

#[test]
fn search_splits_across_batches() {
    let a = vec![FileLines { path: "a".to_string(), lines: strings(&["id1", "id1"]) }];
    let b = vec![FileLines { path: "b".to_string(), lines: strings(&["id1"]) }];
    let all = vec![
        FileLines { path: "a".to_string(), lines: strings(&["id1", "id1"]) },
        FileLines { path: "b".to_string(), lines: strings(&["id1"]) },
    ];
    let mut joined = search_files("id1", &a).unwrap();
    joined.extend(search_files("id1", &b).unwrap());
    assert_eq!(joined, search_files("id1", &all).unwrap());
}

#[test]
fn invalid_pattern_is_refused() {
    let files = vec![FileLines { path: "p".to_string(), lines: strings(&["a(b"]) }];
    match search_files("a(b", &files) {
        Err(SearchError::InvalidPattern(_)) => {}
        Ok(_) => panic!("an unclosed group must not compile"),
    }
    assert!(search_files("a(b", &Vec::new()).is_err());
}

#[test]
fn gui_tabs() {
    let mut gui = AutopilotGUI::new();
    assert_eq!(gui.active_tab, Tabs::Overview);
    assert!(gui.is_selected(Tabs::Overview));
    assert_eq!(gui.central_heading().as_deref(), Some("WIP"));
    gui.on_tab_clicked(Tabs::Jobs);
    assert!(gui.is_selected(Tabs::Jobs));
    assert!(!gui.is_selected(Tabs::Overview));
    assert_eq!(gui.central_heading(), None);
    gui.on_tab_clicked(Tabs::Settings);
    assert_eq!(gui.active_tab, Tabs::Settings);
    assert_eq!(gui.central_heading(), None);
}

#[test]
fn gui_labels_and_titles() {
    let labels: Vec<String> = tab_order().iter().map(|t| t.label()).collect();
    assert_eq!(labels, strings(&["Overview", "Jobs", "Settings"]));
    assert_eq!(WINDOW_TITLE, "Autopilot-rs");
    assert_eq!(TOP_HEADING, "Autopilot");
}

#[test]
fn reports_from_given_match_results() {
    let found = vec![
        FileMatches { path: "/j/a".to_string(), matched: vec![true, false, true] },
        FileMatches { path: "/j/b".to_string(), matched: vec![false] },
        FileMatches { path: "/j/c".to_string(), matched: vec![true] },
    ];
    assert_eq!(
        reports_from_matches("job(1", &found),
        strings(&[
            "This job file has this id 'job(1' : /j/a",
            "This job file has this id 'job(1' : /j/a",
            "This job file has this id 'job(1' : /j/c",
        ])
    );
    assert!(reports_from_matches("x", &Vec::new()).is_empty());
}

#[test]
fn unclosed_group_id_is_refused() {
    let files = vec![FileLines { path: "p".to_string(), lines: strings(&["job(1"]) }];
    assert!(matches!(search_files("job(1", &files), Err(SearchError::InvalidPattern(_))));
}
