use usehid::accessibility::{
    app_pid_from_lsappinfo, attach_children, find_matching, find_ui_element, frontmost_asn, non_empty_actions,
    non_empty_text, parse_lsappinfo_pid, pid_from_osascript, role_or_unknown, should_descend,
    window_element, window_id,
};
use usehid::{Bounds, Error, UIElement};

fn node(role: &str, title: Option<&str>, children: Vec<UIElement>) -> UIElement {
    UIElement {
        role: role.to_string(),
        title: title.map(|t| t.to_string()),
        value: Some(format!("{}-value", role)),
        description: None,
        bounds: Some(Bounds { x_bits: 1.5f64.to_bits(), y_bits: 2.0f64.to_bits(), width_bits: 80.0f64.to_bits(), height_bits: 32.0f64.to_bits() }),
        children,
        actions: Some(vec!["AXPress".to_string()]),
    }
}

fn sample_tree() -> UIElement {
    node(
        "AXWindow",
        Some("Editor"),
        vec![
            node("AXGroup", None, vec![node("AXButton", Some("Submit"), vec![]), node("AXTextField", Some("Name"), vec![])]),
            node("AXButton", Some("Save as"), vec![node("AXButton", Some("Save"), vec![])]),
        ],
    )
}

fn titles(v: &[UIElement]) -> Vec<Option<String>> {
    v.iter().map(|e| e.title.clone()).collect()
}

#[test]
fn find_by_role_ignores_ascii_case_and_keeps_preorder() {
    let found = find_ui_element(&sample_tree(), Some("axbutton"), None);
    assert_eq!(titles(&found), vec![Some("Submit".to_string()), Some("Save as".to_string()), Some("Save".to_string())]);
    assert!(found.iter().all(|e| e.children.is_empty()));
    assert_eq!(found[1].value.as_deref(), Some("AXButton-value"));
    assert_eq!(found[1].actions, Some(vec!["AXPress".to_string()]));
    assert_eq!(found[1].bounds.map(|b| f64::from_bits(b.x_bits)), Some(1.5));
}

#[test]
fn find_by_title_substring() {
    let found = find_ui_element(&sample_tree(), None, Some("Save"));
    assert_eq!(titles(&found), vec![Some("Save as".to_string()), Some("Save".to_string())]);
    let found = find_ui_element(&sample_tree(), Some("AXButton"), Some("Sub"));
    assert_eq!(titles(&found), vec![Some("Submit".to_string())]);
    let found = find_ui_element(&sample_tree(), None, Some("save"));
    assert!(found.is_empty());
}

#[test]
fn find_without_criteria_returns_every_element() {
    let found = find_ui_element(&sample_tree(), None, None);
    assert_eq!(found.len(), 6);
    assert_eq!(found[0].role, "AXWindow");
    assert_eq!(found[1].role, "AXGroup");
    assert_eq!(found[5].title.as_deref(), Some("Save"));
}

#[test]
fn find_matching_appends() {
    let mut results = vec![node("Existing", None, vec![])];
    find_matching(&sample_tree(), Some("AXTextField"), None, &mut results);
    assert_eq!(results.len(), 2);
    assert_eq!(results[0].role, "Existing");
    assert_eq!(results[1].title.as_deref(), Some("Name"));
}

#[test]
fn lsappinfo_pid_parsing() {
    assert_eq!(parse_lsappinfo_pid("\"pid\"=822"), Some(822));
    assert_eq!(parse_lsappinfo_pid("  \"pid\" = 12345  \r\n"), Some(12345));
    assert_eq!(parse_lsappinfo_pid("\"name\"=\"Finder\"\n\"pid\"=77\n"), Some(77));
    assert_eq!(parse_lsappinfo_pid("\"pid\"=abc\n\"pid\"=5"), Some(5));
    assert_eq!(parse_lsappinfo_pid("\"pid\" 5"), None);
    assert_eq!(parse_lsappinfo_pid(""), None);
    assert_eq!(parse_lsappinfo_pid("pid=-3"), Some(-3));
    assert_eq!(parse_lsappinfo_pid("pid=99999999999"), None);
}

#[test]
fn app_pid_lookup() {
    assert_eq!(app_pid_from_lsappinfo("Safari", "\"pid\"=4").ok(), Some(4));
    match app_pid_from_lsappinfo("Safari", "") {
        Err(Error::AccessibilityFailed(m)) => assert_eq!(m, "App 'Safari' not found or not running"),
        other => panic!("unexpected {:?}", other),
    }
}

#[test]
fn frontmost_application() {
    assert_eq!(frontmost_asn("  ASN:0x0-0x1a01a:\n").ok(), Some("ASN:0x0-0x1a01a:".to_string()));
    match frontmost_asn(" \n") {
        Err(Error::AccessibilityFailed(m)) => assert_eq!(m, "No frontmost application found"),
        other => panic!("unexpected {:?}", other),
    }
}

#[test]
fn osascript_pid() {
    assert_eq!(pid_from_osascript("4321\n").ok(), Some(4321));
    match pid_from_osascript("oops\n") {
        Err(Error::AccessibilityFailed(m)) => {
            let e = "oops".parse::<i32>().unwrap_err();
            assert_eq!(m, format!("Failed to parse PID 'oops': {}", e));
        }
        other => panic!("unexpected {:?}", other),
    }
    match pid_from_osascript("") {
        Err(Error::AccessibilityFailed(m)) => assert_eq!(m, "Failed to parse PID '': cannot parse integer from empty string"),
        other => panic!("unexpected {:?}", other),
    }
}

#[test]
fn linux_window_lookup() {
    assert_eq!(window_id(None, " 4194311\n").ok(), Some("4194311".to_string()));
    assert_eq!(window_id(Some("Firefox"), "123\n456\n").ok(), Some("123".to_string()));
    match window_id(Some("Firefox"), "") {
        Err(Error::AccessibilityFailed(m)) => assert_eq!(m, "No window found for 'Firefox'"),
        other => panic!("unexpected {:?}", other),
    }
    match window_id(None, "  \n") {
        Err(Error::AccessibilityFailed(m)) => assert_eq!(m, "No active window found"),
        other => panic!("unexpected {:?}", other),
    }
    match window_id(Some("x"), "\n5") {
        Err(Error::AccessibilityFailed(m)) => assert_eq!(m, "No active window found"),
        other => panic!("unexpected {:?}", other),
    }
    let b = Bounds { x_bits: 0, y_bits: 0, width_bits: 10f64.to_bits(), height_bits: 20f64.to_bits() };
    let w = window_element(" Terminal \n", b);
    assert_eq!(w.role, "window");
    assert_eq!(w.title.as_deref(), Some("Terminal"));
    assert_eq!(w.bounds, Some(b));
    assert!(window_element("\n", b).title.is_none());
}

#[test]
fn tree_reader_decisions() {
    assert!(should_descend(0, None));
    assert!(should_descend(1, Some(2)));
    assert!(!should_descend(2, Some(2)));
    assert!(!should_descend(0, Some(0)));
    assert_eq!(role_or_unknown(None), "unknown");
    assert_eq!(role_or_unknown(Some("AXButton".to_string())), "AXButton");
    assert_eq!(non_empty_text(String::new()), None);
    assert_eq!(non_empty_text("x".to_string()), Some("x".to_string()));
    assert_eq!(non_empty_actions(vec![]), None);
    assert_eq!(non_empty_actions(vec!["AXPress".to_string()]), Some(vec!["AXPress".to_string()]));
}

#[test]
fn narrower_search_keeps_a_subsequence() {
    let tree = sample_tree();
    let wide = find_ui_element(&tree, Some("AXButton"), None);
    let narrow = find_ui_element(&tree, Some("AXButton"), Some("Save"));
    assert_eq!(titles(&wide), vec![Some("Submit".to_string()), Some("Save as".to_string()), Some("Save".to_string())]);
    assert_eq!(titles(&narrow), vec![Some("Save as".to_string()), Some("Save".to_string())]);
    let kept: Vec<Option<String>> =
        titles(&wide).into_iter().filter(|t| t.as_deref().map_or(false, |t| t.contains("Save"))).collect();
    assert_eq!(titles(&narrow), kept);
    let any_role = find_ui_element(&tree, None, Some("a"));
    let with_role = find_ui_element(&tree, Some("axbutton"), Some("a"));
    assert_eq!(titles(&any_role), vec![Some("Name".to_string()), Some("Save as".to_string()), Some("Save".to_string())]);
    assert_eq!(titles(&with_role), vec![Some("Save as".to_string()), Some("Save".to_string())]);
}

#[test]
fn attach_children_keeps_the_depth_limit() {
    let kids = || vec![node("AXButton", Some("Ok"), vec![]), node("AXButton", Some("Cancel"), vec![])];
    let kept = attach_children(node("AXGroup", Some("Bar"), vec![]), 1, Some(2), kids());
    assert_eq!(kept.role, "AXGroup");
    assert_eq!(kept.title.as_deref(), Some("Bar"));
    assert_eq!(titles(&kept.children), vec![Some("Ok".to_string()), Some("Cancel".to_string())]);
    let at_limit = attach_children(node("AXGroup", Some("Bar"), vec![]), 2, Some(2), kids());
    assert!(at_limit.children.is_empty());
    assert_eq!(at_limit.value.as_deref(), Some("AXGroup-value"));
    let unlimited = attach_children(node("AXGroup", None, vec![]), 40, None, kids());
    assert_eq!(unlimited.children.len(), 2);
    let zero = attach_children(node("AXWindow", None, vec![]), 0, Some(0), kids());
    assert!(zero.children.is_empty());
}

/// Reads `t` as the platform readers do: each element through
/// `attach_children`, its children read one level further down.
fn read(t: &UIElement, depth: u32, max: Option<u32>) -> UIElement {
    let children = if should_descend(depth, max) { t.children.iter().map(|c| read(c, depth + 1, max)).collect() } else { Vec::new() };
    let node = UIElement {
        role: t.role.clone(),
        title: t.title.clone(),
        value: t.value.clone(),
        description: t.description.clone(),
        bounds: t.bounds,
        children: Vec::new(),
        actions: t.actions.clone(),
    };
    attach_children(node, depth, max, children)
}

fn shape(t: &UIElement) -> String {
    let inner: Vec<String> = t.children.iter().map(shape).collect();
    format!("{}({})", t.title.clone().unwrap_or_default(), inner.join(","))
}

#[test]
fn limited_read_is_the_full_read_cut() {
    let tree = sample_tree();
    let full = read(&tree, 0, None);
    assert_eq!(shape(&full), "Editor((Submit(),Name()),Save as(Save()))");
    assert_eq!(shape(&read(&tree, 0, Some(0))), "Editor()");
    assert_eq!(shape(&read(&tree, 0, Some(1))), "Editor((),Save as())");
    assert_eq!(shape(&read(&tree, 0, Some(2))), shape(&full));
    assert_eq!(shape(&read(&full, 0, Some(1))), shape(&read(&tree, 0, Some(1))));
}
