use scoutty::output::{
    colored_status, format_human, format_probe_list, json_groups, resolve_color, ColorMode,
};
use scoutty::pager::{content_exceeds_rows, count_lines, pager_candidates, Pager, PagerMode};
use scoutty::probe::{all_probes, Category, ProbeOutput, ProbeResult, ProbeStatus};

fn result(name: &str, category: Category, status: ProbeStatus, value: Option<&str>) -> ProbeResult {
    ProbeResult {
        name: name.to_string(),
        label: None,
        category,
        status,
        value: value.map(|v| v.to_string()),
        raw_query: None,
    }
}

#[test]
fn human_report_exact() {
    let mut r3 = result("kitty-keyboard", Category::Keyboard, ProbeStatus::Unknown, None);
    r3.label = Some("kitty keyboard".to_string());
    r3.raw_query = Some("1b5b3f75".to_string());
    let output = ProbeOutput {
        results: vec![
            result("da2", Category::Identity, ProbeStatus::Supported, Some("VT220")),
            result("da3", Category::Identity, ProbeStatus::Unsupported, Some("none")),
            r3,
        ],
        raw_response: Some("1b5b63".to_string()),
    };
    let text = format_human(&output, true, false);
    let expected = format!(
        "\nIDENTITY\n  {:<28} VT220\n  {:<28} unsupported none\n\nKEYBOARD\n  {:<28} unknown\n    query:    1b5b3f75\n\nRaw response: 1b5b63\n\nVT220\n1/3 supported, 1 unsupported, 1 unknown\n",
        "da2", "da3", "kitty keyboard"
    );
    assert_eq!(text, expected);
}

#[test]
fn human_report_prefers_xtversion() {
    let output = ProbeOutput {
        results: vec![
            result("da2", Category::Identity, ProbeStatus::Supported, Some("VT220")),
            result("xtversion", Category::Identity, ProbeStatus::Supported, Some("foot(1.2)")),
        ],
        raw_response: None,
    };
    let text = format_human(&output, false, false);
    assert!(text.ends_with("\n\nfoot(1.2)\n2/2 supported, 0 unsupported, 0 unknown\n"));
}

#[test]
fn human_report_empty() {
    let output = ProbeOutput { results: vec![], raw_response: None };
    assert_eq!(format_human(&output, false, false), "\n0/0 supported, 0 unsupported, 0 unknown\n");
}

#[test]
fn human_report_colored_status() {
    let output = ProbeOutput {
        results: vec![result("da3", Category::Identity, ProbeStatus::Unknown, None)],
        raw_response: None,
    };
    let text = format_human(&output, false, true);
    assert!(text.contains(&format!("  {:<28} \x1b[2munknown\x1b[0m\n", "da3")));
}

#[test]
fn status_colors() {
    assert_eq!(colored_status(&ProbeStatus::Supported, true), "\x1b[32msupported\x1b[0m");
    assert_eq!(colored_status(&ProbeStatus::Unsupported, true), "\x1b[31munsupported\x1b[0m");
    assert_eq!(colored_status(&ProbeStatus::Unknown, false), "unknown");
}

#[test]
fn probe_list_groups_by_category() {
    let list = format_probe_list(&all_probes());
    assert!(list.starts_with("\nIDENTITY\n  da1\n"));
    assert!(list.ends_with("\n\n"));
    for p in all_probes() {
        assert!(list.contains(&format!("  {}\n", p.name)));
    }
    assert_eq!(format_probe_list(&[]), "\n");
}

#[test]
fn color_modes() {
    assert_eq!("auto".parse::<ColorMode>().unwrap(), ColorMode::Auto);
    assert_eq!("always".parse::<ColorMode>().unwrap(), ColorMode::Always);
    assert_eq!("never".parse::<ColorMode>().unwrap(), ColorMode::Never);
    assert_eq!("sometimes".parse::<ColorMode>().unwrap_err(), "unknown color mode: sometimes");
    assert!(resolve_color(ColorMode::Always, true, false, false));
    assert!(!resolve_color(ColorMode::Never, false, true, true));
    assert!(resolve_color(ColorMode::Auto, false, false, true));
    assert!(resolve_color(ColorMode::Auto, false, true, false));
    assert!(!resolve_color(ColorMode::Auto, true, true, true));
    assert!(!resolve_color(ColorMode::Auto, false, false, false));
}

#[test]
fn pager_modes() {
    assert_eq!("always".parse::<PagerMode>().unwrap(), PagerMode::Always);
    assert_eq!("x".parse::<PagerMode>().unwrap_err(), "unknown pager mode: x");
    assert!(!PagerMode::Never.may_page());
    assert!(PagerMode::Auto.may_page());
    assert!(!Pager::new(PagerMode::Never).should_page(true, true));
    assert!(Pager::new(PagerMode::Always).should_page(true, false));
    assert!(Pager::new(PagerMode::Always).should_page(false, false));
    assert!(Pager::new(PagerMode::Auto).should_page(true, true));
    assert!(!Pager::new(PagerMode::Auto).should_page(true, false));
}

#[test]
fn pager_candidate_list() {
    assert_eq!(pager_candidates(None), vec!["less -R".to_string(), "more".to_string()]);
    assert_eq!(pager_candidates(Some("")), vec!["less -R".to_string(), "more".to_string()]);
    assert_eq!(pager_candidates(Some("most")), vec!["most".to_string()]);
}

#[test]
fn line_counting() {
    assert_eq!(count_lines(""), 0);
    assert_eq!(count_lines("a"), 1);
    assert_eq!(count_lines("a\n"), 1);
    assert_eq!(count_lines("a\nb"), 2);
    assert_eq!(count_lines("\n\n"), 2);
    assert!(!content_exceeds_rows("a\nb\n", 0));
    assert!(content_exceeds_rows("a\nb\n", 3));
    assert!(!content_exceeds_rows("a\nb\n", 5));
    assert!(content_exceeds_rows("a\n", 1));
}

#[test]
fn json_groups_by_category_name() {
    let mut r = result("da2", Category::Identity, ProbeStatus::Supported, Some("VT220"));
    r.raw_query = Some("1b5b3e63".to_string());
    let output = ProbeOutput {
        results: vec![
            r,
            result("kitty-keyboard", Category::Keyboard, ProbeStatus::Unknown, None),
            result("da3", Category::Identity, ProbeStatus::Unsupported, None),
            result("true-color", Category::Colors, ProbeStatus::Supported, Some("yes")),
        ],
        raw_response: None,
    };
    let groups = json_groups(&output, false);
    let cats: Vec<Category> = groups.iter().map(|g| g.category).collect();
    assert_eq!(cats, vec![Category::Colors, Category::Identity, Category::Keyboard]);
    let names: Vec<&str> = groups[1].entries.iter().map(|e| e.name.as_str()).collect();
    assert_eq!(names, vec!["da2", "da3"]);
    assert_eq!(groups[1].entries[0].raw_query, None);
    assert_eq!(groups[1].entries[0].value.as_deref(), Some("VT220"));
    assert_eq!(groups[1].entries[1].status, ProbeStatus::Unsupported);
    let groups = json_groups(&output, true);
    assert_eq!(groups[1].entries[0].raw_query.as_deref(), Some("1b5b3e63"));
    assert!(json_groups(&ProbeOutput { results: vec![], raw_response: None }, true).is_empty());
}
