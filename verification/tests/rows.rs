use helm_list_charts::index::ChartVersion;
use helm_list_charts::ranking::sort_newest_first;
use helm_list_charts::rows::{format_chart_versions, format_row, format_rows, FormattedRow};

fn record(version: &str) -> ChartVersion {
    ChartVersion {
        version: version.to_string(),
        description: None,
        app_version: None,
        created: None,
        kube_version: None,
        chart_type: None,
    }
}

fn described(version: &str, description: &str) -> ChartVersion {
    ChartVersion { description: Some(description.to_string()), ..record(version) }
}

#[test]
fn test_format_chart_versions_full() {
    let chart_name = "test-chart";
    let versions = vec![
        ChartVersion {
            version: "1.0.0".to_string(),
            description: Some("Initial release".to_string()),
            app_version: Some("1.0".to_string()),
            created: Some("2025-02-13T12:42:23.967760696Z".to_string()),
            kube_version: Some(">= 1.19.0-0".to_string()),
            chart_type: Some("application".to_string()),
        },
        ChartVersion {
            version: "2.0.0".to_string(),
            description: Some("Second release with more features".to_string()),
            app_version: Some("2.0".to_string()),
            created: None,
            kube_version: None,
            chart_type: None,
        },
    ];

    let lines = format_chart_versions(chart_name, &versions);
    assert_eq!(lines.len(), 2);
    // Ensure that the newest version is first.
    assert!(lines[0].contains("2.0.0"));
    // Check for "<unspecified>" in missing fields.
    assert!(lines[0].contains("<unspecified>"));
}

#[test]
fn a_line_is_the_seven_fields_parted_by_tabs() {
    let versions = vec![ChartVersion {
        version: "2.0.0".to_string(),
        description: Some("Second release with more features".to_string()),
        app_version: Some("2.0".to_string()),
        created: None,
        kube_version: None,
        chart_type: None,
    }];
    let lines = format_chart_versions("test-chart", &versions);
    assert_eq!(
        lines,
        vec![
            "test-chart\t<unspecified>\t2.0.0\tSecond release with more features\t2.0\t<unspecified>\t<unspecified>"
                .to_string()
        ]
    );
}

#[test]
fn a_record_without_created_kube_version_and_type_shows_three_placeholders() {
    let versions = ChartVersion {
        version: "2.0.0".to_string(),
        description: Some("Second release".to_string()),
        app_version: Some("2.0".to_string()),
        created: None,
        kube_version: None,
        chart_type: None,
    };
    let row = format_row("test-chart", &versions);
    assert_eq!(
        row,
        FormattedRow {
            chart: "test-chart".to_string(),
            chart_type: "<unspecified>".to_string(),
            version: "2.0.0".to_string(),
            description: "Second release".to_string(),
            app_version: "2.0".to_string(),
            created: "<unspecified>".to_string(),
            kube_version: "<unspecified>".to_string(),
        }
    );
    let line = row.to_line();
    let fields: Vec<&str> = line.split('\t').collect();
    assert_eq!(fields.len(), 7);
    let placeholders: Vec<usize> =
        (0..7).filter(|&column| fields[column] == "<unspecified>").collect();
    assert_eq!(placeholders, vec![1, 5, 6]);
}

#[test]
fn a_bare_record_shows_the_placeholder_in_every_optional_field() {
    let row = format_row("c", &record("0.1.0"));
    assert_eq!(row.description, "<unspecified>");
    assert_eq!(row.app_version, "<unspecified>");
    assert_eq!(
        row.to_line(),
        "c\t<unspecified>\t0.1.0\t<unspecified>\t<unspecified>\t<unspecified>\t<unspecified>"
    );
    assert_eq!(
        format_chart_versions("c", &[record("1.0.0")]),
        vec![
            "c\t<unspecified>\t1.0.0\t<unspecified>\t<unspecified>\t<unspecified>\t<unspecified>"
                .to_string()
        ]
    );
}

#[test]
fn an_empty_description_is_shown_as_it_is() {
    let row = format_row("c", &described("0.1.0", ""));
    assert_eq!(row.description, "");
    assert_eq!(
        row.to_line(),
        "c\t<unspecified>\t0.1.0\t\t<unspecified>\t<unspecified>\t<unspecified>"
    );
}

#[test]
fn a_full_record_shows_its_fields() {
    let full = ChartVersion {
        version: "1.0.0".to_string(),
        description: Some("Initial release".to_string()),
        app_version: Some("1.0".to_string()),
        created: Some("not a date".to_string()),
        kube_version: Some(">= 1.19.0-0".to_string()),
        chart_type: Some("application".to_string()),
    };
    assert_eq!(
        format_row("test-chart", &full).to_line(),
        "test-chart\tapplication\t1.0.0\tInitial release\t1.0\tnot a date\t>= 1.19.0-0"
    );
}

#[test]
fn a_long_description_is_shortened_to_fifty_characters() {
    let long = "A chart that deploys a thing and then another thing on top of it";
    let row = format_row("c", &described("1.0.0", long));
    assert_eq!(row.description, "A chart that deploys a thing and then another...");
    let exact = "x".repeat(50);
    assert_eq!(format_row("c", &described("1.0.0", &exact)).description, exact);
    let over = "x".repeat(51);
    assert_eq!(
        format_row("c", &described("1.0.0", &over)).description,
        format!("{}...", "x".repeat(50))
    );
}

#[test]
fn rows_come_newest_first() {
    let versions = vec![record("1.0.0"), record("2.0.0")];
    let lines = format_chart_versions("test-chart", &versions);
    assert_eq!(lines.len(), 2);
    assert!(lines[0].contains("\t2.0.0\t"));
    assert!(lines[1].contains("\t1.0.0\t"));
}

#[test]
fn sorting_goes_by_precedence_not_by_text() {
    let versions =
        vec![record("1.5.0"), record("1.19.0"), record("1.19.0-rc.1"), record("0.9.9"), record("10.0.0")];
    let references: Vec<&ChartVersion> = versions.iter().collect();
    let sorted: Vec<&str> =
        sort_newest_first(&references).iter().map(|record| record.version.as_str()).collect();
    assert_eq!(sorted, vec!["10.0.0", "1.19.0", "1.19.0-rc.1", "1.5.0", "0.9.9"]);
}

#[test]
fn semantic_versions_come_out_in_descending_precedence() {
    let texts = [
        "1.0.0", "1.0.0-alpha", "1.0.0-alpha.1", "1.0.0-alpha.beta", "1.0.0-beta", "1.0.0-beta.2",
        "1.0.0-beta.11", "1.0.0-rc.1", "0.9.12", "0.10.0", "10.0.0", "2.1.0", "2.0.9", "1.0.0",
        "1.0.0+build.5", "3.0.0-0", "0.0.1",
    ];
    let versions: Vec<ChartVersion> = texts.iter().map(|text| record(text)).collect();
    let lines = format_chart_versions("c", &versions);
    assert_eq!(lines.len(), versions.len());
    let shown: Vec<&str> = lines.iter().map(|line| line.split('\t').nth(2).unwrap()).collect();
    for upper in 0..shown.len() {
        for lower in upper + 1..shown.len() {
            let above = semver::Version::parse(shown[upper]).unwrap();
            let below = semver::Version::parse(shown[lower]).unwrap();
            assert!(above >= below);
        }
    }
    let mut expected: Vec<&str> = texts.to_vec();
    let mut got = shown.clone();
    expected.sort();
    got.sort();
    assert_eq!(got, expected);
}

#[test]
fn sorting_strings_that_are_no_versions_goes_by_text_greater_first() {
    let versions = vec![record("alpha"), record("gamma"), record("beta"), record("10"), record("9")];
    let references: Vec<&ChartVersion> = versions.iter().collect();
    let sorted: Vec<&str> =
        sort_newest_first(&references).iter().map(|record| record.version.as_str()).collect();
    assert_eq!(sorted, vec!["gamma", "beta", "alpha", "9", "10"]);
}

#[test]
fn sorting_keeps_the_order_of_records_that_rank_alike() {
    let versions = vec![
        described("1.0.0", "first"),
        described("2.0.0", "newer"),
        described("1.0.0", "second"),
        described("1.0.0", "third"),
    ];
    let references: Vec<&ChartVersion> = versions.iter().collect();
    let sorted: Vec<&str> = sort_newest_first(&references)
        .iter()
        .map(|record| record.description.as_deref().unwrap_or(""))
        .collect();
    assert_eq!(sorted, vec!["newer", "first", "second", "third"]);
}

#[test]
fn sorting_nothing_gives_nothing() {
    let references: Vec<&ChartVersion> = Vec::new();
    assert!(sort_newest_first(&references).is_empty());
    assert!(format_rows("c", &references).is_empty());
    assert!(format_chart_versions("c", &[]).is_empty());
}

#[test]
fn format_rows_gives_a_row_for_each_record() {
    let versions = vec![record("0.1.0"), record("0.3.0"), record("0.2.0")];
    let references: Vec<&ChartVersion> = versions.iter().collect();
    let rows = format_rows("c", &references);
    let shown: Vec<&str> = rows.iter().map(|row| row.version.as_str()).collect();
    assert_eq!(shown, vec!["0.3.0", "0.2.0", "0.1.0"]);
    assert!(rows.iter().all(|row| row.chart == "c"));
}
