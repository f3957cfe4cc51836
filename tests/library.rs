use licensinator::catalogue::{assemble_catalogue, CatalogueEntry};
use licensinator::classify::{check_current_license, classify_text, first_two_lines, local_license_file};
use licensinator::clock::{backup_file_name, current_backup_name, get_current_year, year_text, UtcTime};
use licensinator::license::{license_from_type, license_name_to_type, license_type_to_name};
use licensinator::render::fill_placeholders;
use licensinator::shell::{
    install_text, local_license_display, parse_menu_choice, parse_selection, status_tag,
    user_name_from_line, MenuChoice, Selection,
};
use licensinator::{License, LicenseType};

const MIT_TEMPLATE: &str = "MIT License\n\nCopyright (c) [year] [user]\n\nPermission is hereby granted...\n";
const BSD3_TEMPLATE: &str = "BSD 3-Clause License\n\nCopyright (c) [year], [user]\n\nRedistribution and use...\n";

fn mit() -> License {
    License::new("MIT License".to_string(), "permissive".to_string(), Some(MIT_TEMPLATE.to_string()))
}

fn bsd3() -> License {
    License::new(
        "BSD 3-Clause License".to_string(),
        "permissive, no endorsement".to_string(),
        Some(BSD3_TEMPLATE.to_string()),
    )
}

fn catalogue() -> Vec<License> {
    vec![
        License::new("The Unlicense".to_string(), "public domain".to_string(), None),
        mit(),
        bsd3(),
    ]
}

#[test]
fn fresh_install_of_mit() {
    let cat = vec![mit()];
    assert_eq!(parse_menu_choice("2\n"), Some(MenuChoice::Install));
    assert_eq!(parse_selection("1\n", cat.len()), Selection::Pick(0));
    let user = user_name_from_line("Alice\n");
    let year = get_current_year().unwrap();
    let text = install_text(&cat[0], &user, &year).unwrap();
    assert_eq!(
        text,
        format!("MIT License\n\nCopyright (c) {} Alice\n\nPermission is hereby granted...\n", year)
    );
}

#[test]
fn replace_existing_detect_first() {
    let cat = catalogue();
    let existing = fill_placeholders(MIT_TEMPLATE, "Bob", "2020");
    assert_eq!(check_current_license(Some(&existing), &cat), LicenseType::MIT);
    let installed = install_text(&cat[2], "Carol", "2024").unwrap();
    assert_eq!(
        installed,
        "BSD 3-Clause License\n\nCopyright (c) 2024, Carol\n\nRedistribution and use...\n"
    );
    assert_eq!(check_current_license(Some(&installed), &cat), LicenseType::BSD3Clause);
}

#[test]
fn unknown_local_license() {
    let cat = catalogue();
    let t = check_current_license(Some("Hello world\nsecond line"), &cat);
    assert_eq!(t, LicenseType::Unknown);
    assert_eq!(status_tag(t), "??");
    assert_eq!(local_license_display(t, &cat), "Unknown/None - Unknown/None (no file)");
}

#[test]
fn no_local_license() {
    let cat = catalogue();
    assert_eq!(local_license_file(false, false), None);
    let t = check_current_license(None, &cat);
    assert_eq!(t, LicenseType::NoLicense);
    assert_eq!(status_tag(t), "NA");
    assert_eq!(local_license_display(t, &cat), "Unknown/None - Unknown/None (no file)");
}

#[test]
fn missing_template_is_fatal() {
    let entries = vec![
        CatalogueEntry { name: "MIT License".to_string(), desc: "d".to_string(), path: Some("mit.txt".to_string()) },
        CatalogueEntry { name: "GNU GPL v3".to_string(), desc: "d".to_string(), path: Some("missing.txt".to_string()) },
    ];
    let templates = vec![Some(MIT_TEMPLATE.to_string()), None];
    let err = assemble_catalogue(&entries, &templates).err().unwrap();
    assert_eq!(err.index, 1);
    assert_eq!(err.path, "missing.txt");
}

#[test]
fn empty_name_becomes_unknown() {
    let cat = vec![mit()];
    let user = user_name_from_line("\n");
    assert_eq!(user, "Unknown");
    let text = install_text(&cat[0], &user, "2024").unwrap();
    assert_eq!(text, "MIT License\n\nCopyright (c) 2024 Unknown\n\nPermission is hereby granted...\n");
}

#[test]
fn catalogue_keeps_order_and_absent_paths() {
    let entries = vec![
        CatalogueEntry { name: "The Unlicense".to_string(), desc: "pd".to_string(), path: None },
        CatalogueEntry { name: "MIT License".to_string(), desc: "p".to_string(), path: Some("mit.txt".to_string()) },
    ];
    let templates = vec![Some("ignored".to_string()), Some(MIT_TEMPLATE.to_string())];
    let cat = assemble_catalogue(&entries, &templates).ok().unwrap();
    assert_eq!(cat.len(), 2);
    assert_eq!(cat[0].name, "The Unlicense");
    assert_eq!(cat[0].content, None);
    assert_eq!(cat[1].name, "MIT License");
    assert_eq!(cat[1].content.as_deref(), Some(MIT_TEMPLATE));
}

#[test]
fn display_line_marks_missing_file() {
    assert_eq!(mit().display(), "MIT License - permissive");
    let c = catalogue();
    assert_eq!(c[0].display(), "The Unlicense - public domain (no file)");
}

#[test]
fn render_without_placeholders_is_unchanged() {
    let t = "Plain text\nwith [brackets] but no tokens";
    assert_eq!(fill_placeholders(t, "Alice", "2024"), t);
    assert_eq!(fill_placeholders("", "Alice", "2024"), "");
}

#[test]
fn render_replaces_every_placeholder() {
    let r = fill_placeholders("[year] [user] [year]-[user][user]", "Ann", "1999");
    assert_eq!(r, "1999 Ann 1999-AnnAnn");
    assert!(!r.contains("[year]") && !r.contains("[user]"));
}

#[test]
fn render_year_before_user() {
    // the year is put in first, so a year that holds the user token is filled too
    assert_eq!(fill_placeholders("[year]", "Ann", "[user]"), "Ann");
    // the user is put in last, so a user that holds the year token stays as it is
    assert_eq!(fill_placeholders("[user]", "[year]", "2024"), "[year]");
}

#[test]
fn classify_empty_directory_and_unmatched_file() {
    let cat = catalogue();
    assert_eq!(check_current_license(None, &cat), LicenseType::NoLicense);
    assert_eq!(classify_text("Something else\nentirely", &cat), LicenseType::Unknown);
    assert_eq!(classify_text("", &cat), LicenseType::Unknown);
}

#[test]
fn classify_first_match_wins() {
    let cat = vec![
        License::new("GNU GPL v3".to_string(), "a".to_string(), Some("Same\nHead\nA".to_string())),
        License::new("GNU AGPL v3".to_string(), "b".to_string(), Some("Same\nHead\nB".to_string())),
    ];
    assert_eq!(classify_text("Same\nHead\nanything", &cat), LicenseType::GPLv3);
}

#[test]
fn classify_unrecognized_name_is_unknown() {
    let cat = vec![License::new("My License".to_string(), "x".to_string(), Some("Mine\n\n".to_string()))];
    assert_eq!(classify_text("Mine\n\nmore", &cat), LicenseType::Unknown);
}

#[test]
fn bracketed_heading_round_trips() {
    let cat = vec![License::new(
        "MIT License".to_string(),
        "p".to_string(),
        Some("[Project] MIT License\n\nCopyright [year] [user]\n".to_string()),
    )];
    let text = install_text(&cat[0], "Eve", "2030").unwrap();
    assert_eq!(text, "[Project] MIT License\n\nCopyright 2030 Eve\n");
    assert_eq!(classify_text(&text, &cat), LicenseType::MIT);
}

#[test]
fn installed_license_round_trips() {
    let cat = catalogue();
    for (i, kind) in [(1usize, LicenseType::MIT), (2usize, LicenseType::BSD3Clause)] {
        let text = install_text(&cat[i], "Dana", "2031").unwrap();
        assert_eq!(classify_text(&text, &cat), kind);
    }
}

#[test]
fn local_file_prefers_license() {
    assert_eq!(local_license_file(true, true).as_deref(), Some("LICENSE"));
    assert_eq!(local_license_file(true, false).as_deref(), Some("LICENSE"));
    assert_eq!(local_license_file(false, true).as_deref(), Some("LICENSE.txt"));
}

#[test]
fn first_two_lines_cases() {
    assert_eq!(first_two_lines("a\nb\nc"), vec!["a".to_string(), "b".to_string()]);
    assert_eq!(first_two_lines("only"), vec!["only".to_string(), String::new()]);
    assert_eq!(first_two_lines("x\n"), vec!["x".to_string(), String::new()]);
    assert_eq!(first_two_lines(""), vec![String::new(), String::new()]);
}

#[test]
fn names_and_kinds_correspond() {
    let kinds = [
        LicenseType::BSD2Clause,
        LicenseType::BSD3Clause,
        LicenseType::BSD4Clause,
        LicenseType::MIT,
        LicenseType::GPLv3,
        LicenseType::LGPLv3,
        LicenseType::AGPLv3,
        LicenseType::Boost,
        LicenseType::MPL2_0,
        LicenseType::Apache2_0,
        LicenseType::Unlicense,
    ];
    for k in kinds {
        let n = license_type_to_name(&k).unwrap();
        assert_eq!(license_name_to_type(&n), k);
    }
    assert_eq!(license_type_to_name(&LicenseType::Unknown), None);
    assert_eq!(license_type_to_name(&LicenseType::NoLicense), None);
    assert_eq!(license_name_to_type("Apache License 2.0"), LicenseType::Apache2_0);
    assert_eq!(license_name_to_type("mit license"), LicenseType::Unknown);
}

#[test]
fn license_from_type_searches_whole_catalogue() {
    let cat = catalogue();
    let found = license_from_type(LicenseType::BSD3Clause, &cat).unwrap();
    assert_eq!(found.name, "BSD 3-Clause License");
    assert!(license_from_type(LicenseType::GPLv3, &cat).is_none());
    assert!(license_from_type(LicenseType::Unknown, &cat).is_none());
    assert_eq!(local_license_display(LicenseType::MIT, &cat), "MIT License - permissive");
}

#[test]
fn menu_accepts_only_three_choices() {
    assert_eq!(parse_menu_choice("1"), Some(MenuChoice::List));
    assert_eq!(parse_menu_choice(" 2 \r\n"), Some(MenuChoice::Install));
    assert_eq!(parse_menu_choice("3\n"), Some(MenuChoice::Quit));
    for bad in ["", "0", "4", "12", "q", "one", "1 2", "+1"] {
        assert_eq!(parse_menu_choice(bad), None);
    }
}

#[test]
fn selection_prompt() {
    assert_eq!(parse_selection("q\n", 3), Selection::Cancel);
    assert_eq!(parse_selection("  Q ", 3), Selection::Cancel);
    assert_eq!(parse_selection("3", 3), Selection::Pick(2));
    assert_eq!(parse_selection("+2", 3), Selection::Pick(1));
    assert_eq!(parse_selection("0", 3), Selection::Invalid);
    assert_eq!(parse_selection("4", 3), Selection::Invalid);
    assert_eq!(parse_selection("", 3), Selection::Invalid);
    assert_eq!(parse_selection("+", 3), Selection::Invalid);
    assert_eq!(parse_selection("-1", 3), Selection::Invalid);
    assert_eq!(parse_selection("1a", 3), Selection::Invalid);
    assert_eq!(parse_selection("99999999999999999999999999", 3), Selection::Invalid);
    assert_eq!(parse_selection("007", 10), Selection::Pick(6));
}

#[test]
fn user_name_is_trimmed() {
    assert_eq!(user_name_from_line("  Eve Smith \n"), "Eve Smith");
    assert_eq!(user_name_from_line(" \t \r\n"), "Unknown");
    assert_eq!(user_name_from_line("\u{3000}Zoë\u{A0}\n"), "Zoë");
}

#[test]
fn status_tags() {
    assert_eq!(status_tag(LicenseType::MIT), "OK");
    assert_eq!(status_tag(LicenseType::Unknown), "??");
    assert_eq!(status_tag(LicenseType::NoLicense), "NA");
}

#[test]
fn year_in_decimal() {
    assert_eq!(year_text(2024), "2024");
    assert_eq!(year_text(7), "7");
    assert_eq!(year_text(-44), "-44");
    let y = get_current_year().unwrap();
    assert!(y.len() >= 4 && y.chars().all(|c| c.is_ascii_digit()));
}

#[test]
fn backup_name_format() {
    let t = UtcTime { year: 2024, month: 3, day: 7, hour: 9, minute: 5, second: 0, nanosecond: 0 };
    assert_eq!(backup_file_name(&t).as_deref(), Some("LICENSE.bak.20240307090500"));
    let t = UtcTime { year: 812, month: 12, day: 31, hour: 23, minute: 59, second: 59, nanosecond: 999_999_999 };
    assert_eq!(backup_file_name(&t).as_deref(), Some("LICENSE.bak.08121231235959"));
    let t = UtcTime { year: 12345, month: 1, day: 1, hour: 0, minute: 0, second: 0, nanosecond: 0 };
    assert_eq!(backup_file_name(&t).as_deref(), Some("LICENSE.bak.+123450101000000"));
    let t = UtcTime { year: 2016, month: 12, day: 31, hour: 23, minute: 59, second: 59, nanosecond: 1_000_000_000 };
    assert_eq!(backup_file_name(&t).as_deref(), Some("LICENSE.bak.20161231235960"));
    let t = UtcTime { year: 2023, month: 2, day: 29, hour: 0, minute: 0, second: 0, nanosecond: 0 };
    assert_eq!(backup_file_name(&t), None);
    let t = UtcTime { year: 2024, month: 2, day: 29, hour: 0, minute: 0, second: 0, nanosecond: 0 };
    assert_eq!(backup_file_name(&t).as_deref(), Some("LICENSE.bak.20240229000000"));
    let t = UtcTime { year: 2024, month: 1, day: 1, hour: 0, minute: 0, second: 30, nanosecond: 1_000_000_000 };
    assert_eq!(backup_file_name(&t), None);
    let now = current_backup_name().unwrap();
    let stamp = now.strip_prefix("LICENSE.bak.").unwrap();
    assert_eq!(stamp.len(), 14);
    assert!(stamp.chars().all(|c| c.is_ascii_digit()));
}

#[test]
fn local_display_uses_first_entry_of_the_name() {
    let cat = vec![
        License::new("MIT License".to_string(), "first".to_string(), None),
        License::new("MIT License".to_string(), "second".to_string(), Some(MIT_TEMPLATE.to_string())),
    ];
    assert_eq!(local_license_display(LicenseType::MIT, &cat), "MIT License - first (no file)");
}
