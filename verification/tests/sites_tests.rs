use caddy_manager::sites::{
    compose_domain, site_file_text, CreateOutcome, DeleteCheck, DeleteOutcome, MoveKind, Side,
    SiteDirs, SiteState, ToggleCheck, ToggleOutcome,
};

fn listing(names: &[&str]) -> Option<Vec<String>> {
    Some(names.iter().map(|n| n.to_string()).collect())
}

#[test]
fn compose_domain_cases() {
    assert_eq!(compose_domain("app", "example.com"), "app.example.com".to_string());
    assert_eq!(compose_domain("app", ""), "app".to_string());
    assert_eq!(compose_domain("", "example.com"), ".example.com".to_string());
}

#[test]
fn site_file_text_exact() {
    let text = site_file_text("app.example.com", "10.0.0.5", 8080);
    assert_eq!(
        text,
        "app.example.com {\n\treverse_proxy 10.0.0.5:8080\n\n\timport ../robots\n}\n\n"
    );
}

#[test]
fn add_site_scenario_renders_template() {
    // An operator adds the label "app", picks host index 0 resolving to
    // "example.com" and target index 0 resolving to "10.0.0.5", port 8080.
    let hosts = vec!["example.com".to_string()];
    let targets = vec!["10.0.0.5".to_string()];
    let domain = compose_domain("app", hosts[0].as_str());
    assert_eq!(domain, "app.example.com");
    let mut dirs = SiteDirs::from_listings(None, None);
    dirs.ensure_enabled_dir();
    let outcome = dirs.create_site(&domain, &targets[0], 8080);
    let CreateOutcome::Created { content } = outcome else {
        panic!("fresh domain must be created");
    };
    assert!(content.contains("reverse_proxy 10.0.0.5:8080"));
    assert_eq!(
        content,
        "app.example.com {\n\treverse_proxy 10.0.0.5:8080\n\n\timport ../robots\n}\n\n"
    );
    assert_eq!(dirs.state_of(&domain), SiteState::Enabled);
}

#[test]
fn create_site_twice_aborts_second() {
    let mut dirs = SiteDirs::from_listings(Some(Vec::new()), None);
    let domain = "app.example.com".to_string();
    let target = "10.0.0.5".to_string();
    let first = dirs.create_site(&domain, &target, 8080);
    assert!(matches!(first, CreateOutcome::Created { .. }));
    let enabled_before = dirs.enabled.clone();
    let disabled_before = dirs.disabled.clone();
    let second = dirs.create_site(&domain, &target, 9090);
    assert!(matches!(second, CreateOutcome::AlreadyExists));
    assert_eq!(dirs.enabled, enabled_before);
    assert_eq!(dirs.disabled, disabled_before);
}

#[test]
fn toggle_enable_missing_reports() {
    // Enabling a domain absent from the disabled directory touches nothing.
    let mut dirs = SiteDirs::from_listings(listing(&["kept.example.com"]), listing(&[]));
    let enabled_before = dirs.enabled.clone();
    let disabled_before = dirs.disabled.clone();
    let domain = "ghost.example.com".to_string();
    assert_eq!(dirs.toggle_check(MoveKind::Enable, &domain), ToggleCheck::SourceMissing);
    let outcome = dirs.toggle_site(MoveKind::Enable, &domain, false);
    assert!(matches!(outcome, ToggleOutcome::SourceMissing));
    assert_eq!(dirs.enabled, enabled_before);
    assert_eq!(dirs.disabled, disabled_before);
}

#[test]
fn disable_moves_site_scenario() {
    // The enabled directory holds api.example.com; the disabled directory is
    // absent, so no confirmation is in play. The move lands the file in the
    // disabled directory, and the now-empty enabled directory goes away.
    let mut dirs = SiteDirs::from_listings(listing(&["api.example.com"]), None);
    let domain = "api.example.com".to_string();
    assert_eq!(dirs.toggle_check(MoveKind::Disable, &domain), ToggleCheck::Ready);
    let outcome = dirs.toggle_site(MoveKind::Disable, &domain, false);
    let ToggleOutcome::Moved { made_target_dir, removed_source_dir } = outcome else {
        panic!("the move must go ahead");
    };
    assert!(made_target_dir);
    assert!(removed_source_dir);
    assert!(dirs.enabled.is_none());
    assert_eq!(dirs.disabled, listing(&["api.example.com"]));
    assert_eq!(dirs.state_of(&domain), SiteState::Disabled);
}

#[test]
fn disable_last_site_removes_enabled_dir() {
    let mut dirs = SiteDirs::from_listings(listing(&["only.example.com"]), listing(&[]));
    let domain = "only.example.com".to_string();
    let outcome = dirs.toggle_site(MoveKind::Disable, &domain, false);
    let ToggleOutcome::Moved { made_target_dir, removed_source_dir } = outcome else {
        panic!("the move must go ahead");
    };
    assert!(!made_target_dir);
    assert!(removed_source_dir);
    assert!(dirs.enabled.is_none());
    // A later show lists no enabled site and does not fail.
    let lines = dirs.render_table();
    assert_eq!(
        lines,
        vec![
            format!("{:<16} \u{2503} Status", "Site"),
            "-".repeat(25),
            format!("{:<16} \u{2503} disabled", "only.example.com"),
        ]
    );
}

#[test]
fn toggle_collision_declined_changes_nothing() {
    let mut dirs =
        SiteDirs::from_listings(listing(&["dup.example.com"]), listing(&["dup.example.com"]));
    let domain = "dup.example.com".to_string();
    assert_eq!(dirs.toggle_check(MoveKind::Disable, &domain), ToggleCheck::NeedsConfirmation);
    let enabled_before = dirs.enabled.clone();
    let disabled_before = dirs.disabled.clone();
    let outcome = dirs.toggle_site(MoveKind::Disable, &domain, false);
    assert!(matches!(outcome, ToggleOutcome::Declined));
    assert_eq!(dirs.enabled, enabled_before);
    assert_eq!(dirs.disabled, disabled_before);
}

#[test]
fn toggle_collision_confirmed_replaces() {
    let mut dirs = SiteDirs::from_listings(
        listing(&["dup.example.com", "other.example.com"]),
        listing(&["dup.example.com"]),
    );
    let domain = "dup.example.com".to_string();
    let outcome = dirs.toggle_site(MoveKind::Disable, &domain, true);
    let ToggleOutcome::Moved { made_target_dir, removed_source_dir } = outcome else {
        panic!("a confirmed move must go ahead");
    };
    assert!(!made_target_dir);
    assert!(!removed_source_dir);
    assert_eq!(dirs.enabled, listing(&["other.example.com"]));
    assert_eq!(dirs.disabled, listing(&["dup.example.com"]));
}

#[test]
fn toggle_empty_domain_aborts() {
    let mut dirs = SiteDirs::from_listings(listing(&["a.example"]), None);
    let domain = String::new();
    assert_eq!(dirs.toggle_check(MoveKind::Disable, &domain), ToggleCheck::EmptyDomain);
    let outcome = dirs.toggle_site(MoveKind::Disable, &domain, true);
    assert!(matches!(outcome, ToggleOutcome::EmptyDomain));
    assert_eq!(dirs.enabled, listing(&["a.example"]));
    assert!(dirs.disabled.is_none());
}

#[test]
fn delete_cases() {
    let domain = "gone.example.com".to_string();

    let mut no_dir = SiteDirs::from_listings(None, None);
    assert_eq!(no_dir.delete_check(&domain), DeleteCheck::NoEnabledDir);
    assert!(matches!(no_dir.delete_site(&domain, true), DeleteOutcome::NoEnabledDir));

    let mut dirs = SiteDirs::from_listings(listing(&["gone.example.com", "kept.example.com"]), None);
    assert_eq!(dirs.delete_check(&String::new()), DeleteCheck::EmptyDomain);
    assert!(matches!(dirs.delete_site(&String::new(), true), DeleteOutcome::EmptyDomain));

    let absent = "absent.example.com".to_string();
    assert_eq!(dirs.delete_check(&absent), DeleteCheck::NotFound);
    assert!(matches!(dirs.delete_site(&absent, true), DeleteOutcome::NotFound));

    assert_eq!(dirs.delete_check(&domain), DeleteCheck::NeedsConfirmation);
    let before = dirs.enabled.clone();
    assert!(matches!(dirs.delete_site(&domain, false), DeleteOutcome::Declined));
    assert_eq!(dirs.enabled, before);

    assert!(matches!(dirs.delete_site(&domain, true), DeleteOutcome::Deleted));
    assert_eq!(dirs.enabled, listing(&["kept.example.com"]));
}

#[test]
fn delete_keeps_empty_directory() {
    let mut dirs = SiteDirs::from_listings(listing(&["only.example.com"]), None);
    let domain = "only.example.com".to_string();
    assert!(matches!(dirs.delete_site(&domain, true), DeleteOutcome::Deleted));
    assert_eq!(dirs.enabled, Some(Vec::new()));
}

#[test]
fn from_listings_normalizes() {
    let dirs = SiteDirs::from_listings(listing(&["b.example", "a.example", "a.example"]), None);
    assert_eq!(dirs.enabled, listing(&["a.example", "b.example"]));
    assert!(dirs.disabled.is_none());
}

#[test]
fn state_queries() {
    let dirs = SiteDirs::from_listings(listing(&["on.example"]), listing(&["off.example"]));
    assert!(dirs.has_enabled_dir());
    assert!(dirs.contains(Side::Enabled, &"on.example".to_string()));
    assert!(!dirs.contains(Side::Disabled, &"on.example".to_string()));
    assert_eq!(dirs.state_of(&"on.example".to_string()), SiteState::Enabled);
    assert_eq!(dirs.state_of(&"off.example".to_string()), SiteState::Disabled);
    assert_eq!(dirs.state_of(&"no.example".to_string()), SiteState::Absent);
}

#[test]
fn show_table_lines() {
    let dirs = SiteDirs::from_listings(
        listing(&["api.example.com"]),
        listing(&["b.co", "a.example.org"]),
    );
    let lines = dirs.render_table();
    assert_eq!(
        lines,
        vec![
            format!("{:<15} \u{2503} Status", "Site"),
            "-".repeat(24),
            format!("{:<15} \u{2503} enabled", "api.example.com"),
            "-".repeat(24),
            format!("{:<15} \u{2503} disabled", "a.example.org"),
            format!("{:<15} \u{2503} disabled", "b.co"),
        ]
    );
}

#[test]
fn show_table_when_empty() {
    let dirs = SiteDirs::from_listings(None, None);
    let lines = dirs.render_table();
    assert_eq!(
        lines,
        vec!["Site \u{2503} Status".to_string(), "-------------".to_string()]
    );
}
