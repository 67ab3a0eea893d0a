use caddy_manager::registry::{AddOutcome, Category, Config};

fn store_with(hosts: &[&str], targets: &[&str]) -> Config {
    let mut config = Config::new();
    for h in hosts {
        config.add_value(Category::Hosts, h);
    }
    for t in targets {
        config.add_value(Category::Targets, t);
    }
    config
}

#[test]
fn load_normalizes_hosts() {
    let text = "hosts = [\"b\", \"a\", \"a\"]\ntargets = []\n";
    let config = Config::from_toml(text).expect("well-formed document");
    assert_eq!(config.hosts, vec!["a".to_string(), "b".to_string()]);
    assert_eq!(config.targets, Vec::<String>::new());
    assert!(!config.changed);
}

#[test]
fn load_rejects_missing_field() {
    assert!(Config::from_toml("hosts = [\"a\"]\n").is_none());
    assert!(Config::from_toml("targets = []\n").is_none());
    assert!(Config::from_toml("").is_none());
}

#[test]
fn load_rejects_wrong_types() {
    assert!(Config::from_toml("hosts = \"a\"\ntargets = []\n").is_none());
    assert!(Config::from_toml("hosts = [1, 2]\ntargets = []\n").is_none());
    assert!(Config::from_toml("hosts = [\"a\"]\ntargets = [true]\n").is_none());
}

#[test]
fn load_rejects_malformed_document() {
    assert!(Config::from_toml("hosts = [\"a\"").is_none());
    assert!(Config::from_toml("= nonsense").is_none());
}

#[test]
fn fresh_store_is_marked_changed() {
    let config = Config::new();
    assert!(config.changed);
    assert!(config.hosts.is_empty());
    assert!(config.targets.is_empty());
}

#[test]
fn add_duplicate_reports_and_keeps_set() {
    let mut config = store_with(&["example.com"], &[]);
    let before = config.hosts.clone();
    let changed_before = config.changed;
    let outcome = config.add_value(Category::Hosts, "example.com");
    assert_eq!(outcome, AddOutcome::AlreadyExists);
    assert_eq!(config.hosts, before);
    assert_eq!(config.changed, changed_before);
}

#[test]
fn add_keeps_categories_sorted() {
    let mut config = Config::new();
    assert_eq!(config.add_value(Category::Targets, "10.0.0.9"), AddOutcome::Added);
    assert_eq!(config.add_value(Category::Targets, "10.0.0.1"), AddOutcome::Added);
    assert_eq!(config.add_value(Category::Targets, "10.0.0.5"), AddOutcome::Added);
    assert_eq!(
        config.targets,
        vec!["10.0.0.1".to_string(), "10.0.0.5".to_string(), "10.0.0.9".to_string()]
    );
    assert!(config.changed);
}

#[test]
fn add_trims_whitespace() {
    let mut config = Config::new();
    assert_eq!(config.add_value(Category::Hosts, "  example.com  "), AddOutcome::Added);
    assert_eq!(config.hosts, vec!["example.com".to_string()]);
    assert_eq!(config.add_value(Category::Hosts, "example.com"), AddOutcome::AlreadyExists);
}

#[test]
fn remove_value_drops_entry() {
    let mut config = Config::from_toml("hosts = [\"a\", \"b\", \"c\"]\ntargets = []\n")
        .expect("well-formed document");
    assert!(!config.changed);
    let removed = config.remove_value(Category::Hosts, 1);
    assert_eq!(removed, "b".to_string());
    assert_eq!(config.hosts, vec!["a".to_string(), "c".to_string()]);
    assert!(config.changed);
}

#[test]
fn registry_round_trip() {
    let stored = store_with(&["example.com", "example.org"], &["10.0.0.5", "127.0.0.1"]);
    let text = stored.to_toml();
    let reloaded = Config::from_toml(&text).expect("persisted registry must reload");
    assert_eq!(reloaded.hosts, stored.hosts);
    assert_eq!(reloaded.targets, stored.targets);
    assert!(!reloaded.changed);
}

#[test]
fn round_trip_keeps_awkward_strings() {
    let stored = store_with(&["has \"quotes\"", "new\nline", "tab\there"], &["  spaced  "]);
    let text = stored.to_toml();
    let reloaded = Config::from_toml(&text).expect("persisted registry must reload");
    assert_eq!(reloaded.hosts, stored.hosts);
    assert_eq!(reloaded.targets, stored.targets);
}

#[test]
fn values_exposes_categories() {
    let config = store_with(&["h.example"], &["t.example"]);
    assert_eq!(config.values(Category::Hosts), &vec!["h.example".to_string()]);
    assert_eq!(config.values(Category::Targets), &vec!["t.example".to_string()]);
}
