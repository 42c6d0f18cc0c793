use easypassword::config::{
    default_concat_trigger_prefix, default_length, default_trigger_prefix, default_true, Config,
    DefaultConfig, SiteConfig,
};
use easypassword::password::GenerationMode;

fn config_with_site() -> Config {
    let mut config = Config::default();
    config.sites.push((
        "github.com".to_string(),
        SiteConfig {
            length: Some(24),
            symbols: Some(false),
            counter: Some(3),
            ..Default::default()
        },
    ));
    config
}

#[test]
fn defaults() {
    assert_eq!(default_length(), 16);
    assert!(default_true());
    assert_eq!(default_trigger_prefix(), ";;");
    assert_eq!(default_concat_trigger_prefix(), "!!");
    let d = DefaultConfig::default();
    assert_eq!(d.length, 16);
    assert!(d.master_key.is_none());
    assert!(!d.autostart);
}

#[test]
fn policy_falls_back_to_defaults() {
    let config = config_with_site();
    let p = config.get_password_config("example.org");
    assert_eq!(p.length, 16);
    assert!(p.use_lowercase && p.use_uppercase && p.use_digits && p.use_symbols);
    assert_eq!(p.mode, GenerationMode::Argon2id);
    assert_eq!(config.get_counter("example.org"), 1);
}

#[test]
fn site_overrides_apply_case_insensitively() {
    let config = config_with_site();
    let p = config.get_password_config("GitHub.COM");
    assert_eq!(p.length, 24);
    assert!(!p.use_symbols);
    assert!(p.use_lowercase && p.use_uppercase && p.use_digits);
    assert_eq!(config.get_counter("GITHUB.com"), 3);
}

#[test]
fn site_without_counter_uses_one() {
    let mut config = Config::default();
    config.sites.push(("a.b".to_string(), SiteConfig::default()));
    assert_eq!(config.get_counter("a.b"), 1);
}

#[test]
fn active_master_key_skips_empty() {
    let mut config = Config::default();
    assert_eq!(config.active_master_key(), None);
    config.default.master_key = Some(String::new());
    assert_eq!(config.active_master_key(), None);
    config.default.master_key = Some("secret".to_string());
    assert_eq!(config.active_master_key(), Some("secret".to_string()));
}

#[test]
fn trigger_specs_list_both_prefixes() {
    let config = Config::default();
    let specs = config.trigger_specs();
    assert_eq!(
        specs,
        vec![
            (";;".to_string(), GenerationMode::Argon2id),
            ("!!".to_string(), GenerationMode::Concatenation),
        ]
    );
}
