use easypassword::config::{Config, SiteConfig};
use easypassword::detect::TriggerEvent;
use easypassword::dispatch::{
    plan_trigger, replacement_steps, settle_autostart, DispatchError, InjectionStep, TrayUpdate,
    INJECTION_GUARD_DELAY_MS,
};
use easypassword::password::{generate_password, GenerationMode, PasswordError};

fn trigger(site: &str, mode: GenerationMode) -> TriggerEvent {
    TriggerEvent {
        site: site.to_string(),
        trigger_len: site.len() + 3,
        mode,
    }
}

#[test]
fn no_master_key_no_injection() {
    let config = Config::default();
    let r = plan_trigger(&config, None, &trigger("site", GenerationMode::Argon2id));
    assert_eq!(r.unwrap_err(), DispatchError::NoMasterKey);
}

#[test]
fn concatenation_trigger_overrides_mode() {
    let config = Config::default();
    let r = plan_trigger(
        &config,
        Some("master"),
        &trigger("GitHub.com", GenerationMode::Concatenation),
    )
    .unwrap();
    assert_eq!(r.backspaces, 13);
    assert_eq!(r.text, "master!GitHub.com");
}

#[test]
fn keyed_trigger_uses_site_policy_and_counter() {
    let mut config = Config::default();
    config.sites.push((
        "github.com".to_string(),
        SiteConfig {
            length: Some(10),
            counter: Some(2),
            ..Default::default()
        },
    ));
    let r = plan_trigger(
        &config,
        Some("master"),
        &trigger("github.com", GenerationMode::Argon2id),
    )
    .unwrap();
    let policy = config.get_password_config("github.com");
    let expected = generate_password("master", "github.com", 2, &policy).unwrap();
    assert_eq!(r.text, expected);
    assert_eq!(r.text.len(), 10);
    assert_eq!(r.backspaces, 13);
}

#[test]
fn policy_error_is_reported() {
    let mut config = Config::default();
    config.default.lowercase = false;
    config.default.uppercase = false;
    config.default.digits = false;
    config.default.symbols = false;
    let r = plan_trigger(&config, Some("m"), &trigger("x", GenerationMode::Argon2id));
    assert_eq!(
        r.unwrap_err(),
        DispatchError::Generation(PasswordError::NoCharacterClass)
    );
}

#[test]
fn steps_erase_then_type() {
    let steps = replacement_steps(2, "pw", 5);
    assert_eq!(steps.len(), 6);
    assert!(matches!(steps[0], InjectionStep::Backspace));
    assert!(matches!(steps[1], InjectionStep::Pause(5)));
    assert!(matches!(steps[2], InjectionStep::Backspace));
    assert!(matches!(steps[3], InjectionStep::Pause(5)));
    assert!(matches!(steps[4], InjectionStep::Pause(d) if d == INJECTION_GUARD_DELAY_MS));
    match &steps[5] {
        InjectionStep::TypeText(t) => assert_eq!(t, "pw"),
        _ => panic!("expected text"),
    }
}

#[test]
fn autostart_success_and_failure() {
    let (now, update) = settle_autostart(true, false, Ok(()));
    assert!(now);
    let TrayUpdate::AutostartSetResult { enabled, ok, error } = update;
    assert!(enabled && ok && error.is_none());

    let (now, update) = settle_autostart(true, false, Err("denied".to_string()));
    assert!(!now);
    let TrayUpdate::AutostartSetResult { enabled, ok, error } = update;
    assert!(!enabled && !ok);
    assert_eq!(error, Some("denied".to_string()));
}
