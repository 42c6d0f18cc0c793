use easypassword::password::{
    build_salt, bytes_to_big_uint, div_mod, generate_password, render_password, GenerationMode,
    PasswordConfig, PasswordError,
};

const LOWER: &str = "abcdefghijklmnopqrstuvwxyz";
const UPPER: &str = "ABCDEFGHIJKLMNOPQRSTUVWXYZ";
const DIGITS: &str = "0123456789";
const SYMBOLS: &str = "!\"#$%&'()*+,-./:;<=>?@[\\]^_`{|}~";

#[test]
fn test_deterministic_generation() {
    let config = PasswordConfig::default();
    let pw1 = generate_password("master", "github.com", 1, &config).unwrap();
    let pw2 = generate_password("master", "github.com", 1, &config).unwrap();
    assert_eq!(pw1, pw2);
}

#[test]
fn test_different_sites_different_passwords() {
    let config = PasswordConfig::default();
    let pw1 = generate_password("master", "github.com", 1, &config).unwrap();
    let pw2 = generate_password("master", "google.com", 1, &config).unwrap();
    assert_ne!(pw1, pw2);
}

#[test]
fn test_case_insensitive_site() {
    let config = PasswordConfig::default();
    let pw1 = generate_password("master", "GitHub.com", 1, &config).unwrap();
    let pw2 = generate_password("master", "github.com", 1, &config).unwrap();
    assert_eq!(pw1, pw2);
}

#[test]
fn test_password_length() {
    let config = PasswordConfig {
        length: 20,
        ..Default::default()
    };
    let pw = generate_password("master", "test.com", 1, &config).unwrap();
    assert_eq!(pw.len(), 20);
}

#[test]
fn test_counter_changes_password() {
    let config = PasswordConfig::default();
    let pw1 = generate_password("master", "github.com", 1, &config).unwrap();
    let pw2 = generate_password("master", "github.com", 2, &config).unwrap();
    assert_ne!(pw1, pw2);
}

#[test]
fn test_concatenation_mode() {
    let config = PasswordConfig {
        mode: GenerationMode::Concatenation,
        ..Default::default()
    };
    let pw = generate_password("master", "github.com", 1, &config).unwrap();
    assert_eq!(pw, "master!github.com");
}

#[test]
fn test_concatenation_mode_preserves_case() {
    let config = PasswordConfig {
        mode: GenerationMode::Concatenation,
        ..Default::default()
    };
    let pw = generate_password("master", "GitHub.com", 1, &config).unwrap();
    assert_eq!(pw, "master!GitHub.com");
}

#[test]
fn concatenation_ignores_class_flags() {
    let config = PasswordConfig {
        mode: GenerationMode::Concatenation,
        use_lowercase: false,
        use_uppercase: false,
        use_digits: false,
        use_symbols: false,
        ..Default::default()
    };
    let pw = generate_password("m", "Site", 9, &config).unwrap();
    assert_eq!(pw, "m!Site");
}

#[test]
fn no_class_is_a_policy_error() {
    let config = PasswordConfig {
        use_lowercase: false,
        use_uppercase: false,
        use_digits: false,
        use_symbols: false,
        ..Default::default()
    };
    let r = generate_password("master", "github.com", 1, &config);
    assert_eq!(r, Err(PasswordError::NoCharacterClass));
}

#[test]
fn keyed_password_has_every_enabled_class() {
    let config = PasswordConfig::default();
    for site in ["github.com", "google.com", "example.org"] {
        let pw = generate_password("master", site, 1, &config).unwrap();
        assert_eq!(pw.chars().count(), 16);
        assert!(pw.chars().any(|c| LOWER.contains(c)));
        assert!(pw.chars().any(|c| UPPER.contains(c)));
        assert!(pw.chars().any(|c| DIGITS.contains(c)));
        assert!(pw.chars().any(|c| SYMBOLS.contains(c)));
    }
}

#[test]
fn keyed_password_uses_only_enabled_classes() {
    let config = PasswordConfig {
        use_uppercase: false,
        use_symbols: false,
        length: 12,
        ..Default::default()
    };
    let pw = generate_password("master", "github.com", 1, &config).unwrap();
    assert_eq!(pw.len(), 12);
    assert!(pw.chars().all(|c| LOWER.contains(c) || DIGITS.contains(c)));
    assert!(pw.chars().any(|c| LOWER.contains(c)));
    assert!(pw.chars().any(|c| DIGITS.contains(c)));
}

#[test]
fn short_policy_still_gets_one_per_class() {
    let config = PasswordConfig {
        length: 2,
        ..Default::default()
    };
    let pw = generate_password("master", "github.com", 1, &config).unwrap();
    assert_eq!(pw.chars().count(), 4);
}

#[test]
fn master_secret_changes_password() {
    let config = PasswordConfig::default();
    let pw1 = generate_password("master", "github.com", 1, &config).unwrap();
    let pw2 = generate_password("other", "github.com", 1, &config).unwrap();
    assert_ne!(pw1, pw2);
}

#[test]
fn salt_is_sha256_of_site_and_counter() {
    let salt = build_salt("github.com", 1);
    let hex: String = salt.iter().map(|b| format!("{:02x}", b)).collect();
    assert_eq!(
        hex,
        "a8ef03dcbe165f2fb278d122f94fbb76b45623117592e3e9d086ad7127cb07ed"
    );
}

#[test]
fn big_uint_reads_first_sixteen_bytes_big_endian() {
    let bytes: Vec<u8> = (1..=64).collect();
    assert_eq!(
        bytes_to_big_uint(&bytes),
        0x0102030405060708090a0b0c0d0e0f10u128
    );
    assert_eq!(bytes_to_big_uint(&[1, 0]), 256);
    assert_eq!(bytes_to_big_uint(&[]), 0);
}

#[test]
fn div_mod_splits() {
    assert_eq!(div_mod(100, 7), (14, 2));
}

#[test]
fn render_full_policy() {
    let entropy: Vec<u8> = (1..=64).collect();
    let config = PasswordConfig::default();
    let charset = config.build_charset();
    assert_eq!(charset.len(), 94);
    assert_eq!(
        render_password(&entropy, &charset, &config),
        "a)5'uz4A;1n,{FKv"
    );
}

#[test]
fn render_small_values() {
    let mut entropy = vec![0u8; 16];
    entropy[15] = 5;
    let config = PasswordConfig {
        length: 3,
        use_uppercase: false,
        use_digits: false,
        use_symbols: false,
        ..Default::default()
    };
    let charset = config.build_charset();
    assert_eq!(render_password(&entropy, &charset, &config), "afa");
}

#[test]
fn render_draws_each_class_character_then_its_position() {
    let mut entropy = vec![0u8; 16];
    entropy[13] = 0x01;
    entropy[14] = 0x1d;
    entropy[15] = 0x30;
    let config = PasswordConfig {
        length: 4,
        use_digits: false,
        use_symbols: false,
        ..Default::default()
    };
    let charset = config.build_charset();
    assert_eq!(render_password(&entropy, &charset, &config), "Aaba");
}

#[test]
fn render_other_policies() {
    let all_ones = vec![255u8; 64];
    let config = PasswordConfig {
        length: 10,
        ..Default::default()
    };
    let charset = config.build_charset();
    assert_eq!(render_password(&all_ones, &charset, &config), "nC7lo=j~j\\");

    let entropy: Vec<u8> = (1..=64).collect();
    let config = PasswordConfig {
        length: 2,
        use_lowercase: false,
        use_uppercase: false,
        ..Default::default()
    };
    let charset = config.build_charset();
    assert_eq!(render_password(&entropy, &charset, &config), "\"6");

    let config = PasswordConfig {
        length: 6,
        use_lowercase: false,
        use_digits: false,
        use_symbols: false,
        ..Default::default()
    };
    let charset = config.build_charset();
    assert_eq!(render_password(&[7, 7, 7, 7], &charset, &config), "JHWBAY");
}

#[test]
fn enabled_class_count() {
    let config = PasswordConfig {
        use_digits: false,
        ..Default::default()
    };
    assert_eq!(config.count_enabled_charsets(), 3);
    assert_eq!(config.build_charset().len(), 26 + 26 + 32);
}
