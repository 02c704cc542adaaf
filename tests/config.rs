use processing::config::{Config, ConfigKey};

#[test]
fn config_holds_one_value_per_key() {
    let mut config = Config::new();
    assert_eq!(config.get(ConfigKey::AssetRootPath), None);
    config.set(ConfigKey::AssetRootPath, "assets".to_string());
    assert_eq!(config.get(ConfigKey::AssetRootPath), Some(&"assets".to_string()));
    config.set(ConfigKey::AssetRootPath, "other".to_string());
    assert_eq!(config.get(ConfigKey::AssetRootPath), Some(&"other".to_string()));
}
