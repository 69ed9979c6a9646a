use animus::config::{neurograph_tract, AnimaConfig, ConfigEnv, Service, ServiceEnv};

fn env(auth_token: Option<&str>) -> ConfigEnv {
    ConfigEnv {
        auth_token: auth_token.map(String::from),
        home: Some("/home/josh".to_string()),
        trollguard_url: None,
        tid_url: None,
        discord_token: None,
        tract_dir: None,
        ws_port: None,
        gui_port: None,
        ces_url: None,
        openrouter_api_key: None,
        budget_low_usd: None,
        budget_critical_usd: None,
        budget_poll_secs: None,
        search_url: None,
        allowed_paths: None,
        ng_url: None,
    }
}

#[test]
fn config_reads_required_vars() {
    let config = AnimaConfig::from_env(env(Some("test_token_123"))).unwrap();
    assert_eq!(config.auth_token, "test_token_123");
    assert_eq!(config.trollguard_url, "http://127.0.0.1:7438");
    assert_eq!(config.ws_port, 8848);
}

#[test]
fn config_missing_auth_token_is_error() {
    let result = AnimaConfig::from_env(env(None));
    assert!(result.is_err());
    assert!(result.unwrap_err().contains("ANIMUS_AUTH_TOKEN"));
}

#[test]
fn config_new_fields_have_correct_defaults() {
    let cfg = AnimaConfig::from_env(env(Some("tok"))).unwrap();
    assert!(cfg.openrouter_api_key.is_none());
    assert!((cfg.budget_low_usd.parse::<f64>().unwrap() - 10.0).abs() < 0.01);
    assert!((cfg.budget_critical_usd.parse::<f64>().unwrap() - 2.0).abs() < 0.01);
    assert_eq!(cfg.budget_poll_secs, 300);
    assert!(cfg.search_url.is_none());
    assert!(cfg.allowed_paths.contains(".et_modules"));
    assert_eq!(cfg.allowed_paths, "/home/josh/.et_modules,/home/josh/docs");
    assert_eq!(cfg.tid_url, "http://127.0.0.1:7437");
    assert_eq!(cfg.ces_url, "http://127.0.0.1:8847");
    assert_eq!(cfg.tract_dir, "/home/josh/.et_modules/tracts/animus");
}

#[test]
fn config_ng_url_default() {
    let cfg = AnimaConfig::from_env(env(Some("tok"))).unwrap();
    assert_eq!(cfg.ng_url, "http://127.0.0.1:8850");
}

#[test]
fn config_ng_url_from_env() {
    let mut e = env(Some("tok"));
    e.ng_url = Some("http://192.168.1.10:8850".to_string());
    let cfg = AnimaConfig::from_env(e).unwrap();
    assert_eq!(cfg.ng_url, "http://192.168.1.10:8850");
}

#[test]
fn config_gui_port_default() {
    let cfg = AnimaConfig::from_env(env(Some("tok"))).unwrap();
    assert_eq!(cfg.gui_port, 8848);
}

#[test]
fn config_gui_port_from_env() {
    let mut e = env(Some("tok"));
    e.gui_port = Some("9090".to_string());
    let cfg = AnimaConfig::from_env(e).unwrap();
    assert_eq!(cfg.gui_port, 9090);
}

#[test]
fn config_errors_name_what_is_wrong() {
    let mut e = env(Some("tok"));
    e.home = None;
    assert_eq!(AnimaConfig::from_env(e).unwrap_err(), "HOME env var not set");
    assert_eq!(
        AnimaConfig::from_env(env(None)).unwrap_err(),
        "ANIMUS_AUTH_TOKEN not set in environment"
    );
    let mut e = env(Some("tok"));
    e.ws_port = Some("70000".to_string());
    assert_eq!(
        AnimaConfig::from_env(e).unwrap_err(),
        "ANIMUS_WS_PORT='70000' is not a valid u16 port"
    );
    let mut e = env(Some("tok"));
    e.gui_port = Some("web".to_string());
    assert_eq!(
        AnimaConfig::from_env(e).unwrap_err(),
        "ANIMUS_GUI_PORT='web' is not a valid u16 port"
    );
}

#[test]
fn config_bad_numbers_fall_back() {
    let mut e = env(Some("tok"));
    e.budget_low_usd = Some("lots".to_string());
    e.budget_critical_usd = Some("0.5".to_string());
    e.budget_poll_secs = Some("soon".to_string());
    let cfg = AnimaConfig::from_env(e).unwrap();
    assert_eq!(cfg.budget_low_usd, "10.0");
    assert_eq!(cfg.budget_critical_usd, "0.5");
    assert_eq!(cfg.budget_poll_secs, 300);
}

#[test]
fn service_files_and_limits() {
    let s = Service::from_env(ServiceEnv {
        home: Some("/home/josh".to_string()),
        outbound_tract: None,
        budget_path: None,
        wants_path: Some("/w".to_string()),
        history_path: None,
        max_iter: Some("x".to_string()),
        daily_budget_usd: None,
    });
    let shared = "/home/josh/.et_modules/shared_learning";
    assert_eq!(s.outbound_tract, format!("{}/animus_outbound.tract", shared));
    assert_eq!(s.budget_path, format!("{}/inference_budget.json", shared));
    assert_eq!(s.wants_path, "/w");
    assert_eq!(s.history_path, format!("{}/conversation_history.msgpack", shared));
    assert_eq!(s.max_iter, 8);
    assert_eq!(s.daily_budget_usd, "5.0");
    let s = Service::from_env(ServiceEnv {
        home: None,
        outbound_tract: None,
        budget_path: None,
        wants_path: None,
        history_path: None,
        max_iter: Some("3".to_string()),
        daily_budget_usd: Some("7.5".to_string()),
    });
    assert_eq!(s.outbound_tract, "/tmp/animus_outbound.tract");
    assert_eq!(s.max_iter, 3);
    assert_eq!(s.daily_budget_usd, "7.5");
    assert_eq!(neurograph_tract("/t"), "/t/neurograph.tract");
}
