use pg_replicate::configuration::{DatabaseSettings, Environment, SslMode};

#[test]
fn environment_names() {
    assert_eq!(Environment::Dev.as_str(), "dev");
    assert_eq!(Environment::Prod.as_str(), "prod");
    assert_eq!(Environment::try_from("DEV".to_string()), Ok(Environment::Dev));
    assert_eq!(Environment::try_from("Prod".to_string()), Ok(Environment::Prod));
    assert_eq!(
        Environment::try_from("Staging".to_string()),
        Err("staging is not a supported environment. Use either `dev` or `prod`.".to_string())
    );
}

fn settings(require_ssl: bool, password: Option<&str>) -> DatabaseSettings {
    DatabaseSettings {
        host: "localhost".to_string(),
        port: 5432,
        name: "app".to_string(),
        username: "postgres".to_string(),
        password: password.map(|p| p.to_string()),
        require_ssl,
    }
}

#[test]
fn connect_options_follow_settings() {
    let o = settings(true, Some("pw")).without_db();
    assert_eq!(o.host, "localhost");
    assert_eq!(o.port, 5432);
    assert_eq!(o.username, "postgres");
    assert_eq!(o.password.as_deref(), Some("pw"));
    assert_eq!(o.ssl_mode, SslMode::Require);
    assert_eq!(o.database, None);
    let o = settings(false, None).with_db();
    assert_eq!(o.ssl_mode, SslMode::Prefer);
    assert_eq!(o.password, None);
    assert_eq!(o.database.as_deref(), Some("app"));
}

#[test]
fn environment_from_lowercase_name() {
    assert_eq!(Environment::from_lowercase("dev".to_string()), Ok(Environment::Dev));
    assert_eq!(Environment::from_lowercase("prod".to_string()), Ok(Environment::Prod));
    assert_eq!(
        Environment::from_lowercase("PROD".to_string()),
        Err("PROD is not a supported environment. Use either `dev` or `prod`.".to_string())
    );
}
