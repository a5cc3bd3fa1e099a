//! The authentication client configuration surface.

use mqtt_session::auth_config::{AuthConfig, ClientConfig};

fn config() -> AuthConfig {
    AuthConfig {
        client_id: "drogue".to_string(),
        client_secret: "client-secret-value".to_string(),
        issuer_url: "https://sso.example/auth/realms/drogue".to_string(),
        redirect_url: "https://console.example/".to_string(),
        scopes: "openid profile email".to_string(),
    }
}

#[test]
fn config_answers_its_fields() {
    let c = config();
    assert_eq!(c.client_id(), "drogue");
    assert_eq!(c.client_secret(), "client-secret-value");
    assert_eq!(c.issuer_url(), "https://sso.example/auth/realms/drogue");
    assert_eq!(c.redirect_url(), Some("https://console.example/".to_string()));
    assert_eq!(c.scopes, "openid profile email");
}
