use clawdmeter::credentials::{client_credentials, ssid_usable, stored_wifi, WifiConfigError};

#[test]
fn stored_credentials() {
    assert_eq!(stored_wifi(Some("MyNet"), Some("secret")), Some(("MyNet".to_string(), "secret".to_string())));
    assert_eq!(stored_wifi(Some("MyNet"), Some("")), Some(("MyNet".to_string(), String::new())));
    assert_eq!(stored_wifi(Some(""), Some("secret")), None);
    assert_eq!(stored_wifi(None, Some("secret")), None);
    assert_eq!(stored_wifi(Some("MyNet"), None), None);
    assert!(ssid_usable(Some("x")));
    assert!(!ssid_usable(Some("")));
    assert!(!ssid_usable(None));
}

#[test]
fn driver_strings() {
    let (s, p) = client_credentials("MyNet", "secret").unwrap();
    assert_eq!(s.as_str(), "MyNet");
    assert_eq!(p.as_str(), "secret");
    let long_ssid = "s".repeat(33);
    assert_eq!(client_credentials(&long_ssid, "secret").unwrap_err(), WifiConfigError::SsidTooLong);
    let long_pass = "p".repeat(65);
    assert_eq!(client_credentials("MyNet", &long_pass).unwrap_err(), WifiConfigError::PasswordTooLong);
    assert_eq!(client_credentials(&long_ssid, &long_pass).unwrap_err(), WifiConfigError::SsidTooLong);
    assert!(client_credentials(&"s".repeat(32), &"p".repeat(64)).is_ok());
    // The limits count bytes, not characters.
    assert!(client_credentials(&"é".repeat(17), "").is_err());
    assert_eq!(WifiConfigError::SsidTooLong.message(), "SSID too long");
    assert_eq!(WifiConfigError::PasswordTooLong.message(), "password too long");
}
