use wifi_qr_code_generator::field::{could_be_ascii_hex, escape_field_value};
use wifi_qr_code_generator::{EapMethod, Field, GenerationError, Phase2, Wifi, WifiMethod};

#[test]
fn wpa_with_password() {
    let wifi = Wifi::new("MyNet".to_string())
        .with_method(Some(WifiMethod::Wpa))
        .with_password(Some("secret".to_string()));
    assert_eq!(wifi.to_string(), "WIFI:T:WPA;S:MyNet;P:secret;;");
}

#[test]
fn hidden_open_network() {
    let wifi = Wifi::new("Guest".to_string())
        .with_method(Some(WifiMethod::NoPass))
        .with_hidden(true);
    assert_eq!(wifi.to_string(), "WIFI:T:nopass;S:Guest;H:true;;");
}

#[test]
fn wpa3_adds_transition_flag() {
    let wifi = Wifi::new("Corp".to_string()).with_method(Some(WifiMethod::Wpa3));
    assert_eq!(wifi.to_string(), "WIFI:T:WPA;R:1;S:Corp;;");
}

#[test]
fn ssid_semicolon_escaped() {
    let wifi = Wifi::new("a;b".to_string());
    assert_eq!(wifi.to_string(), r"WIFI:S:a\;b;;");
}

#[test]
fn oversized_payload_is_a_qr_error() {
    let wifi = Wifi::new("x".repeat(5000)).with_password(Some("y".repeat(5000)));
    assert!(matches!(wifi.qr_code(), Err(GenerationError::QrError(_))));
}

#[test]
fn small_payload_makes_a_qr_code() {
    let wifi = Wifi::new("MyNet".to_string()).with_method(Some(WifiMethod::Wpa));
    assert!(wifi.qr_code().is_ok());
}

#[test]
fn payload_frame_with_only_ssid() {
    let s = Wifi::new("n".to_string()).to_string();
    assert!(s.starts_with("WIFI:"));
    assert!(s.ends_with(";;"));
    assert_eq!(s, "WIFI:S:n;;");
}

#[test]
fn empty_ssid_is_quoted() {
    assert_eq!(Wifi::new(String::new()).to_string(), "WIFI:S:\"\";;");
}

#[test]
fn escapes_every_special_character() {
    assert_eq!(escape_field_value(r#"a\b;c,d"e:f"#), r#"a\\b\;c\,d\"e\:f"#);
    assert_eq!(escape_field_value(r"\;"), r"\\\;");
}

#[test]
fn escape_round_trip_by_hand() {
    let original = r#"p\a;s,s"w:d"#;
    let escaped = escape_field_value(original);
    let mut back = String::new();
    let mut chars = escaped.chars();
    while let Some(c) = chars.next() {
        if c == '\\' {
            back.push(chars.next().unwrap());
        } else {
            back.push(c);
        }
    }
    assert_eq!(back, original);
}

#[test]
fn quoting_of_hex_like_values() {
    assert_eq!(escape_field_value(""), "\"\"");
    assert_eq!(escape_field_value("0123abcdef"), "\"0123abcdef\"");
    assert_eq!(escape_field_value("ABC"), "ABC");
    assert_eq!(escape_field_value("abcg"), "abcg");
    assert_eq!(escape_field_value("ab:cd"), r"ab\:cd");
}

#[test]
fn hex_detection() {
    assert!(could_be_ascii_hex(""));
    assert!(could_be_ascii_hex("deadbeef09"));
    assert!(!could_be_ascii_hex("DEADBEEF"));
    assert!(!could_be_ascii_hex("xyz"));
}

#[test]
fn wpa_and_wpa3_share_the_kind_field() {
    let wpa = Wifi::new("N".to_string()).with_method(Some(WifiMethod::Wpa)).to_string();
    let wpa3 = Wifi::new("N".to_string()).with_method(Some(WifiMethod::Wpa3)).to_string();
    assert!(wpa.starts_with("WIFI:T:WPA;"));
    assert!(wpa3.starts_with("WIFI:T:WPA;"));
    assert!(!wpa.contains("R:1;"));
    assert!(wpa3.contains("R:1;"));
    assert_eq!(wpa, Wifi::new("N".to_string()).with_method(Some(WifiMethod::Wpa)).to_string());
}

#[test]
fn kind_names() {
    let t = |m: WifiMethod| Wifi::new("N".to_string()).with_method(Some(m)).to_string();
    assert_eq!(t(WifiMethod::NoPass), "WIFI:T:nopass;S:N;;");
    assert_eq!(t(WifiMethod::Wep), "WIFI:T:WEP;S:N;;");
    assert_eq!(t(WifiMethod::Wpa2Enterprise), "WIFI:T:WPA2-EAP;S:N;;");
}

#[test]
fn enterprise_fields_in_order() {
    let wifi = Wifi::new("Corp".to_string())
        .with_method(Some(WifiMethod::Wpa2Enterprise))
        .with_hidden(true)
        .with_eap_method(Some(EapMethod::Peap))
        .with_phase2(Some(Phase2::MsChapV2))
        .with_anonymous_identity(Some("anon".to_string()))
        .with_identity(Some("user".to_string()))
        .with_password(Some("pw".to_string()))
        .with_public_key(Some(vec![104, 105]));
    assert_eq!(
        wifi.to_string(),
        "WIFI:T:WPA2-EAP;S:Corp;H:true;E:PEAP;PH2:MSCHAPV2;A:anon;I:user;P:pw;K:aGk=;;"
    );
    assert_eq!(wifi.expected_field_count(), 9);
    assert_eq!(wifi.fields().len(), 9);
}

#[test]
fn eap_and_phase2_names() {
    let e = |m: EapMethod| Wifi::new("N".to_string()).with_eap_method(Some(m)).to_string();
    assert_eq!(e(EapMethod::AkaPrime), "WIFI:S:N;E:AKA_PRIME;;");
    assert_eq!(e(EapMethod::Tls), "WIFI:S:N;E:TLS;;");
    let p = |m: Phase2| Wifi::new("N".to_string()).with_phase2(Some(m)).to_string();
    assert_eq!(p(Phase2::Gtc), "WIFI:S:N;PH2:GTC;;");
    assert_eq!(p(Phase2::MsChap), "WIFI:S:N;PH2:MSCHAP;;");
}

#[test]
fn absent_fields_are_omitted() {
    let wifi = Wifi::new("N".to_string())
        .with_hidden(false)
        .with_password(None)
        .with_identity(None);
    assert_eq!(wifi.to_string(), "WIFI:S:N;;");
    assert_eq!(wifi.expected_field_count(), 1);
    let wpa3 = Wifi::new("N".to_string()).with_method(Some(WifiMethod::Wpa3));
    assert_eq!(wpa3.expected_field_count(), 3);
}

#[test]
fn public_key_in_base64() {
    let f = Field::new_base64("K", &[1, 2, 3, 4]);
    assert_eq!(f.to_string(), "K:AQIDBA==;");
}

#[test]
fn hex_field_without_leading_zero() {
    assert_eq!(Field::new_hex("R", &[1]).to_string(), "R:1;");
    assert_eq!(Field::new_hex("R", &[0xab, 0x05]).to_string(), "R:ab5;");
}

#[test]
fn string_field_renders_escaped() {
    assert_eq!(Field::new_string("P", "a,b").to_string(), r"P:a\,b;");
}
