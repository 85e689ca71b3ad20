use signal_stream::options::SignalStreamOptions;
use signal_stream::proxy::{skips_cert_verify, Environment};

fn environment(skip: Option<&str>) -> Environment {
    Environment {
        skip_cert_verify: skip.map(str::to_owned),
        https_proxy: None,
        https_proxy_lower: None,
        http_proxy: None,
        http_proxy_lower: None,
    }
}

#[test]
fn new_options_verify_certificates() {
    assert!(!SignalStreamOptions::new().skip_cert_verify);
}

#[test]
fn default_options_skip_verification() {
    assert!(SignalStreamOptions::default().skip_cert_verify);
}

#[test]
fn with_skip_cert_verify_sets_the_option() {
    assert!(SignalStreamOptions::new().with_skip_cert_verify(true).skip_cert_verify);
    assert!(!SignalStreamOptions::default().with_skip_cert_verify(false).skip_cert_verify);
    assert!(SignalStreamOptions::new().with_skip_cert_verify(true).clone().skip_cert_verify);
}

#[test]
fn environment_can_skip_verification() {
    let options = SignalStreamOptions::new();
    for yes in ["1", "true", "TRUE", "TrUe"] {
        assert!(skips_cert_verify(&options, &environment(Some(yes))), "{}", yes);
    }
    for no in ["", "0", "yes", "true ", "11", "tru", "ſtrue"] {
        assert!(!skips_cert_verify(&options, &environment(Some(no))), "{}", no);
    }
    assert!(!skips_cert_verify(&options, &environment(None)));
}

#[test]
fn options_skip_whatever_the_environment_says() {
    let options = SignalStreamOptions::new().with_skip_cert_verify(true);
    assert!(skips_cert_verify(&options, &environment(None)));
    assert!(skips_cert_verify(&options, &environment(Some("0"))));
}
