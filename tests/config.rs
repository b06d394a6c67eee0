use miou::config::{Matrix, TMars};

#[test]
fn normalize_url_drops_one_trailing_slash() {
    let mut tmars = TMars { url: "https://tm.example.com/".to_string(), server_id: "id".to_string(), polling_interval: 120 };
    tmars.normalize_url();
    assert_eq!(tmars.url, "https://tm.example.com");
    tmars.normalize_url();
    assert_eq!(tmars.url, "https://tm.example.com");
    assert_eq!(tmars.polling_interval, 120);
}

#[test]
fn credentials_copy_the_account() {
    let matrix = Matrix { user_id: "@miou:example.org".to_string(), password: "pw".to_string(), passphrase: "phrase".to_string() };
    let c = matrix.credentials();
    assert_eq!(c.user_id, "@miou:example.org");
    assert_eq!(c.password, "pw");
    assert_eq!(c.passphrase, "phrase");
}
