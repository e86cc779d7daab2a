use cardsync::{SyncError, extract_md5};

#[test]
fn extract_md5_finds_token_in_callback_body() {
    let body = r#"/**/ typeof gu === 'function' && gu("bd6f1e3351eb85b16ec2fc2ac86b6be2")"#;
    let result = extract_md5(body).unwrap();
    assert_eq!(result, "bd6f1e3351eb85b16ec2fc2ac86b6be2".to_string());
}

#[test]
fn extract_md5_fails_without_token() {
    let body = "MD5 checksum not found in response";
    let result = extract_md5(body);
    assert_eq!(result, Err(SyncError::NotFound));
    assert_eq!(
        result.unwrap_err().message(),
        "MD5 checksum not found in response"
    );
}

#[test]
fn extract_md5_empty_body() {
    assert_eq!(extract_md5(""), Err(SyncError::NotFound));
}

#[test]
fn extract_md5_exact_length_body() {
    let token = "0123456789abcdef0123456789ABCDEF";
    assert_eq!(extract_md5(token), Ok(token.to_string()));
    assert_eq!(
        extract_md5("0123456789abcdef0123456789ABCDE"),
        Err(SyncError::NotFound)
    );
}

#[test]
fn extract_md5_takes_first_token() {
    let body = "x ffffffffffffffffffffffffffffffff then aaaaaaaaaaaaaaaaaaaaaaaaaaaaaaaa";
    assert_eq!(
        extract_md5(body),
        Ok("ffffffffffffffffffffffffffffffff".to_string())
    );
}

#[test]
fn extract_md5_takes_first_window_of_longer_run() {
    // 34 hex characters: the scan returns the leftmost 32 of them.
    let body = "zz123456789abcdef0123456789abcdef012 tail";
    assert_eq!(
        extract_md5(body),
        Ok("123456789abcdef0123456789abcdef0".to_string())
    );
}

#[test]
fn extract_md5_rejects_interrupted_run() {
    // 16 hex characters, a separator, 16 more: no run of 32.
    let body = "0123456789abcdef-0123456789abcdef";
    assert_eq!(extract_md5(body), Err(SyncError::NotFound));
}
