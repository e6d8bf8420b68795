use rust_terminal::collab::client_listed;
use rust_terminal::pump::error_frame;
use rust_terminal::web::{access_addresses, is_image_type, mime_for, same_text, upload_extension};

#[test]
fn addresses_from_ifconfig() {
    let out = "lo0: flags=8049<UP>\n\tinet 127.0.0.1 netmask 0xff000000\n\tinet6 ::1 prefixlen 128\nen0: flags\n\tinet 192.168.1.20 netmask 0xffffff00 broadcast 192.168.1.255\n  inet 10.0.0.5/24\ninet\n";
    assert_eq!(access_addresses(out), vec!["192.168.1.20".to_string(), "10.0.0.5/24".to_string()]);
    assert!(access_addresses("").is_empty());
}

#[test]
fn mime_types() {
    assert_eq!(mime_for(Some("html")), "text/html; charset=utf-8");
    assert_eq!(mime_for(Some("js")), "application/javascript; charset=utf-8");
    assert_eq!(mime_for(Some("jpeg")), "image/jpeg");
    assert_eq!(mime_for(Some("jpg")), "image/jpeg");
    assert_eq!(mime_for(Some("woff2")), "font/woff2");
    assert_eq!(mime_for(Some("HTML")), "application/octet-stream");
    assert_eq!(mime_for(None), "application/octet-stream");
}

#[test]
fn upload_types() {
    assert!(is_image_type("image/png"));
    assert!(!is_image_type("text/plain"));
    assert!(!is_image_type("image"));
    assert_eq!(upload_extension("image/jpeg"), "jpg");
    assert_eq!(upload_extension("image/jpg"), "jpg");
    assert_eq!(upload_extension("image/gif"), "gif");
    assert_eq!(upload_extension("image/webp"), "webp");
    assert_eq!(upload_extension("image/png"), "png");
    assert_eq!(upload_extension("image/bmp"), "png");
}

#[test]
fn client_list_check() {
    let out = Ok("/dev/pts/3\n/dev/pts/17\n".to_string());
    assert!(client_listed(&out, "/dev/pts/3"));
    assert!(client_listed(&out, "/dev/pts/17"));
    assert!(!client_listed(&out, "/dev/pts/9"));
    assert!(client_listed(&Err("no server".to_string()), "/dev/pts/9"));
}

#[test]
fn pty_error_frame() {
    assert_eq!(error_frame("Failed to open PTY: x"), b"0Error: Failed to open PTY: x\r\n".to_vec());
    assert!(same_text("a", "a"));
    assert!(!same_text("a", "b"));
}
