use hbproxy::ids::{fresh_xid, random_token};

#[test]
fn tokens_are_fresh_alnum() {
    let t = random_token(32);
    assert_eq!(t.len(), 32);
    assert!(t.bytes().all(|b| b.is_ascii_alphanumeric()));
    let u = random_token(32);
    assert_ne!(t, u);
    assert_eq!(random_token(0).len(), 0);
    assert_eq!(random_token(5).len(), 5);
}

#[test]
fn xids_are_base32hex() {
    let a = fresh_xid();
    assert_eq!(a.len(), 20);
    assert!(a.bytes().all(|b| (b'0'..=b'9').contains(&b) || (b'a'..=b'v').contains(&b)));
    let b = fresh_xid();
    assert_ne!(a, b);
}
