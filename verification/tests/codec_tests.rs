use hbproxy::codec::{decode_conn_req, decode_frame, encode_conn_req, encode_frame, ConnReq,
    Message};

fn heart() -> Message {
    Message { control: 0, cmds: Some(b"heart".to_vec()), heads: None, bodys: None }
}

#[test]
fn frame_roundtrip_heartbeat() {
    let m = heart();
    let bytes = encode_frame(&m);
    assert_eq!(bytes.len(), 16 + 5);
    assert_eq!(&bytes[..4], &[0, 0, 0, 0]);
    assert_eq!(&bytes[4..8], &[0, 0, 0, 5]);
    assert_eq!(&bytes[16..], b"heart");
    let back = decode_frame(&bytes).expect("whole frame");
    assert_eq!(back.control, 0);
    assert_eq!(back.cmds.as_deref(), Some(&b"heart"[..]));
    assert!(back.heads.is_none());
    assert!(back.bodys.is_none());
}

#[test]
fn frame_roundtrip_with_body() {
    let m = Message {
        control: 1,
        cmds: None,
        heads: Some(vec![1, 2, 3]),
        bodys: Some(vec![9; 1000]),
    };
    let bytes = encode_frame(&m);
    let back = decode_frame(&bytes).expect("whole frame");
    assert_eq!(back.control, 1);
    assert!(back.cmds.is_none());
    assert_eq!(back.heads, Some(vec![1, 2, 3]));
    assert_eq!(back.bodys, Some(vec![9; 1000]));
}

#[test]
fn frame_malformed() {
    // Too short for a header.
    assert!(decode_frame(&vec![0; 15]).is_none());
    // A section length over its limit.
    let mut long_cmd = vec![0u8; 16];
    long_cmd[6] = 0x04;
    long_cmd[7] = 0x01; // cmd_len = 1025 > 1024
    assert!(decode_frame(&long_cmd).is_none());
    // Trailing garbage after a complete frame.
    let mut bytes = encode_frame(&heart());
    bytes.push(0);
    assert!(decode_frame(&bytes).is_none());
    // A missing section byte.
    let mut bytes = encode_frame(&heart());
    bytes.pop();
    assert!(decode_frame(&bytes).is_none());
}

#[test]
fn conn_req_roundtrip() {
    let req = ConnReq {
        name: b"edge1".to_vec(),
        xids: b"abc123-80xxxxx".to_vec(),
        host: Some(b"127.0.0.1".to_vec()),
        port: 80,
    };
    let bytes = encode_conn_req(&req);
    let back = decode_conn_req(&bytes).expect("body parses");
    assert_eq!(back.name, b"edge1".to_vec());
    assert_eq!(back.xids, b"abc123-80xxxxx".to_vec());
    assert_eq!(back.host, Some(b"127.0.0.1".to_vec()));
    assert_eq!(back.port, 80);
}

#[test]
fn conn_req_roundtrip_no_host() {
    let req = ConnReq { name: b"n".to_vec(), xids: b"x".to_vec(), host: None, port: 65535 };
    let bytes = encode_conn_req(&req);
    let back = decode_conn_req(&bytes).expect("body parses");
    assert_eq!(back.name, b"n".to_vec());
    assert!(back.host.is_none());
    assert_eq!(back.port, 65535);
}

#[test]
fn conn_req_malformed() {
    assert!(decode_conn_req(&vec![0; 10]).is_none());
    let req = ConnReq { name: b"n".to_vec(), xids: b"x".to_vec(), host: None, port: 1 };
    let mut bytes = encode_conn_req(&req);
    // A flag byte besides 0 and 1.
    bytes[4] = 2;
    assert!(decode_conn_req(&bytes).is_none());
    // A host length without the host flag.
    let mut bytes2 = encode_conn_req(&req);
    bytes2[6] = 1;
    assert!(decode_conn_req(&bytes2).is_none());
}
