use ledger_node::codec::encode_block;
use ledger_node::digest::has_leading_zeros;
use ledger_node::types::Tx;

#[test]
fn encodes_empty_block() {
    let out = encode_block(1, 0, &String::new(), &vec![], 0);
    assert_eq!(String::from_utf8(out).unwrap(), r#"{"id":1,"nonce":0,"hash":"","prev":"","txs":[],"ms":0}"#);
}

#[test]
fn encodes_transactions_and_escapes_strings() {
    let txs = vec![
        Tx { from: 'A', to: 'B', amount: -5, fee: 123 },
        Tx { from: '"', to: 'é', amount: 2147483647, fee: 0 },
    ];
    let prev = "a\\b\n\u{1}".to_string();
    let out = encode_block(65535, 18446744073709551615, &prev, &txs, 340282366920938463463374607431768211455);
    let expected = [
        r#"{"id":65535,"nonce":18446744073709551615,"hash":"","prev":"a\\b\n\u0001","#,
        r#""txs":[{"from":"A","to":"B","amount":-5,"fee":123},"#,
        r#"{"from":"\"","to":"é","amount":2147483647,"fee":0}],"#,
        r#""ms":340282366920938463463374607431768211455}"#,
    ]
    .concat();
    assert_eq!(String::from_utf8(out).unwrap(), expected);
}

#[test]
fn encodes_smallest_amount() {
    let txs = vec![Tx { from: 'Z', to: '\u{1F600}', amount: i32::MIN, fee: 10 }];
    let out = encode_block(0, 10, &String::new(), &txs, 100);
    assert_eq!(
        String::from_utf8(out).unwrap(),
        "{\"id\":0,\"nonce\":10,\"hash\":\"\",\"prev\":\"\",\"txs\":[{\"from\":\"Z\",\"to\":\"\u{1F600}\",\"amount\":-2147483648,\"fee\":10}],\"ms\":100}"
    );
}

#[test]
fn leading_zero_check() {
    let h: Vec<char> = "00a1".chars().collect();
    assert!(has_leading_zeros(&h, 0));
    assert!(has_leading_zeros(&h, 2));
    assert!(!has_leading_zeros(&h, 3));
    assert!(!has_leading_zeros(&h, 5));
}

#[test]
fn hex_rendering_drops_leading_zero_of_each_byte() {
    let (s, v) = ledger_node::digest::render_hex(&vec![0x00, 0x0b, 0xe5, 0x10]);
    assert_eq!(s, "0be510");
    assert_eq!(v, vec!['0', 'b', 'e', '5', '1', '0']);
}
