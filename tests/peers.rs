use ledger_node::args::{parse_port, parse_ports, Args};
use ledger_node::peers::{get_all_peers, sync_targets, LOOPBACK};
use ledger_node::types::PeerAddr;
use ledger_node::wallets::get_wallets;

#[test]
fn default_peers_skip_self() {
    let me = PeerAddr::new(127, 0, 0, 1, 4002);
    let ps = get_all_peers(&vec![], Some(me), None);
    let ports: Vec<u16> = ps.iter().map(|p| p.port).collect();
    assert_eq!(ports, vec![4000, 4001, 4003, 4004]);
    assert!(ps.iter().all(|p| p.ip == LOOPBACK));
}

#[test]
fn defaults_on_given_address() {
    let ps = get_all_peers(&vec![], None, Some(0));
    assert_eq!(ps.len(), 5);
    assert!(ps.iter().all(|p| p.ip == 0));
}

#[test]
fn configured_peers_are_used() {
    let a = PeerAddr::new(10, 0, 0, 1, 5000);
    let b = PeerAddr::new(10, 0, 0, 2, 5001);
    assert_eq!(get_all_peers(&vec![a, b], Some(a), None), vec![b]);
    assert_eq!(get_all_peers(&vec![a, b], None, None), vec![a, b]);
}

#[test]
fn sync_target_choice() {
    let a = PeerAddr::new(10, 0, 0, 1, 5000);
    let r = PeerAddr::new(10, 0, 0, 9, 5009);
    assert_eq!(sync_targets(&vec![], r), vec![r]);
    assert_eq!(sync_targets(&vec![a], r), vec![a]);
}

#[test]
fn peer_addr_octets() {
    let a = PeerAddr::new(192, 168, 1, 20, 80);
    assert_eq!(a.ip, 0xc0a80114);
    assert_eq!(a.octets(), (192, 168, 1, 20));
}

#[test]
fn ports_are_parsed() {
    assert_eq!(parse_ports("4001,4002"), Some(vec![4001, 4002]));
    assert_eq!(parse_ports("+80"), Some(vec![80]));
    assert_eq!(parse_ports("65535"), Some(vec![65535]));
    assert_eq!(parse_ports("65536"), None);
    assert_eq!(parse_ports("4001,"), None);
    assert_eq!(parse_ports(""), None);
    assert_eq!(parse_ports("40a1"), None);
    assert_eq!(parse_ports("99999999999"), None);
    assert_eq!(parse_port(&b"+".to_vec()), None);
    assert_eq!(parse_port(&b"007".to_vec()), Some(7));
}

#[test]
fn args_peer_ports() {
    let args = Args {
        flag_peers: vec!["4001,4003".to_string()],
        arg_ports: vec![],
        cmd_broadcast: true,
        cmd_mine: false,
    };
    assert_eq!(args.peer_ports(), Some(vec![4001, 4003]));
    let bad = Args { flag_peers: vec!["x".to_string()], arg_ports: vec![], cmd_broadcast: false, cmd_mine: true };
    assert_eq!(bad.peer_ports(), None);
    let none = Args { flag_peers: vec![], arg_ports: vec![9], cmd_broadcast: false, cmd_mine: true };
    assert_eq!(none.peer_ports(), Some(vec![9]));
}

#[test]
fn wallets_in_order() {
    assert_eq!(get_wallets(false, 0), ('A', 'B'));
    assert_eq!(get_wallets(false, 12), ('M', 'A'));
    assert_eq!(get_wallets(false, 14), ('B', 'C'));
}

#[test]
fn shuffled_wallets_stay_in_alphabet() {
    for i in 0..50 {
        let (a, b) = get_wallets(true, i);
        assert!(('A'..='M').contains(&a));
        assert!(('A'..='M').contains(&b));
        assert_ne!(a, b);
    }
}

#[test]
fn shuffled_wallets_vary() {
    let mut seen_other = false;
    for _ in 0..50 {
        if get_wallets(true, 0) != ('A', 'B') {
            seen_other = true;
        }
    }
    assert!(seen_other);
}
