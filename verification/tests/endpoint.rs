use plyoreacto::endpoint::{
    decimal_text, rendezvous_port, Endpoint, LocalAddress, BASE_PORT, EGRESS_PORT, INGRESS_PORT,
};

#[test]
fn fixed_ports() {
    assert_eq!(BASE_PORT, 5000);
    assert_eq!(EGRESS_PORT, 5560);
    assert_eq!(INGRESS_PORT, 5559);
}

#[test]
fn rendezvous_port_is_base_plus_id() {
    assert_eq!(rendezvous_port(0), 5000);
    assert_eq!(rendezvous_port(1), 5001);
    assert_eq!(rendezvous_port(2), 5002);
    assert_eq!(rendezvous_port(3), 5003);
    assert_eq!(rendezvous_port(560), 5560);
}

#[test]
fn rendezvous_port_of_the_largest_id() {
    assert_eq!(rendezvous_port(u32::MAX), 4_294_972_295);
}

#[test]
fn decimal_text_of_small_and_large_numbers() {
    assert_eq!(decimal_text(0), "0");
    assert_eq!(decimal_text(7), "7");
    assert_eq!(decimal_text(9), "9");
    assert_eq!(decimal_text(10), "10");
    assert_eq!(decimal_text(99), "99");
    assert_eq!(decimal_text(100), "100");
    assert_eq!(decimal_text(5003), "5003");
    assert_eq!(decimal_text(1_234_567_890), "1234567890");
    assert_eq!(decimal_text(u64::MAX), "18446744073709551615");
}

#[test]
fn decimal_text_agrees_with_the_standard_rendering() {
    let mut n: u64 = 0;
    while n < 12_000 {
        assert_eq!(decimal_text(n), format!("{}", n));
        n += 1;
    }
}

#[test]
fn network_addresses() {
    assert_eq!(Endpoint::Tcp { port: EGRESS_PORT }.address(), "tcp://*:5560");
    assert_eq!(Endpoint::Tcp { port: INGRESS_PORT }.address(), "tcp://*:5559");
    assert_eq!(Endpoint::Tcp { port: 5000 }.address(), "tcp://*:5000");
    assert_eq!(Endpoint::Tcp { port: 0 }.address(), "tcp://*:0");
}

#[test]
fn local_addresses() {
    assert_eq!(Endpoint::Inproc(LocalAddress::Events).address(), "inproc://events");
    assert_eq!(Endpoint::Inproc(LocalAddress::Messages).address(), "inproc://messages");
    assert_eq!(
        Endpoint::Inproc(LocalAddress::Sync { port: 5003 }).address(),
        "inproc://sync-5003"
    );
    assert_eq!(Endpoint::Inproc(LocalAddress::Sync { port: 5000 }).address(), "inproc://sync-5000");
}

#[test]
fn rendezvous_pair_of_a_slot() {
    let (network, local) = Endpoint::rendezvous(3);
    assert_eq!(network, Endpoint::Tcp { port: 5003 });
    assert_eq!(local, Endpoint::Inproc(LocalAddress::Sync { port: 5003 }));
    assert_eq!(network.address(), "tcp://*:5003");
    assert_eq!(local.address(), "inproc://sync-5003");
}

#[test]
fn different_ids_meet_at_different_addresses() {
    let mut first: u32 = 0;
    while first < 40 {
        let mut second: u32 = first + 1;
        while second < 40 {
            let (net_a, local_a) = Endpoint::rendezvous(first);
            let (net_b, local_b) = Endpoint::rendezvous(second);
            assert_ne!(net_a.address(), net_b.address());
            assert_ne!(local_a.address(), local_b.address());
            second += 1;
        }
        first += 1;
    }
}
