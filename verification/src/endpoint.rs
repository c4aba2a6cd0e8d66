//! Ports and addresses of the broker's endpoints and of the rendezvous slots.

use vstd::prelude::*;

verus! {

/// Port of rendezvous slot 0; slot `id` listens on `BASE_PORT + id`.
pub const BASE_PORT: u64 = 5000;

/// Network port of the fan-out endpoint.
pub const EGRESS_PORT: u64 = 5560;

/// Network port of the fan-in endpoint.
pub const INGRESS_PORT: u64 = 5559;

/// The rendezvous port assigned to participant `id`.
pub open spec fn rendezvous_port_of(id: u32) -> u64 {
    (5000 + id) as u64
}

/// Computes the rendezvous port of participant `id`.
pub fn rendezvous_port(id: u32) -> (port: u64)
    ensures
        port == rendezvous_port_of(id),
        port == 5000 + id,
{
    BASE_PORT + id as u64
}

/// A name that only sockets of this process can reach.
#[derive(Clone, Copy, Debug, PartialEq, Eq, Hash, Structural)]
pub enum LocalAddress {
    /// The fan-out endpoint.
    Events,
    /// The fan-in endpoint.
    Messages,
    /// The rendezvous slot that listens on `port`.
    Sync { port: u64 },
}

/// An address a socket binds or connects to.
#[derive(Clone, Copy, Debug, PartialEq, Eq, Hash, Structural)]
pub enum Endpoint {
    /// Every network interface, on `port`.
    Tcp { port: u64 },
    /// Inside this process.
    Inproc(LocalAddress),
}

/// The character of the decimal digit `d`, for `d < 10`.
pub open spec fn digit(d: nat) -> char {
    if d == 0 {
        '0'
    } else if d == 1 {
        '1'
    } else if d == 2 {
        '2'
    } else if d == 3 {
        '3'
    } else if d == 4 {
        '4'
    } else if d == 5 {
        '5'
    } else if d == 6 {
        '6'
    } else if d == 7 {
        '7'
    } else if d == 8 {
        '8'
    } else {
        '9'
    }
}

/// The decimal numeral of `n`, without leading zeros.
pub open spec fn decimal(n: nat) -> Seq<char>
    decreases n,
{
    if n < 10 {
        seq![digit(n)]
    } else {
        decimal(n / 10).push(digit(n % 10))
    }
}

impl LocalAddress {
    /// The name as written behind `inproc://`.
    pub open spec fn spec_name(self) -> Seq<char> {
        match self {
            LocalAddress::Events => "events"@,
            LocalAddress::Messages => "messages"@,
            LocalAddress::Sync { port } => "sync-"@ + decimal(port as nat),
        }
    }
}

impl Endpoint {
    /// The address in the transport's notation.
    pub open spec fn spec_address(self) -> Seq<char> {
        match self {
            Endpoint::Tcp { port } => "tcp://*:"@ + decimal(port as nat),
            Endpoint::Inproc(local) => "inproc://"@ + local.spec_name(),
        }
    }

    /// Renders the address in the transport's notation.
    pub fn address(&self) -> (text: String)
        ensures
            text@ == self.spec_address(),
    {
        match self {
            Endpoint::Tcp { port } => {
                let mut text = String::from_str("tcp://*:");
                append_decimal(&mut text, *port);
                text
            },
            Endpoint::Inproc(LocalAddress::Events) => {
                let text = String::from_str("inproc://").concat("events");
                text
            },
            Endpoint::Inproc(LocalAddress::Messages) => {
                let text = String::from_str("inproc://").concat("messages");
                text
            },
            Endpoint::Inproc(LocalAddress::Sync { port }) => {
                let mut text = String::from_str("inproc://").concat("sync-");
                append_decimal(&mut text, *port);
                proof {
                    assert(text@ == "inproc://"@ + ("sync-"@ + decimal(*port as nat)));
                }
                text
            },
        }
    }

    /// The two addresses, network and local, of the rendezvous slot `id`.
    pub fn rendezvous(id: u32) -> (pair: (Endpoint, Endpoint))
        ensures
            pair.0 == (Endpoint::Tcp { port: rendezvous_port_of(id) }),
            pair.1 == Endpoint::Inproc(LocalAddress::Sync { port: rendezvous_port_of(id) }),
    {
        let port = rendezvous_port(id);
        (Endpoint::Tcp { port }, Endpoint::Inproc(LocalAddress::Sync { port }))
    }
}

/// A decimal numeral has at least one digit, and at least two from ten on.
pub proof fn lemma_decimal_length(n: nat)
    ensures
        decimal(n).len() >= 1,
        n >= 10 ==> decimal(n).len() >= 2,
    decreases n,
{
    if n >= 10 {
        lemma_decimal_length(n / 10);
    }
}

/// Different numbers have different decimal numerals.
pub proof fn lemma_decimal_injective(a: nat, b: nat)
    requires
        decimal(a) == decimal(b),
    ensures
        a == b,
    decreases a,
{
    lemma_decimal_length(a);
    lemma_decimal_length(b);
    if a < 10 && b < 10 {
        assert(decimal(a)[0] == digit(a));
        assert(decimal(b)[0] == digit(b));
    } else if a < 10 {
        assert(decimal(a).len() == 1);
    } else if b < 10 {
        assert(decimal(b).len() == 1);
    } else {
        let upper_a = decimal(a / 10);
        let upper_b = decimal(b / 10);
        assert(decimal(a).drop_last() =~= upper_a);
        assert(decimal(b).drop_last() =~= upper_b);
        assert(decimal(a).last() == digit(a % 10));
        assert(decimal(b).last() == digit(b % 10));
        lemma_decimal_injective(a / 10, b / 10);
        assert(a % 10 == b % 10);
        assert(a == 10 * (a / 10) + a % 10);
        assert(b == 10 * (b / 10) + b % 10);
    }
}

/// What follows a common beginning decides whether two texts are equal.
proof fn lemma_common_beginning(beginning: Seq<char>, a: Seq<char>, b: Seq<char>)
    requires
        beginning + a == beginning + b,
    ensures
        a == b,
{
    let whole_a = beginning + a;
    let whole_b = beginning + b;
    assert(whole_a.subrange(beginning.len() as int, whole_a.len() as int) =~= a);
    assert(whole_b.subrange(beginning.len() as int, whole_b.len() as int) =~= b);
}

/// Participants with different identifiers meet the barrier at different
/// addresses, on the network and inside the process.
pub proof fn lemma_rendezvous_addresses_distinct(first: u32, second: u32)
    requires
        first != second,
    ensures
        (Endpoint::Tcp { port: rendezvous_port_of(first) }).spec_address() != (Endpoint::Tcp {
            port: rendezvous_port_of(second),
        }).spec_address(),
        Endpoint::Inproc(LocalAddress::Sync { port: rendezvous_port_of(first) }).spec_address()
            != Endpoint::Inproc(
            LocalAddress::Sync { port: rendezvous_port_of(second) },
        ).spec_address(),
{
    let port_a = rendezvous_port_of(first) as nat;
    let port_b = rendezvous_port_of(second) as nat;
    let a = decimal(port_a);
    let b = decimal(port_b);
    if a == b {
        lemma_decimal_injective(port_a, port_b);
    }
    if "tcp://*:"@ + a == "tcp://*:"@ + b {
        lemma_common_beginning("tcp://*:"@, a, b);
    }
    if "inproc://"@ + ("sync-"@ + a) == "inproc://"@ + ("sync-"@ + b) {
        lemma_common_beginning("inproc://"@, "sync-"@ + a, "sync-"@ + b);
        lemma_common_beginning("sync-"@, a, b);
    }
}

/// The one-character text of the decimal digit `d`.
fn digit_text(d: u64) -> (text: &'static str)
    requires
        d < 10,
    ensures
        text@ == seq![digit(d as nat)],
{
    proof {
        reveal_strlit("0");
        reveal_strlit("1");
        reveal_strlit("2");
        reveal_strlit("3");
        reveal_strlit("4");
        reveal_strlit("5");
        reveal_strlit("6");
        reveal_strlit("7");
        reveal_strlit("8");
        reveal_strlit("9");
    }
    let text = if d == 0 {
        "0"
    } else if d == 1 {
        "1"
    } else if d == 2 {
        "2"
    } else if d == 3 {
        "3"
    } else if d == 4 {
        "4"
    } else if d == 5 {
        "5"
    } else if d == 6 {
        "6"
    } else if d == 7 {
        "7"
    } else if d == 8 {
        "8"
    } else {
        "9"
    };
    assert(text@ =~= seq![digit(d as nat)]);
    text
}

/// Appends the decimal numeral of `n` to `text`.
fn append_decimal(text: &mut String, n: u64)
    ensures
        final(text)@ == old(text)@ + decimal(n as nat),
    decreases n,
{
    if n >= 10 {
        append_decimal(text, n / 10);
    }
    text.append(digit_text(n % 10));
    proof {
        if n >= 10 {
            assert(old(text)@ + decimal((n / 10) as nat) + seq![digit((n % 10) as nat)]
                =~= old(text)@ + decimal((n / 10) as nat).push(digit((n % 10) as nat)));
        }
    }
}

/// Renders `n` as a decimal numeral.
pub fn decimal_text(n: u64) -> (text: String)
    ensures
        text@ == decimal(n as nat),
{
    let mut text = String::new();
    append_decimal(&mut text, n);
    assert(Seq::<char>::empty() + decimal(n as nat) =~= decimal(n as nat));
    text
}

} // verus!
