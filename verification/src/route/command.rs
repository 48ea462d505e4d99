//! The commands that change routes and filters.

use crate::net::Ipv4Addr;
use crate::text;
use vstd::prelude::*;

verus! {

/// The chain of the kill switch.
pub const KS_CHAIN: &'static str = "SOULVPN_KS";

/// One half of an address space. The two together cover all of it, and each is
/// more specific than a default route.
#[derive(Debug, Clone, Copy, PartialEq, Eq, Structural)]
pub enum Half {
    Lower,
    Upper,
}

impl Half {
    /// The half of the IPv4 addresses.
    pub open spec fn v4_name(self) -> Seq<char> {
        match self {
            Half::Lower => "0.0.0.0/1"@,
            Half::Upper => "128.0.0.0/1"@,
        }
    }

    /// The half of the IPv6 addresses.
    pub open spec fn v6_name(self) -> Seq<char> {
        match self {
            Half::Lower => "::/1"@,
            Half::Upper => "8000::/1"@,
        }
    }

    /// The half of the IPv4 addresses.
    pub fn v4(self) -> (r: &'static str)
        ensures
            r@ == self.v4_name(),
    {
        match self {
            Half::Lower => "0.0.0.0/1",
            Half::Upper => "128.0.0.0/1",
        }
    }

    /// The half of the IPv6 addresses.
    pub fn v6(self) -> (r: &'static str)
        ensures
            r@ == self.v6_name(),
    {
        match self {
            Half::Lower => "::/1",
            Half::Upper => "8000::/1",
        }
    }
}

/// A command.
#[derive(Debug)]
pub enum Command {
    /// Route one host through a gateway.
    ReplaceHostRoute { host: Ipv4Addr, gateway: Ipv4Addr, dev: String },
    /// Take that route away.
    DeleteHostRoute { host: Ipv4Addr, gateway: Ipv4Addr, dev: String },
    /// Route half of IPv4 through a device.
    ReplaceHalf { half: Half, dev: String },
    /// Take that route away.
    DeleteHalf { half: Half, dev: String },
    /// Drop half of IPv6.
    ReplaceBlackhole { half: Half },
    /// Take that route away.
    DeleteBlackhole { half: Half },
    /// Ask for the MASQUERADE rule.
    CheckMasquerade { cidr: String, egress: String },
    /// Append the MASQUERADE rule.
    AppendMasquerade { cidr: String, egress: String },
    /// Take the MASQUERADE rule away.
    DeleteMasquerade { cidr: String, egress: String },
    /// Make the kill switch's chain.
    NewChain,
    /// Empty the chain.
    FlushChain,
    /// Take the empty chain away.
    DeleteChain,
    /// Let packets out through the loopback device.
    ReturnLoopback,
    /// Let packets out through a device.
    ReturnOut { dev: String },
    /// Let packets to the VPN server out.
    ReturnServer { ip: Ipv4Addr, port: u16 },
    /// Let replies out.
    ReturnConntrack,
    /// Let replies out, on systems without the conntrack match.
    ReturnState,
    /// Reject the rest.
    RejectRest,
    /// Ask for the jump into the chain.
    CheckJump,
    /// Send all output through the chain first.
    InsertJump,
    /// Take the jump away.
    DeleteJump,
}

impl Command {
    /// The program and its arguments.
    pub open spec fn words(self) -> Seq<Seq<char>> {
        match self {
            Command::ReplaceHostRoute { host, gateway, dev } => seq![
                "ip"@,
                "route"@,
                "replace"@,
                host.dotted(),
                "via"@,
                gateway.dotted(),
                "dev"@,
                dev@,
            ],
            Command::DeleteHostRoute { host, gateway, dev } => seq![
                "ip"@,
                "route"@,
                "del"@,
                host.dotted(),
                "via"@,
                gateway.dotted(),
                "dev"@,
                dev@,
            ],
            Command::ReplaceHalf { half, dev } => seq![
                "ip"@,
                "route"@,
                "replace"@,
                half.v4_name(),
                "dev"@,
                dev@,
            ],
            Command::DeleteHalf { half, dev } => seq![
                "ip"@,
                "route"@,
                "del"@,
                half.v4_name(),
                "dev"@,
                dev@,
            ],
            Command::ReplaceBlackhole { half } => seq![
                "ip"@,
                "-6"@,
                "route"@,
                "replace"@,
                "blackhole"@,
                half.v6_name(),
            ],
            Command::DeleteBlackhole { half } => seq![
                "ip"@,
                "-6"@,
                "route"@,
                "del"@,
                "blackhole"@,
                half.v6_name(),
            ],
            Command::CheckMasquerade { cidr, egress } => masquerade("-C"@, cidr@, egress@),
            Command::AppendMasquerade { cidr, egress } => masquerade("-A"@, cidr@, egress@),
            Command::DeleteMasquerade { cidr, egress } => masquerade("-D"@, cidr@, egress@),
            Command::NewChain => seq!["iptables"@, "-N"@, KS_CHAIN@],
            Command::FlushChain => seq!["iptables"@, "-F"@, KS_CHAIN@],
            Command::DeleteChain => seq!["iptables"@, "-X"@, KS_CHAIN@],
            Command::ReturnLoopback => seq![
                "iptables"@,
                "-A"@,
                KS_CHAIN@,
                "-o"@,
                "lo"@,
                "-j"@,
                "RETURN"@,
            ],
            Command::ReturnOut { dev } => seq![
                "iptables"@,
                "-A"@,
                KS_CHAIN@,
                "-o"@,
                dev@,
                "-j"@,
                "RETURN"@,
            ],
            Command::ReturnServer { ip, port } => seq![
                "iptables"@,
                "-A"@,
                KS_CHAIN@,
                "-d"@,
                ip.dotted(),
                "-p"@,
                "udp"@,
                "--dport"@,
                text::decimal(port as nat),
                "-j"@,
                "RETURN"@,
            ],
            Command::ReturnConntrack => seq![
                "iptables"@,
                "-A"@,
                KS_CHAIN@,
                "-m"@,
                "conntrack"@,
                "--ctstate"@,
                "ESTABLISHED,RELATED"@,
                "-j"@,
                "RETURN"@,
            ],
            Command::ReturnState => seq![
                "iptables"@,
                "-A"@,
                KS_CHAIN@,
                "-m"@,
                "state"@,
                "--state"@,
                "ESTABLISHED,RELATED"@,
                "-j"@,
                "RETURN"@,
            ],
            Command::RejectRest => seq![
                "iptables"@,
                "-A"@,
                KS_CHAIN@,
                "-j"@,
                "REJECT"@,
                "--reject-with"@,
                "icmp-net-unreachable"@,
            ],
            Command::CheckJump => seq!["iptables"@, "-C"@, "OUTPUT"@, "-j"@, KS_CHAIN@],
            Command::InsertJump => seq!["iptables"@, "-I"@, "OUTPUT"@, "1"@, "-j"@, KS_CHAIN@],
            Command::DeleteJump => seq!["iptables"@, "-D"@, "OUTPUT"@, "-j"@, KS_CHAIN@],
        }
    }

    /// The program and its arguments.
    pub fn argv(&self) -> (r: Vec<String>)
        ensures
            text::views(r@) == self.words(),
    {
        let r: Vec<String> = match self {
            Command::ReplaceHostRoute { host, gateway, dev } => host_route(
                "replace",
                *host,
                *gateway,
                dev,
            ),
            Command::DeleteHostRoute { host, gateway, dev } => host_route(
                "del",
                *host,
                *gateway,
                dev,
            ),
            Command::ReplaceHalf { half, dev } => owned(
                &["ip", "route", "replace", half.v4(), "dev", dev.as_str()],
            ),
            Command::DeleteHalf { half, dev } => owned(
                &["ip", "route", "del", half.v4(), "dev", dev.as_str()],
            ),
            Command::ReplaceBlackhole { half } => owned(
                &["ip", "-6", "route", "replace", "blackhole", half.v6()],
            ),
            Command::DeleteBlackhole { half } => owned(
                &["ip", "-6", "route", "del", "blackhole", half.v6()],
            ),
            Command::CheckMasquerade { cidr, egress } => masquerade_rule("-C", cidr, egress),
            Command::AppendMasquerade { cidr, egress } => masquerade_rule("-A", cidr, egress),
            Command::DeleteMasquerade { cidr, egress } => masquerade_rule("-D", cidr, egress),
            Command::NewChain => owned(&["iptables", "-N", KS_CHAIN]),
            Command::FlushChain => owned(&["iptables", "-F", KS_CHAIN]),
            Command::DeleteChain => owned(&["iptables", "-X", KS_CHAIN]),
            Command::ReturnLoopback => owned(
                &["iptables", "-A", KS_CHAIN, "-o", "lo", "-j", "RETURN"],
            ),
            Command::ReturnOut { dev } => owned(
                &["iptables", "-A", KS_CHAIN, "-o", dev.as_str(), "-j", "RETURN"],
            ),
            Command::ReturnServer { ip, port } => {
                let ip: String = ip.to_text();
                let port: String = text::to_decimal(*port as u64);
                owned(
                    &[
                        "iptables",
                        "-A",
                        KS_CHAIN,
                        "-d",
                        ip.as_str(),
                        "-p",
                        "udp",
                        "--dport",
                        port.as_str(),
                        "-j",
                        "RETURN",
                    ],
                )
            },
            Command::ReturnConntrack => owned(
                &[
                    "iptables",
                    "-A",
                    KS_CHAIN,
                    "-m",
                    "conntrack",
                    "--ctstate",
                    "ESTABLISHED,RELATED",
                    "-j",
                    "RETURN",
                ],
            ),
            Command::ReturnState => owned(
                &[
                    "iptables",
                    "-A",
                    KS_CHAIN,
                    "-m",
                    "state",
                    "--state",
                    "ESTABLISHED,RELATED",
                    "-j",
                    "RETURN",
                ],
            ),
            Command::RejectRest => owned(
                &[
                    "iptables",
                    "-A",
                    KS_CHAIN,
                    "-j",
                    "REJECT",
                    "--reject-with",
                    "icmp-net-unreachable",
                ],
            ),
            Command::CheckJump => owned(&["iptables", "-C", "OUTPUT", "-j", KS_CHAIN]),
            Command::InsertJump => owned(&["iptables", "-I", "OUTPUT", "1", "-j", KS_CHAIN]),
            Command::DeleteJump => owned(&["iptables", "-D", "OUTPUT", "-j", KS_CHAIN]),
        };
        assert(text::views(r@) =~= self.words());
        r
    }
}

/// The words of a command on the MASQUERADE rule.
pub open spec fn masquerade(flag: Seq<char>, cidr: Seq<char>, egress: Seq<char>) -> Seq<Seq<char>> {
    seq![
        "iptables"@,
        "-t"@,
        "nat"@,
        flag,
        "POSTROUTING"@,
        "-s"@,
        cidr,
        "-o"@,
        egress,
        "-j"@,
        "MASQUERADE"@,
    ]
}

/// The words of a command on the MASQUERADE rule.
fn masquerade_rule(flag: &str, cidr: &String, egress: &String) -> (r: Vec<String>)
    ensures
        text::views(r@) == masquerade(flag@, cidr@, egress@),
{
    let r: Vec<String> = owned(
        &[
            "iptables",
            "-t",
            "nat",
            flag,
            "POSTROUTING",
            "-s",
            cidr.as_str(),
            "-o",
            egress.as_str(),
            "-j",
            "MASQUERADE",
        ],
    );
    assert(text::views(r@) =~= masquerade(flag@, cidr@, egress@));
    r
}

/// The words of a command on a host route.
fn host_route(verb: &str, host: Ipv4Addr, gateway: Ipv4Addr, dev: &String) -> (r: Vec<String>)
    ensures
        text::views(r@) == seq![
            "ip"@,
            "route"@,
            verb@,
            host.dotted(),
            "via"@,
            gateway.dotted(),
            "dev"@,
            dev@,
        ],
{
    let host: String = host.to_text();
    let gateway: String = gateway.to_text();
    let r: Vec<String> = owned(
        &["ip", "route", verb, host.as_str(), "via", gateway.as_str(), "dev", dev.as_str()],
    );
    assert(text::views(r@) =~= seq![
        "ip"@,
        "route"@,
        verb@,
        host@,
        "via"@,
        gateway@,
        "dev"@,
        dev@,
    ]);
    r
}

/// Words of one's own.
fn owned(words: &[&str]) -> (r: Vec<String>)
    ensures
        r@.len() == words@.len(),
        forall|i: int| 0 <= i < words@.len() ==> (#[trigger] r@[i])@ == words@[i]@,
{
    let mut out: Vec<String> = Vec::new();
    let mut i: usize = 0;
    while i < words.len()
        invariant
            i <= words@.len(),
            out@.len() == i,
            forall|j: int| 0 <= j < i ==> (#[trigger] out@[j])@ == words@[j]@,
        decreases words@.len() - i,
    {
        out.push(words[i].to_owned());
        i += 1;
    }
    out
}

/// Commands on routes name the destination, the gateway and the device that they
/// are about, whichever these are.
pub proof fn law_route_commands_name_their_parts(command: Command)
    ensures
        match command {
            Command::ReplaceHostRoute { host, gateway, dev } => {
                &&& command.words() == seq!["ip"@, "route"@, "replace"@] + seq![
                    host.dotted(),
                    "via"@,
                    gateway.dotted(),
                    "dev"@,
                    dev@,
                ]
            },
            Command::DeleteHostRoute { host, gateway, dev } => {
                &&& command.words() == seq!["ip"@, "route"@, "del"@] + seq![
                    host.dotted(),
                    "via"@,
                    gateway.dotted(),
                    "dev"@,
                    dev@,
                ]
            },
            Command::ReplaceHalf { half, dev } => {
                &&& command.words() == seq!["ip"@, "route"@, "replace"@] + seq![
                    half.v4_name(),
                    "dev"@,
                    dev@,
                ]
            },
            Command::DeleteHalf { half, dev } => {
                &&& command.words() == seq!["ip"@, "route"@, "del"@] + seq![
                    half.v4_name(),
                    "dev"@,
                    dev@,
                ]
            },
            Command::ReplaceBlackhole { half } => {
                &&& command.words() == seq!["ip"@, "-6"@, "route"@, "replace"@, "blackhole"@].push(
                    half.v6_name(),
                )
            },
            Command::DeleteBlackhole { half } => {
                &&& command.words() == seq!["ip"@, "-6"@, "route"@, "del"@, "blackhole"@].push(
                    half.v6_name(),
                )
            },
            _ => command.words()[0] == "iptables"@,
        },
        Half::Lower.v4_name() == "0.0.0.0/1"@ && Half::Upper.v4_name() == "128.0.0.0/1"@,
        Half::Lower.v6_name() == "::/1"@ && Half::Upper.v6_name() == "8000::/1"@,
{
}

/// A filter command on the tunnel or the server names that device, address and
/// port, and one on masquerading the network and the device that it is about.
pub proof fn law_filter_commands_name_their_parts(command: Command)
    ensures
        command matches Command::ReturnOut { dev } ==> command.words().len() == 7
            && command.words()[3] == "-o"@ && command.words()[4] == dev@ && command.words()[6]
            == "RETURN"@,
        command matches Command::ReturnServer { ip, port } ==> command.words().len() == 11
            && command.words()[3] == "-d"@ && command.words()[4] == ip.dotted()
            && command.words()[6] == "udp"@ && command.words()[7] == "--dport"@
            && command.words()[8] == text::decimal(port as nat) && command.words()[10] == "RETURN"@,
        command matches Command::AppendMasquerade { cidr, egress } ==> command.words()
            == masquerade("-A"@, cidr@, egress@),
        command matches Command::CheckMasquerade { cidr, egress } ==> command.words()
            == masquerade("-C"@, cidr@, egress@),
        command matches Command::DeleteMasquerade { cidr, egress } ==> command.words()
            == masquerade("-D"@, cidr@, egress@),
        forall|flag: Seq<char>, cidr: Seq<char>, egress: Seq<char>|
            {
                let words = #[trigger] masquerade(flag, cidr, egress);
                &&& words.len() == 11
                &&& words[3] == flag && words[5] == "-s"@ && words[6] == cidr
                &&& words[7] == "-o"@ && words[8] == egress && words[10] == "MASQUERADE"@
            },
{
}

} // verus!
