use soulvpn::net::{Ipv4Addr, SocketAddr};
use soulvpn::route::command::KS_CHAIN;
use soulvpn::route::dns::resolv_conf;
use soulvpn::route::{
    parse_default_route, Change, ClientRouteOpts, ClientRoutes, Command, DnsGuard, DnsStep, Half,
    NatGuard, NatStep, Op,
};

fn line(command: &Command) -> String {
    command.argv().join(" ")
}

fn show(op: &Op) -> String {
    match op {
        Op::Run(command) => line(command),
        Op::BackUpDns => "back up dns".to_string(),
        Op::WriteDns => "write dns".to_string(),
        Op::RestoreDns => "restore dns".to_string(),
    }
}

fn show_all(ops: &[Op]) -> Vec<String> {
    ops.iter().map(show).collect()
}

/// Plays a change; an operation fails where its text holds one of `fails`.
fn play(mut change: Change, fails: &[&str]) -> (Vec<String>, ClientRoutes, bool) {
    let mut done: Vec<String> = Vec::new();
    loop {
        let text = match change.current() {
            Some(op) => show(op),
            None => break,
        };
        change.report(!fails.iter().any(|f| text.contains(f)));
        done.push(text);
    }
    let (routes, made) = change.finish();
    (done, routes, made)
}

fn server() -> SocketAddr {
    SocketAddr::V4 { ip: Ipv4Addr::new(203, 0, 113, 5), port: 51820 }
}

fn opts(all: bool, ks: bool, v6: bool, dns: &[&str]) -> ClientRouteOpts {
    ClientRouteOpts {
        redirect_all: all,
        kill_switch: ks,
        disable_ipv6: v6,
        dns: dns.iter().map(|s| s.to_string()).collect(),
    }
}

fn install(o: &ClientRouteOpts, fails: &[&str]) -> (Vec<String>, ClientRoutes, bool) {
    let gateway = Some((Ipv4Addr::new(192, 168, 1, 1), "eth0".to_string()));
    play(ClientRoutes::install(&server(), "soulvpn".to_string(), o, gateway), fails)
}

const HOST: &str = "ip route replace 203.0.113.5 via 192.168.1.1 dev eth0";
const LOWER: &str = "ip route replace 0.0.0.0/1 dev soulvpn";
const UPPER: &str = "ip route replace 128.0.0.0/1 dev soulvpn";

#[test]
fn full_install_and_teardown() {
    let o = opts(true, true, true, &["1.1.1.1"]);
    let (done, mut routes, made) = install(&o, &["-C OUTPUT"]);
    assert!(made);
    assert_eq!(
        done,
        vec![
            HOST,
            LOWER,
            UPPER,
            "ip -6 route replace blackhole ::/1",
            "ip -6 route replace blackhole 8000::/1",
            "back up dns",
            "write dns",
            "iptables -N SOULVPN_KS",
            "iptables -F SOULVPN_KS",
            "iptables -A SOULVPN_KS -o lo -j RETURN",
            "iptables -A SOULVPN_KS -o soulvpn -j RETURN",
            "iptables -A SOULVPN_KS -d 203.0.113.5 -p udp --dport 51820 -j RETURN",
            "iptables -A SOULVPN_KS -m conntrack --ctstate ESTABLISHED,RELATED -j RETURN",
            "iptables -A SOULVPN_KS -j REJECT --reject-with icmp-net-unreachable",
            "iptables -C OUTPUT -j SOULVPN_KS",
            "iptables -I OUTPUT 1 -j SOULVPN_KS",
        ]
    );
    assert!(routes.kill_switch && routes.ipv6 && routes.dns);
    assert_eq!(routes.server_host, Some(Ipv4Addr::new(203, 0, 113, 5)));
    assert_eq!(
        show_all(&routes.teardown_all()),
        vec![
            "iptables -D OUTPUT -j SOULVPN_KS",
            "iptables -F SOULVPN_KS",
            "iptables -X SOULVPN_KS",
            "ip -6 route del blackhole ::/1",
            "ip -6 route del blackhole 8000::/1",
            "restore dns",
            "ip route del 0.0.0.0/1 dev soulvpn",
            "ip route del 128.0.0.0/1 dev soulvpn",
            "ip route del 203.0.113.5 via 192.168.1.1 dev eth0",
        ]
    );
    assert_eq!(routes.server_host, None);
    assert!(!routes.kill_switch && !routes.ipv6 && !routes.dns);
}

#[test]
fn minimal_install() {
    let (done, routes, made) = install(&opts(false, true, false, &[]), &[]);
    assert!(made);
    assert_eq!(done, vec![HOST]); // no kill switch without full tunnel
    assert!(!routes.kill_switch);
}

#[test]
fn needed_routes_must_be_set() {
    let o = opts(true, true, true, &["1.1.1.1"]);
    let (done, mut routes, made) = install(&o, &["203.0.113.5"]);
    assert!(!made);
    assert_eq!(done, vec![HOST]);
    assert_eq!(routes.server_host, None);
    assert_eq!(
        show_all(&routes.teardown_all()),
        vec!["ip route del 0.0.0.0/1 dev soulvpn", "ip route del 128.0.0.0/1 dev soulvpn"]
    );
    let (done, mut routes, made) = install(&o, &["128.0.0.0/1"]);
    assert!(!made);
    assert_eq!(done, vec![HOST, LOWER, UPPER]);
    assert_eq!(routes.teardown_all().len(), 3);
}

#[test]
fn optional_parts_may_fail() {
    let o = opts(true, true, true, &["1.1.1.1"]);
    let (done, routes, made) = install(&o, &["8000::/1", "back up dns", "REJECT"]);
    assert!(made);
    assert!(!routes.ipv6 && !routes.dns && !routes.kill_switch);
    assert_eq!(done.last().unwrap(), "iptables -A SOULVPN_KS -j REJECT --reject-with icmp-net-unreachable");
}

#[test]
fn half_done_parts_are_taken_away() {
    let o = opts(true, true, true, &["1.1.1.1"]);
    let (_, mut routes, made) = install(&o, &["8000::/1", "write dns", "REJECT"]);
    assert!(made);
    assert!(!routes.ipv6 && !routes.dns && !routes.kill_switch);
    assert!(routes.ipv6_begun && routes.dns_begun && routes.kill_switch_begun);
    assert_eq!(
        show_all(&routes.teardown_all()),
        vec![
            "iptables -D OUTPUT -j SOULVPN_KS",
            "iptables -F SOULVPN_KS",
            "iptables -X SOULVPN_KS",
            "ip -6 route del blackhole ::/1",
            "ip -6 route del blackhole 8000::/1",
            "restore dns",
            "ip route del 0.0.0.0/1 dev soulvpn",
            "ip route del 128.0.0.0/1 dev soulvpn",
            "ip route del 203.0.113.5 via 192.168.1.1 dev eth0",
        ]
    );
    assert!(!routes.ipv6_begun && !routes.dns_begun && !routes.kill_switch_begun);
    // Nothing of them was done: nothing is taken away but the routes.
    let (_, mut routes, made) = install(&o, &["blackhole", "back up dns", "iptables"]);
    assert!(made);
    assert_eq!(routes.teardown_all().len(), 3);
    // Half a kill switch goes with the tunnel, and comes back whole.
    let (_, mut routes, _) = install(&o, &["REJECT"]);
    assert_eq!(routes.teardown().len(), 5);
    assert!(!routes.kill_switch_begun && routes.ipv6 && routes.dns);
    let (_, routes, made) = play(routes.reenable(), &[]);
    assert!(made && routes.kill_switch);
}

#[test]
fn kill_switch_falls_back_and_reuses() {
    let o = opts(true, true, false, &[]);
    let (done, routes, _) = install(&o, &["conntrack", "--state", "-N "]);
    assert!(routes.kill_switch);
    assert!(done.contains(
        &"iptables -A SOULVPN_KS -m state --state ESTABLISHED,RELATED -j RETURN".to_string()
    ));
    // The jump was found, so none is inserted.
    assert_eq!(done.last().unwrap(), "iptables -C OUTPUT -j SOULVPN_KS");
    let (done, routes, made) = install(&o, &["-o lo"]);
    assert!(made && !routes.kill_switch);
    assert_eq!(done.last().unwrap(), "iptables -A SOULVPN_KS -o lo -j RETURN");
    let (_, routes, made) = install(&o, &["OUTPUT"]);
    assert!(made && !routes.kill_switch);
}

#[test]
fn off_and_on() {
    let o = opts(true, true, true, &["1.1.1.1"]);
    let (_, mut routes, _) = install(&o, &[]);
    assert_eq!(
        show_all(&routes.teardown()),
        vec![
            "iptables -D OUTPUT -j SOULVPN_KS",
            "iptables -F SOULVPN_KS",
            "iptables -X SOULVPN_KS",
            "ip route del 0.0.0.0/1 dev soulvpn",
            "ip route del 128.0.0.0/1 dev soulvpn",
        ]
    );
    assert!(!routes.kill_switch && routes.ipv6 && routes.dns);
    let (done, routes, made) = play(routes.reenable_with_ks(&server(), true), &[]);
    assert!(made && routes.kill_switch && routes.ipv6 && routes.dns);
    assert_eq!(&done[..3], &[LOWER, UPPER, "iptables -N SOULVPN_KS"]);
    assert_eq!(done.len(), 10);
    // In place already: only the routes.
    let (done, routes, made) = play(routes.reenable_with_ks(&server(), true), &[]);
    assert!(made && routes.kill_switch);
    assert_eq!(done, vec![LOWER, UPPER]);
    let (done, mut routes, made) = play(routes.reenable(), &["128.0.0.0/1"]);
    assert!(!made && routes.kill_switch);
    assert_eq!(done, vec![LOWER, UPPER]);
    routes.teardown();
    let (done, routes, _) = play(routes.reenable_with_ks(&server(), false), &[]);
    assert_eq!(done, vec![LOWER, UPPER]);
    assert!(!routes.kill_switch);
}

#[test]
fn kill_switch_comes_back() {
    let o = opts(true, true, false, &[]);
    let (first, mut routes, _) = install(&o, &["-C OUTPUT"]);
    assert!(routes.wants_kill_switch);
    routes.teardown();
    assert!(!routes.kill_switch);
    let (done, routes, made) = play(routes.reenable(), &["-C OUTPUT"]);
    assert!(made && routes.kill_switch);
    assert_eq!(done, first[1..].to_vec()); // all but the host route
    // In place already: only the routes.
    let (done, _, _) = play(routes.reenable(), &[]);
    assert_eq!(done, vec![LOWER, UPPER]);
    // Never asked for: only the routes.
    let (_, mut routes, _) = install(&opts(true, false, false, &[]), &[]);
    routes.teardown();
    let (done, routes, made) = play(routes.reenable(), &[]);
    assert!(made && !routes.kill_switch);
    assert_eq!(done, vec![LOWER, UPPER]);
    // Nothing left after everything was removed.
    let (_, mut routes, _) = install(&o, &[]);
    routes.teardown_all();
    let (done, _, _) = play(routes.reenable(), &[]);
    assert_eq!(done, vec![LOWER, UPPER]);
}

#[test]
fn no_routes_behind_ipv6_or_without_gateway() {
    let o = opts(true, true, true, &["1.1.1.1"]);
    let v6 = SocketAddr::V6 { addr: 1, port: 1, shown: "[::1]:1".to_string(), host: "::1".to_string() };
    let (done, routes, made) = play(ClientRoutes::install(&v6, "soulvpn".to_string(), &o, None), &[]);
    assert!(made && done.is_empty() && routes.redirect_all);
    assert_eq!(routes.server_host, None);
    let (done, routes, made) =
        play(ClientRoutes::install(&server(), "soulvpn".to_string(), &o, None), &[]);
    assert!(!made && done.is_empty());
    assert_eq!(routes.via_dev, None);
    let (done, _, _) = play(routes.reenable_with_ks(&v6, true), &[]);
    assert_eq!(done, vec![LOWER, UPPER]);
    let mut none = ClientRoutes::default();
    assert!(none.teardown_all().is_empty());
}

#[test]
fn default_routes() {
    let eth = |g: Ipv4Addr| Some((g, "eth0".to_string()));
    let gw = Ipv4Addr::new(192, 168, 1, 1);
    assert_eq!(parse_default_route("default via 192.168.1.1 dev eth0 proto dhcp\n"), eth(gw));
    assert_eq!(parse_default_route("default dev eth0 via 192.168.1.1"), eth(gw));
    assert_eq!(
        parse_default_route("default via 10.0.0.1 dev a\ndefault via 192.168.1.1 dev eth0\n"),
        eth(gw)
    );
    assert_eq!(parse_default_route(""), None);
    assert_eq!(parse_default_route("default dev eth0"), None);
    assert_eq!(parse_default_route("default via 192.168.1.1"), None);
    assert_eq!(parse_default_route("via nonsense dev eth0"), None);
    assert_eq!(parse_default_route("via 192.168.1.1 dev eth0 via"), None);
    assert_eq!(parse_default_route("via 192.168.1.1 dev eth0 dev"), None);
}

#[test]
fn nat_guard() {
    let cidr = "10.66.66.0/24".to_string();
    let egress = "eth0".to_string();
    let (setup, first) = NatGuard::setup(cidr.clone(), Some(b"0\n".to_vec()));
    assert!(matches!(&first, NatStep::WriteForward(flag) if flag[..] == b"1"[..]));
    assert_eq!(
        line(&setup.check(&egress)),
        "iptables -t nat -C POSTROUTING -s 10.66.66.0/24 -o eth0 -j MASQUERADE"
    );
    let (guard, add) = setup.finish(egress.clone(), false);
    assert!(matches!(&add, Some(NatStep::Run(c)) if line(c)
        == "iptables -t nat -A POSTROUTING -s 10.66.66.0/24 -o eth0 -j MASQUERADE"));
    let undo = guard.undo();
    assert_eq!(undo.len(), 2);
    assert!(matches!(&undo[0], NatStep::Run(c) if line(c)
        == "iptables -t nat -D POSTROUTING -s 10.66.66.0/24 -o eth0 -j MASQUERADE"));
    assert!(matches!(&undo[1], NatStep::WriteForward(prev) if prev[..] == b"0\n"[..]));
    // The rule was there, and the flag could not be read.
    let (setup, first) = NatGuard::setup(cidr, None);
    assert!(matches!(first, NatStep::WriteForward(_)));
    let (guard, add) = setup.finish(egress, true);
    assert!(add.is_none());
    assert!(guard.undo().is_empty());
}

/// The two files of the name servers.
struct Files {
    conf: Option<String>,
    backup: Option<String>,
}

impl Files {
    fn run(&mut self, steps: Vec<DnsStep>) {
        for step in steps {
            match step {
                DnsStep::BackUp => self.backup = self.conf.clone(),
                DnsStep::Write(text) => self.conf = Some(text),
                DnsStep::PutBack => self.conf = self.backup.clone(),
                DnsStep::RemoveBackup => self.backup = None,
            }
        }
    }

    fn install(&mut self, servers: &Vec<String>) -> DnsGuard {
        let (guard, steps) = DnsGuard::install(self.conf.is_some(), self.backup.is_some());
        self.run(steps);
        self.run(vec![DnsGuard::rewrite(servers)]);
        guard
    }

    fn restore(&mut self, guard: &mut DnsGuard) -> usize {
        let steps = guard.restore(self.backup.is_some());
        let count = steps.len();
        self.run(steps);
        count
    }
}

#[test]
fn name_servers() {
    let servers = vec!["1.1.1.1".to_string(), "9.9.9.9".to_string()];
    let ours = "# Managed by soulvpn — do not edit\nnameserver 1.1.1.1\nnameserver 9.9.9.9\n";
    assert_eq!(resolv_conf(&servers), ours);
    let text = |s: &str| Some(s.to_string());

    // What was there comes back, once.
    let mut files = Files { conf: text("old"), backup: None };
    let mut guard = files.install(&servers);
    assert_eq!((&files.conf, &files.backup), (&text(ours), &text("old")));
    assert_eq!(files.restore(&mut guard), 2);
    assert_eq!((&files.conf, &files.backup), (&text("old"), &None));
    files.backup = text("other");
    assert_eq!(files.restore(&mut guard), 0);
    assert_eq!((&files.conf, &files.backup), (&text("old"), &text("other")));

    // An older backup is kept and comes back.
    let mut files = Files { conf: text("left over"), backup: text("older") };
    let mut guard = files.install(&servers);
    assert_eq!((&files.conf, &files.backup), (&text(ours), &text("older")));
    files.restore(&mut guard);
    assert_eq!((&files.conf, &files.backup), (&text("older"), &None));

    // The writing came to nothing.
    let mut files = Files { conf: text("old"), backup: None };
    let (mut guard, steps) = DnsGuard::install(true, false);
    files.run(steps);
    assert_eq!((&files.conf, &files.backup), (&text("old"), &text("old")));
    files.restore(&mut guard);
    assert_eq!((&files.conf, &files.backup), (&text("old"), &None));

    // Nothing to give back.
    let mut files = Files { conf: None, backup: None };
    let mut guard = files.install(&servers);
    assert_eq!(files.restore(&mut guard), 0);
    assert_eq!((&files.conf, &files.backup), (&text(ours), &None));
}

#[test]
fn halves_cover_everything() {
    assert_eq!((Half::Lower.v4(), Half::Upper.v4()), ("0.0.0.0/1", "128.0.0.0/1"));
    assert_eq!((Half::Lower.v6(), Half::Upper.v6()), ("::/1", "8000::/1"));
    assert_eq!(KS_CHAIN, "SOULVPN_KS");
    assert_eq!(line(&Command::ReturnState).split(' ').count(), 9);
}
