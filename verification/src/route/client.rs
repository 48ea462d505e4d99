//! The client's routes.

use super::command::{Command, Half};
use super::kill_switch;
use super::script;
use super::script::{After, Op, Script, ScriptView, Step};
use crate::net::{Ipv4Addr, SocketAddr};
use vstd::prelude::*;

verus! {

/// What the client's routes are to do.
#[derive(Debug)]
pub struct ClientRouteOpts {
    pub redirect_all: bool,
    pub kill_switch: bool,
    pub disable_ipv6: bool,
    pub dns: Vec<String>,
}

/// Snapshot of routes installed by the client so we can tear them down.
#[derive(Debug)]
pub struct ClientRoutes {
    pub server_host: Option<Ipv4Addr>,
    pub via_gateway: Option<Ipv4Addr>,
    pub via_dev: Option<String>,
    pub redirect_all: bool,
    pub tun_name: String,
    /// The kill switch is in place.
    pub kill_switch: bool,
    /// IPv6 is dropped.
    pub ipv6: bool,
    /// The name servers are rewritten.
    pub dns: bool,
    /// Something was done for the kill switch that is to be taken away.
    pub kill_switch_begun: bool,
    /// Something was done to drop IPv6 that is to be taken away.
    pub ipv6_begun: bool,
    /// Something was done to the name servers that is to be put back.
    pub dns_begun: bool,
    /// The kill switch was asked for.
    pub wants_kill_switch: bool,
    /// The server that the kill switch lets through.
    pub server_ip: Ipv4Addr,
    pub server_port: u16,
}

impl Default for ClientRoutes {
    fn default() -> (r: Self)
        ensures
            r.tun_name@ == Seq::<char>::empty(),
            r == untouched(r.tun_name, false, false, Ipv4Addr { a: 0, b: 0, c: 0, d: 0 }, 0),
    {
        ClientRoutes {
            server_host: None,
            via_gateway: None,
            via_dev: None,
            redirect_all: false,
            tun_name: String::new(),
            kill_switch: false,
            ipv6: false,
            dns: false,
            kill_switch_begun: false,
            ipv6_begun: false,
            dns_begun: false,
            wants_kill_switch: false,
            server_ip: Ipv4Addr::new(0, 0, 0, 0),
            server_port: 0,
        }
    }
}

/// Routes before anything was changed, for a tunnel to the given server.
pub open spec fn untouched(
    tun_name: String,
    redirect_all: bool,
    wants_kill_switch: bool,
    server_ip: Ipv4Addr,
    server_port: u16,
) -> ClientRoutes {
    ClientRoutes {
        server_host: None,
        via_gateway: None,
        via_dev: None,
        redirect_all,
        tun_name,
        kill_switch: false,
        ipv6: false,
        dns: false,
        kill_switch_begun: false,
        ipv6_begun: false,
        dns_begun: false,
        wants_kill_switch,
        server_ip,
        server_port,
    }
}

/// What a change of the routes consists of, one after the other.
#[derive(Debug, Clone, Copy, PartialEq, Eq, Structural)]
pub enum Phase {
    /// The path to the VPN server is kept outside the tunnel.
    HostRoute,
    /// Everything else goes through the tunnel.
    SplitRoutes,
    /// IPv6 is dropped.
    Ipv6,
    /// The name servers are rewritten.
    Dns,
    /// The kill switch is put in place.
    KillSwitch,
    /// The change is made.
    Done,
    /// A route that is needed could not be set.
    Failed,
}

/// What a change is to do.
#[derive(Debug)]
pub struct Plan {
    pub server: Ipv4Addr,
    pub port: u16,
    pub gateway: Ipv4Addr,
    pub dev: String,
    pub tun_name: String,
    pub redirect_all: bool,
    pub disable_ipv6: bool,
    pub rewrite_dns: bool,
    pub kill_switch: bool,
}

/// Routes that send all of IPv4 through the tunnel.
pub open spec fn split_steps(tun_name: String) -> Seq<Step> {
    seq![
        script::must(Op::Run(Command::ReplaceHalf { half: Half::Lower, dev: tun_name })),
        script::must(Op::Run(Command::ReplaceHalf { half: Half::Upper, dev: tun_name })),
    ]
}

impl Plan {
    /// What a phase does.
    pub open spec fn steps(self, phase: Phase) -> Seq<Step> {
        match phase {
            Phase::HostRoute => seq![
                script::must(
                    Op::Run(
                        Command::ReplaceHostRoute {
                            host: self.server,
                            gateway: self.gateway,
                            dev: self.dev,
                        },
                    ),
                ),
            ],
            Phase::SplitRoutes if self.redirect_all => split_steps(self.tun_name),
            Phase::Ipv6 if self.disable_ipv6 => seq![
                script::must(Op::Run(Command::ReplaceBlackhole { half: Half::Lower })),
                script::must(Op::Run(Command::ReplaceBlackhole { half: Half::Upper })),
            ],
            Phase::Dns if self.rewrite_dns => seq![
                script::must(Op::BackUpDns),
                script::must(Op::WriteDns),
            ],
            Phase::KillSwitch if self.kill_switch => kill_switch::kill_switch_steps(
                self.server,
                self.port,
                self.tun_name,
            ),
            _ => Seq::empty(),
        }
    }

    /// What a phase does.
    pub fn script(&self, phase: Phase) -> (r: Script)
        ensures
            r@ == ScriptView::start(self.steps(phase)),
    {
        let mut steps: Vec<Step> = Vec::new();
        match phase {
            Phase::HostRoute => {
                steps.push(
                    script::must_run(
                        Command::ReplaceHostRoute {
                            host: self.server,
                            gateway: self.gateway,
                            dev: self.dev.clone(),
                        },
                    ),
                );
            },
            Phase::SplitRoutes => {
                if self.redirect_all {
                    steps.push(
                        script::must_run(
                            Command::ReplaceHalf {
                                half: Half::Lower,
                                dev: self.tun_name.clone(),
                            },
                        ),
                    );
                    steps.push(
                        script::must_run(
                            Command::ReplaceHalf {
                                half: Half::Upper,
                                dev: self.tun_name.clone(),
                            },
                        ),
                    );
                }
            },
            Phase::Ipv6 => {
                if self.disable_ipv6 {
                    steps.push(script::must_run(Command::ReplaceBlackhole { half: Half::Lower }));
                    steps.push(script::must_run(Command::ReplaceBlackhole { half: Half::Upper }));
                }
            },
            Phase::Dns => {
                if self.rewrite_dns {
                    steps.push(
                        Step { op: Op::BackUpDns, on_ok: After::Next, on_fail: After::Abort },
                    );
                    steps.push(
                        Step { op: Op::WriteDns, on_ok: After::Next, on_fail: After::Abort },
                    );
                }
            },
            Phase::KillSwitch => {
                if self.kill_switch {
                    steps = kill_switch::install_kill_switch(
                        self.server,
                        self.port,
                        &self.tun_name,
                    );
                }
            },
            Phase::Done | Phase::Failed => {},
        }
        assert(steps@ =~= self.steps(phase));
        Script::new(steps)
    }
}

/// How far a change is.
#[verifier::ext_equal]
pub struct ChangeView {
    pub plan: Plan,
    pub phase: Phase,
    pub script: ScriptView,
    pub routes: ClientRoutes,
}

/// Phases that are left.
pub open spec fn phases_left(phase: Phase) -> nat {
    match phase {
        Phase::HostRoute => 5,
        Phase::SplitRoutes => 4,
        Phase::Ipv6 => 3,
        Phase::Dns => 2,
        Phase::KillSwitch => 1,
        Phase::Done | Phase::Failed => 0,
    }
}

impl ChangeView {
    /// A change at the start of a phase.
    pub open spec fn at(plan: Plan, phase: Phase, routes: ClientRoutes) -> ChangeView {
        ChangeView { plan, phase, script: ScriptView::start(plan.steps(phase)), routes }
    }

    /// Whether nothing is left to do.
    pub open spec fn over(self) -> bool {
        self.phase == Phase::Done || self.phase == Phase::Failed
    }

    /// Whether the script of this phase did something and succeeded.
    pub open spec fn achieved(self) -> bool {
        self.script.steps.len() > 0 && !self.script.failed
    }

    /// The change after the script of its phase came to its end. The routes
    /// must be set; the rest is done as well as can be, and what was begun is
    /// noted for the teardown.
    pub open spec fn turned(self) -> ChangeView {
        match self.phase {
            Phase::HostRoute => if self.script.failed {
                ChangeView::at(self.plan, Phase::Failed, self.routes)
            } else {
                ChangeView::at(
                    self.plan,
                    Phase::SplitRoutes,
                    ClientRoutes {
                        server_host: Some(self.plan.server),
                        via_gateway: Some(self.plan.gateway),
                        via_dev: Some(self.plan.dev),
                        ..self.routes
                    },
                )
            },
            Phase::SplitRoutes => if self.script.failed {
                ChangeView::at(self.plan, Phase::Failed, self.routes)
            } else {
                ChangeView::at(self.plan, Phase::Ipv6, self.routes)
            },
            Phase::Ipv6 => ChangeView::at(
                self.plan,
                Phase::Dns,
                ClientRoutes {
                    ipv6: self.routes.ipv6 || self.achieved(),
                    ipv6_begun: self.routes.ipv6_begun || self.script.begun,
                    ..self.routes
                },
            ),
            Phase::Dns => ChangeView::at(
                self.plan,
                Phase::KillSwitch,
                ClientRoutes {
                    dns: self.routes.dns || self.achieved(),
                    dns_begun: self.routes.dns_begun || self.script.begun,
                    ..self.routes
                },
            ),
            Phase::KillSwitch => ChangeView::at(
                self.plan,
                Phase::Done,
                ClientRoutes {
                    kill_switch: self.routes.kill_switch || self.achieved(),
                    kill_switch_begun: self.routes.kill_switch_begun || self.script.begun,
                    ..self.routes
                },
            ),
            Phase::Done | Phase::Failed => self,
        }
    }

    /// The change with all phases behind it that have nothing left to do.
    pub open spec fn settled(self) -> ChangeView
        decreases phases_left(self.phase),
    {
        if self.over() || !self.script.over() {
            self
        } else {
            self.turned().settled()
        }
    }

    /// The change after its current operation succeeded or failed.
    pub open spec fn reported(self, ok: bool) -> ChangeView {
        ChangeView { script: self.script.reported(ok), ..self }.settled()
    }

    /// The change after its operations had these outcomes; outcomes after its
    /// end count for nothing.
    pub open spec fn played(self, outcomes: Seq<bool>) -> ChangeView
        decreases outcomes.len(),
    {
        if outcomes.len() == 0 {
            self
        } else {
            let before = self.played(outcomes.drop_last());
            if before.over() {
                before
            } else {
                before.reported(outcomes.last())
            }
        }
    }
}

/// A change of the routes, and how far it is.
#[derive(Debug)]
pub struct Change {
    plan: Plan,
    phase: Phase,
    script: Script,
    routes: ClientRoutes,
}

impl View for Change {
    type V = ChangeView;

    closed spec fn view(&self) -> ChangeView {
        ChangeView {
            plan: self.plan,
            phase: self.phase,
            script: self.script@,
            routes: self.routes,
        }
    }
}

impl Change {
    /// A change that is not over has something to do.
    pub open spec fn wf(self) -> bool {
        self@.over() || !self@.script.over()
    }

    /// A change at the start of a phase.
    fn start(plan: Plan, phase: Phase, routes: ClientRoutes) -> (r: Self)
        ensures
            r.wf(),
            r@ == ChangeView::at(plan, phase, routes).settled(),
    {
        let script: Script = plan.script(phase);
        let mut r = Change { plan, phase, script, routes };
        r.settle();
        r
    }

    /// Goes on to the next phase that has something to do.
    fn settle(&mut self)
        ensures
            final(self).wf(),
            final(self)@ == old(self)@.settled(),
    {
        while self.phase != Phase::Done && self.phase != Phase::Failed && self.script.is_over()
            invariant
                self@.settled() == old(self)@.settled(),
            decreases phases_left(self.phase),
        {
            let ghost before = self@;
            let failed: bool = self.script.has_failed();
            let achieved: bool = !failed && !self.script.is_empty();
            let begun: bool = self.script.has_begun();
            let next: Phase = match self.phase {
                Phase::HostRoute => {
                    if failed {
                        Phase::Failed
                    } else {
                        self.routes.server_host = Some(self.plan.server);
                        self.routes.via_gateway = Some(self.plan.gateway);
                        self.routes.via_dev = Some(self.plan.dev.clone());
                        Phase::SplitRoutes
                    }
                },
                Phase::SplitRoutes => {
                    if failed {
                        Phase::Failed
                    } else {
                        Phase::Ipv6
                    }
                },
                Phase::Ipv6 => {
                    self.routes.ipv6 = self.routes.ipv6 || achieved;
                    self.routes.ipv6_begun = self.routes.ipv6_begun || begun;
                    Phase::Dns
                },
                Phase::Dns => {
                    self.routes.dns = self.routes.dns || achieved;
                    self.routes.dns_begun = self.routes.dns_begun || begun;
                    Phase::KillSwitch
                },
                _ => {
                    self.routes.kill_switch = self.routes.kill_switch || achieved;
                    self.routes.kill_switch_begun = self.routes.kill_switch_begun || begun;
                    Phase::Done
                },
            };
            self.phase = next;
            self.script = self.plan.script(next);
            assert(self@ == before.turned());
        }
    }

    /// What to do now; nothing where the change is over.
    pub fn current(&self) -> (r: Option<&Op>)
        requires
            self.wf(),
        ensures
            r == if self@.over() {
                None
            } else {
                Some(&self@.script.steps[self@.script.pos as int].op)
            },
    {
        if self.phase == Phase::Done || self.phase == Phase::Failed {
            return None;
        }
        self.script.current()
    }

    /// Goes on after the current operation.
    pub fn report(&mut self, ok: bool)
        requires
            old(self).wf(),
            !old(self)@.over(),
        ensures
            final(self).wf(),
            final(self)@ == old(self)@.reported(ok),
    {
        self.script.report(ok);
        self.settle();
    }

    /// The routes as they are now, and whether the change was made.
    pub fn finish(self) -> (r: (ClientRoutes, bool))
        ensures
            r.0 == self@.routes,
            r.1 == (self@.phase == Phase::Done),
    {
        let made: bool = self.phase == Phase::Done;
        (self.routes, made)
    }
}

impl ClientRoutes {
    /// What is to be done to install the client's routes, given the default
    /// route that is needed for an IPv4 endpoint:
    /// 1. Host route to VPN server via original default gateway.
    /// 2. Full-tunnel split default (0.0.0.0/1 + 128.0.0.0/1 → TUN).
    /// 3. Optional IPv6 blackhole, DNS rewrite, kill switch.
    /// Behind an IPv6 endpoint nothing is installed.
    pub fn install(
        endpoint: &SocketAddr,
        tun_name: String,
        opts: &ClientRouteOpts,
        default_route: Option<(Ipv4Addr, String)>,
    ) -> (r: Change)
        ensures
            r.wf(),
            ({
                let (ip, port) = match *endpoint {
                    SocketAddr::V4 { ip, port } => (ip, port),
                    SocketAddr::V6 { port, .. } => (Ipv4Addr { a: 0, b: 0, c: 0, d: 0 }, port),
                };
                let routes = untouched(tun_name, opts.redirect_all, opts.kill_switch, ip, port);
                match (*endpoint, default_route) {
                    (SocketAddr::V4 { .. }, Some((gateway, dev))) => r@ == ChangeView::at(
                        install_plan(ip, port, gateway, dev, tun_name, *opts),
                        Phase::HostRoute,
                        routes,
                    ),
                    (SocketAddr::V4 { .. }, None) => r@.phase == Phase::Failed && r@.routes
                        == routes,
                    (SocketAddr::V6 { .. }, _) => r@.phase == Phase::Done && r@.routes == routes,
                }
            }),
            installs(r@, *endpoint, tun_name, *opts, default_route),
    {
        let (server, port, v4): (Ipv4Addr, u16, bool) = split_endpoint(endpoint);
        let routes = ClientRoutes {
            server_host: None,
            via_gateway: None,
            via_dev: None,
            redirect_all: opts.redirect_all,
            tun_name: tun_name.clone(),
            kill_switch: false,
            ipv6: false,
            dns: false,
            kill_switch_begun: false,
            ipv6_begun: false,
            dns_begun: false,
            wants_kill_switch: opts.kill_switch,
            server_ip: server,
            server_port: port,
        };
        if !v4 {
            return Change::start(idle_plan(server, port, tun_name), Phase::Done, routes);
        }
        match default_route {
            Some((gateway, dev)) => {
                let plan = Plan {
                    server,
                    port,
                    gateway,
                    dev,
                    tun_name,
                    redirect_all: opts.redirect_all,
                    disable_ipv6: opts.disable_ipv6,
                    rewrite_dns: opts.dns.len() > 0,
                    kill_switch: opts.kill_switch && opts.redirect_all,
                };
                Change::start(plan, Phase::HostRoute, routes)
            },
            None => Change::start(idle_plan(server, port, tun_name), Phase::Failed, routes),
        }
    }

    /// What is to be done, in order and whatever comes of it, to remove
    /// full-tunnel routes (and kill switch). Host route / IPv6 / DNS kept until
    /// full teardown.
    pub fn teardown(&mut self) -> (r: Vec<Op>)
        ensures
            r@ == teardown_ops(*old(self)),
            *final(self) == turned_off(*old(self)),
    {
        let mut ops: Vec<Op> = Vec::new();
        if self.kill_switch || self.kill_switch_begun {
            self.kill_switch = false;
            self.kill_switch_begun = false;
            kill_switch::push_kill_switch_removal(&mut ops);
        }
        self.push_split_removal(&mut ops);
        assert(ops@ =~= teardown_ops(*old(self)));
        ops
    }

    /// What is to be done, in order and whatever comes of it, to remove
    /// everything.
    pub fn teardown_all(&mut self) -> (r: Vec<Op>)
        ensures
            r@ == teardown_all_ops(*old(self)),
            *final(self) == untouched(
                old(self).tun_name,
                old(self).redirect_all,
                old(self).wants_kill_switch,
                old(self).server_ip,
                old(self).server_port,
            ),
    {
        let mut ops: Vec<Op> = Vec::new();
        if self.kill_switch || self.kill_switch_begun {
            self.kill_switch = false;
            self.kill_switch_begun = false;
            kill_switch::push_kill_switch_removal(&mut ops);
        }
        if self.ipv6 || self.ipv6_begun {
            self.ipv6 = false;
            self.ipv6_begun = false;
            ops.push(Op::Run(Command::DeleteBlackhole { half: Half::Lower }));
            ops.push(Op::Run(Command::DeleteBlackhole { half: Half::Upper }));
        }
        if self.dns || self.dns_begun {
            self.dns = false;
            self.dns_begun = false;
            ops.push(Op::RestoreDns);
        }
        self.push_split_removal(&mut ops);
        if let (Some(host), Some(gateway), Some(dev)) = (
            self.server_host.take(),
            self.via_gateway.take(),
            self.via_dev.take(),
        ) {
            ops.push(Op::Run(Command::DeleteHostRoute { host, gateway, dev }));
        }
        assert(ops@ =~= teardown_all_ops(*old(self)));
        ops
    }

    /// Appends how the full-tunnel routes are removed.
    fn push_split_removal(&self, ops: &mut Vec<Op>)
        ensures
            final(ops)@ == old(ops)@ + split_removal(*self),
    {
        if self.redirect_all {
            ops.push(
                Op::Run(Command::DeleteHalf { half: Half::Lower, dev: self.tun_name.clone() }),
            );
            ops.push(
                Op::Run(Command::DeleteHalf { half: Half::Upper, dev: self.tun_name.clone() }),
            );
        }
        assert(ops@ =~= old(ops)@ + split_removal(*self));
    }

    /// What is to be done to re-install full-tunnel split defaults and kill
    /// switch. The kill switch comes back where it was asked for at the
    /// installation, around the server of then.
    pub fn reenable(self) -> (r: Change)
        ensures
            r.wf(),
            r@ == ChangeView::at(
                r@.plan,
                Phase::SplitRoutes,
                self,
            ).settled(),
            r@.plan.tun_name == self.tun_name,
            r@.plan.redirect_all == self.redirect_all,
            !r@.plan.disable_ipv6,
            !r@.plan.rewrite_dns,
            r@.plan.kill_switch == (self.wants_kill_switch && self.redirect_all
                && !self.kill_switch && self.via_dev is Some),
            r@.plan.server == self.server_ip,
            r@.plan.port == self.server_port,
            reenables(r@, self),
    {
        let mut plan: Plan = idle_plan(self.server_ip, self.server_port, self.tun_name.clone());
        plan.redirect_all = self.redirect_all;
        plan.kill_switch = self.wants_kill_switch && self.redirect_all && !self.kill_switch
            && self.via_dev.is_some();
        proof {
            lemma_plan_is_kept(ChangeView::at(plan, Phase::SplitRoutes, self));
        }
        Change::start(plan, Phase::SplitRoutes, self)
    }

    /// What is to be done to re-install full-tunnel split defaults and, where
    /// the caller wants it and it is not in place, the kill switch around
    /// `endpoint`.
    pub fn reenable_with_ks(self, endpoint: &SocketAddr, want_kill_switch: bool) -> (r: Change)
        ensures
            r.wf(),
            r@ == ChangeView::at(
                r@.plan,
                Phase::SplitRoutes,
                self,
            ).settled(),
            r@.plan.tun_name == self.tun_name,
            r@.plan.redirect_all == self.redirect_all,
            !r@.plan.disable_ipv6,
            !r@.plan.rewrite_dns,
            r@.plan.kill_switch == (want_kill_switch && self.redirect_all && !self.kill_switch
                && endpoint is V4 && self.via_dev is Some),
            *endpoint matches SocketAddr::V4 { ip, port } ==> r@.plan.server == ip && r@.plan.port
                == port,
            reenables_with(r@, self, *endpoint, want_kill_switch),
    {
        let (server, port, v4): (Ipv4Addr, u16, bool) = split_endpoint(endpoint);
        let mut plan: Plan = idle_plan(server, port, self.tun_name.clone());
        plan.redirect_all = self.redirect_all;
        plan.kill_switch = want_kill_switch && self.redirect_all && !self.kill_switch && v4
            && self.via_dev.is_some();
        proof {
            lemma_plan_is_kept(ChangeView::at(plan, Phase::SplitRoutes, self));
        }
        Change::start(plan, Phase::SplitRoutes, self)
    }
}

/// Whether `change` is an installation from these options, before its first
/// operation.
pub open spec fn installs(
    change: ChangeView,
    endpoint: SocketAddr,
    tun_name: String,
    opts: ClientRouteOpts,
    default_route: Option<(Ipv4Addr, String)>,
) -> bool {
    match (endpoint, default_route) {
        (SocketAddr::V4 { ip, port }, Some((gateway, dev))) => change == ChangeView::at(
            install_plan(ip, port, gateway, dev, tun_name, opts),
            Phase::HostRoute,
            untouched(tun_name, opts.redirect_all, opts.kill_switch, ip, port),
        ),
        (SocketAddr::V4 { ip, port }, None) => change.phase == Phase::Failed && change.routes
            == untouched(tun_name, opts.redirect_all, opts.kill_switch, ip, port),
        (SocketAddr::V6 { port, .. }, _) => change.phase == Phase::Done && change.routes
            == untouched(
            tun_name,
            opts.redirect_all,
            opts.kill_switch,
            Ipv4Addr { a: 0, b: 0, c: 0, d: 0 },
            port,
        ),
    }
}

/// Whether `change` enables the tunnel of `routes` again, before its first
/// operation.
pub open spec fn reenables(change: ChangeView, routes: ClientRoutes) -> bool {
    &&& change == ChangeView::at(change.plan, Phase::SplitRoutes, routes).settled()
    &&& change.plan.tun_name == routes.tun_name
    &&& change.plan.redirect_all == routes.redirect_all
    &&& !change.plan.disable_ipv6
    &&& !change.plan.rewrite_dns
    &&& change.plan.kill_switch == (routes.wants_kill_switch && routes.redirect_all
        && !routes.kill_switch && routes.via_dev is Some)
    &&& change.plan.server == routes.server_ip
    &&& change.plan.port == routes.server_port
}

/// Whether `change` enables the tunnel of `routes` again, with the kill switch
/// around `endpoint` where it is wanted, before its first operation.
pub open spec fn reenables_with(
    change: ChangeView,
    routes: ClientRoutes,
    endpoint: SocketAddr,
    want: bool,
) -> bool {
    &&& change == ChangeView::at(change.plan, Phase::SplitRoutes, routes).settled()
    &&& change.plan.tun_name == routes.tun_name
    &&& change.plan.redirect_all == routes.redirect_all
    &&& !change.plan.disable_ipv6
    &&& !change.plan.rewrite_dns
    &&& change.plan.kill_switch == (want && routes.redirect_all && !routes.kill_switch
        && endpoint is V4 && routes.via_dev is Some)
    &&& endpoint matches SocketAddr::V4 { ip, port } ==> change.plan.server == ip
        && change.plan.port == port
}

/// The address and port of an endpoint, and whether it is one of version four;
/// else the address is left at zero.
fn split_endpoint(endpoint: &SocketAddr) -> (r: (Ipv4Addr, u16, bool))
    ensures
        match *endpoint {
            SocketAddr::V4 { ip, port } => r == (ip, port, true),
            SocketAddr::V6 { port, .. } => r == (
                Ipv4Addr { a: 0, b: 0, c: 0, d: 0 },
                port,
                false,
            ),
        },
{
    match endpoint {
        SocketAddr::V4 { ip, port } => (*ip, *port, true),
        SocketAddr::V6 { port, .. } => (Ipv4Addr::new(0, 0, 0, 0), *port, false),
    }
}

/// A plan that does nothing.
fn idle_plan(server: Ipv4Addr, port: u16, tun_name: String) -> (r: Plan)
    ensures
        r.server == server,
        r.port == port,
        r.tun_name == tun_name,
        !r.redirect_all,
        !r.disable_ipv6,
        !r.rewrite_dns,
        !r.kill_switch,
{
    Plan {
        server,
        port,
        gateway: Ipv4Addr::new(0, 0, 0, 0),
        dev: String::new(),
        tun_name,
        redirect_all: false,
        disable_ipv6: false,
        rewrite_dns: false,
        kill_switch: false,
    }
}

/// The plan of an installation.
pub open spec fn install_plan(
    server: Ipv4Addr,
    port: u16,
    gateway: Ipv4Addr,
    dev: String,
    tun_name: String,
    opts: ClientRouteOpts,
) -> Plan {
    Plan {
        server,
        port,
        gateway,
        dev,
        tun_name,
        redirect_all: opts.redirect_all,
        disable_ipv6: opts.disable_ipv6,
        rewrite_dns: opts.dns@.len() > 0,
        kill_switch: opts.kill_switch && opts.redirect_all,
    }
}

/// How the full-tunnel routes are removed.
pub open spec fn split_removal(routes: ClientRoutes) -> Seq<Op> {
    if routes.redirect_all {
        seq![
            Op::Run(Command::DeleteHalf { half: Half::Lower, dev: routes.tun_name }),
            Op::Run(Command::DeleteHalf { half: Half::Upper, dev: routes.tun_name }),
        ]
    } else {
        Seq::empty()
    }
}

/// How the kill switch is removed, where it or a part of it is in place.
pub open spec fn switch_removal(routes: ClientRoutes) -> Seq<Op> {
    if routes.kill_switch || routes.kill_switch_begun {
        kill_switch::kill_switch_removal()
    } else {
        Seq::empty()
    }
}

/// The routes after the tunnel was turned off.
pub open spec fn turned_off(routes: ClientRoutes) -> ClientRoutes {
    ClientRoutes { kill_switch: false, kill_switch_begun: false, ..routes }
}

/// What turning the tunnel off does.
pub open spec fn teardown_ops(routes: ClientRoutes) -> Seq<Op> {
    switch_removal(routes) + split_removal(routes)
}

/// What removing everything does: the kill switch, IPv6, the name servers, each
/// also where it was only begun, the full-tunnel routes and at last the host
/// route.
pub open spec fn teardown_all_ops(routes: ClientRoutes) -> Seq<Op> {
    switch_removal(routes) + (if routes.ipv6 || routes.ipv6_begun {
        seq![
            Op::Run(Command::DeleteBlackhole { half: Half::Lower }),
            Op::Run(Command::DeleteBlackhole { half: Half::Upper }),
        ]
    } else {
        Seq::empty()
    }) + (if routes.dns || routes.dns_begun {
        seq![Op::RestoreDns]
    } else {
        Seq::empty()
    }) + split_removal(routes) + (match (routes.server_host, routes.via_gateway, routes.via_dev) {
        (Some(host), Some(gateway), Some(dev)) => seq![
            Op::Run(Command::DeleteHostRoute { host, gateway, dev }),
        ],
        _ => Seq::empty(),
    })
}

/// A change keeps its plan.
proof fn lemma_plan_is_kept(change: ChangeView)
    ensures
        change.settled().plan == change.plan,
    decreases phases_left(change.phase),
{
    if !change.over() && change.script.over() {
        lemma_plan_is_kept(change.turned());
    }
}

} // verus!
