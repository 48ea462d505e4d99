//! What changes of the routes keep, whatever succeeds or fails.

use super::client;
use super::client::{ChangeView, ClientRouteOpts, ClientRoutes, Phase, Plan};
use super::command::{Command, Half};
use super::script::{After, Op, ScriptView, Step};
use crate::net::{Ipv4Addr, SocketAddr};
use vstd::prelude::*;

verus! {

/// What every phase of an installation keeps.
spec fn on_track(change: ChangeView, plan: Plan, wants: bool) -> bool {
    &&& change.plan == plan
    &&& change.script.steps == plan.steps(change.phase)
    &&& change.routes.tun_name == plan.tun_name
    &&& change.routes.redirect_all == plan.redirect_all
    &&& change.phase == Phase::HostRoute ==> change.routes == client::untouched(
        plan.tun_name,
        plan.redirect_all,
        change.routes.wants_kill_switch,
        plan.server,
        plan.port,
    )
    &&& change.routes.server_ip == plan.server
    &&& change.routes.server_port == plan.port
    &&& change.routes.wants_kill_switch == wants
    &&& change.phase != Phase::HostRoute && change.phase != Phase::Failed ==> is_pinned(
        change.routes,
        plan,
    )
    &&& change.routes.ipv6 ==> plan.disable_ipv6
    &&& change.routes.dns ==> plan.rewrite_dns
    &&& change.routes.kill_switch ==> plan.kill_switch
}

/// Whether the path to the VPN server is kept outside the tunnel.
pub open spec fn is_pinned(routes: ClientRoutes, plan: Plan) -> bool {
    &&& routes.server_host == Some(plan.server)
    &&& routes.via_gateway == Some(plan.gateway)
    &&& routes.via_dev == Some(plan.dev)
}

proof fn lemma_settled_on_track(change: ChangeView, plan: Plan, wants: bool)
    requires
        on_track(change, plan, wants),
    ensures
        on_track(change.settled(), plan, wants),
    decreases client::phases_left(change.phase),
{
    if !change.over() && change.script.over() {
        lemma_settled_on_track(change.turned(), plan, wants);
    }
}

proof fn lemma_played_on_track(
    change: ChangeView,
    plan: Plan,
    wants: bool,
    outcomes: Seq<bool>,
)
    requires
        on_track(change, plan, wants),
    ensures
        on_track(change.played(outcomes), plan, wants),
    decreases outcomes.len(),
{
    if outcomes.len() > 0 {
        lemma_played_on_track(change, plan, wants, outcomes.drop_last());
        let before = change.played(outcomes.drop_last());
        if !before.over() {
            let after = ChangeView { script: before.script.reported(outcomes.last()), ..before };
            lemma_settled_on_track(after, plan, wants);
        }
    }
}

/// The start of an installation, with or without a wish for the kill switch.
pub open spec fn install_start(plan: Plan, wants: bool) -> ChangeView {
    ChangeView::at(
        plan,
        Phase::HostRoute,
        client::untouched(plan.tun_name, plan.redirect_all, wants, plan.server, plan.port),
    )
}

/// The tunnel is not entered before the path to the VPN server is kept outside
/// it: an installation that is past its first phase and has not failed has the
/// host route in place, and notes it for the teardown.
pub proof fn law_host_route_comes_first(plan: Plan, wants: bool, outcomes: Seq<bool>)
    ensures
        ({
            let now = install_start(plan, wants).played(outcomes);
            now.phase != Phase::HostRoute && now.phase != Phase::Failed ==> is_pinned(
                now.routes,
                plan,
            )
        }),
{
    lemma_played_on_track(install_start(plan, wants), plan, wants, outcomes);
}

/// Whether a phase is one of those that are done as well as can be.
pub open spec fn is_optional(phase: Phase) -> bool {
    phase == Phase::Ipv6 || phase == Phase::Dns || phase == Phase::KillSwitch || phase
        == Phase::Done
}

proof fn lemma_settled_optional(change: ChangeView)
    requires
        is_optional(change.phase),
    ensures
        is_optional(change.settled().phase),
    decreases client::phases_left(change.phase),
{
    if !change.over() && change.script.over() {
        lemma_settled_optional(change.turned());
    }
}

/// Once the routes are set, a change does not fail any more: what is optional
/// is done as well as can be.
pub proof fn law_optional_phases_never_fail(change: ChangeView, outcomes: Seq<bool>)
    requires
        is_optional(change.phase),
    ensures
        change.played(outcomes).phase != Phase::Failed,
        is_optional(change.played(outcomes).phase),
    decreases outcomes.len(),
{
    if outcomes.len() > 0 {
        law_optional_phases_never_fail(change, outcomes.drop_last());
        let before = change.played(outcomes.drop_last());
        if !before.over() {
            lemma_settled_optional(
                ChangeView { script: before.script.reported(outcomes.last()), ..before },
            );
        }
    }
}

/// What undoes an operation, for those that leave something behind.
pub open spec fn undo(op: Op) -> Option<Op> {
    match op {
        Op::BackUpDns => Some(Op::RestoreDns),
        Op::WriteDns => Some(Op::RestoreDns),
        Op::Run(Command::ReplaceHostRoute { host, gateway, dev }) => Some(
            Op::Run(Command::DeleteHostRoute { host, gateway, dev }),
        ),
        Op::Run(Command::ReplaceHalf { half, dev }) => Some(
            Op::Run(Command::DeleteHalf { half, dev }),
        ),
        Op::Run(Command::ReplaceBlackhole { half }) => Some(
            Op::Run(Command::DeleteBlackhole { half }),
        ),
        Op::Run(Command::NewChain) => Some(Op::Run(Command::DeleteChain)),
        Op::Run(Command::InsertJump) => Some(Op::Run(Command::DeleteJump)),
        _ => None,
    }
}

/// Whether a phase of a finished installation did what it was for.
pub open spec fn is_achieved(routes: ClientRoutes, phase: Phase) -> bool {
    match phase {
        Phase::HostRoute | Phase::SplitRoutes => true,
        Phase::Ipv6 => routes.ipv6,
        Phase::Dns => routes.dns,
        Phase::KillSwitch => routes.kill_switch,
        Phase::Done | Phase::Failed => false,
    }
}

/// Everything that an installation put in place is taken away in the end: for
/// each phase that did what it was for, the full teardown undoes every
/// operation of it that leaves something behind.
pub proof fn law_full_teardown_undoes_install(
    plan: Plan,
    wants: bool,
    outcomes: Seq<bool>,
    phase: Phase,
    i: int,
)
    requires
        install_start(plan, wants).played(outcomes).phase == Phase::Done,
        is_achieved(install_start(plan, wants).played(outcomes).routes, phase),
        0 <= i < plan.steps(phase).len(),
    ensures
        undo(plan.steps(phase)[i].op) matches Some(op) ==> client::teardown_all_ops(
            install_start(plan, wants).played(outcomes).routes,
        ).contains(op),
{
    let now = install_start(plan, wants).played(outcomes);
    lemma_played_on_track(install_start(plan, wants), plan, wants, outcomes);
    lemma_noted_is_undone(now, phase, i);
}

/// Whether the step `i` of a phase was done and succeeded, in a change whose
/// operations had these outcomes.
pub open spec fn succeeded(start: ChangeView, outcomes: Seq<bool>, phase: Phase, i: nat) -> bool {
    exists|k: int|
        {
            let then = #[trigger] start.played(outcomes.take(k));
            &&& 0 <= k < outcomes.len()
            &&& outcomes[k]
            &&& !then.over()
            &&& then.phase == phase
            &&& then.script.pos == i
        }
}

/// Whether what a phase has done is noted for the teardown.
spec fn is_noted(change: ChangeView, phase: Phase) -> bool {
    match phase {
        Phase::HostRoute => is_pinned(change.routes, change.plan),
        Phase::SplitRoutes => true,
        Phase::Ipv6 => change.routes.ipv6 || change.routes.ipv6_begun,
        Phase::Dns => change.routes.dns || change.routes.dns_begun,
        Phase::KillSwitch => change.routes.kill_switch || change.routes.kill_switch_begun,
        Phase::Done | Phase::Failed => true,
    }
}

/// Whether what a phase has done is noted already, or will be when it ends.
spec fn is_tracked(change: ChangeView, phase: Phase) -> bool {
    ||| change.phase == phase && change.script.begun && !(phase == Phase::HostRoute
        && change.script.failed)
    ||| client::phases_left(change.phase) < client::phases_left(phase) && is_noted(change, phase)
}

proof fn lemma_settled_tracked(change: ChangeView, phase: Phase)
    requires
        is_tracked(change, phase),
    ensures
        is_tracked(change.settled(), phase),
    decreases client::phases_left(change.phase),
{
    if !change.over() && change.script.over() {
        lemma_settled_tracked(change.turned(), phase);
    }
}

/// Where a change may begin: its script has something to do, and the host route
/// is not on its way.
spec fn is_fresh(start: ChangeView) -> bool {
    &&& is_sound(start)
    &&& start.over() || !start.script.over()
    &&& start.phase == Phase::HostRoute ==> !start.script.begun
}

proof fn lemma_succeeded_is_tracked(start: ChangeView, outcomes: Seq<bool>, phase: Phase, i: nat)
    requires
        is_fresh(start),
        succeeded(start, outcomes, phase, i),
    ensures
        is_tracked(start.played(outcomes), phase),
        0 <= i < start.plan.steps(phase).len(),
    decreases outcomes.len(),
{
    let k = choose|k: int|
        {
            let then = #[trigger] start.played(outcomes.take(k));
            &&& 0 <= k < outcomes.len()
            &&& outcomes[k]
            &&& !then.over()
            &&& then.phase == phase
            &&& then.script.pos == i
        };
    let rest = outcomes.drop_last();
    let before = start.played(rest);
    lemma_played_fresh(start, rest);
    if k == outcomes.len() - 1 {
        assert(outcomes.take(k) =~= rest);
        lemma_success_goes_on(before.plan, phase, i as int);
        let after = ChangeView { script: before.script.reported(true), ..before };
        lemma_settled_tracked(after, phase);
    } else {
        assert(rest.take(k) =~= outcomes.take(k));
        assert(rest[k]);
        assert(succeeded(start, rest, phase, i));
        lemma_succeeded_is_tracked(start, rest, phase, i);
        if !before.over() {
            let after = ChangeView { script: before.script.reported(outcomes.last()), ..before };
            lemma_settled_tracked(after, phase);
        }
    }
}

/// A change keeps its plan and the names of its routes, and its first phase has
/// done nothing as long as it is not over.
proof fn lemma_played_fresh(start: ChangeView, outcomes: Seq<bool>)
    requires
        is_fresh(start),
    ensures
        is_fresh(start.played(outcomes)),
        start.played(outcomes).plan == start.plan,
        start.played(outcomes).routes.tun_name == start.routes.tun_name,
        start.played(outcomes).routes.redirect_all == start.routes.redirect_all,
    decreases outcomes.len(),
{
    law_change_comes_to_an_end(start, outcomes);
    if outcomes.len() > 0 {
        let rest = outcomes.drop_last();
        lemma_played_fresh(start, rest);
        let before = start.played(rest);
        if !before.over() {
            let after = ChangeView { script: before.script.reported(outcomes.last()), ..before };
            lemma_settled_leaves(after);
        }
    }
}

/// A change whose script is at its end leaves its phase, and keeps its plan and
/// the names of its routes.
proof fn lemma_settled_leaves(change: ChangeView)
    ensures
        change.settled().plan == change.plan,
        change.settled().routes.tun_name == change.routes.tun_name,
        change.settled().routes.redirect_all == change.routes.redirect_all,
        client::phases_left(change.settled().phase) <= client::phases_left(change.phase),
        !change.over() && change.script.over() ==> client::phases_left(change.settled().phase)
            < client::phases_left(change.phase),
    decreases client::phases_left(change.phase),
{
    if !change.over() && change.script.over() {
        lemma_settled_leaves(change.turned());
    }
}

/// Nothing that an installation did is left behind: once it is over, whether it
/// was made or has failed, the full teardown undoes every operation that
/// succeeded and leaves something behind, also of a phase that failed midway.
pub proof fn law_full_teardown_undoes_all_that_was_done(
    plan: Plan,
    wants: bool,
    outcomes: Seq<bool>,
    phase: Phase,
    i: nat,
)
    requires
        install_start(plan, wants).played(outcomes).over(),
        succeeded(install_start(plan, wants), outcomes, phase, i),
    ensures
        i < plan.steps(phase).len(),
        undo(plan.steps(phase)[i as int].op) matches Some(op) ==> client::teardown_all_ops(
            install_start(plan, wants).played(outcomes).routes,
        ).contains(op),
{
    let now = install_start(plan, wants).played(outcomes);
    lemma_played_on_track(install_start(plan, wants), plan, wants, outcomes);
    lemma_succeeded_is_tracked(install_start(plan, wants), outcomes, phase, i);
    lemma_noted_is_undone(now, phase, i as int);
}

/// Nor is anything left behind that turning the tunnel on again did, or began to
/// do, once that is over: the full teardown undoes it too, and so does turning
/// the tunnel off.
pub proof fn law_teardown_undoes_reenabling(
    plan: Plan,
    routes: ClientRoutes,
    outcomes: Seq<bool>,
    phase: Phase,
    i: nat,
)
    requires
        plan.tun_name == routes.tun_name,
        plan.redirect_all == routes.redirect_all,
        !plan.disable_ipv6,
        !plan.rewrite_dns,
        ChangeView::at(plan, Phase::SplitRoutes, routes).settled().played(outcomes).over(),
        succeeded(
            ChangeView::at(plan, Phase::SplitRoutes, routes).settled(),
            outcomes,
            phase,
            i,
        ),
    ensures
        i < plan.steps(phase).len(),
        ({
            let now = ChangeView::at(plan, Phase::SplitRoutes, routes).settled().played(outcomes);
            undo(plan.steps(phase)[i as int].op) matches Some(op) ==> {
                &&& client::teardown_all_ops(now.routes).contains(op)
                &&& client::teardown_ops(now.routes).contains(op)
            }
        }),
{
    let at = ChangeView::at(plan, Phase::SplitRoutes, routes);
    let start = at.settled();
    lemma_settled_work(at);
    lemma_settled_leaves(at);
    let now = start.played(outcomes);
    lemma_played_fresh(start, outcomes);
    lemma_succeeded_is_tracked(start, outcomes, phase, i);
    lemma_played_past(start, outcomes, phase, i);
    lemma_noted_is_undone(now, phase, i as int);
    let ops = client::teardown_ops(now.routes);
    let a = client::switch_removal(now.routes).len() as int;
    if let Some(op) = undo(plan.steps(phase)[i as int].op) {
        match phase {
            Phase::SplitRoutes => {
                assert(ops[a + i] == op);
            },
            _ => {
                if i == 0 {
                    assert(ops[2] == op);
                } else {
                    assert(i == 9);
                    assert(ops[0] == op);
                }
            },
        }
    }
}

/// A change does nothing of the phases before the one in which it begins.
proof fn lemma_played_past(start: ChangeView, outcomes: Seq<bool>, phase: Phase, i: nat)
    requires
        succeeded(start, outcomes, phase, i),
    ensures
        client::phases_left(phase) <= client::phases_left(start.phase),
{
    let k = choose|k: int|
        {
            let then = #[trigger] start.played(outcomes.take(k));
            &&& 0 <= k < outcomes.len()
            &&& outcomes[k]
            &&& !then.over()
            &&& then.phase == phase
            &&& then.script.pos == i
        };
    lemma_phases_go_on(start, outcomes.take(k));
}

proof fn lemma_phases_go_on(start: ChangeView, outcomes: Seq<bool>)
    ensures
        client::phases_left(start.played(outcomes).phase) <= client::phases_left(start.phase),
    decreases outcomes.len(),
{
    if outcomes.len() > 0 {
        let rest = outcomes.drop_last();
        lemma_phases_go_on(start, rest);
        let before = start.played(rest);
        if !before.over() {
            lemma_settled_leaves(
                ChangeView { script: before.script.reported(outcomes.last()), ..before },
            );
        }
    }
}

proof fn lemma_noted_is_undone(now: ChangeView, phase: Phase, i: int)
    requires
        now.routes.tun_name == now.plan.tun_name,
        now.routes.redirect_all == now.plan.redirect_all,
        is_noted(now, phase),
        0 <= i < now.plan.steps(phase).len(),
    ensures
        undo(now.plan.steps(phase)[i].op) matches Some(op) ==> client::teardown_all_ops(
            now.routes,
        ).contains(op),
{
    let plan = now.plan;
    let routes = now.routes;
    let ops = client::teardown_all_ops(routes);
    let a = client::switch_removal(routes).len() as int;
    let b: int = if routes.ipv6 || routes.ipv6_begun {
        2
    } else {
        0
    };
    let c: int = if routes.dns || routes.dns_begun {
        1
    } else {
        0
    };
    let d = client::split_removal(routes).len() as int;
    if let Some(op) = undo(plan.steps(phase)[i].op) {
        match phase {
            Phase::HostRoute => {
                assert(ops[a + b + c + d] == op);
            },
            Phase::SplitRoutes => {
                assert(ops[a + b + c + i] == op);
            },
            Phase::Ipv6 => {
                assert(ops[a + i] == op);
            },
            Phase::Dns => {
                assert(ops[a + b] == op);
            },
            _ => {
                if i == 0 {
                    assert(ops[2] == op);
                } else {
                    assert(i == 9);
                    assert(ops[0] == op);
                }
            },
        }
    }
}

/// Whether an operation belongs to the tunnel's own routes or the kill switch.
pub open spec fn is_tunnel_op(op: Op) -> bool {
    match op {
        Op::Run(Command::DeleteHalf { .. }) => true,
        Op::Run(Command::DeleteJump) => true,
        Op::Run(Command::FlushChain) => true,
        Op::Run(Command::DeleteChain) => true,
        _ => false,
    }
}

/// Turning the tunnel off touches the full-tunnel routes and the kill switch
/// only: the host route, IPv6 and the name servers stay.
pub proof fn law_off_keeps_the_rest(routes: ClientRoutes, i: int)
    requires
        0 <= i < client::teardown_ops(routes).len(),
    ensures
        is_tunnel_op(client::teardown_ops(routes)[i]),
{
}

/// What every phase of turning the tunnel on again keeps.
spec fn resumes(change: ChangeView, plan: Plan, routes: ClientRoutes) -> bool {
    &&& change.plan == plan
    &&& change.script.steps == plan.steps(change.phase)
    &&& change.phase != Phase::HostRoute
    &&& change.routes == (ClientRoutes {
        kill_switch: change.routes.kill_switch,
        kill_switch_begun: change.routes.kill_switch_begun,
        ..routes
    })
    &&& change.routes.kill_switch ==> plan.kill_switch
    &&& change.script.begun ==> change.script.steps.len() > 0
}

proof fn lemma_settled_resumes(change: ChangeView, plan: Plan, routes: ClientRoutes)
    requires
        resumes(change, plan, routes),
        !plan.disable_ipv6,
        !plan.rewrite_dns,
    ensures
        resumes(change.settled(), plan, routes),
        change.settled().over() || !change.settled().script.over(),
    decreases client::phases_left(change.phase),
{
    if !change.over() && change.script.over() {
        lemma_settled_resumes(change.turned(), plan, routes);
    }
}

/// Turning the tunnel off and on again leaves all but the kill switch as it
/// was, whatever succeeds or fails; and the kill switch is in place only where
/// the plan asks for it.
pub proof fn law_off_and_on_keeps_the_rest(
    routes: ClientRoutes,
    plan: Plan,
    outcomes: Seq<bool>,
)
    requires
        !plan.disable_ipv6,
        !plan.rewrite_dns,
    ensures
        ({
            let off = client::turned_off(routes);
            let now = ChangeView::at(plan, Phase::SplitRoutes, off).settled().played(outcomes);
            &&& now.routes == (ClientRoutes {
                kill_switch: now.routes.kill_switch,
                kill_switch_begun: now.routes.kill_switch_begun,
                ..routes
            })
            &&& now.routes.kill_switch ==> plan.kill_switch
        }),
{
    let off = client::turned_off(routes);
    let start = ChangeView::at(plan, Phase::SplitRoutes, off);
    lemma_settled_resumes(start, plan, routes);
    lemma_played_resumes(start.settled(), plan, routes, outcomes);
}

proof fn lemma_played_resumes(
    change: ChangeView,
    plan: Plan,
    routes: ClientRoutes,
    outcomes: Seq<bool>,
)
    requires
        resumes(change, plan, routes),
        change.over() || !change.script.over(),
        !plan.disable_ipv6,
        !plan.rewrite_dns,
    ensures
        resumes(change.played(outcomes), plan, routes),
        change.played(outcomes).over() || !change.played(outcomes).script.over(),
    decreases outcomes.len(),
{
    if outcomes.len() > 0 {
        lemma_played_resumes(change, plan, routes, outcomes.drop_last());
        let before = change.played(outcomes.drop_last());
        if !before.over() {
            lemma_settled_resumes(
                ChangeView { script: before.script.reported(outcomes.last()), ..before },
                plan,
                routes,
            );
        }
    }
}

/// Operations that a change has left to do, at most.
pub open spec fn work_left(change: ChangeView) -> int {
    let later = |phase: Phase| change.plan.steps(phase).len() as int;
    if change.over() {
        0
    } else {
        (if change.script.failed {
            0
        } else {
            change.script.steps.len() - change.script.pos
        }) + match change.phase {
            Phase::HostRoute => later(Phase::SplitRoutes) + later(Phase::Ipv6) + later(Phase::Dns)
                + later(Phase::KillSwitch),
            Phase::SplitRoutes => later(Phase::Ipv6) + later(Phase::Dns) + later(
                Phase::KillSwitch,
            ),
            Phase::Ipv6 => later(Phase::Dns) + later(Phase::KillSwitch),
            Phase::Dns => later(Phase::KillSwitch),
            _ => 0,
        }
    }
}

/// Whether the place of a change makes sense.
pub open spec fn is_sound(change: ChangeView) -> bool {
    &&& change.script.steps == change.plan.steps(change.phase)
    &&& change.script.pos <= change.script.steps.len()
}

proof fn lemma_settled_work(change: ChangeView)
    requires
        is_sound(change),
    ensures
        is_sound(change.settled()),
        work_left(change.settled()) <= work_left(change),
        change.settled().over() || !change.settled().script.over(),
        change.settled().plan == change.plan,
    decreases client::phases_left(change.phase),
{
    if !change.over() && change.script.over() {
        lemma_settled_work(change.turned());
    }
}

/// A change comes to an end: after as many outcomes as it has operations to do
/// it is over.
pub proof fn law_change_comes_to_an_end(change: ChangeView, outcomes: Seq<bool>)
    requires
        is_sound(change),
        change.over() || !change.script.over(),
    ensures
        is_sound(change.played(outcomes)),
        change.played(outcomes).over() || !change.played(outcomes).script.over(),
        change.played(outcomes).over() || work_left(change.played(outcomes)) <= work_left(change)
            - outcomes.len(),
        outcomes.len() >= work_left(change) ==> change.played(outcomes).over(),
    decreases outcomes.len(),
{
    if outcomes.len() > 0 {
        law_change_comes_to_an_end(change, outcomes.drop_last());
        let before = change.played(outcomes.drop_last());
        if !before.over() {
            lemma_settled_work(
                ChangeView { script: before.script.reported(outcomes.last()), ..before },
            );
        }
    }
}

/// What every phase keeps while all operations succeed.
spec fn is_smooth(change: ChangeView, wants: ClientRoutes) -> bool {
    &&& is_sound(change)
    &&& !change.script.failed
    &&& change.phase != Phase::Failed
    &&& change.phase == Phase::Dns || change.phase == Phase::KillSwitch || change.phase
        == Phase::Done ==> change.routes.ipv6 == wants.ipv6
    &&& change.phase == Phase::KillSwitch || change.phase == Phase::Done ==> change.routes.dns
        == wants.dns
    &&& change.phase == Phase::Done ==> change.routes.kill_switch == wants.kill_switch
    &&& client::phases_left(change.phase) >= 3 ==> wants.ipv6 == (change.routes.ipv6
        || change.plan.disable_ipv6)
    &&& client::phases_left(change.phase) >= 2 ==> wants.dns == (change.routes.dns
        || change.plan.rewrite_dns)
    &&& client::phases_left(change.phase) >= 1 ==> wants.kill_switch == (change.routes.kill_switch
        || change.plan.kill_switch)
}

proof fn lemma_settled_smooth(change: ChangeView, wants: ClientRoutes)
    requires
        is_smooth(change, wants),
    ensures
        is_smooth(change.settled(), wants),
        change.settled().over() || !change.settled().script.over(),
    decreases client::phases_left(change.phase),
{
    if !change.over() && change.script.over() {
        lemma_settled_smooth(change.turned(), wants);
    }
}

/// No script fails on a step that succeeds.
proof fn lemma_success_goes_on(plan: Plan, phase: Phase, i: int)
    requires
        0 <= i < plan.steps(phase).len(),
    ensures
        plan.steps(phase)[i].on_ok != After::Abort,
{
}

proof fn lemma_played_smooth(change: ChangeView, wants: ClientRoutes, outcomes: Seq<bool>)
    requires
        is_smooth(change, wants),
        change.over() || !change.script.over(),
        forall|i: int| 0 <= i < outcomes.len() ==> #[trigger] outcomes[i],
    ensures
        is_smooth(change.played(outcomes), wants),
        change.played(outcomes).over() || !change.played(outcomes).script.over(),
    decreases outcomes.len(),
{
    if outcomes.len() > 0 {
        let rest = outcomes.drop_last();
        assert forall|i: int| 0 <= i < rest.len() implies #[trigger] rest[i] by {
            assert(rest[i] == outcomes[i]);
        }
        lemma_played_smooth(change, wants, rest);
        let before = change.played(rest);
        assert(outcomes.last());
        if !before.over() {
            lemma_success_goes_on(before.plan, before.phase, before.script.pos as int);
            lemma_settled_smooth(ChangeView { script: before.script.reported(true), ..before }, wants);
        }
    }
}

/// Where every operation succeeds, the change is made, and all that the plan
/// asks for is in place beside what was there before.
pub proof fn law_success_brings_all_that_is_asked_for(
    plan: Plan,
    phase: Phase,
    routes: ClientRoutes,
    outcomes: Seq<bool>,
)
    requires
        phase == Phase::HostRoute || phase == Phase::SplitRoutes,
        forall|i: int| 0 <= i < outcomes.len() ==> #[trigger] outcomes[i],
    ensures
        ({
            let now = ChangeView::at(plan, phase, routes).settled().played(outcomes);
            &&& now.phase != Phase::Failed
            &&& now.phase == Phase::Done ==> {
                &&& now.routes.ipv6 == (routes.ipv6 || plan.disable_ipv6)
                &&& now.routes.dns == (routes.dns || plan.rewrite_dns)
                &&& now.routes.kill_switch == (routes.kill_switch || plan.kill_switch)
            }
        }),
{
    let wants = ClientRoutes {
        ipv6: routes.ipv6 || plan.disable_ipv6,
        dns: routes.dns || plan.rewrite_dns,
        kill_switch: routes.kill_switch || plan.kill_switch,
        ..routes
    };
    let start = ChangeView::at(plan, phase, routes);
    lemma_settled_smooth(start, wants);
    lemma_played_smooth(start.settled(), wants, outcomes);
}

/// Whether a plan is the one with which `routes` are enabled again.
pub open spec fn reenables(plan: Plan, routes: ClientRoutes) -> bool {
    &&& plan.tun_name == routes.tun_name
    &&& plan.redirect_all == routes.redirect_all
    &&& !plan.disable_ipv6
    &&& !plan.rewrite_dns
    &&& plan.kill_switch == (routes.wants_kill_switch && routes.redirect_all
        && !routes.kill_switch && routes.via_dev is Some)
    &&& plan.server == routes.server_ip
    &&& plan.port == routes.server_port
}

/// The kill switch comes back: after an installation that was to have it, the
/// tunnel turned off and on again has its routes and the kill switch around the
/// same server as soon as all is done and nothing failed.
pub proof fn law_kill_switch_comes_back(
    plan: Plan,
    outcomes: Seq<bool>,
    again: Plan,
    more: Seq<bool>,
)
    requires
        plan.kill_switch,
        plan.redirect_all,
        install_start(plan, true).played(outcomes).phase == Phase::Done,
        ({
            let off = client::turned_off(install_start(plan, true).played(outcomes).routes);
            reenables(again, off)
        }),
        forall|i: int| 0 <= i < more.len() ==> #[trigger] more[i],
    ensures
        again.redirect_all,
        again.kill_switch,
        again.tun_name == plan.tun_name,
        again.server == plan.server,
        again.port == plan.port,
        again.steps(Phase::SplitRoutes) == plan.steps(Phase::SplitRoutes),
        again.steps(Phase::KillSwitch) == plan.steps(Phase::KillSwitch),
        ({
            let off = client::turned_off(install_start(plan, true).played(outcomes).routes);
            let now = ChangeView::at(again, Phase::SplitRoutes, off).settled().played(more);
            &&& now.phase != Phase::Failed
            &&& now.phase == Phase::Done ==> now.routes.kill_switch
        }),
{
    let off = client::turned_off(install_start(plan, true).played(outcomes).routes);
    lemma_played_on_track(install_start(plan, true), plan, true, outcomes);
    law_success_brings_all_that_is_asked_for(again, Phase::SplitRoutes, off, more);
}

/// The operations that a change has done, when they had these outcomes.
pub open spec fn done_ops(start: ChangeView, outcomes: Seq<bool>) -> Seq<Op>
    decreases outcomes.len(),
{
    if outcomes.len() == 0 {
        Seq::empty()
    } else {
        let rest = outcomes.drop_last();
        let before = start.played(rest);
        if before.over() {
            done_ops(start, rest)
        } else {
            done_ops(start, rest).push(before.script.steps[before.script.pos as int].op)
        }
    }
}

/// What a script does from a step on where everything succeeds.
spec fn smooth_ops(steps: Seq<Step>, pos: nat) -> Seq<Op>
    decreases steps.len() + 2 - pos,
{
    if pos >= steps.len() {
        Seq::empty()
    } else {
        let next = match steps[pos as int].on_ok {
            After::SkipOne => pos + 2,
            _ => pos + 1,
        };
        seq![steps[pos as int].op] + smooth_ops(steps, next)
    }
}

/// What the phases after this one do where everything succeeds.
spec fn smooth_later(plan: Plan, phase: Phase) -> Seq<Op> {
    let later = |phase: Phase| smooth_ops(plan.steps(phase), 0);
    match phase {
        Phase::HostRoute => later(Phase::SplitRoutes) + later(Phase::Ipv6) + later(Phase::Dns)
            + later(Phase::KillSwitch),
        Phase::SplitRoutes => later(Phase::Ipv6) + later(Phase::Dns) + later(Phase::KillSwitch),
        Phase::Ipv6 => later(Phase::Dns) + later(Phase::KillSwitch),
        Phase::Dns => later(Phase::KillSwitch),
        _ => Seq::empty(),
    }
}

/// What a change has left to do where everything succeeds.
spec fn smooth_rest(change: ChangeView) -> Seq<Op> {
    if change.over() {
        Seq::empty()
    } else {
        smooth_ops(change.script.steps, change.script.pos) + smooth_later(
            change.plan,
            change.phase,
        )
    }
}

proof fn lemma_smooth_settled(change: ChangeView)
    requires
        is_sound(change),
        !change.script.failed,
    ensures
        smooth_rest(change.settled()) == smooth_rest(change),
        is_sound(change.settled()),
        change.settled().over() || !change.settled().script.over(),
    decreases client::phases_left(change.phase),
{
    if !change.over() && change.script.over() {
        let next = change.turned();
        lemma_smooth_settled(next);
        assert(smooth_ops(change.script.steps, change.script.pos) =~= Seq::empty());
        assert(smooth_rest(next) =~= smooth_rest(change));
    }
}

proof fn lemma_smooth_reported(change: ChangeView)
    requires
        is_sound(change),
        !change.over(),
        !change.script.over(),
    ensures
        smooth_rest(change) == seq![change.script.steps[change.script.pos as int].op]
            + smooth_rest(change.reported(true)),
        is_sound(change.reported(true)),
        change.reported(true).over() || !change.reported(true).script.over(),
{
    lemma_success_goes_on(change.plan, change.phase, change.script.pos as int);
    lemma_smooth_step(change.script);
    let after = ChangeView { script: change.script.reported(true), ..change };
    assert(is_sound(after));
    lemma_smooth_settled(after);
    assert(smooth_rest(change) =~= seq![change.script.steps[change.script.pos as int].op]
        + smooth_rest(after));
}

proof fn lemma_smooth_played(start: ChangeView, outcomes: Seq<bool>)
    requires
        is_sound(start),
        start.over() || !start.script.over(),
        forall|i: int| 0 <= i < outcomes.len() ==> #[trigger] outcomes[i],
    ensures
        is_sound(start.played(outcomes)),
        start.played(outcomes).over() || !start.played(outcomes).script.over(),
        done_ops(start, outcomes) + smooth_rest(start.played(outcomes)) == smooth_rest(start),
    decreases outcomes.len(),
{
    if outcomes.len() > 0 {
        let rest = outcomes.drop_last();
        assert forall|i: int| 0 <= i < rest.len() implies #[trigger] rest[i] by {
            assert(rest[i] == outcomes[i]);
        }
        lemma_smooth_played(start, rest);
        let before = start.played(rest);
        assert(outcomes.last());
        if !before.over() {
            lemma_smooth_reported(before);
            let op = before.script.steps[before.script.pos as int].op;
            assert(done_ops(start, rest).push(op) + smooth_rest(before.reported(true))
                =~= done_ops(start, rest) + (seq![op] + smooth_rest(before.reported(true))));
        }
    } else {
        assert(done_ops(start, outcomes) + smooth_rest(start) =~= smooth_rest(start));
    }
}

proof fn lemma_smooth_step(script: ScriptView)
    requires
        script.pos < script.steps.len(),
        script.steps[script.pos as int].on_ok != After::Abort,
    ensures
        smooth_ops(script.steps, script.pos) == seq![script.steps[script.pos as int].op]
            + smooth_ops(script.reported(true).steps, script.reported(true).pos),
{
    let next: nat = match script.steps[script.pos as int].on_ok {
        After::SkipOne => script.pos + 2,
        _ => script.pos + 1,
    };
    if next > script.steps.len() {
        assert(smooth_ops(script.steps, next) =~= smooth_ops(script.steps, script.steps.len()));
    }
}

/// The operations that put the kill switch in place where each of them succeeds:
/// the chain lets the loopback device, the tunnel, the server and replies out
/// and rejects the rest, and the jump into it is found.
pub open spec fn switch_ops(server: Ipv4Addr, port: u16, tun_name: String) -> Seq<Op> {
    seq![
        Op::Run(Command::NewChain),
        Op::Run(Command::FlushChain),
        Op::Run(Command::ReturnLoopback),
        Op::Run(Command::ReturnOut { dev: tun_name }),
        Op::Run(Command::ReturnServer { ip: server, port }),
        Op::Run(Command::ReturnConntrack),
        Op::Run(Command::RejectRest),
        Op::Run(Command::CheckJump),
    ]
}

proof fn lemma_smooth_phases(plan: Plan)
    ensures
        smooth_ops(plan.steps(Phase::HostRoute), 0) == seq![
            Op::Run(
                Command::ReplaceHostRoute {
                    host: plan.server,
                    gateway: plan.gateway,
                    dev: plan.dev,
                },
            ),
        ],
        smooth_ops(plan.steps(Phase::SplitRoutes), 0) == if plan.redirect_all {
            seq![
                Op::Run(Command::ReplaceHalf { half: Half::Lower, dev: plan.tun_name }),
                Op::Run(Command::ReplaceHalf { half: Half::Upper, dev: plan.tun_name }),
            ]
        } else {
            Seq::empty()
        },
        smooth_ops(plan.steps(Phase::Ipv6), 0) == if plan.disable_ipv6 {
            seq![
                Op::Run(Command::ReplaceBlackhole { half: Half::Lower }),
                Op::Run(Command::ReplaceBlackhole { half: Half::Upper }),
            ]
        } else {
            Seq::empty()
        },
        smooth_ops(plan.steps(Phase::Dns), 0) == if plan.rewrite_dns {
            seq![Op::BackUpDns, Op::WriteDns]
        } else {
            Seq::empty()
        },
        smooth_ops(plan.steps(Phase::KillSwitch), 0) == if plan.kill_switch {
            switch_ops(plan.server, plan.port, plan.tun_name)
        } else {
            Seq::empty()
        },
{
    reveal_with_fuel(smooth_ops, 9);
    let host = plan.steps(Phase::HostRoute);
    let split = plan.steps(Phase::SplitRoutes);
    let v6 = plan.steps(Phase::Ipv6);
    let dns = plan.steps(Phase::Dns);
    let ks = plan.steps(Phase::KillSwitch);
    assert(smooth_ops(host, 0) =~= seq![host[0].op]);
    if plan.redirect_all {
        assert(smooth_ops(split, 0) =~= seq![split[0].op, split[1].op]);
    }
    if plan.disable_ipv6 {
        assert(smooth_ops(v6, 0) =~= seq![v6[0].op, v6[1].op]);
    }
    if plan.rewrite_dns {
        assert(smooth_ops(dns, 0) =~= seq![dns[0].op, dns[1].op]);
    }
    if plan.kill_switch {
        assert(smooth_ops(ks, 8) =~= seq![ks[8].op]);
        assert(smooth_ops(ks, 7) =~= seq![ks[7].op, ks[8].op]);
        assert(smooth_ops(ks, 5) =~= seq![ks[5].op, ks[7].op, ks[8].op]);
        assert(smooth_ops(ks, 4) =~= seq![ks[4].op, ks[5].op, ks[7].op, ks[8].op]);
        assert(smooth_ops(ks, 3) =~= seq![ks[3].op, ks[4].op, ks[5].op, ks[7].op, ks[8].op]);
        assert(smooth_ops(ks, 2) =~= seq![ks[2].op] + smooth_ops(ks, 3));
        assert(smooth_ops(ks, 1) =~= seq![ks[1].op] + smooth_ops(ks, 2));
        assert(smooth_ops(ks, 0) =~= seq![ks[0].op] + smooth_ops(ks, 1));
        assert(smooth_ops(ks, 0) =~= switch_ops(plan.server, plan.port, plan.tun_name));
    }
}

/// What the options ask for is what happens: an installation in which every
/// operation succeeds keeps the path to the server outside the tunnel, sends all
/// of IPv4 through it exactly where that is asked for, drops IPv6 exactly where
/// that is asked for, rewrites the name servers exactly where some are named,
/// and puts the kill switch in place exactly where it is asked for and all of
/// IPv4 goes through the tunnel; and it notes what it did.
pub proof fn law_install_does_what_is_asked(
    change: ChangeView,
    ip: Ipv4Addr,
    port: u16,
    gateway: Ipv4Addr,
    dev: String,
    tun_name: String,
    opts: ClientRouteOpts,
    outcomes: Seq<bool>,
)
    requires
        client::installs(
            change,
            SocketAddr::V4 { ip, port },
            tun_name,
            opts,
            Some((gateway, dev)),
        ),
        forall|i: int| 0 <= i < outcomes.len() ==> #[trigger] outcomes[i],
        change.played(outcomes).over(),
    ensures
        ({
            let now = change.played(outcomes);
            &&& now.phase == Phase::Done
            &&& now.routes.ipv6 == opts.disable_ipv6
            &&& now.routes.dns == (opts.dns@.len() > 0)
            &&& now.routes.kill_switch == (opts.kill_switch && opts.redirect_all)
            &&& now.routes.redirect_all == opts.redirect_all
            &&& now.routes.wants_kill_switch == opts.kill_switch
            &&& now.routes.tun_name == tun_name
            &&& now.routes.server_host == Some(ip)
            &&& now.routes.via_gateway == Some(gateway)
            &&& now.routes.via_dev == Some(dev)
            &&& now.routes.server_ip == ip
            &&& now.routes.server_port == port
            &&& done_ops(change, outcomes) == seq![
                Op::Run(Command::ReplaceHostRoute { host: ip, gateway, dev }),
            ] + (if opts.redirect_all {
                seq![
                    Op::Run(Command::ReplaceHalf { half: Half::Lower, dev: tun_name }),
                    Op::Run(Command::ReplaceHalf { half: Half::Upper, dev: tun_name }),
                ]
            } else {
                Seq::empty()
            }) + (if opts.disable_ipv6 {
                seq![
                    Op::Run(Command::ReplaceBlackhole { half: Half::Lower }),
                    Op::Run(Command::ReplaceBlackhole { half: Half::Upper }),
                ]
            } else {
                Seq::empty()
            }) + (if opts.dns@.len() > 0 {
                seq![Op::BackUpDns, Op::WriteDns]
            } else {
                Seq::empty()
            }) + (if opts.kill_switch && opts.redirect_all {
                switch_ops(ip, port, tun_name)
            } else {
                Seq::empty()
            })
        }),
{
    let plan = change.plan;
    let start = install_start(plan, opts.kill_switch);
    assert(change == start);
    assert(change.settled() == change);
    law_success_brings_all_that_is_asked_for(plan, Phase::HostRoute, change.routes, outcomes);
    lemma_played_on_track(start, plan, opts.kill_switch, outcomes);
    lemma_smooth_played(change, outcomes);
    lemma_smooth_phases(plan);
    assert(smooth_rest(change) =~= done_ops(change, outcomes));
}

/// Without a default route an installation fails, and behind an IPv6 endpoint
/// it is done, before anything was changed.
pub proof fn law_install_without_a_path_changes_nothing(
    change: ChangeView,
    endpoint: SocketAddr,
    tun_name: String,
    opts: ClientRouteOpts,
    default_route: Option<(Ipv4Addr, String)>,
    outcomes: Seq<bool>,
)
    requires
        client::installs(change, endpoint, tun_name, opts, default_route),
        endpoint is V6 || default_route is None,
    ensures
        change.phase == if endpoint is V6 {
            Phase::Done
        } else {
            Phase::Failed
        },
        done_ops(change, outcomes) == Seq::<Op>::empty(),
        change.routes.server_host is None,
        change.routes.via_gateway is None,
        change.routes.via_dev is None,
        !change.routes.kill_switch && !change.routes.ipv6 && !change.routes.dns,
        !change.routes.kill_switch_begun && !change.routes.ipv6_begun && !change.routes.dns_begun,
        change.routes.redirect_all == opts.redirect_all,
        change.routes.tun_name == tun_name,
{
    lemma_over_stays(change, outcomes);
}

proof fn lemma_over_stays(change: ChangeView, outcomes: Seq<bool>)
    requires
        change.over(),
    ensures
        change.played(outcomes) == change,
        done_ops(change, outcomes) == Seq::<Op>::empty(),
    decreases outcomes.len(),
{
    if outcomes.len() > 0 {
        lemma_over_stays(change, outcomes.drop_last());
    }
}

/// The routes must be set: an installation whose host route, or one of the two
/// halves, cannot be set has failed, and tries nothing more.
pub proof fn law_needed_routes_must_be_set(
    change: ChangeView,
    ip: Ipv4Addr,
    port: u16,
    gateway: Ipv4Addr,
    dev: String,
    tun_name: String,
    opts: ClientRouteOpts,
)
    requires
        client::installs(
            change,
            SocketAddr::V4 { ip, port },
            tun_name,
            opts,
            Some((gateway, dev)),
        ),
    ensures
        !change.over(),
        change.played(seq![false]).phase == Phase::Failed,
        change.played(seq![false]).routes.server_host is None,
        opts.redirect_all ==> change.played(seq![true, false]).phase == Phase::Failed,
        opts.redirect_all ==> change.played(seq![true, true, false]).phase == Phase::Failed,
{
    let none = Seq::<bool>::empty();
    assert(none.push(false) =~= seq![false]);
    assert(none.push(true) =~= seq![true]);
    assert(seq![true].push(false) =~= seq![true, false]);
    assert(seq![true].push(true) =~= seq![true, true]);
    assert(seq![true, true].push(false) =~= seq![true, true, false]);
    assert(change.played(none) == change);
    lemma_lost_route(change);
    lemma_played_push(change, none, false);
    if opts.redirect_all {
        let after = ChangeView { script: change.script.reported(true), ..change };
        let next = after.turned();
        assert(after.script.over());
        assert(next.phase == Phase::SplitRoutes);
        assert(next.script.steps == client::split_steps(tun_name));
        assert(next.settled() == next);
        assert(change.reported(true) == next);
        lemma_played_push(change, none, true);
        lemma_lost_route(next);
        lemma_played_push(change, seq![true], false);
        let half = ChangeView { script: next.script.reported(true), ..next };
        assert(half.script.pos == 1 && !half.script.over());
        assert(half.settled() == half);
        assert(next.reported(true) == half);
        lemma_played_push(change, seq![true], true);
        lemma_lost_route(half);
        lemma_played_push(change, seq![true, true], false);
    }
}

proof fn lemma_played_push(change: ChangeView, outcomes: Seq<bool>, ok: bool)
    requires
        !change.played(outcomes).over(),
    ensures
        change.played(outcomes.push(ok)) == change.played(outcomes).reported(ok),
{
    assert(outcomes.push(ok).drop_last() =~= outcomes);
}

proof fn lemma_lost_route(change: ChangeView)
    requires
        change.phase == Phase::HostRoute || change.phase == Phase::SplitRoutes,
        change.script.pos < change.script.steps.len(),
        change.script.steps[change.script.pos as int].on_fail == After::Abort,
    ensures
        change.reported(false).phase == Phase::Failed,
        change.reported(false).routes == change.routes,
{
    let after = ChangeView { script: change.script.reported(false), ..change };
    assert(after.settled() == after.turned().settled());
}

/// What turning the tunnel on again does where every operation succeeds: the two
/// halves, where all of IPv4 goes through the tunnel, and then the kill switch
/// around the server, where it was asked for at the installation, is not in
/// place and the installation had found its path.
pub proof fn law_reenabling_does_what_was_asked(
    change: ChangeView,
    routes: ClientRoutes,
    outcomes: Seq<bool>,
)
    requires
        client::reenables(change, routes),
        forall|i: int| 0 <= i < outcomes.len() ==> #[trigger] outcomes[i],
        change.played(outcomes).over(),
    ensures
        ({
            let switch = routes.redirect_all && routes.wants_kill_switch && !routes.kill_switch
                && routes.via_dev is Some;
            let now = change.played(outcomes);
            &&& now.phase == Phase::Done
            &&& now.routes.kill_switch == (routes.kill_switch || switch)
            &&& now.routes.ipv6 == routes.ipv6
            &&& now.routes.dns == routes.dns
            &&& done_ops(change, outcomes) == enabling_ops(
                routes,
                switch,
                routes.server_ip,
                routes.server_port,
            )
        }),
{
    let at = ChangeView::at(change.plan, Phase::SplitRoutes, routes);
    lemma_reenabled(at, routes, outcomes);
}

/// The same where the caller says whether the kill switch is wanted, and around
/// which endpoint.
pub proof fn law_reenabling_does_what_is_wanted(
    change: ChangeView,
    routes: ClientRoutes,
    ip: Ipv4Addr,
    port: u16,
    want: bool,
    outcomes: Seq<bool>,
)
    requires
        client::reenables_with(change, routes, SocketAddr::V4 { ip, port }, want),
        forall|i: int| 0 <= i < outcomes.len() ==> #[trigger] outcomes[i],
        change.played(outcomes).over(),
    ensures
        ({
            let switch = routes.redirect_all && want && !routes.kill_switch && routes.via_dev is Some;
            let now = change.played(outcomes);
            &&& now.phase == Phase::Done
            &&& now.routes.kill_switch == (routes.kill_switch || switch)
            &&& now.routes.ipv6 == routes.ipv6
            &&& now.routes.dns == routes.dns
            &&& done_ops(change, outcomes) == enabling_ops(routes, switch, ip, port)
        }),
{
    let at = ChangeView::at(change.plan, Phase::SplitRoutes, routes);
    lemma_reenabled(at, routes, outcomes);
}

/// The operations that turn the tunnel on again.
pub open spec fn enabling_ops(
    routes: ClientRoutes,
    switch: bool,
    server: Ipv4Addr,
    port: u16,
) -> Seq<Op> {
    (if routes.redirect_all {
        seq![
            Op::Run(Command::ReplaceHalf { half: Half::Lower, dev: routes.tun_name }),
            Op::Run(Command::ReplaceHalf { half: Half::Upper, dev: routes.tun_name }),
        ]
    } else {
        Seq::empty()
    }) + (if switch {
        switch_ops(server, port, routes.tun_name)
    } else {
        Seq::empty()
    })
}

proof fn lemma_reenabled(at: ChangeView, routes: ClientRoutes, outcomes: Seq<bool>)
    requires
        at == ChangeView::at(at.plan, Phase::SplitRoutes, routes),
        at.plan.tun_name == routes.tun_name,
        at.plan.redirect_all == routes.redirect_all,
        !at.plan.disable_ipv6,
        !at.plan.rewrite_dns,
        forall|i: int| 0 <= i < outcomes.len() ==> #[trigger] outcomes[i],
        at.settled().played(outcomes).over(),
    ensures
        ({
            let now = at.settled().played(outcomes);
            &&& now.phase == Phase::Done
            &&& now.routes.kill_switch == (routes.kill_switch || at.plan.kill_switch)
            &&& now.routes.ipv6 == routes.ipv6
            &&& now.routes.dns == routes.dns
            &&& done_ops(at.settled(), outcomes) == enabling_ops(
                routes,
                at.plan.kill_switch,
                at.plan.server,
                at.plan.port,
            )
        }),
{
    let change = at.settled();
    law_success_brings_all_that_is_asked_for(at.plan, Phase::SplitRoutes, routes, outcomes);
    lemma_smooth_settled(at);
    lemma_smooth_played(change, outcomes);
    lemma_smooth_phases(at.plan);
    assert(smooth_rest(change) =~= done_ops(change, outcomes));
    assert(smooth_rest(at) =~= enabling_ops(
        routes,
        at.plan.kill_switch,
        at.plan.server,
        at.plan.port,
    ));
}

/// What turning the tunnel off does: first the kill switch goes, if it or a part
/// of it is in place, then the two halves, if they were set; and of what is
/// noted only the kill switch changes.
pub proof fn law_off_takes_the_tunnel_away(routes: ClientRoutes)
    ensures
        client::teardown_ops(routes) == (if routes.kill_switch || routes.kill_switch_begun {
            seq![
                Op::Run(Command::DeleteJump),
                Op::Run(Command::FlushChain),
                Op::Run(Command::DeleteChain),
            ]
        } else {
            Seq::empty()
        }) + (if routes.redirect_all {
            seq![
                Op::Run(Command::DeleteHalf { half: Half::Lower, dev: routes.tun_name }),
                Op::Run(Command::DeleteHalf { half: Half::Upper, dev: routes.tun_name }),
            ]
        } else {
            Seq::empty()
        }),
        !client::turned_off(routes).kill_switch,
        !client::turned_off(routes).kill_switch_begun,
        client::turned_off(routes) == (ClientRoutes {
            kill_switch: false,
            kill_switch_begun: false,
            ..routes
        }),
{
}

/// What the full teardown does to each part: the kill switch, IPv6 and the name
/// servers are seen to exactly where they, or a part of them, are in place, the
/// halves where all of IPv4 went through the tunnel, and the host route, last,
/// where it was set; nothing else is done.
pub proof fn law_full_teardown_takes_all_away(routes: ClientRoutes)
    ensures
        ({
            let ops = client::teardown_all_ops(routes);
            let switch = routes.kill_switch || routes.kill_switch_begun;
            let v6 = routes.ipv6 || routes.ipv6_begun;
            let dns = routes.dns || routes.dns_begun;
            let pinned = routes.server_host is Some && routes.via_gateway is Some
                && routes.via_dev is Some;
            &&& ops.contains(Op::Run(Command::DeleteJump)) <==> switch
            &&& ops.contains(Op::Run(Command::DeleteChain)) <==> switch
            &&& ops.contains(Op::Run(Command::DeleteBlackhole { half: Half::Lower })) <==> v6
            &&& ops.contains(Op::Run(Command::DeleteBlackhole { half: Half::Upper })) <==> v6
            &&& ops.contains(Op::RestoreDns) <==> dns
            &&& ops.contains(
                Op::Run(Command::DeleteHalf { half: Half::Lower, dev: routes.tun_name }),
            ) <==> routes.redirect_all
            &&& ops.contains(
                Op::Run(Command::DeleteHalf { half: Half::Upper, dev: routes.tun_name }),
            ) <==> routes.redirect_all
            &&& pinned ==> ops.len() > 0 && ops.last() == Op::Run(
                Command::DeleteHostRoute {
                    host: routes.server_host->0,
                    gateway: routes.via_gateway->0,
                    dev: routes.via_dev->0,
                },
            )
            &&& ops.len() == (if switch {
                3int
            } else {
                0
            }) + (if v6 {
                2int
            } else {
                0
            }) + (if dns {
                1int
            } else {
                0
            }) + (if routes.redirect_all {
                2int
            } else {
                0
            }) + (if pinned {
                1int
            } else {
                0
            })
        }),
{
    let ops = client::teardown_all_ops(routes);
    let a = client::switch_removal(routes).len() as int;
    let b: int = if routes.ipv6 || routes.ipv6_begun {
        2
    } else {
        0
    };
    let c: int = if routes.dns || routes.dns_begun {
        1
    } else {
        0
    };
    if a > 0 {
        assert(ops[0] == Op::Run(Command::DeleteJump));
        assert(ops[2] == Op::Run(Command::DeleteChain));
    }
    if b > 0 {
        assert(ops[a] == Op::Run(Command::DeleteBlackhole { half: Half::Lower }));
        assert(ops[a + 1] == Op::Run(Command::DeleteBlackhole { half: Half::Upper }));
    }
    if c > 0 {
        assert(ops[a + b] == Op::RestoreDns);
    }
    if routes.redirect_all {
        assert(ops[a + b + c] == Op::Run(
            Command::DeleteHalf { half: Half::Lower, dev: routes.tun_name },
        ));
        assert(ops[a + b + c + 1] == Op::Run(
            Command::DeleteHalf { half: Half::Upper, dev: routes.tun_name },
        ));
    }
}

} // verus!
