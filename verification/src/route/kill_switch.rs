//! The kill switch: while it is in place, nothing new leaves but through the
//! tunnel.

use super::command::Command;
use super::script;
use super::script::{After, Op, ScriptView, Step};
use crate::net::Ipv4Addr;
use vstd::prelude::*;

verus! {

/// How the kill switch is put in place: a chain that lets the loopback device,
/// the tunnel, the VPN server and replies out and rejects the rest, and then a
/// jump into it.
pub open spec fn kill_switch_steps(server: Ipv4Addr, port: u16, tun_name: String) -> Seq<Step> {
    seq![
        script::attempt(Op::Run(Command::NewChain)),
        script::attempt(Op::Run(Command::FlushChain)),
        script::must(Op::Run(Command::ReturnLoopback)),
        script::must(Op::Run(Command::ReturnOut { dev: tun_name })),
        script::must(Op::Run(Command::ReturnServer { ip: server, port })),
        script::or_else(Op::Run(Command::ReturnConntrack)),
        script::attempt(Op::Run(Command::ReturnState)),
        script::must(Op::Run(Command::RejectRest)),
        script::or_else(Op::Run(Command::CheckJump)),
        script::must(Op::Run(Command::InsertJump)),
    ]
}

/// How the kill switch is taken away.
pub open spec fn kill_switch_removal() -> Seq<Op> {
    seq![
        Op::Run(Command::DeleteJump),
        Op::Run(Command::FlushChain),
        Op::Run(Command::DeleteChain),
    ]
}

/// How the kill switch is put in place.
pub fn install_kill_switch(server: Ipv4Addr, port: u16, tun_name: &String) -> (r: Vec<Step>)
    ensures
        r@ == kill_switch_steps(server, port, *tun_name),
{
    let mut steps: Vec<Step> = Vec::new();
    steps.push(script::attempt_run(Command::NewChain));
    steps.push(script::attempt_run(Command::FlushChain));
    steps.push(script::must_run(Command::ReturnLoopback));
    steps.push(script::must_run(Command::ReturnOut { dev: tun_name.clone() }));
    steps.push(script::must_run(Command::ReturnServer { ip: server, port }));
    steps.push(script::run_or_else(Command::ReturnConntrack));
    steps.push(script::attempt_run(Command::ReturnState));
    steps.push(script::must_run(Command::RejectRest));
    steps.push(script::run_or_else(Command::CheckJump));
    steps.push(script::must_run(Command::InsertJump));
    assert(steps@ =~= kill_switch_steps(server, port, *tun_name));
    steps
}

/// Appends how the kill switch is taken away.
pub fn push_kill_switch_removal(ops: &mut Vec<Op>)
    ensures
        final(ops)@ == old(ops)@ + kill_switch_removal(),
{
    ops.push(Op::Run(Command::DeleteJump));
    ops.push(Op::Run(Command::FlushChain));
    ops.push(Op::Run(Command::DeleteChain));
    assert(ops@ =~= old(ops)@ + kill_switch_removal());
}

/// What was done by the time a script is at a place.
proof fn lemma_progress(server: Ipv4Addr, port: u16, tun_name: String, outcomes: Seq<bool>)
    ensures
        ({
            let start = ScriptView::start(kill_switch_steps(server, port, tun_name));
            let now = start.played(outcomes);
            &&& now.steps == start.steps
            &&& now.pos <= 10
            &&& now.pos > 2 ==> start.did(outcomes, 2, true)
            &&& now.pos > 3 ==> start.did(outcomes, 3, true)
            &&& now.pos > 4 ==> start.did(outcomes, 4, true)
            &&& now.pos > 7 ==> start.did(outcomes, 7, true)
            &&& now.pos > 9 ==> start.did(outcomes, 8, true) || start.did(outcomes, 9, true)
        }),
    decreases outcomes.len(),
{
    let start = ScriptView::start(kill_switch_steps(server, port, tun_name));
    if outcomes.len() > 0 {
        let rest = outcomes.drop_last();
        lemma_progress(server, port, tun_name, rest);
        lemma_did_lasts(start, outcomes);
        let before = start.played(rest);
        if !before.over() {
            lemma_did_last(start, outcomes);
        }
    }
}

/// What was done stays done.
proof fn lemma_did_lasts(start: ScriptView, outcomes: Seq<bool>)
    requires
        outcomes.len() > 0,
    ensures
        forall|pos: nat, ok: bool| #[trigger]
            start.did(outcomes.drop_last(), pos, ok) ==> start.did(outcomes, pos, ok),
{
    let rest = outcomes.drop_last();
    assert forall|pos: nat, ok: bool| #[trigger] start.did(rest, pos, ok) implies start.did(
        outcomes,
        pos,
        ok,
    ) by {
        let k = choose|k: int|
            0 <= k < rest.len() && rest[k] == ok && !(#[trigger] start.played(rest.take(k))).over()
                && start.played(rest.take(k)).pos == pos;
        assert(rest.take(k) =~= outcomes.take(k));
        assert(outcomes[k] == ok);
    }
}

/// The current step is done with the last outcome.
proof fn lemma_did_last(start: ScriptView, outcomes: Seq<bool>)
    requires
        outcomes.len() > 0,
        !start.played(outcomes.drop_last()).over(),
    ensures
        start.did(outcomes, start.played(outcomes.drop_last()).pos, outcomes.last()),
{
    let k = outcomes.len() - 1;
    assert(outcomes.take(k) =~= outcomes.drop_last());
    assert(!start.played(outcomes.take(k)).over());
}

/// The kill switch closes before it is used: the jump into the chain is only
/// tried once the chain lets the loopback device, the tunnel and the server out
/// and rejects the rest.
pub proof fn law_kill_switch_closes_before_use(
    server: Ipv4Addr,
    port: u16,
    tun_name: String,
    outcomes: Seq<bool>,
    ok: bool,
)
    requires
        ScriptView::start(kill_switch_steps(server, port, tun_name)).did(outcomes, 9, ok),
    ensures
        ({
            let start = ScriptView::start(kill_switch_steps(server, port, tun_name));
            &&& start.steps[9].op == Op::Run(Command::InsertJump)
            &&& start.steps[2].op == Op::Run(Command::ReturnLoopback)
            &&& start.steps[3].op == Op::Run(Command::ReturnOut { dev: tun_name })
            &&& start.steps[4].op == Op::Run(Command::ReturnServer { ip: server, port })
            &&& start.steps[7].op == Op::Run(Command::RejectRest)
            &&& start.did(outcomes, 2, true)
            &&& start.did(outcomes, 3, true)
            &&& start.did(outcomes, 4, true)
            &&& start.did(outcomes, 7, true)
        }),
{
    let start = ScriptView::start(kill_switch_steps(server, port, tun_name));
    let k = choose|k: int|
        0 <= k < outcomes.len() && outcomes[k] == ok && !(#[trigger] start.played(
            outcomes.take(k),
        )).over() && start.played(outcomes.take(k)).pos == 9;
    lemma_progress(server, port, tun_name, outcomes.take(k));
    lemma_did_prefix(start, outcomes, k);
}

/// What was done early stays done.
proof fn lemma_did_prefix(start: ScriptView, outcomes: Seq<bool>, k: int)
    requires
        0 <= k <= outcomes.len(),
    ensures
        forall|pos: nat, ok: bool| #[trigger]
            start.did(outcomes.take(k), pos, ok) ==> start.did(outcomes, pos, ok),
    decreases outcomes.len() - k,
{
    if k == outcomes.len() {
        assert(outcomes.take(k) =~= outcomes);
    } else {
        lemma_did_prefix(start, outcomes, k + 1);
        lemma_did_lasts(start, outcomes.take(k + 1));
        assert(outcomes.take(k + 1).drop_last() =~= outcomes.take(k));
    }
}

/// A kill switch that counts as installed rejects the rest, and output jumps
/// into it.
pub proof fn law_installed_kill_switch_is_in_force(
    server: Ipv4Addr,
    port: u16,
    tun_name: String,
    outcomes: Seq<bool>,
)
    requires
        ({
            let end = ScriptView::start(kill_switch_steps(server, port, tun_name)).played(outcomes);
            end.over() && !end.failed
        }),
    ensures
        ({
            let start = ScriptView::start(kill_switch_steps(server, port, tun_name));
            &&& start.did(outcomes, 7, true)
            &&& start.did(outcomes, 8, true) || start.did(outcomes, 9, true)
            &&& start.steps[7].op == Op::Run(Command::RejectRest)
            &&& start.steps[8].op == Op::Run(Command::CheckJump)
            &&& start.steps[9].op == Op::Run(Command::InsertJump)
        }),
{
    lemma_progress(server, port, tun_name, outcomes);
}

/// What the kill switch cannot do without: the ways out through the loopback
/// device, the tunnel and to the server, the rejection of the rest, and the
/// jump, unless it is found. The rest may fail, and the older match for replies
/// is tried where the newer one fails.
pub proof fn law_kill_switch_needs(server: Ipv4Addr, port: u16, tun_name: String, pos: int)
    requires
        0 <= pos < 10,
    ensures
        ({
            let steps = kill_switch_steps(server, port, tun_name);
            &&& steps.len() == 10
            &&& steps[pos].on_fail == After::Abort <==> pos == 2 || pos == 3 || pos == 4 || pos == 7
                || pos == 9
            &&& steps[pos].on_ok == After::SkipOne <==> pos == 5 || pos == 8
            &&& steps[pos].on_ok != After::Abort && steps[pos].on_fail != After::SkipOne
            &&& steps[5].op == Op::Run(Command::ReturnConntrack)
            &&& steps[6].op == Op::Run(Command::ReturnState)
            &&& steps[8].op == Op::Run(Command::CheckJump)
            &&& steps[9].op == Op::Run(Command::InsertJump)
        }),
{
}

} // verus!
