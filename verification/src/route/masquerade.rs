//! NAT on the server.

use super::command::Command;
use vstd::multiset::*;
use vstd::prelude::*;

verus! {

/// Whether packets are forwarded, to the kernel.
pub const IP_FORWARD: &'static str = "/proc/sys/net/ipv4/ip_forward";

/// Owns iptables MASQUERADE + ip_forward; says how to restore them.
#[derive(Debug)]
pub struct NatGuard {
    pub tun_cidr: String,
    pub egress: String,
    pub prev_forward: Option<Vec<u8>>,
    pub rule_added: bool,
}

/// A setup on its way: forwarding is on, the rule is not yet looked for.
#[derive(Debug)]
pub struct NatSetup {
    pub tun_cidr: String,
    pub prev_forward: Option<Vec<u8>>,
}

/// Something that is done to the machine.
#[derive(Debug)]
pub enum NatStep {
    /// Run a command.
    Run(Command),
    /// Write the forwarding flag.
    WriteForward(Vec<u8>),
}

/// What a step does.
#[verifier::ext_equal]
pub enum NatOp {
    Run(Command),
    WriteForward(Seq<u8>),
}

impl NatStep {
    /// What the step does.
    pub open spec fn op(self) -> NatOp {
        match self {
            NatStep::Run(command) => NatOp::Run(command),
            NatStep::WriteForward(flag) => NatOp::WriteForward(flag@),
        }
    }
}

/// What steps do, in order.
pub open spec fn ops(steps: Seq<NatStep>) -> Seq<NatOp> {
    steps.map_values(|step: NatStep| step.op())
}

/// The flag that switches forwarding on, the digit one.
pub open spec fn forward_on() -> Seq<u8> {
    seq![49u8]
}

impl NatSetup {
    /// Asks for the rule.
    pub fn check(&self, egress: &String) -> (r: Command)
        ensures
            r == (Command::CheckMasquerade { cidr: self.tun_cidr, egress: *egress }),
    {
        Command::CheckMasquerade { cidr: self.tun_cidr.clone(), egress: egress.clone() }
    }

    /// Masquerades the tunnel network behind the egress device. Beside the
    /// guard stands the step that adds the rule, which must succeed, unless the
    /// rule is there already.
    pub fn finish(self, egress: String, rule_exists: bool) -> (r: (NatGuard, Option<NatStep>))
        ensures
            r.0 == (NatGuard {
                tun_cidr: self.tun_cidr,
                egress,
                prev_forward: self.prev_forward,
                rule_added: !rule_exists,
            }),
            r.1 == if rule_exists {
                None
            } else {
                Some(NatStep::Run(Command::AppendMasquerade { cidr: self.tun_cidr, egress }))
            },
            r.0.setup_ops() == seq![NatOp::WriteForward(forward_on())] + (match r.1 {
                Some(step) => seq![step.op()],
                None => Seq::empty(),
            }),
    {
        let add: Option<NatStep> = if rule_exists {
            None
        } else {
            Some(
                NatStep::Run(
                    Command::AppendMasquerade {
                        cidr: self.tun_cidr.clone(),
                        egress: egress.clone(),
                    },
                ),
            )
        };
        let guard = NatGuard {
            tun_cidr: self.tun_cidr,
            egress,
            prev_forward: self.prev_forward,
            rule_added: !rule_exists,
        };
        (guard, add)
    }
}

impl NatGuard {
    /// Starts a setup for the tunnel network, given the forwarding flag as it
    /// is, where it can be read. Beside it stands the first step, which must
    /// succeed: forwarding is switched on.
    pub fn setup(tun_cidr: String, prev_forward: Option<Vec<u8>>) -> (r: (NatSetup, NatStep))
        ensures
            r.0 == (NatSetup { tun_cidr, prev_forward }),
            r.1.op() == NatOp::WriteForward(forward_on()),
    {
        let on: Vec<u8> = vec![49u8];
        assert(on@ =~= forward_on());
        (NatSetup { tun_cidr, prev_forward }, NatStep::WriteForward(on))
    }

    /// What the setup that ended with this guard has done: forwarding is
    /// switched on first, and the rule is added if it was not there.
    pub open spec fn setup_ops(self) -> Seq<NatOp> {
        seq![NatOp::WriteForward(forward_on())] + (if self.rule_added {
            seq![
                NatOp::Run(
                    Command::AppendMasquerade { cidr: self.tun_cidr, egress: self.egress },
                ),
            ]
        } else {
            Seq::empty()
        })
    }

    /// How things are put back: the rule goes if it was added, and the flag is
    /// restored if it was known.
    pub open spec fn undo_ops(self) -> Seq<NatOp> {
        (if self.rule_added {
            seq![
                NatOp::Run(
                    Command::DeleteMasquerade { cidr: self.tun_cidr, egress: self.egress },
                ),
            ]
        } else {
            Seq::empty()
        }) + (match self.prev_forward {
            Some(prev) => seq![NatOp::WriteForward(prev@)],
            None => Seq::empty(),
        })
    }

    /// How things are put back, whatever comes of each step.
    pub fn undo(&self) -> (r: Vec<NatStep>)
        ensures
            ops(r@) == self.undo_ops(),
    {
        let mut out: Vec<NatStep> = Vec::new();
        if self.rule_added {
            out.push(
                NatStep::Run(
                    Command::DeleteMasquerade {
                        cidr: self.tun_cidr.clone(),
                        egress: self.egress.clone(),
                    },
                ),
            );
        }
        if let Some(prev) = &self.prev_forward {
            let flag: Vec<u8> = prev.clone();
            assert(flag@ =~= prev@);
            out.push(NatStep::WriteForward(flag));
        }
        assert(ops(out@) =~= self.undo_ops());
        out
    }

    /// The rule that the guard is about, by tunnel network and egress device.
    pub open spec fn rule(self) -> (Seq<char>, Seq<char>) {
        (self.tun_cidr@, self.egress@)
    }
}

/// What the steps change on the machine: the forwarding flag, and the
/// masquerading rules by tunnel network and egress device.
#[verifier::ext_equal]
pub struct NatWorld {
    pub forward: Seq<u8>,
    pub rules: Multiset<(Seq<char>, Seq<char>)>,
}

impl NatWorld {
    /// The machine after something was done to it.
    pub open spec fn after(self, op: NatOp) -> NatWorld {
        match op {
            NatOp::WriteForward(flag) => NatWorld { forward: flag, ..self },
            NatOp::Run(Command::AppendMasquerade { cidr, egress }) => NatWorld {
                rules: self.rules.insert((cidr@, egress@)),
                ..self
            },
            NatOp::Run(Command::DeleteMasquerade { cidr, egress }) => NatWorld {
                rules: self.rules.remove((cidr@, egress@)),
                ..self
            },
            NatOp::Run(_) => self,
        }
    }

    /// The machine after several things were done to it.
    pub open spec fn played(self, ops: Seq<NatOp>) -> NatWorld
        decreases ops.len(),
    {
        if ops.len() == 0 {
            self
        } else {
            self.played(ops.drop_last()).after(ops.last())
        }
    }
}

proof fn lemma_played_two(world: NatWorld, first: Seq<NatOp>, second: Seq<NatOp>)
    requires
        first.len() <= 1,
        second.len() <= 1,
    ensures
        world.played(first + second) == ({
            let mid = if first.len() == 1 {
                world.after(first[0])
            } else {
                world
            };
            if second.len() == 1 {
                mid.after(second[0])
            } else {
                mid
            }
        }),
{
    reveal_with_fuel(NatWorld::played, 3);
    if second.len() == 0 {
        assert(first + second =~= first);
    } else {
        assert((first + second).drop_last() =~= first);
    }
}

/// A setup switches forwarding on and sees to the rule, and the guard puts back
/// what was there: the rule is added only where it was missing and taken away
/// only where this setup added it, other rules are left alone, and the
/// forwarding flag is as it was, where it could be read.
pub proof fn law_nat_puts_back_what_was(world: NatWorld, guard: NatGuard)
    requires
        guard.rule_added <==> world.rules.count(guard.rule()) == 0,
        guard.prev_forward matches Some(prev) ==> prev@ == world.forward,
    ensures
        ({
            let up = world.played(guard.setup_ops());
            let down = up.played(guard.undo_ops());
            &&& up.forward == forward_on()
            &&& up.rules.count(guard.rule()) >= 1
            &&& up.rules == if guard.rule_added {
                world.rules.insert(guard.rule())
            } else {
                world.rules
            }
            &&& down.rules == world.rules
            &&& down.forward == if guard.prev_forward is Some {
                world.forward
            } else {
                forward_on()
            }
        }),
{
    broadcast use group_multiset_axioms;

    let on = seq![NatOp::WriteForward(forward_on())];
    let add = guard.setup_ops().skip(1);
    assert(guard.setup_ops() =~= on + add);
    lemma_played_two(world, on, add);
    let up = world.played(guard.setup_ops());
    let cut: int = if guard.rule_added {
        1
    } else {
        0
    };
    let delete = guard.undo_ops().take(cut);
    let write = guard.undo_ops().skip(cut);
    assert(guard.undo_ops() =~= delete + write);
    lemma_played_two(up, delete, write);
    if guard.rule_added {
        assert(up.rules == world.rules.insert(guard.rule()));
        assert(world.rules.insert(guard.rule()).remove(guard.rule()) =~= world.rules);
    }
}

/// Forwarding is switched on by the digit one, and a guard puts back no more
/// than its setup did: the rule where it added it, the flag where it was known.
pub proof fn law_nat_undoes_what_it_did(guard: NatGuard)
    ensures
        forward_on().len() == 1 && forward_on()[0] == '1' as int,
        guard.setup_ops()[0] == NatOp::WriteForward(forward_on()),
        guard.setup_ops().len() == if guard.rule_added {
            2int
        } else {
            1
        },
        guard.undo_ops().len() == (if guard.rule_added {
            1int
        } else {
            0
        }) + (if guard.prev_forward is Some {
            1int
        } else {
            0
        }),
        guard.rule_added ==> guard.setup_ops()[1] == NatOp::Run(
            (Command::AppendMasquerade { cidr: guard.tun_cidr, egress: guard.egress }),
        ) && guard.undo_ops()[0] == NatOp::Run(
            (Command::DeleteMasquerade { cidr: guard.tun_cidr, egress: guard.egress }),
        ),
        guard.prev_forward matches Some(prev) ==> guard.undo_ops().last() == NatOp::WriteForward(
            prev@,
        ),
{
}

} // verus!
