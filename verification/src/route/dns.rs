//! Name servers on the client.

use vstd::prelude::*;
use vstd::utf8::*;

verus! {

/// The file that names the name servers.
pub const RESOLV_CONF: &'static str = "/etc/resolv.conf";

/// Where that file is kept meanwhile.
pub const RESOLV_BACKUP: &'static str = "/etc/resolv.conf.soulvpn.bak";

/// The lines of the name servers.
pub open spec fn server_lines(servers: Seq<String>) -> Seq<char>
    decreases servers.len(),
{
    if servers.len() == 0 {
        Seq::empty()
    } else {
        server_lines(servers.drop_last()) + "nameserver "@ + servers.last()@ + "\n"@
    }
}

/// The file that names `servers`.
pub open spec fn resolv_text(servers: Seq<String>) -> Seq<char> {
    "# Managed by soulvpn — do not edit\n"@ + server_lines(servers)
}

/// The file that names `servers`.
pub fn resolv_conf(servers: &Vec<String>) -> (r: String)
    ensures
        r@ == resolv_text(servers@),
{
    let mut body: String = "# Managed by soulvpn — do not edit\n".to_owned();
    let ghost head = body@;
    let mut i: usize = 0;
    assert(head + server_lines(servers@.take(0)) =~= head);
    while i < servers.len()
        invariant
            i <= servers@.len(),
            body@ == head + server_lines(servers@.take(i as int)),
        decreases servers@.len() - i,
    {
        let ghost before = body@;
        body.append("nameserver ");
        body.append(servers[i].as_str());
        body.append("\n");
        proof {
            let some = servers@.take(i + 1);
            assert(some.drop_last() =~= servers@.take(i as int));
            assert(body@ =~= head + server_lines(some));
        }
        i += 1;
    }
    assert(servers@.take(i as int) =~= servers@);
    body
}

/// Something that is done to the two files.
#[derive(Debug)]
pub enum DnsStep {
    /// Copy the file to the backup.
    BackUp,
    /// Write the file.
    Write(String),
    /// Copy the backup to the file.
    PutBack,
    /// Remove the backup.
    RemoveBackup,
}

/// What a step does.
#[verifier::ext_equal]
pub enum DnsOp {
    BackUp,
    Write(Seq<char>),
    PutBack,
    RemoveBackup,
}

impl DnsStep {
    /// What the step does.
    pub open spec fn op(self) -> DnsOp {
        match self {
            DnsStep::BackUp => DnsOp::BackUp,
            DnsStep::Write(text) => DnsOp::Write(text@),
            DnsStep::PutBack => DnsOp::PutBack,
            DnsStep::RemoveBackup => DnsOp::RemoveBackup,
        }
    }
}

/// What steps do, in order.
pub open spec fn ops(steps: Seq<DnsStep>) -> Seq<DnsOp> {
    steps.map_values(|step: DnsStep| step.op())
}

/// What comes before the name servers are rewritten: the file is backed up where
/// there is one and no backup is left over from before.
pub open spec fn backup_ops(file_exists: bool, backup_exists: bool) -> Seq<DnsOp> {
    if file_exists && !backup_exists {
        seq![DnsOp::BackUp]
    } else {
        Seq::empty()
    }
}

/// How the name servers are rewritten: after the backup the file is written.
pub open spec fn install_ops(
    servers: Seq<String>,
    file_exists: bool,
    backup_exists: bool,
) -> Seq<DnsOp> {
    backup_ops(file_exists, backup_exists) + seq![DnsOp::Write(resolv_text(servers))]
}

/// Owns the rewritten file until it is restored.
#[derive(Debug)]
pub struct DnsGuard {
    pub restored: bool,
}

impl DnsGuard {
    /// Starts to rewrite the name servers. Beside the guard stands the backup,
    /// where one is to be made; it must succeed.
    pub fn install(file_exists: bool, backup_exists: bool) -> (r: (DnsGuard, Vec<DnsStep>))
        ensures
            !r.0.restored,
            ops(r.1@) == backup_ops(file_exists, backup_exists),
    {
        let mut steps: Vec<DnsStep> = Vec::new();
        if file_exists && !backup_exists {
            steps.push(DnsStep::BackUp);
        }
        assert(ops(steps@) =~= backup_ops(file_exists, backup_exists));
        (DnsGuard { restored: false }, steps)
    }

    /// Rewrites the name servers.
    pub fn rewrite(servers: &Vec<String>) -> (r: DnsStep)
        ensures
            r.op() == DnsOp::Write(resolv_text(servers@)),
    {
        DnsStep::Write(resolv_conf(servers))
    }

    /// How things are put back: once, and only where there is a backup.
    pub open spec fn restore_ops(self, backup_exists: bool) -> Seq<DnsOp> {
        if !self.restored && backup_exists {
            seq![DnsOp::PutBack, DnsOp::RemoveBackup]
        } else {
            Seq::empty()
        }
    }

    /// How things are put back, whatever comes of each step.
    pub fn restore(&mut self, backup_exists: bool) -> (r: Vec<DnsStep>)
        ensures
            ops(r@) == old(self).restore_ops(backup_exists),
            final(self).restored,
    {
        let mut steps: Vec<DnsStep> = Vec::new();
        if !self.restored && backup_exists {
            steps.push(DnsStep::PutBack);
            steps.push(DnsStep::RemoveBackup);
        }
        assert(ops(steps@) =~= self.restore_ops(backup_exists));
        self.restored = true;
        steps
    }
}

/// The bytes of the two files, where they exist.
#[verifier::ext_equal]
pub struct DnsFiles {
    pub conf: Option<Seq<u8>>,
    pub backup: Option<Seq<u8>>,
}

impl DnsFiles {
    /// The files after something was done to them.
    pub open spec fn after(self, op: DnsOp) -> DnsFiles {
        match op {
            DnsOp::BackUp => DnsFiles { backup: self.conf, ..self },
            DnsOp::Write(text) => DnsFiles { conf: Some(encode_utf8(text)), ..self },
            DnsOp::PutBack => DnsFiles { conf: self.backup, ..self },
            DnsOp::RemoveBackup => DnsFiles { backup: None, ..self },
        }
    }

    /// The files after several things were done to them.
    pub open spec fn played(self, ops: Seq<DnsOp>) -> DnsFiles
        decreases ops.len(),
    {
        if ops.len() == 0 {
            self
        } else {
            self.played(ops.drop_last()).after(ops.last())
        }
    }

    /// The files before they are written, but after the backup.
    pub open spec fn backed_up(self) -> DnsFiles {
        self.played(backup_ops(self.conf is Some, self.backup is Some))
    }

    /// The files after the name servers were rewritten.
    pub open spec fn installed(self, servers: Seq<String>) -> DnsFiles {
        self.played(install_ops(servers, self.conf is Some, self.backup is Some))
    }

    /// The files after the guard restored them.
    pub open spec fn restored(self, guard: DnsGuard) -> DnsFiles {
        self.played(guard.restore_ops(self.backup is Some))
    }
}

/// While the name servers are rewritten, the file names them and what it held
/// before is kept; restoring gives it back and leaves no backup. A backup that
/// is left over from before is kept through the rewriting, and it is what is
/// given back. Where there was no file and no backup, nothing is given back. The
/// same is given back where the writing came to nothing. A second restoration
/// touches nothing.
pub proof fn law_dns_is_given_back(
    files: DnsFiles,
    servers: Seq<String>,
    guard: DnsGuard,
    again: DnsGuard,
)
    requires
        !guard.restored,
        again.restored,
    ensures
        ({
            let during = files.installed(servers);
            let after = during.restored(guard);
            &&& during.conf == Some(encode_utf8(resolv_text(servers)))
            &&& during.backup == if files.backup is Some {
                files.backup
            } else {
                files.conf
            }
            &&& after.backup is None
            &&& after.conf == if during.backup is Some {
                during.backup
            } else {
                during.conf
            }
        }),
        files.backed_up().restored(guard) == (DnsFiles {
            conf: if files.backup is Some {
                files.backup
            } else {
                files.conf
            },
            backup: None,
        }),
        forall|later: DnsFiles| #[trigger] later.restored(again) == later,
{
    reveal_with_fuel(DnsFiles::played, 3);
    let during = files.installed(servers);
    let ops = install_ops(servers, files.conf is Some, files.backup is Some);
    if files.conf is Some && files.backup is None {
        assert(ops.drop_last() =~= seq![DnsOp::BackUp]);
        assert(ops.drop_last().drop_last() =~= Seq::empty());
    } else {
        assert(ops.drop_last() =~= Seq::empty());
    }
    let back = guard.restore_ops(true);
    assert(files.backed_up().backup == during.backup) by {
        assert(backup_ops(files.conf is Some, files.backup is Some) =~= ops.drop_last());
    }
    if during.backup is Some {
        assert(back.drop_last() =~= seq![DnsOp::PutBack]);
        assert(back.drop_last().drop_last() =~= Seq::empty());
    }
}

proof fn lemma_lines_of_both(a: Seq<String>, b: Seq<String>)
    ensures
        server_lines(a + b) == server_lines(a) + server_lines(b),
    decreases b.len(),
{
    if b.len() == 0 {
        assert(a + b =~= a);
        assert(server_lines(a) + server_lines(b) =~= server_lines(a));
    } else {
        assert((a + b).drop_last() =~= a + b.drop_last());
        lemma_lines_of_both(a, b.drop_last());
        assert(server_lines(a + b) =~= server_lines(a) + server_lines(b));
    }
}

/// The file names every name server, in their order, each in a line of its own,
/// under one line that says who wrote it.
pub proof fn law_every_name_server_is_named(before: Seq<String>, s: String, after: Seq<String>)
    ensures
        resolv_text(before + seq![s] + after) == resolv_text(before) + ("nameserver "@ + s@ + "\n"@)
            + server_lines(after),
        resolv_text(Seq::empty()) == "# Managed by soulvpn — do not edit\n"@,
{
    lemma_lines_of_both(before + seq![s], after);
    lemma_lines_of_both(before, seq![s]);
    let one = seq![s];
    assert(one.drop_last().len() == 0 && one.last() == s);
    assert(server_lines(one) == server_lines(one.drop_last()) + "nameserver "@ + s@ + "\n"@);
    assert(server_lines(one.drop_last()).len() == 0);
    assert(server_lines(one) =~= "nameserver "@ + s@ + "\n"@);
    assert(resolv_text(before + one + after) =~= resolv_text(before) + server_lines(one)
        + server_lines(after));
    assert(resolv_text(Seq::empty()) =~= "# Managed by soulvpn — do not edit\n"@);
}

/// The file is backed up exactly where there is one and no older backup, so that
/// an older backup is never written over.
pub proof fn law_backups_are_not_written_over(file_exists: bool, backup_exists: bool)
    ensures
        backup_ops(file_exists, backup_exists).contains(DnsOp::BackUp) <==> file_exists
            && !backup_exists,
        backup_ops(file_exists, backup_exists).len() <= 1,
{
    if file_exists && !backup_exists {
        assert(backup_ops(file_exists, backup_exists)[0] == DnsOp::BackUp);
    }
}

} // verus!
