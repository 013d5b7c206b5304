//! The worker roles that the supervisor runs.

use vstd::prelude::*;

use crate::text::same_text;

verus! {

#[derive(Clone, Copy, Debug, PartialEq, Eq, Structural)]
pub enum WorkerRole {
    Processor,
    Plain,
    Tls,
    Scanner,
}

/// What the role is called, in messages and as a subcommand.
pub open spec fn role_name(role: WorkerRole) -> Seq<char> {
    match role {
        WorkerRole::Processor => "processor"@,
        WorkerRole::Plain => "plain"@,
        WorkerRole::Tls => "tls"@,
        WorkerRole::Scanner => "scanner"@,
    }
}

/// The role of that name.
pub open spec fn role_named(name: Seq<char>) -> Option<WorkerRole> {
    if name == "processor"@ {
        Some(WorkerRole::Processor)
    } else if name == "plain"@ {
        Some(WorkerRole::Plain)
    } else if name == "tls"@ {
        Some(WorkerRole::Tls)
    } else if name == "scanner"@ {
        Some(WorkerRole::Scanner)
    } else {
        None
    }
}

/// Every role, in the order in which reports list them.
pub open spec fn every_role() -> Seq<WorkerRole> {
    seq![WorkerRole::Processor, WorkerRole::Plain, WorkerRole::Tls, WorkerRole::Scanner]
}

impl WorkerRole {
    pub fn name(self) -> (s: &'static str)
        ensures
            s@ == role_name(self),
    {
        match self {
            WorkerRole::Processor => "processor",
            WorkerRole::Plain => "plain",
            WorkerRole::Tls => "tls",
            WorkerRole::Scanner => "scanner",
        }
    }

    pub fn named(name: &str) -> (r: Option<WorkerRole>)
        ensures
            r == role_named(name@),
    {
        if same_text(name, "processor") {
            Some(WorkerRole::Processor)
        } else if same_text(name, "plain") {
            Some(WorkerRole::Plain)
        } else if same_text(name, "tls") {
            Some(WorkerRole::Tls)
        } else if same_text(name, "scanner") {
            Some(WorkerRole::Scanner)
        } else {
            None
        }
    }

    pub fn all() -> (v: Vec<WorkerRole>)
        ensures
            v@ == every_role(),
    {
        vec![WorkerRole::Processor, WorkerRole::Plain, WorkerRole::Tls, WorkerRole::Scanner]
    }
}

/// A role's name names that role and no other.
pub proof fn role_names_are_unambiguous(role: WorkerRole)
    ensures
        role_named(role_name(role)) == Some(role),
{
    reveal_strlit("processor");
    reveal_strlit("plain");
    reveal_strlit("tls");
    reveal_strlit("scanner");
    assert("processor"@.len() == 9 && "plain"@.len() == 5 && "tls"@.len() == 3
        && "scanner"@.len() == 7);
}

/// The list of roles holds each role once, and every name that names a role is its own.
pub proof fn every_role_is_listed(role: WorkerRole, name: Seq<char>)
    ensures
        every_role().contains(role),
        every_role().no_duplicates(),
        role_named(name) is Some ==> role_name(role_named(name)->0) == name,
{
    assert(every_role()[0] is Processor && every_role()[1] is Plain && every_role()[2] is Tls
        && every_role()[3] is Scanner);
}

} // verus!
