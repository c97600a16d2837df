//! What an agent is allowed to do.
use vstd::prelude::*;
use crate::text::{push_str, string_with_capacity};

verus! {

#[derive(Debug, Clone, Copy, PartialEq, Eq, Hash, Structural)]
pub enum PermissionGrant {
    ReadContext,
    WriteOutput,
    CallExternalApi,
    AccessDatabase,
    ModifyState,
    RunSubagent,
    SendNotification,
}

/// The name of a permission.
pub open spec fn grant_name(p: PermissionGrant) -> Seq<char> {
    match p {
        PermissionGrant::ReadContext => "read_context"@,
        PermissionGrant::WriteOutput => "write_output"@,
        PermissionGrant::CallExternalApi => "call_external_api"@,
        PermissionGrant::AccessDatabase => "access_database"@,
        PermissionGrant::ModifyState => "modify_state"@,
        PermissionGrant::RunSubagent => "run_subagent"@,
        PermissionGrant::SendNotification => "send_notification"@,
    }
}

impl PermissionGrant {
    pub fn as_str(&self) -> (s: &'static str)
        ensures
            s@ == grant_name(*self),
    {
        match self {
            PermissionGrant::ReadContext => "read_context",
            PermissionGrant::WriteOutput => "write_output",
            PermissionGrant::CallExternalApi => "call_external_api",
            PermissionGrant::AccessDatabase => "access_database",
            PermissionGrant::ModifyState => "modify_state",
            PermissionGrant::RunSubagent => "run_subagent",
            PermissionGrant::SendNotification => "send_notification",
        }
    }
}

proof fn lemma_push_contains(s: Seq<PermissionGrant>, x: PermissionGrant, y: PermissionGrant)
    ensures
        s.push(x).contains(y) <==> (s.contains(y) || x == y),
{
    if s.contains(y) {
        let k = choose|k: int| 0 <= k < s.len() && s[k] == y;
        assert(s.push(x)[k] == y);
    }
    if x == y {
        assert(s.push(x)[s.len() as int] == y);
    }
    if s.push(x).contains(y) {
        let k = choose|k: int| 0 <= k < s.push(x).len() && s.push(x)[k] == y;
        if k < s.len() {
            assert(s[k] == y);
        }
    }
}

/// A set of granted permissions, which `deny_all` overrides.
#[derive(Debug, Clone)]
pub struct AgentPermissions {
    grants: Vec<PermissionGrant>,
    deny_all: bool,
}

impl AgentPermissions {
    /// Whether `q` is granted.
    pub closed spec fn has(&self, q: PermissionGrant) -> bool {
        self.grants@.contains(q)
    }

    /// Each grant is held once.
    pub closed spec fn wf(&self) -> bool {
        self.grants@.no_duplicates()
    }

    /// Whether every permission is denied.
    pub closed spec fn denies_all(&self) -> bool {
        self.deny_all
    }

    pub fn none() -> (p: Self)
        ensures
            forall|q: PermissionGrant| !p.has(q),
            !p.denies_all(),
            p.wf(),
    {
        AgentPermissions { grants: Vec::new(), deny_all: false }
    }

    pub fn read_only() -> (p: Self)
        ensures
            forall|q: PermissionGrant| p.has(q) == (q == PermissionGrant::ReadContext),
            !p.denies_all(),
            p.wf(),
    {
        AgentPermissions::none().grant(PermissionGrant::ReadContext)
    }

    pub fn standard() -> (p: Self)
        ensures
            forall|q: PermissionGrant| p.has(q) == (q == PermissionGrant::ReadContext || q == PermissionGrant::WriteOutput),
            !p.denies_all(),
            p.wf(),
    {
        AgentPermissions::none().grant(PermissionGrant::ReadContext).grant(PermissionGrant::WriteOutput)
    }

    pub fn grant(self, permission: PermissionGrant) -> (p: Self)
        ensures
            forall|q: PermissionGrant| p.has(q) == (self.has(q) || q == permission),
            p.denies_all() == self.denies_all(),
            self.wf() ==> p.wf(),
    {
        let mut i: usize = 0;
        while i < self.grants.len()
            invariant
                i <= self.grants@.len(),
                forall|j: int| 0 <= j < i ==> self.grants@[j] != permission,
            decreases self.grants@.len() - i,
        {
            if self.grants[i] == permission {
                proof {
                    assert(self.grants@.contains(permission));
                }
                return self;
            }
            i = i + 1;
        }
        let AgentPermissions { grants, deny_all } = self;
        let mut grants = grants;
        let ghost before = grants@;
        grants.push(permission);
        proof {
            assert(grants@ == before.push(permission));
            assert forall|q: PermissionGrant| grants@.contains(q) == (before.contains(q) || q == permission) by {
                lemma_push_contains(before, permission, q);
            }
            if before.no_duplicates() {
                assert forall|a: int, b: int| 0 <= a < grants@.len() && 0 <= b < grants@.len() && a != b
                    implies grants@[a] != grants@[b] by {
                    if b == before.len() {
                        assert(grants@[a] == before[a]);
                    } else if a == before.len() {
                        assert(grants@[b] == before[b]);
                    }
                }
            }
        }
        let p = AgentPermissions { grants, deny_all };
        proof {
            assert(before == self.grants@);
            assert forall|q: PermissionGrant| p.has(q) == (self.has(q) || q == permission) by {
                lemma_push_contains(before, permission, q);
            }
        }
        p
    }

    pub fn deny_all(self) -> (p: Self)
        ensures
            forall|q: PermissionGrant| p.has(q) == self.has(q),
            p.denies_all(),
            self.wf() ==> p.wf(),
    {
        let AgentPermissions { grants, deny_all: _ } = self;
        AgentPermissions { grants, deny_all: true }
    }

    /// Whether `permission` is granted and not overridden by `deny_all`.
    pub fn check(&self, permission: &PermissionGrant) -> (b: bool)
        ensures
            b == (!self.denies_all() && self.has(*permission)),
    {
        if self.deny_all {
            return false;
        }
        let mut i: usize = 0;
        while i < self.grants.len()
            invariant
                i <= self.grants@.len(),
                !self.deny_all,
                forall|j: int| 0 <= j < i ==> self.grants@[j] != *permission,
            decreases self.grants@.len() - i,
        {
            if self.grants[i] == *permission {
                proof {
                    assert(self.grants@[i as int] == *permission);
                    assert(self.grants@.contains(*permission));
                    assert(self.has(*permission));
                }
                return true;
            }
            i = i + 1;
        }
        false
    }

    pub fn assert_has(&self, permission: &PermissionGrant) -> (r: Result<(), String>)
        ensures
            r is Ok <==> (!self.denies_all() && self.has(*permission)),
            r matches Err(m) ==> m@ == "Agent missing permission: "@ + grant_name(*permission),
    {
        if self.check(permission) {
            Ok(())
        } else {
            let mut m = string_with_capacity(0);
            push_str(&mut m, "Agent missing permission: ");
            push_str(&mut m, permission.as_str());
            Err(m)
        }
    }

    /// The granted permissions, each once.
    pub fn list_grants(&self) -> (v: Vec<&PermissionGrant>)
        ensures
            forall|q: PermissionGrant| v@.map_values(|p: &PermissionGrant| *p).contains(q) == self.has(q),
            self.wf() ==> v@.map_values(|p: &PermissionGrant| *p).no_duplicates(),
    {
        let mut v: Vec<&PermissionGrant> = Vec::new();
        let mut i: usize = 0;
        while i < self.grants.len()
            invariant
                i <= self.grants@.len(),
                v@.map_values(|p: &PermissionGrant| *p) == self.grants@.take(i as int),
            decreases self.grants@.len() - i,
        {
            let ghost before = v@;
            v.push(&self.grants[i]);
            proof {
                assert(v@.map_values(|p: &PermissionGrant| *p) =~= before.map_values(|p: &PermissionGrant| *p).push(self.grants@[i as int]));
                assert(self.grants@.take(i + 1) =~= self.grants@.take(i as int).push(self.grants@[i as int]));
            }
            i = i + 1;
        }
        proof {
            assert(self.grants@.take(self.grants@.len() as int) =~= self.grants@);
        }
        v
    }
}

/// Denying all overrides every grant: no permission checks out.
pub proof fn law_deny_all_overrides(p: AgentPermissions, q: PermissionGrant)
    requires
        p.denies_all(),
    ensures
        !(!p.denies_all() && p.has(q)),
{
}

} // verus!
