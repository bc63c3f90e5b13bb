//! The authenticated caller and the group-membership gate.

use vstd::prelude::*;

use crate::text::{owned, same, views};

verus! {

#[derive(Debug, Clone)]
pub struct Principal {
    pub username: String,
    pub email: Option<String>,
    pub effective_groups: Vec<String>,
}

/// Whether `p` is an effective member of `group`.
pub open spec fn member(p: Principal, group: Seq<char>) -> bool {
    views(p.effective_groups@).contains(group)
}

/// The refusal of the group gate.
#[derive(Debug)]
pub struct GateDenied;

/// The status and body a denied gate answers with.
pub const GATE_DENIED_STATUS: u16 = 403;

pub const GATE_DENIED_BODY: &'static str = "forbidden: missing required group";

impl Principal {
    /// The caller userinfo describes: the preferred username, else the
    /// subject.
    pub fn from_userinfo(
        sub: &str,
        username: Option<String>,
        email: Option<String>,
        effective_groups: &Vec<String>,
    ) -> (r: Result<Self, String>)
        ensures
            r matches Ok(p) && p.username@ == (match username {
                Some(u) => u@,
                None => sub@,
            }) && p.email == email && views(p.effective_groups@) == views(effective_groups@),
    {
        let name = match username {
            Some(u) => u,
            None => owned(sub),
        };
        let groups = effective_groups.clone();
        assert(groups@ =~= effective_groups@);
        Ok(Principal { username: name, email, effective_groups: groups })
    }

    pub fn in_group(&self, group: &str) -> (r: bool)
        ensures
            r == member(*self, group@),
    {
        let mut i: usize = 0;
        while i < self.effective_groups.len()
            invariant
                i <= self.effective_groups.len(),
                forall|j: int| 0 <= j < i ==> self.effective_groups@[j]@ != group@,
            decreases self.effective_groups.len() - i,
        {
            if same(self.effective_groups[i].as_str(), group) {
                assert(views(self.effective_groups@)[i as int] == group@);
                return true;
            }
            i = i + 1;
        }
        assert forall|j: int| 0 <= j < views(self.effective_groups@).len() implies views(
            self.effective_groups@,
        )[j] != group@ by {
            assert(views(self.effective_groups@)[j] == self.effective_groups@[j]@);
        }
        false
    }

    pub fn require_group(&self, group: &str) -> (r: Result<(), GateDenied>)
        ensures
            r is Ok <==> member(*self, group@),
    {
        if self.in_group(group) {
            Ok(())
        } else {
            Err(GateDenied)
        }
    }
}

} // verus!
