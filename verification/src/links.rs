//! The session-link store: which session is attached to which plan file or
//! task-PRD entry.
//!
//! The store itself is a plain value; reading it from and writing it back to
//! its JSON file is the caller's work.  Timestamps arrive as arguments, so
//! the operations stay functions of their inputs.

use vstd::prelude::*;
use vstd::string::StringExecFns;
use crate::search::first_where;
use crate::search::lemma_first_where_found;
use crate::search::lemma_first_where_none;

verus! {

/// One link between a session and a plan file or task-PRD entry.
#[derive(Debug)]
pub struct SessionPlanLink {
    pub session_id: String,
    pub plan_file_name: String,
    /// Either `plan` or `ralph_prd`.
    pub link_type: String,
    pub created_at: String,
    pub updated_at: String,
}

impl SessionPlanLink {
    /// A field-for-field copy.
    pub fn duplicate(&self) -> (r: SessionPlanLink)
        ensures
            r == *self,
    {
        SessionPlanLink {
            session_id: self.session_id.clone(),
            plan_file_name: self.plan_file_name.clone(),
            link_type: self.link_type.clone(),
            created_at: self.created_at.clone(),
            updated_at: self.updated_at.clone(),
        }
    }
}

/// The link type assumed for records that predate the type field.
pub fn default_link_type() -> (r: String)
    ensures
        r@ == "plan"@,
{
    String::from_str("plan")
}

/// A link concerns the given file name and link type.
pub open spec fn link_matches(l: SessionPlanLink, name: Seq<char>, lt: Seq<char>) -> bool {
    l.plan_file_name@ == name && l.link_type@ == lt
}

/// The index of the first link for the given file name and link type.
pub open spec fn link_slot(links: Seq<SessionPlanLink>, name: Seq<char>, lt: Seq<char>) -> Option<
    int,
> {
    first_where(links, |l: SessionPlanLink| link_matches(l, name, lt))
}

/// The on-disk store of links for one folder.
#[derive(Debug)]
pub struct SessionLinksStore {
    pub version: u32,
    pub links: Vec<SessionPlanLink>,
}

impl Default for SessionLinksStore {
    /// The store an absent or unreadable file stands for.
    fn default() -> (r: Self)
        ensures
            r.version == 0,
            r.links@.len() == 0,
    {
        SessionLinksStore { version: 0, links: Vec::new() }
    }
}

impl SessionLinksStore {
    /// Saves a link: the first existing link for the file name and type gets
    /// the new session and timestamp; otherwise a fresh link is appended.
    /// A store that never carried a version gets version 1.
    pub fn save_link(
        &mut self,
        session_id: String,
        file_name: String,
        link_type: &String,
        now: &String,
    )
        ensures
            final(self).version == (if old(self).version == 0 {
                1u32
            } else {
                old(self).version
            }),
            match link_slot(old(self).links@, file_name@, link_type@) {
                Some(i) => final(self).links@ == old(self).links@.update(
                    i,
                    SessionPlanLink {
                        session_id: session_id,
                        plan_file_name: old(self).links@[i].plan_file_name,
                        link_type: old(self).links@[i].link_type,
                        created_at: old(self).links@[i].created_at,
                        updated_at: *now,
                    },
                ),
                None => final(self).links@ == old(self).links@.push(
                    SessionPlanLink {
                        session_id: session_id,
                        plan_file_name: file_name,
                        link_type: *link_type,
                        created_at: *now,
                        updated_at: *now,
                    },
                ),
            },
    {
        let ghost pre_links = self.links@;
        let ghost pred = |l: SessionPlanLink| link_matches(l, file_name@, link_type@);
        if self.version == 0 {
            self.version = 1;
        }
        let ghost bumped = self.version;
        let n = self.links.len();
        let mut i: usize = 0;
        #[verifier::loop_isolation(false)]
        while i < n
            invariant
                self.version == bumped,
                self.links@ == pre_links,
                n == self.links@.len(),
                i <= n,
                forall|j: int| 0 <= j < i ==> !pred(self.links@[j]),
            decreases n - i,
        {
            let hit = self.links[i].plan_file_name.eq(&file_name) && self.links[i].link_type.eq(
                link_type,
            );
            if hit {
                proof {
                    lemma_first_where_found(pre_links, pred, i as int);
                }
                let mut l = self.links.remove(i);
                l.session_id = session_id;
                l.updated_at = now.clone();
                let ghost l_now = l;
                self.links.insert(i, l);
                proof {
                    assert(self.links@ =~= pre_links.update(i as int, l_now));
                }
                return ;
            }
            proof {
                assert(!pred(self.links@[i as int]));
            }
            i = i + 1;
        }
        proof {
            lemma_first_where_none(pre_links, pred);
        }
        let created_at = now.clone();
        let updated_at = now.clone();
        self.links.push(
            SessionPlanLink {
                session_id,
                plan_file_name: file_name,
                link_type: link_type.clone(),
                created_at,
                updated_at,
            },
        );
    }

    /// The first link for the given file name and type, copied out.
    pub fn link_for(&self, file_name: &String, link_type: &String) -> (r: Option<SessionPlanLink>)
        ensures
            match link_slot(self.links@, file_name@, link_type@) {
                Some(i) => match r {
                    Some(l) => l == self.links@[i],
                    None => false,
                },
                None => r is None,
            },
    {
        let ghost pred = |l: SessionPlanLink| link_matches(l, file_name@, link_type@);
        let n = self.links.len();
        let mut i: usize = 0;
        #[verifier::loop_isolation(false)]
        while i < n
            invariant
                n == self.links@.len(),
                i <= n,
                forall|j: int| 0 <= j < i ==> !pred(self.links@[j]),
            decreases n - i,
        {
            let hit = self.links[i].plan_file_name.eq(file_name) && self.links[i].link_type.eq(
                link_type,
            );
            if hit {
                proof {
                    lemma_first_where_found(self.links@, pred, i as int);
                }
                return Some(self.links[i].duplicate());
            }
            proof {
                assert(!pred(self.links@[i as int]));
            }
            i = i + 1;
        }
        proof {
            lemma_first_where_none(self.links@, pred);
        }
        None
    }

    /// Carries a plan's link over to the plan's new name: the first `plan`
    /// link for the old name, if any, gets the new name and timestamp.
    /// Whether anything changed is returned, so the caller knows whether to
    /// write the store back.
    pub fn rename_plan_link(&mut self, old_name: &String, new_name: &String, now: &String) -> (
        changed: bool)
        ensures
            final(self).version == old(self).version,
            match link_slot(old(self).links@, old_name@, "plan"@) {
                Some(i) => changed && final(self).links@ == old(self).links@.update(
                    i,
                    SessionPlanLink {
                        session_id: old(self).links@[i].session_id,
                        plan_file_name: *new_name,
                        link_type: old(self).links@[i].link_type,
                        created_at: old(self).links@[i].created_at,
                        updated_at: *now,
                    },
                ),
                None => !changed && final(self).links@ == old(self).links@,
            },
    {
        let ghost pre_links = self.links@;
        let plan = default_link_type();
        proof {
            reveal_strlit("plan");
        }
        let ghost pred = |l: SessionPlanLink| link_matches(l, old_name@, "plan"@);
        let ghost pre_version = self.version;
        let n = self.links.len();
        let mut i: usize = 0;
        #[verifier::loop_isolation(false)]
        while i < n
            invariant
                self.version == pre_version,
                self.links@ == pre_links,
                n == self.links@.len(),
                i <= n,
                plan@ == "plan"@,
                forall|j: int| 0 <= j < i ==> !pred(self.links@[j]),
            decreases n - i,
        {
            let hit = self.links[i].plan_file_name.eq(old_name) && self.links[i].link_type.eq(
                &plan,
            );
            if hit {
                proof {
                    lemma_first_where_found(pre_links, pred, i as int);
                }
                let mut l = self.links.remove(i);
                l.plan_file_name = new_name.clone();
                l.updated_at = now.clone();
                let ghost l_now = l;
                self.links.insert(i, l);
                proof {
                    assert(self.links@ =~= pre_links.update(i as int, l_now));
                }
                return true;
            }
            proof {
                assert(!pred(self.links@[i as int]));
            }
            i = i + 1;
        }
        proof {
            lemma_first_where_none(pre_links, pred);
        }
        false
    }
}

} // verus!
