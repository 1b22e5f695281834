use vstd::prelude::*;

use crate::error::MigrateError;
use crate::text::{concat, first_index, first_index_at, has_char, same_text, slice, tail};
use crate::validate::{id_is_valid, target_is_valid, valid_id, valid_target};

verus! {

/// Which projects a target's task is looked up in.
pub enum TargetScope {
    /// Every project (`:task`).
    All,
    /// The project's dependencies (`^:task`).
    Deps,
    /// The owning project (`~:task`).
    OwnSelf,
    /// One named project (`project:task`).
    Project(String),
    /// The projects with a tag (`#tag:task`).
    Tag(String),
}

/// The mathematical value of a [`TargetScope`].
pub enum ScopeView {
    All,
    Deps,
    OwnSelf,
    Project(Seq<char>),
    Tag(Seq<char>),
}

impl View for TargetScope {
    type V = ScopeView;

    open spec fn view(&self) -> ScopeView {
        match self {
            TargetScope::All => ScopeView::All,
            TargetScope::Deps => ScopeView::Deps,
            TargetScope::OwnSelf => ScopeView::OwnSelf,
            TargetScope::Project(id) => ScopeView::Project(id@),
            TargetScope::Tag(id) => ScopeView::Tag(id@),
        }
    }
}

/// A fully qualified reference to a task: a scope and a task identifier.
pub struct Target {
    pub scope: TargetScope,
    pub task: String,
}

/// The mathematical value of a [`Target`].
pub struct TargetView {
    pub scope: ScopeView,
    pub task: Seq<char>,
}

impl View for Target {
    type V = TargetView;

    open spec fn view(&self) -> TargetView {
        TargetView { scope: self.scope@, task: self.task@ }
    }
}

/// The scope that the text before a target's colon stands for.
pub open spec fn scope_of_text(t: Seq<char>) -> ScopeView {
    if t.len() == 0 {
        ScopeView::All
    } else if t == "^"@ {
        ScopeView::Deps
    } else if t == "~"@ {
        ScopeView::OwnSelf
    } else if t[0] == '#' {
        ScopeView::Tag(t.subrange(1, t.len() as int))
    } else {
        ScopeView::Project(t)
    }
}

/// The target that the text `s` reads as: split at its first colon, or the
/// owning project's task when it holds none.
pub open spec fn target_of_text(s: Seq<char>) -> TargetView {
    if has_char(s, ':') {
        let k = choose|k: int| first_index_at(s, ':', k);
        TargetView {
            scope: scope_of_text(s.subrange(0, k)),
            task: s.subrange(k + 1, s.len() as int),
        }
    } else {
        TargetView { scope: ScopeView::OwnSelf, task: s }
    }
}

/// The text of a scope, as written before a target's colon.
pub open spec fn scope_text(s: ScopeView) -> Seq<char> {
    match s {
        ScopeView::All => Seq::empty(),
        ScopeView::Deps => "^"@,
        ScopeView::OwnSelf => "~"@,
        ScopeView::Project(id) => id,
        ScopeView::Tag(id) => "#"@ + id,
    }
}

/// The text of a target: its scope, a colon and its task.
pub open spec fn target_text(t: TargetView) -> Seq<char> {
    scope_text(t.scope) + ":"@ + t.task
}

/// A text made of a scope part without colons, a colon and a task reads as
/// that scope and that task.
pub proof fn lemma_target_of_joined_text(p: Seq<char>, t: Seq<char>)
    requires
        !has_char(p, ':'),
    ensures
        target_of_text(p + ":"@ + t) == (TargetView { scope: scope_of_text(p), task: t }),
{
    reveal_strlit(":");
    let s = p + ":"@ + t;
    assert(s[p.len() as int] == ':');
    assert(first_index_at(s, ':', p.len() as int));
    let k = choose|k: int| first_index_at(s, ':', k);
    assert(k == p.len()) by {
        if k < p.len() {
            assert(p[k] == ':');
        }
    }
    assert(s.subrange(0, k) =~= p);
    assert(s.subrange(k + 1, s.len() as int) =~= t);
}

impl Target {
    /// The target of `task_id` in the project `scope_id`; both must be
    /// valid identifiers.
    pub fn new(scope_id: &str, task_id: &str) -> (r: Result<Target, MigrateError>)
        ensures
            r is Ok <==> valid_id(scope_id@) && valid_id(task_id@),
            r matches Ok(t) ==> t@ == (TargetView {
                scope: ScopeView::Project(scope_id@),
                task: task_id@,
            }),
            r matches Err(e) ==> e matches MigrateError::InvalidTarget(x) && x@ == scope_id@
                + ":"@ + task_id@,
    {
        if id_is_valid(scope_id) && id_is_valid(task_id) {
            Ok(Target {
                scope: TargetScope::Project(String::from_str(scope_id)),
                task: String::from_str(task_id),
            })
        } else {
            let text = concat(concat(scope_id, ":").as_str(), task_id);
            Err(MigrateError::InvalidTarget(text))
        }
    }

    /// The target of `task_id` in the owning project.
    pub fn new_self(task_id: &str) -> (r: Result<Target, MigrateError>)
        ensures
            r is Ok <==> valid_id(task_id@),
            r matches Ok(t) ==> t@ == (TargetView { scope: ScopeView::OwnSelf, task: task_id@ }),
            r matches Err(e) ==> e matches MigrateError::InvalidTarget(x) && x@ == "~:"@
                + task_id@,
    {
        if id_is_valid(task_id) {
            Ok(Target { scope: TargetScope::OwnSelf, task: String::from_str(task_id) })
        } else {
            Err(MigrateError::InvalidTarget(concat("~:", task_id)))
        }
    }

    /// Reads `text` as a target, when moon accepts it as one.
    pub fn parse(text: &str) -> (r: Result<Target, MigrateError>)
        ensures
            r is Ok <==> valid_target(text@),
            r matches Ok(t) ==> t@ == target_of_text(text@),
            r matches Err(e) ==> e matches MigrateError::InvalidTarget(x) && x@ == text@,
    {
        if !target_is_valid(text) {
            return Err(MigrateError::InvalidTarget(String::from_str(text)));
        }
        match first_index(text, ':') {
            None => Ok(Target { scope: TargetScope::OwnSelf, task: String::from_str(text) }),
            Some(k) => {
                let n = text.unicode_len();
                let head = slice(text, 0, k);
                let task = tail(text, k + 1);
                proof {
                    reveal_strlit("^");
                    reveal_strlit("~");
                    let j = choose|j: int| first_index_at(text@, ':', j);
                    assert(j == k as int) by {
                        if j < k {
                            assert(text@[j] != ':');
                        }
                        if j > k {
                            assert(text@[k as int] != ':');
                        }
                    }
                }
                let scope = if head.unicode_len() == 0 {
                    TargetScope::All
                } else if same_text(head.as_str(), "^") {
                    TargetScope::Deps
                } else if same_text(head.as_str(), "~") {
                    TargetScope::OwnSelf
                } else if head.as_str().get_char(0) == '#' {
                    TargetScope::Tag(tail(head.as_str(), 1))
                } else {
                    TargetScope::Project(head)
                };
                Ok(Target { scope, task })
            },
        }
    }

    /// The text of the target: its scope, a colon and its task.
    pub fn as_text(&self) -> (r: String)
        ensures
            r@ == target_text(self@),
    {
        let scope = match &self.scope {
            TargetScope::All => String::new(),
            TargetScope::Deps => String::from_str("^"),
            TargetScope::OwnSelf => String::from_str("~"),
            TargetScope::Project(id) => id.clone(),
            TargetScope::Tag(id) => concat("#", id.as_str()),
        };
        concat(concat(scope.as_str(), ":").as_str(), self.task.as_str())
    }
}

} // verus!
