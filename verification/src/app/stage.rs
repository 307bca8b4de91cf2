//! The stages of a frame, in the order the game loop runs them.
use vstd::prelude::*;

verus! {

/// A stage of the game loop. Startup runs once; each frame then runs
/// PreUpdate, Update, FixedUpdate (zero or more times), PostUpdate, Render
/// (clients only) and Last.
#[derive(Debug, Clone, Copy, PartialEq, Eq, Hash, Structural)]
pub enum Stage {
    Startup,
    PreUpdate,
    Update,
    PostUpdate,
    FixedUpdate,
    Render,
    Last,
}

/// Every stage, in declaration order.
pub open spec fn all_stages() -> Seq<Stage> {
    seq![
        Stage::Startup,
        Stage::PreUpdate,
        Stage::Update,
        Stage::PostUpdate,
        Stage::FixedUpdate,
        Stage::Render,
        Stage::Last,
    ]
}

/// A stage's name.
pub open spec fn stage_name(s: Stage) -> Seq<char> {
    match s {
        Stage::Startup => "Startup"@,
        Stage::PreUpdate => "PreUpdate"@,
        Stage::Update => "Update"@,
        Stage::PostUpdate => "PostUpdate"@,
        Stage::FixedUpdate => "FixedUpdate"@,
        Stage::Render => "Render"@,
        Stage::Last => "Last"@,
    }
}

impl Stage {
    /// Every stage, in declaration order.
    pub fn all() -> (r: [Stage; 7])
        ensures
            r@ == all_stages(),
    {
        let r = [
            Stage::Startup,
            Stage::PreUpdate,
            Stage::Update,
            Stage::PostUpdate,
            Stage::FixedUpdate,
            Stage::Render,
            Stage::Last,
        ];
        assert(r@ =~= all_stages());
        r
    }

    /// The stage's name, as its variant is spelled.
    pub fn name(&self) -> (r: &'static str)
        ensures
            r@ == stage_name(*self),
    {
        match self {
            Stage::Startup => "Startup",
            Stage::PreUpdate => "PreUpdate",
            Stage::Update => "Update",
            Stage::PostUpdate => "PostUpdate",
            Stage::FixedUpdate => "FixedUpdate",
            Stage::Render => "Render",
            Stage::Last => "Last",
        }
    }
}

/// `all` lists every stage exactly once.
pub proof fn lemma_all_stages_once(s: Stage)
    ensures
        all_stages().contains(s),
        all_stages().no_duplicates(),
{
    let a = all_stages();
    match s {
        Stage::Startup => assert(a[0] == s),
        Stage::PreUpdate => assert(a[1] == s),
        Stage::Update => assert(a[2] == s),
        Stage::PostUpdate => assert(a[3] == s),
        Stage::FixedUpdate => assert(a[4] == s),
        Stage::Render => assert(a[5] == s),
        Stage::Last => assert(a[6] == s),
    }
}

} // verus!
