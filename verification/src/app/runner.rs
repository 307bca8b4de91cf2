//! The frame runner's settings and the stage order it follows.
use crate::app::stage::Stage;
use vstd::prelude::*;

verus! {

/// Whether the runner times each stage, and whether it renders.
pub struct RunnerSettings {
    pub profiling: bool,
    pub rendering: bool,
}

/// Runs a frame's stages in order.
pub struct ResonanceRunner {
    profiling_enabled: bool,
    enable_rendering: bool,
}

impl View for ResonanceRunner {
    type V = RunnerSettings;

    closed spec fn view(&self) -> RunnerSettings {
        RunnerSettings { profiling: self.profiling_enabled, rendering: self.enable_rendering }
    }
}

/// The stages after the fixed-step updates: with rendering PostUpdate,
/// Render and Last; without, PostUpdate and Last.
pub open spec fn post_stages(rendering: bool) -> Seq<Stage> {
    if rendering {
        seq![Stage::PostUpdate, Stage::Render, Stage::Last]
    } else {
        seq![Stage::PostUpdate, Stage::Last]
    }
}

/// The stages of one frame, in the order they run: none while paused;
/// otherwise PreUpdate and Update, FixedUpdate once for each fixed step the
/// frame's time grants, then the stages after the fixed-step updates.
pub open spec fn frame_plan(rendering: bool, paused: bool, fixed_steps: nat) -> Seq<Stage> {
    if paused {
        Seq::empty()
    } else {
        seq![Stage::PreUpdate, Stage::Update] + Seq::new(fixed_steps, |i: int| Stage::FixedUpdate)
            + post_stages(rendering)
    }
}

/// A paused frame runs nothing. An unpaused frame, whether or not it
/// renders, runs PreUpdate, Update, then FixedUpdate exactly once per fixed
/// step, then PostUpdate, then Render only where it renders, and ends with
/// Last.
pub proof fn lemma_frame_plan_shape(rendering: bool, paused: bool, fixed_steps: nat)
    ensures
        paused ==> frame_plan(rendering, paused, fixed_steps).len() == 0,
        !paused ==> ({
            let p = frame_plan(rendering, paused, fixed_steps);
            &&& p.len() == fixed_steps + if rendering { 5int } else { 4int }
            &&& p[0] == Stage::PreUpdate
            &&& p[1] == Stage::Update
            &&& forall|i: int| 2 <= i < 2 + fixed_steps ==> p[i] == Stage::FixedUpdate
            &&& p[2 + fixed_steps as int] == Stage::PostUpdate
            &&& rendering ==> p[3 + fixed_steps as int] == Stage::Render
            &&& p[p.len() - 1] == Stage::Last
            &&& (p.contains(Stage::Render) <==> rendering)
        }),
{
    if !paused {
        let p = frame_plan(rendering, paused, fixed_steps);
        let pre = seq![Stage::PreUpdate, Stage::Update];
        let fx = Seq::new(fixed_steps, |i: int| Stage::FixedUpdate);
        let post = post_stages(rendering);
        assert(p == pre + fx + post);
        assert forall|i: int| 2 <= i < 2 + fixed_steps implies p[i] == Stage::FixedUpdate by {
            assert(p[i] == fx[i - 2]);
        }
        assert(p[2 + fixed_steps as int] == post[0]);
        if rendering {
            assert(p[3 + fixed_steps as int] == post[1]);
            assert(p[3 + fixed_steps as int] == Stage::Render);
        } else {
            assert forall|i: int| 0 <= i < p.len() implies p[i] != Stage::Render by {
                if i >= 2 + fixed_steps {
                    assert(p[i] == post[i - 2 - fixed_steps]);
                } else if i >= 2 {
                    assert(p[i] == fx[i - 2]);
                }
            }
        }
        assert(p[p.len() - 1] == post[post.len() - 1]);
    }
}

impl ResonanceRunner {
    /// A builder with profiling off and rendering on.
    pub fn builder() -> (r: ResonanceRunnerBuilder)
        ensures
            !r@.profiling,
            r@.rendering,
    {
        ResonanceRunnerBuilder::default()
    }

    /// The stages of a frame, in order, given whether time is paused and
    /// how many fixed steps the frame's time grants.
    pub fn frame_stages(&self, paused: bool, fixed_steps: usize) -> (r: Vec<Stage>)
        ensures
            r@ == frame_plan(self@.rendering, paused, fixed_steps as nat),
    {
        let mut r: Vec<Stage> = Vec::new();
        if paused {
            assert(r@ =~= frame_plan(self@.rendering, paused, fixed_steps as nat));
            return r;
        }
        r.push(Stage::PreUpdate);
        r.push(Stage::Update);
        let mut k: usize = 0;
        while k < fixed_steps
            invariant
                k <= fixed_steps,
                r@ == seq![Stage::PreUpdate, Stage::Update] + Seq::new(k as nat, |i: int| Stage::FixedUpdate),
            decreases fixed_steps - k,
        {
            r.push(Stage::FixedUpdate);
            k = k + 1;
            assert(r@ =~= seq![Stage::PreUpdate, Stage::Update] + Seq::new(k as nat, |i: int| Stage::FixedUpdate));
        }
        let post = self.post_update_stages();
        let mut j: usize = 0;
        let ghost fixed = r@;
        while j < post.len()
            invariant
                j <= post@.len(),
                r@ == fixed + post@.take(j as int),
            decreases post@.len() - j,
        {
            r.push(post[j]);
            j = j + 1;
            assert(r@ =~= fixed + post@.take(j as int));
        }
        assert(post@.take(j as int) =~= post@);
        assert(r@ =~= frame_plan(self@.rendering, paused, fixed_steps as nat));
        r
    }

    /// The stages run after the fixed-step updates, in order.
    pub fn post_update_stages(&self) -> (r: Vec<Stage>)
        ensures
            r@ == post_stages(self@.rendering),
    {
        if self.enable_rendering {
            let r = vec![Stage::PostUpdate, Stage::Render, Stage::Last];
            assert(r@ =~= post_stages(self@.rendering));
            r
        } else {
            let r = vec![Stage::PostUpdate, Stage::Last];
            assert(r@ =~= post_stages(self@.rendering));
            r
        }
    }
}

/// Collects a runner's settings.
pub struct ResonanceRunnerBuilder {
    profiling_enabled: bool,
    enable_rendering: bool,
}

impl View for ResonanceRunnerBuilder {
    type V = RunnerSettings;

    closed spec fn view(&self) -> RunnerSettings {
        RunnerSettings { profiling: self.profiling_enabled, rendering: self.enable_rendering }
    }
}

impl Default for ResonanceRunnerBuilder {
    fn default() -> (r: Self)
        ensures
            !r@.profiling,
            r@.rendering,
    {
        ResonanceRunnerBuilder { profiling_enabled: false, enable_rendering: true }
    }
}

impl ResonanceRunnerBuilder {
    /// The same settings, with profiling switched as given.
    pub fn with_profiling(self, enabled: bool) -> (r: Self)
        ensures
            r@.profiling == enabled,
            r@.rendering == self@.rendering,
    {
        ResonanceRunnerBuilder { profiling_enabled: enabled, enable_rendering: self.enable_rendering }
    }

    /// The same settings, with rendering switched as given.
    pub fn with_rendering(self, enabled: bool) -> (r: Self)
        ensures
            r@.profiling == self@.profiling,
            r@.rendering == enabled,
    {
        ResonanceRunnerBuilder { profiling_enabled: self.profiling_enabled, enable_rendering: enabled }
    }

    /// A runner with these settings.
    pub fn build(self) -> (r: ResonanceRunner)
        ensures
            r@ == self@,
    {
        ResonanceRunner { profiling_enabled: self.profiling_enabled, enable_rendering: self.enable_rendering }
    }
}

} // verus!
