//! The workspace lifecycle: whether a sign-out is in progress, and the epoch
//! that every sign-out advances so that work captured earlier can tell that it
//! belongs to an older session.
use vstd::prelude::*;

verus! {

/// The epoch after `g`: one more, wrapping around as an atomic `fetch_add` does.
pub open spec fn next_generation(g: u64) -> u64 {
    if g == u64::MAX { 0 } else { (g + 1) as u64 }
}

/// Sign-out state shared by all account checks.
pub struct WorkspaceLifecycle {
    /// A sign-out started and no verified sign-in has finished since.
    pub signing_out: bool,
    /// Advanced by every sign-out.
    pub generation: u64,
}

impl WorkspaceLifecycle {
    /// A lifecycle that is not signing out, at epoch zero.
    pub fn new() -> (l: Self)
        ensures
            !l.signing_out,
            l.generation == 0,
    {
        WorkspaceLifecycle { signing_out: false, generation: 0 }
    }

    /// Starts a sign-out: marks the workspace as signing out and advances the epoch.
    pub fn suspend(&mut self)
        ensures
            final(self).signing_out,
            final(self).generation == next_generation(old(self).generation),
    {
        self.signing_out = true;
        if self.generation == u64::MAX {
            self.generation = 0;
        } else {
            self.generation = self.generation + 1;
        }
    }
}

impl Default for WorkspaceLifecycle {
    fn default() -> (l: Self)
        ensures
            !l.signing_out,
            l.generation == 0,
    {
        WorkspaceLifecycle::new()
    }
}

/// Starts a sign-out of the workspace.
pub fn suspend(lifecycle: &mut WorkspaceLifecycle)
    ensures
        final(lifecycle).signing_out,
        final(lifecycle).generation == next_generation(old(lifecycle).generation),
{
    lifecycle.suspend();
}

/// Ends a sign-out without changing the epoch.
pub fn resume(lifecycle: &mut WorkspaceLifecycle)
    ensures
        !final(lifecycle).signing_out,
        final(lifecycle).generation == old(lifecycle).generation,
{
    lifecycle.signing_out = false;
}

/// Every sign-out moves the epoch: no epoch is its own successor.
pub proof fn lemma_suspend_changes_generation(g: u64)
    ensures
        next_generation(g) != g,
{
}

/// The epoch after `k` sign-outs from epoch `g`.
pub open spec fn generation_after(g: u64, k: nat) -> u64
    decreases k,
{
    if k == 0 { g } else { next_generation(generation_after(g, (k - 1) as nat)) }
}

/// `k` sign-outs advance the epoch by `k`, wrapping around.
pub proof fn lemma_generation_after(g: u64, k: nat)
    ensures
        generation_after(g, k) as int == (g as int + k) % 0x1_0000_0000_0000_0000,
    decreases k,
{
    if k > 0 {
        lemma_generation_after(g, (k - 1) as nat);
        let x = generation_after(g, (k - 1) as nat) as int;
        let m: int = 0x1_0000_0000_0000_0000;
        assert(x == (g as int + k - 1) % m);
        assert((g as int + k) % m == if x == m - 1 { 0 } else { x + 1 }) by (nonlinear_arith)
            requires
                x == (g as int + k - 1) % m,
                m == 0x1_0000_0000_0000_0000,
                g >= 0,
                k >= 1,
        {
        }
    }
}

/// Fewer than 2^64 sign-outs never bring the epoch back to where it was.
pub proof fn lemma_sign_outs_change_generation(g: u64, k: nat)
    requires
        0 < k < 0x1_0000_0000_0000_0000,
    ensures
        generation_after(g, k) != g,
{
    lemma_generation_after(g, k);
    let m: int = 0x1_0000_0000_0000_0000;
    assert((g as int + k) % m != g as int) by (nonlinear_arith)
        requires
            0 < k < m,
            0 <= g < m,
            m == 0x1_0000_0000_0000_0000,
    {
    }
}

} // verus!
