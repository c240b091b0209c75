use vstd::prelude::*;

use crate::binding::BindingTable;
pub use crate::ident::BuildContextPrefix;

verus! {

/// Per-session flags through which a handler steers the session loop.
pub struct Context {
    /// End the loop before the next render.
    pub should_exit: bool,
    /// Leave the published message as it is before waiting again.
    pub dont_update: bool,
}

impl Context {
    pub fn new() -> (r: Self)
        ensures
            !r.should_exit,
            !r.dont_update,
    {
        Context { should_exit: false, dont_update: false }
    }

    /// Ends the session after the current handler returns.
    pub fn finish(&mut self)
        ensures
            final(self).should_exit,
            final(self).dont_update == old(self).dont_update,
    {
        self.should_exit = true;
    }

    /// Asks the loop not to publish before the next wait.
    pub fn dont_update(&mut self)
        ensures
            final(self).dont_update,
            final(self).should_exit == old(self).should_exit,
    {
        self.dont_update = true;
    }

    /// Reads the request made by `dont_update` and clears it.
    pub fn take_dont_update(&mut self) -> (r: bool)
        ensures
            r == old(self).dont_update,
            !final(self).dont_update,
            final(self).should_exit == old(self).should_exit,
    {
        let r = self.dont_update;
        self.dont_update = false;
        r
    }
}

/// What one session owns: the binding table of its current render pass and
/// its flags.
pub struct BuildContext<H> {
    pub binding: BindingTable<H>,
    pub ctx: Context,
}

impl<H> BuildContext<H> {
    pub fn new() -> (r: Self)
        ensures
            r.binding@ == Seq::<(Seq<char>, H)>::empty(),
            !r.ctx.should_exit,
            !r.ctx.dont_update,
    {
        BuildContext { binding: BindingTable::new(), ctx: Context::new() }
    }
}

} // verus!
