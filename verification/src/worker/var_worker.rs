//! The probes of the worker, by the names of their variables.

use vstd::prelude::*;
use crate::messages::EngineMsg;
use crate::text_map::TextMap;
use crate::var_fns::PollVarFns;
use crate::vars::name::VarName;

verus! {

/// The probes of the worker.
pub struct VarWorker<P: PollVarFns> {
    poll_var_fns: TextMap<P>,
}

impl<P: PollVarFns> VarWorker<P> {
    /// The names of the variables that have a probe.
    pub closed spec fn loaded(&self) -> Set<Seq<char>> {
        self.poll_var_fns@.dom()
    }

    /// No name has two probes.
    pub closed spec fn wf(&self) -> bool {
        self.poll_var_fns.wf()
    }

    /// A worker without probes.
    pub fn new() -> (w: VarWorker<P>)
        ensures
            w.wf(),
            w.loaded() == Set::<Seq<char>>::empty(),
    {
        let w = VarWorker { poll_var_fns: TextMap::new() };
        assert(w.loaded() =~= Set::<Seq<char>>::empty());
        w
    }

    /// Whether the variable `name` has a probe.
    pub fn is_loaded(&self, name: &str) -> (b: bool)
        ensures
            b == self.loaded().contains(name@),
    {
        self.poll_var_fns.contains_key(name)
    }

    /// Takes the probe that was made for the variable `name`. Where none could be
    /// made the variable stays without a probe.
    pub fn handle_load_poll_var_fns(&mut self, name: &VarName, made: Option<P>)
        requires
            old(self).wf(),
        ensures
            final(self).wf(),
            final(self).loaded() == if made is Some {
                old(self).loaded().insert(name@)
            } else {
                old(self).loaded()
            },
    {
        match made {
            Some(probe) => {
                self.poll_var_fns.insert(name.duplicate().into_string(), probe);
                assert(self.loaded() =~= old(self).loaded().insert(name@));
            },
            None => {},
        }
    }

    /// Asks the probe of the variable whether the variable is of use, and gives
    /// the answer for the engine. A probe that says no is dropped. A variable
    /// without a probe counts as of use: its polls give nothing.
    pub fn handle_call_var_is_active(&mut self, name: VarName) -> (msg: EngineMsg)
        requires
            old(self).wf(),
        ensures
            final(self).wf(),
            msg matches EngineMsg::ReturnVarIsActive(n, active) && n == name && (
            !old(self).loaded().contains(name@) ==> active) && final(self).loaded() == if active {
                old(self).loaded()
            } else {
                old(self).loaded().remove(name@)
            },
    {
        match self.poll_var_fns.remove(name.as_str()) {
            Some(mut probe) => {
                let active = probe.is_active();
                if active {
                    self.poll_var_fns.insert(name.duplicate().into_string(), probe);
                    assert(self.loaded() =~= old(self).loaded());
                } else {
                    assert(self.loaded() =~= old(self).loaded().remove(name@));
                }
                EngineMsg::ReturnVarIsActive(name, active)
            },
            None => {
                assert(self.loaded() =~= old(self).loaded());
                EngineMsg::ReturnVarIsActive(name, true)
            },
        }
    }

    /// Polls the probe of the variable, and gives the answer for the engine. A
    /// variable without a probe gives nothing.
    pub fn handle_call_var_poll(&mut self, name: VarName) -> (msg: EngineMsg)
        requires
            old(self).wf(),
        ensures
            final(self).wf(),
            final(self).loaded() == old(self).loaded(),
            msg matches EngineMsg::ReturnVarPoll(n, value) && n == name && (!old(
                self,
            ).loaded().contains(name@) ==> value is None),
    {
        match self.poll_var_fns.remove(name.as_str()) {
            Some(mut probe) => {
                let value = probe.poll();
                self.poll_var_fns.insert(name.duplicate().into_string(), probe);
                assert(self.loaded() =~= old(self).loaded());
                EngineMsg::ReturnVarPoll(name, value)
            },
            None => {
                assert(self.loaded() =~= old(self).loaded());
                EngineMsg::ReturnVarPoll(name, None)
            },
        }
    }
}

} // verus!
