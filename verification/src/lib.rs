//! A declarative, platform-aware command runner: an ordered list of steps,
//! each gated by a boolean condition over platform facts, whose command
//! arguments are expanded against a caller-supplied option list before the
//! commands are launched one at a time.

use vstd::prelude::*;

pub mod condition;
pub mod err;
pub mod structs;
pub mod template;

pub use err::Error;

use structs::{step_equiv, Configs, Step};

verus! {

/// A loaded configuration together with a cursor over its step list: steps
/// come out one at a time, in insertion order.
pub struct EasyCommand {
    configs: Configs,
    current_step: usize,
}

impl EasyCommand {
    /// The configuration this runner walks.
    pub closed spec fn spec_configs(&self) -> Configs {
        self.configs
    }

    /// The position of the cursor over the step list.
    pub closed spec fn spec_cursor(&self) -> int {
        self.current_step as int
    }

    /// Get a count of Steps
    pub fn steps_coutn(&self) -> (r: usize)
        ensures
            r == self.spec_configs().config_install.steps@.len(),
    {
        self.configs.config_install.steps.len()
    }

    /// Get a reference to the easy command's configs.
    pub fn get_configs(&self) -> (r: &Configs)
        ensures
            r == &self.spec_configs(),
    {
        &self.configs
    }

    /// The position of the cursor: how many steps came out already.
    pub fn current_step(&self) -> (r: usize)
        ensures
            r == self.spec_cursor(),
    {
        self.current_step
    }

    /// Hands out the step under the cursor and moves the cursor forward;
    /// nothing once every step came out.
    pub fn next_step(&mut self) -> (r: Option<Step>)
        ensures
            old(self).spec_cursor() < old(self).spec_configs().config_install.steps@.len() ==> ({
                &&& final(self).spec_cursor() == old(self).spec_cursor() + 1
                &&& final(self).spec_configs() == old(self).spec_configs()
                &&& r matches Some(s) && step_equiv(
                    s,
                    old(self).spec_configs().config_install.steps@[old(self).spec_cursor()],
                )
            }),
            old(self).spec_cursor() >= old(self).spec_configs().config_install.steps@.len() ==> r
                is None && *final(self) == *old(self),
    {
        if self.current_step < self.configs.config_install.steps.len() {
            let next: Step = self.configs.config_install.steps[self.current_step].clone();
            self.current_step = self.current_step + 1;
            Some(next)
        } else {
            None
        }
    }
}

/// Builds an [`EasyCommand`] from a configuration, with the cursor at the
/// first step.
pub struct EasyCommandBuilder {
    __configs: Configs,
    __current_step: usize,
}

impl EasyCommandBuilder {
    /// The configuration the builder holds so far.
    pub closed spec fn spec_configs(&self) -> Configs {
        self.__configs
    }

    /// The cursor position the built runner starts at.
    pub closed spec fn spec_cursor(&self) -> int {
        self.__current_step as int
    }

    /// An empty builder: no steps, cursor at the start.
    pub fn new() -> (r: Self)
        ensures
            r.spec_configs().config_install.steps@ == Seq::<Step>::empty(),
            r.spec_cursor() == 0,
    {
        EasyCommandBuilder { __configs: Configs::default(), __current_step: 0 }
    }

    /// Replaces the builder's configuration.
    pub fn with_config(self, conf: Configs) -> (r: Self)
        ensures
            r.spec_configs() == conf,
            r.spec_cursor() == self.spec_cursor(),
    {
        EasyCommandBuilder { __configs: conf, __current_step: self.__current_step }
    }

    /// Finishes the builder.
    pub fn build(self) -> (r: EasyCommand)
        ensures
            r.spec_configs() == self.spec_configs(),
            r.spec_cursor() == self.spec_cursor(),
    {
        EasyCommand { configs: self.__configs, current_step: self.__current_step }
    }
}

} // verus!
