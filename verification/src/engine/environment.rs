//! The environment in which the commands of a build run.

use crate::definition::{Recipe, RecipeView};
use crate::engine::{ChrootMethod, Command, CommandView, EngineSettings, EngineSettingsView};
use crate::text::{clone_strings, extend_strings, lemma_deep_view_push};
use std::sync::Arc;
use vstd::prelude::*;

verus! {

/// The environment of a build's commands.
#[derive(Debug, PartialEq, Eq)]
pub struct Environment {
    pub settings: Arc<EngineSettings>,
    /// Whether the build root is still being made: no command is confined to
    /// it then.
    pub bootstrap: bool,
    /// The number of processors of the host.
    pub cpus: usize,
}

pub struct EnvironmentView {
    pub settings: EngineSettingsView,
    pub bootstrap: bool,
    pub cpus: nat,
}

impl View for Environment {
    type V = EnvironmentView;

    open spec fn view(&self) -> EnvironmentView {
        EnvironmentView {
            settings: self.settings@,
            bootstrap: self.bootstrap,
            cpus: self.cpus as nat,
        }
    }
}

impl EnvironmentView {
    /// How commands are confined: not at all while the build root is being
    /// made, else as the settings say.
    pub open spec fn confinement(self) -> ChrootMethod {
        if self.bootstrap {
            ChrootMethod::NoChroot
        } else {
            self.settings.chroot_method
        }
    }

    /// The command that runs `name` with `args` for `recipe`: in the directory
    /// of the recipe's unpacked sources, and inside the build root where
    /// commands are confined by `chroot`.
    pub open spec fn command(
        self,
        recipe: RecipeView,
        name: Seq<char>,
        args: Seq<Seq<char>>,
    ) -> CommandView {
        let dir = Some(self.settings.extracted_source_for(recipe));
        if self.confinement() == ChrootMethod::SystemChroot {
            CommandView {
                program: "chroot"@,
                args: seq![self.settings.root_path, "--"@, name] + args,
                current_dir: dir,
            }
        } else {
            CommandView { program: name, args, current_dir: dir }
        }
    }
}

/// `num_cpus::get`: the number of processors that the host offers this
/// process. It is whatever the host says.
#[verifier::external_body]
fn host_cpus() -> usize {
    num_cpus::get()
}

impl Environment {
    /// The environment of a build that begins: the build root is still being
    /// made.
    pub fn new(settings: Arc<EngineSettings>) -> (r: Environment)
        ensures
            r@.settings == settings@,
            r@.bootstrap,
    {
        Environment { settings, bootstrap: true, cpus: host_cpus() }
    }

    /// The command that runs `name` with `args` for `recipe`.
    pub fn command(&self, recipe: &Recipe, name: &str, args: &Vec<String>) -> (r: Command)
        requires
            self@.confinement() != ChrootMethod::_BubbleWrap,
        ensures
            r@ == self@.command(recipe@, name@, args.deep_view()),
    {
        let current_dir = Some(self.settings.extracted_source_path_for_recipe(recipe));
        let confined = !self.bootstrap && self.settings.chroot_method == ChrootMethod::SystemChroot;
        if confined {
            let mut left: Vec<String> = Vec::new();
            let ghost l0 = left;
            let root = String::from_str(self.settings.root_path());
            left.push(root);
            let ghost l1 = left;
            let dashes = String::from_str("--");
            left.push(dashes);
            let ghost l2 = left;
            let program = String::from_str(name);
            left.push(program);
            proof {
                lemma_deep_view_push(l0, l1, root);
                lemma_deep_view_push(l1, l2, dashes);
                lemma_deep_view_push(l2, left, program);
                assert(l0.deep_view() =~= Seq::<Seq<char>>::empty());
                assert(left.deep_view() =~= seq![self@.settings.root_path, "--"@, name@]);
            }
            extend_strings(&mut left, args);
            Command { program: String::from_str("chroot"), args: left, current_dir }
        } else {
            Command { program: String::from_str(name), args: clone_strings(args), current_dir }
        }
    }
}

} // verus!
