//! Packages for the Alpine package keeper.

use crate::definition::{Recipe, RecipeView};
use crate::engine::packager::{Packager, PackagerBuilder};
use crate::engine::player::{Context, ContextView};
use crate::engine::{
    lemma_operations_push, Command, CommandView, EngineSettings, EngineSettingsView, Operation,
    OperationView,
};
use crate::text::{concat3, decimal, decimal_string, extend_strings, join, joined, push_string};
use std::sync::Arc;
use vstd::prelude::*;

verus! {

/// The arguments of `apk mkpkg`.
pub struct ApkArgs(pub Vec<String>);

impl View for ApkArgs {
    type V = Seq<Seq<char>>;

    open spec fn view(&self) -> Seq<Seq<char>> {
        self.0.deep_view()
    }
}

impl ApkArgs {
    /// No arguments yet.
    pub fn new() -> (r: ApkArgs)
        ensures
            r@ == Seq::<Seq<char>>::empty(),
    {
        let r = ApkArgs(Vec::new());
        assert(r.0.deep_view() =~= Seq::empty());
        r
    }

    /// The directory into which the package is written.
    pub fn output(&mut self, directory: &str)
        ensures
            final(self)@ == old(self)@ + seq!["--output"@, directory@],
    {
        let ghost before = self@;
        push_string(&mut self.0, String::from_str("--output"));
        push_string(&mut self.0, String::from_str(directory));
        assert(self@ =~= before + seq!["--output"@, directory@]);
    }

    /// The directory whose files make up the package.
    pub fn input(&mut self, directory: &str)
        ensures
            final(self)@ == old(self)@ + seq!["--files"@, directory@],
    {
        let ghost before = self@;
        push_string(&mut self.0, String::from_str("--files"));
        push_string(&mut self.0, String::from_str(directory));
        assert(self@ =~= before + seq!["--files"@, directory@]);
    }

    /// A fact about the package: its name, a colon, and its value.
    pub fn info(&mut self, name: &str, value: &str)
        ensures
            final(self)@ == old(self)@ + seq!["--info"@, name@ + ":"@ + value@],
    {
        let ghost before = self@;
        push_string(&mut self.0, String::from_str("--info"));
        push_string(&mut self.0, concat3(name, ":", value));
        assert(self@ =~= before + seq!["--info"@, name@ + ":"@ + value@]);
    }
}

/// A fact about a package as `apk mkpkg` takes it.
pub open spec fn info(name: Seq<char>, value: Seq<char>) -> Seq<Seq<char>> {
    seq!["--info"@, name + ":"@ + value]
}

/// The arguments that describe the package of `context`, which belongs to
/// `recipe` and whose files are in `dir`.
pub open spec fn apk_args(recipe: RecipeView, context: ContextView, dir: Seq<char>) -> Seq<
    Seq<char>,
> {
    info("name"@, context.name()) + info(
        "version"@,
        recipe.version + "-r"@ + decimal(recipe.revision),
    ) + info("description"@, context.description()) + info(
        "license"@,
        joined(recipe.license, " "@),
    ) + info("origin"@, context.origin()) + info(
        "maintainer"@,
        joined(recipe.maintainers, " "@),
    ) + (match recipe.home {
        Some(home) => info("url"@, home),
        None => Seq::empty(),
    }) + (if context.depends().len() > 0 {
        info("depends"@, joined(context.depends(), " "@))
    } else {
        Seq::empty()
    }) + seq!["--files"@, dir]
}

/// The work that makes the apk package of `context`: the directory of the apk
/// packages is made, and `apk mkpkg` runs in it. Its exit status is not
/// looked at.
pub open spec fn apk_plan(
    settings: EngineSettingsView,
    recipe: RecipeView,
    context: ContextView,
) -> Seq<OperationView> {
    seq![
        OperationView::CreateDirAll { path: settings.package_for("apk"@) },
        OperationView::Run {
            command: CommandView {
                program: "apk"@,
                args: seq!["mkpkg"@] + apk_args(
                    recipe,
                    context,
                    settings.dest_for(context.name()),
                ),
                current_dir: Some(settings.package_for("apk"@)),
            },
            failure: None,
        },
    ]
}

/// The packager for the Alpine package keeper.
#[derive(Debug, PartialEq, Eq)]
pub struct Apk {
    pub settings: Arc<EngineSettings>,
}

impl View for Apk {
    type V = EngineSettingsView;

    open spec fn view(&self) -> EngineSettingsView {
        self.settings@
    }
}

impl PackagerBuilder for Apk {
    type Output = Apk;

    fn build(settings: Arc<EngineSettings>) -> (r: Apk)
        ensures
            r@ == settings@,
    {
        Apk { settings }
    }
}

impl Packager for Apk {
    open spec fn package_plan(&self, recipe: RecipeView, context: ContextView) -> Seq<
        OperationView,
    > {
        apk_plan(self@, recipe, context)
    }

    fn build_package(&self, recipe: &Recipe, context: Context) -> (r: Vec<Operation>) {
        let dir = self.settings.dest_path_for_context(context);
        let package_path = self.settings.package_path_for_packager("apk");
        let mut args = ApkArgs::new();
        args.info("name", context.name());
        let mut version = recipe.version.clone();
        version.append("-r");
        version.append(decimal_string(recipe.revision as u128).as_str());
        args.info("version", version.as_str());
        args.info("description", context.description());
        args.info("license", join(&recipe.license, " ").as_str());
        args.info("origin", context.origin());
        args.info("maintainer", join(&recipe.maintainers, " ").as_str());
        match &recipe.home {
            Some(home) => {
                args.info("url", home.as_str());
            },
            None => {},
        }
        if context.depends().len() > 0 {
            args.info("depends", join(context.depends(), " ").as_str());
        }
        args.input(dir.as_str());
        proof {
            assert(args@ =~= apk_args(recipe@, context@, dir@));
        }
        let mut all: Vec<String> = Vec::new();
        assert(all.deep_view() =~= Seq::empty());
        push_string(&mut all, String::from_str("mkpkg"));
        extend_strings(&mut all, &args.0);
        assert(all.deep_view() =~= seq!["mkpkg"@] + args@);
        let mut ops: Vec<Operation> = Vec::new();
        let ghost o0 = ops;
        let first = Operation::CreateDirAll { path: package_path.clone() };
        ops.push(first);
        let ghost o1 = ops;
        let second = Operation::Run {
            command: Command {
                program: String::from_str("apk"),
                args: all,
                current_dir: Some(package_path),
            },
            failure: None,
        };
        ops.push(second);
        proof {
            lemma_operations_push(o0, o1, first);
            lemma_operations_push(o1, ops, second);
            assert(o0.deep_view() =~= Seq::empty());
            assert(ops.deep_view() =~= apk_plan(self@, recipe@, context@));
        }
        ops
    }
}

} // verus!
