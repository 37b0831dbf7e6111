//! What each build style does at the build stages where a recipe says nothing
//! else.

use crate::definition::actions::{Action, ActionView, Stage};
use crate::definition::build_style::BuildStyleType;
use vstd::prelude::*;

verus! {

/// The built-in actions of one build style.
pub struct BuildStyle {
    pub style: BuildStyleType,
    pub configure: Vec<Action>,
    pub build: Vec<Action>,
    pub install: Vec<Action>,
    pub check: Vec<Action>,
}

pub struct BuildStyleView {
    pub style: BuildStyleType,
    pub configure: Seq<ActionView>,
    pub build: Seq<ActionView>,
    pub install: Seq<ActionView>,
    pub check: Seq<ActionView>,
}

impl View for BuildStyle {
    type V = BuildStyleView;

    open spec fn view(&self) -> BuildStyleView {
        BuildStyleView {
            style: self.style,
            configure: self.configure.deep_view(),
            build: self.build.deep_view(),
            install: self.install.deep_view(),
            check: self.check.deep_view(),
        }
    }
}

/// The built-in actions of `style`: none for `Noop`; for the two configure
/// styles, configure, then make, then make install.
pub open spec fn build_style_of(style: BuildStyleType) -> BuildStyleView {
    match style {
        BuildStyleType::Noop => BuildStyleView {
            style,
            configure: Seq::empty(),
            build: Seq::empty(),
            install: Seq::empty(),
            check: Seq::empty(),
        },
        _ => BuildStyleView {
            style,
            configure: seq![ActionView::Configure],
            build: seq![ActionView::Make],
            install: seq![ActionView::MakeInstall],
            check: Seq::empty(),
        },
    }
}

impl BuildStyleView {
    /// The built-in actions for `stage`, where it is a build stage.
    pub open spec fn actions_for(self, stage: Stage) -> Option<Seq<ActionView>> {
        match stage {
            Stage::Configure => Some(self.configure),
            Stage::Build => Some(self.build),
            Stage::Install => Some(self.install),
            _ => None,
        }
    }
}

/// The built-in actions of `style`.
pub fn get_build_style(style: BuildStyleType) -> (r: BuildStyle)
    ensures
        r@ == build_style_of(style),
{
    let r = match style {
        BuildStyleType::Noop => BuildStyle {
            style,
            configure: Vec::new(),
            build: Vec::new(),
            install: Vec::new(),
            check: Vec::new(),
        },
        _ => BuildStyle {
            style,
            configure: vec![Action::Configure],
            build: vec![Action::Make],
            install: vec![Action::MakeInstall],
            check: Vec::new(),
        },
    };
    assert(r.configure.deep_view() =~= build_style_of(style).configure);
    assert(r.build.deep_view() =~= build_style_of(style).build);
    assert(r.install.deep_view() =~= build_style_of(style).install);
    assert(r.check.deep_view() =~= build_style_of(style).check);
    r
}

} // verus!
