//! Reading playbooks and their actions from the nodes of a document.

use crate::definition::actions::{
    stage_named, Action, ActionPlaybook, ActionPlaybookView, ActionView, BinAction, CcAction,
    CcActionView, DirAction, LinkAction, LinkActionView, ManAction, RmAction, Stage,
};
use crate::definition::parsing::{
    error_at, extend_errors, extract_string_values, no_errors, one_error, plain_error,
    push_error, string_values, Entry, HobParseError, HobParseErrorView, Node, Reading, Span,
    Value,
};
use crate::text::{push_string, str_equal};
use vstd::prelude::*;

verus! {

/// The strings that an action node lists, and the mistake where its entries
/// are not all strings; it lists nothing then.
pub open spec fn listed(node: Node) -> (Seq<Seq<char>>, Seq<HobParseErrorView>) {
    match string_values(node.entries@, "bin arguments"@) {
        Ok(values) => (values, Seq::empty()),
        Err(e) => (Seq::empty(), seq![e]),
    }
}

/// A `link` node: its last string is the target, those before it are the
/// sources, and there must be one source at least.
pub open spec fn link_read(node: Node) -> Reading<LinkActionView> {
    let (args, errors) = listed(node);
    if args.len() < 2 {
        Reading {
            value: None,
            errors: errors.push(
                plain_error(node.span, "link needs at least 2 arguments, source and target"@),
            ),
        }
    } else {
        Reading {
            value: Some(LinkActionView { source: args.drop_last(), target: args.last() }),
            errors,
        }
    }
}

/// How far a `cc` node has been read.
pub struct CcSoFar {
    pub errors: Seq<HobParseErrorView>,
    pub output: Option<Seq<char>>,
    pub inputs: Seq<Seq<char>>,
}

/// The mistake of naming the output of `cc` a second time.
pub open spec fn second_output(span: Span) -> HobParseErrorView {
    HobParseErrorView {
        span,
        label: Some("second output definition"@),
        help: None,
        kind: "output is defined multiple times for cc"@,
    }
}

/// `sofar` after `entry`: the property `output` names the output, other
/// properties say nothing, and every value is an input. All must be strings.
pub open spec fn cc_after(sofar: CcSoFar, entry: Entry) -> CcSoFar {
    if entry.name is Some {
        if entry.name.deep_view() == Some("output"@) {
            let errors = if sofar.output is Some {
                sofar.errors.push(second_output(entry.span))
            } else {
                sofar.errors
            };
            if entry.value is String {
                CcSoFar { errors, output: Some(entry.value->String_0@), inputs: sofar.inputs }
            } else {
                CcSoFar {
                    errors: errors.push(
                        plain_error(entry.span, "output value should be a string"@),
                    ),
                    output: sofar.output,
                    inputs: sofar.inputs,
                }
            }
        } else {
            sofar
        }
    } else if entry.value is String {
        CcSoFar { inputs: sofar.inputs.push(entry.value->String_0@), ..sofar }
    } else {
        CcSoFar {
            errors: sofar.errors.push(plain_error(entry.span, "input value should be a string"@)),
            ..sofar
        }
    }
}

/// What `entries` come to for a `cc` node.
pub open spec fn cc_so_far(entries: Seq<Entry>) -> CcSoFar
    decreases entries.len(),
{
    if entries.len() == 0 {
        CcSoFar { errors: Seq::empty(), output: None, inputs: Seq::empty() }
    } else {
        cc_after(cc_so_far(entries.drop_last()), entries.last())
    }
}

/// A `cc` node: there is an action where it names an output and one input at
/// least.
pub open spec fn cc_read(node: Node) -> Reading<CcActionView> {
    let sofar = cc_so_far(node.entries@);
    Reading {
        value: if sofar.output is Some && sofar.inputs.len() > 0 {
            Some(CcActionView { input: sofar.inputs, output: sofar.output->0 })
        } else {
            None
        },
        errors: sofar.errors,
    }
}

/// An action node: its name says which action it is.
pub open spec fn action_read(node: Node) -> Reading<ActionView> {
    let name = node.name@;
    if name == ".default"@ {
        Reading { value: Some(ActionView::Default), errors: Seq::empty() }
    } else if name == "make"@ {
        Reading { value: Some(ActionView::Make), errors: Seq::empty() }
    } else if name == "make-install"@ {
        Reading { value: Some(ActionView::MakeInstall), errors: Seq::empty() }
    } else if name == "cc"@ {
        Reading {
            value: match cc_read(node).value {
                Some(cc) => Some(ActionView::Cc(cc)),
                None => None,
            },
            errors: cc_read(node).errors,
        }
    } else if name == "bin"@ {
        Reading { value: Some(ActionView::Bin(listed(node).0)), errors: listed(node).1 }
    } else if name == "man"@ {
        Reading { value: Some(ActionView::Man(listed(node).0)), errors: listed(node).1 }
    } else if name == "rm"@ {
        Reading { value: Some(ActionView::Rm(listed(node).0)), errors: listed(node).1 }
    } else if name == "dir"@ {
        Reading { value: Some(ActionView::Dir(listed(node).0)), errors: listed(node).1 }
    } else if name == "link"@ {
        Reading {
            value: match link_read(node).value {
                Some(link) => Some(ActionView::Link(link)),
                None => None,
            },
            errors: link_read(node).errors,
        }
    } else {
        Reading { value: None, errors: seq![plain_error(node.span, "unknown action"@)] }
    }
}

/// The actions that `nodes` come to, in order, and the mistakes in them. A
/// node that is no action is left out.
pub open spec fn actions_read(nodes: Seq<Node>) -> (Seq<ActionView>, Seq<HobParseErrorView>)
    decreases nodes.len(),
{
    if nodes.len() == 0 {
        (Seq::empty(), Seq::empty())
    } else {
        let (actions, errors) = actions_read(nodes.drop_last());
        let last = action_read(nodes.last());
        (
            match last.value {
                Some(a) => actions.push(a),
                None => actions,
            },
            errors + last.errors,
        )
    }
}

/// A stage node: its name is the stage, its children are the actions.
pub open spec fn playbook_read(node: Node) -> Reading<ActionPlaybookView> {
    match stage_named(node.name@) {
        None => Reading {
            value: None,
            errors: seq![plain_error(node.name_span, "unknown stage"@)],
        },
        Some(stage) => Reading {
            value: Some(
                ActionPlaybookView { stage, actions: actions_read(node.children@).0 },
            ),
            errors: actions_read(node.children@).1,
        },
    }
}

/// Seen from outside, a list that was given an action is the list it was with
/// the action after it.
pub proof fn lemma_actions_push(before: Vec<Action>, after: Vec<Action>, action: Action)
    requires
        after@ == before@.push(action),
    ensures
        after.deep_view() == before.deep_view().push(action@),
{
    assert(after.deep_view() =~= before.deep_view().push(action@));
}

/// The strings that an action node lists.
fn read_list(input: &Node) -> (r: (Vec<String>, Vec<HobParseError>))
    ensures
        (r.0.deep_view(), r.1.deep_view()) == listed(*input),
{
    match extract_string_values(input, "bin arguments") {
        Ok(values) => (values, no_errors()),
        Err(e) => {
            let values: Vec<String> = Vec::new();
            assert(values.deep_view() =~= Seq::empty());
            (values, one_error(e))
        },
    }
}

impl BinAction {
    /// The programs that the `bin` node `input` lists.
    pub fn parse_node_with_errors(input: &Node) -> (r: (Option<BinAction>, Vec<HobParseError>))
        ensures
            r.0 matches Some(a) && a@ == listed(*input).0,
            r.1.deep_view() == listed(*input).1,
    {
        let (args, errors) = read_list(input);
        (Some(BinAction { binaries: args }), errors)
    }
}

impl ManAction {
    /// The manual pages that the `man` node `input` lists.
    pub fn parse_node_with_errors(input: &Node) -> (r: (Option<ManAction>, Vec<HobParseError>))
        ensures
            r.0 matches Some(a) && a@ == listed(*input).0,
            r.1.deep_view() == listed(*input).1,
    {
        let (args, errors) = read_list(input);
        (Some(ManAction { man_files: args }), errors)
    }
}

impl DirAction {
    /// The directories that the `dir` node `input` lists.
    pub fn parse_node_with_errors(input: &Node) -> (r: (Option<DirAction>, Vec<HobParseError>))
        ensures
            r.0 matches Some(a) && a@ == listed(*input).0,
            r.1.deep_view() == listed(*input).1,
    {
        let (args, errors) = read_list(input);
        (Some(DirAction { targets: args }), errors)
    }
}

impl RmAction {
    /// The files that the `rm` node `input` lists.
    pub fn parse_node_with_errors(input: &Node) -> (r: (Option<RmAction>, Vec<HobParseError>))
        ensures
            r.0 matches Some(a) && a@ == listed(*input).0,
            r.1.deep_view() == listed(*input).1,
    {
        let (args, errors) = read_list(input);
        (Some(RmAction { targets: args }), errors)
    }
}

impl LinkAction {
    /// The link that the `link` node `input` describes.
    pub fn parse_node_with_errors(input: &Node) -> (r: (Option<LinkAction>, Vec<HobParseError>))
        ensures
            match r.0 {
                Some(a) => link_read(*input).value == Some(a@),
                None => link_read(*input).value is None,
            },
            r.1.deep_view() == link_read(*input).errors,
    {
        let (args, errors) = read_list(input);
        let mut args = args;
        let mut errors = errors;
        if args.len() < 2 {
            push_error(
                &mut errors,
                error_at(
                    input.span,
                    String::from_str("link needs at least 2 arguments, source and target"),
                ),
            );
            (None, errors)
        } else {
            let ghost all = args;
            let target = args.pop().unwrap();
            proof {
                assert(args.deep_view() =~= all.deep_view().drop_last());
                assert(all.deep_view().last() == target@);
            }
            (Some(LinkAction { target, source: args }), errors)
        }
    }
}

impl CcAction {
    /// The compilation that the `cc` node `input` describes.
    pub fn parse_node_with_errors(input: &Node) -> (r: (Option<CcAction>, Vec<HobParseError>))
        ensures
            match r.0 {
                Some(a) => cc_read(*input).value == Some(a@),
                None => cc_read(*input).value is None,
            },
            r.1.deep_view() == cc_read(*input).errors,
    {
        let mut errors = no_errors();
        let mut output: Option<String> = None;
        let mut inputs: Vec<String> = Vec::new();
        assert(inputs.deep_view() =~= Seq::empty());
        let mut i: usize = 0;
        while i < input.entries.len()
            invariant
                i <= input.entries.len(),
                cc_so_far(input.entries@.take(i as int)) == (CcSoFar {
                    errors: errors.deep_view(),
                    output: output.deep_view(),
                    inputs: inputs.deep_view(),
                }),
            decreases input.entries.len() - i,
        {
            proof {
                assert(input.entries@.take(i + 1).drop_last() =~= input.entries@.take(i as int));
            }
            let entry = &input.entries[i];
            match &entry.name {
                Some(name) => {
                    if str_equal(name.as_str(), "output") {
                        if output.is_some() {
                            push_error(
                                &mut errors,
                                HobParseError {
                                    span: entry.span,
                                    label: Some("second output definition"),
                                    help: None,
                                    kind: String::from_str(
                                        "output is defined multiple times for cc",
                                    ),
                                },
                            );
                        }
                        match &entry.value {
                            Value::String(v) => {
                                output = Some(v.clone());
                            },
                            _ => {
                                push_error(
                                    &mut errors,
                                    error_at(
                                        entry.span,
                                        String::from_str("output value should be a string"),
                                    ),
                                );
                            },
                        }
                    }
                },
                None => {
                    match &entry.value {
                        Value::String(v) => {
                            push_string(&mut inputs, v.clone());
                        },
                        _ => {
                            push_error(
                                &mut errors,
                                error_at(
                                    entry.span,
                                    String::from_str("input value should be a string"),
                                ),
                            );
                        },
                    }
                },
            }
            i += 1;
        }
        proof {
            assert(input.entries@.take(i as int) =~= input.entries@);
        }
        if inputs.len() == 0 {
            return (None, errors);
        }
        match output {
            Some(output) => (Some(CcAction { input: inputs, output }), errors),
            None => (None, errors),
        }
    }
}

impl Action {
    /// The action that the node `input` describes.
    pub fn parse_node_with_errors(input: &Node) -> (r: (Option<Action>, Vec<HobParseError>))
        ensures
            r.0.deep_view() == action_read(*input).value,
            r.1.deep_view() == action_read(*input).errors,
    {
        let name = input.name.as_str();
        if str_equal(name, ".default") {
            (Some(Action::Default), no_errors())
        } else if str_equal(name, "make") {
            (Some(Action::Make), no_errors())
        } else if str_equal(name, "make-install") {
            (Some(Action::MakeInstall), no_errors())
        } else if str_equal(name, "cc") {
            let (cc, errors) = CcAction::parse_node_with_errors(input);
            match cc {
                Some(cc) => (Some(Action::Cc(cc)), errors),
                None => (None, errors),
            }
        } else if str_equal(name, "bin") {
            let (a, errors) = BinAction::parse_node_with_errors(input);
            (Some(Action::Bin(a.unwrap())), errors)
        } else if str_equal(name, "man") {
            let (a, errors) = ManAction::parse_node_with_errors(input);
            (Some(Action::Man(a.unwrap())), errors)
        } else if str_equal(name, "rm") {
            let (a, errors) = RmAction::parse_node_with_errors(input);
            (Some(Action::Rm(a.unwrap())), errors)
        } else if str_equal(name, "dir") {
            let (a, errors) = DirAction::parse_node_with_errors(input);
            (Some(Action::Dir(a.unwrap())), errors)
        } else if str_equal(name, "link") {
            let (link, errors) = LinkAction::parse_node_with_errors(input);
            match link {
                Some(link) => (Some(Action::Link(link)), errors),
                None => (None, errors),
            }
        } else {
            (None, one_error(error_at(input.span, String::from_str("unknown action"))))
        }
    }
}

impl ActionPlaybook {
    /// The playbook that the stage node `input` describes.
    pub fn parse_node_with_errors(input: &Node) -> (r: (
        Option<ActionPlaybook>,
        Vec<HobParseError>,
    ))
        ensures
            r.0.deep_view() == playbook_read(*input).value,
            r.1.deep_view() == playbook_read(*input).errors,
    {
        let stage = match Stage::from_str(input.name.as_str()) {
            Some(stage) => stage,
            None => {
                return (
                    None,
                    one_error(error_at(input.name_span, String::from_str("unknown stage"))),
                );
            },
        };
        let mut errors = no_errors();
        let mut actions: Vec<Action> = Vec::new();
        assert(actions.deep_view() =~= Seq::empty());
        let mut i: usize = 0;
        while i < input.children.len()
            invariant
                i <= input.children.len(),
                (actions.deep_view(), errors.deep_view()) == actions_read(
                    input.children@.take(i as int),
                ),
            decreases input.children.len() - i,
        {
            proof {
                assert(input.children@.take(i + 1).drop_last() =~= input.children@.take(
                    i as int,
                ));
            }
            let (action, more) = Action::parse_node_with_errors(&input.children[i]);
            extend_errors(&mut errors, more);
            match action {
                Some(action) => {
                    let ghost before = actions;
                    actions.push(action);
                    proof {
                        lemma_actions_push(before, actions, action);
                    }
                },
                None => {},
            }
            i += 1;
        }
        proof {
            assert(input.children@.take(i as int) =~= input.children@);
        }
        (Some(ActionPlaybook { stage, actions }), errors)
    }
}

} // verus!
