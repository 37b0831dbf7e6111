//! Reading recipes, their artifacts, styles, options and sides from the nodes
//! of a document.

use crate::definition::build_style::{
    style_named, BuildStyle, BuildStyleType, BuildStyleVariables, BuildStyleVariablesView,
    BuildStyleView,
};
use crate::definition::parsing::{
    error_at, extend_errors, extract_single_bool_value, extract_single_string_value,
    extract_string_values, extract_string_values_with_extend, give_strings, list_given,
    no_errors, one_error, plain_error, push_error, single_bool, single_string, string_values,
    string_values_with_extend, HobParseError, HobParseErrorView, Node, Reading, Span,
};
use crate::definition::{
    Artifact, ArtifactSource, ArtifactSourceView, ArtifactView, FetchArtifact, FetchArtifactView,
    Recipe, RecipeOptions, Side, SideView, Verification, VerificationView,
};
use crate::digest::{hex_decode, hex_decoded, hex_error_text, is_hex};
use crate::text::{
    after_last, before_first, chars_of, clone_strings, find_first, find_last,
    lemma_first_index_bounds, lemma_last_index_bounds, slice, str_equal,
};
use vstd::prelude::*;
use vstd::string::StringSliceAdditionalSpecFns;

verus! {

/// A text after `node` was read into it: the one string of `node`, or the
/// text as it was where `node` holds a mistake.
pub open spec fn text_given(node: Node, what: Seq<char>, text: Seq<char>) -> Seq<char> {
    match single_string(node, what) {
        Ok(v) => v,
        Err(_) => text,
    }
}

/// An optional text after `node` was read into it.
pub open spec fn opt_text_given(node: Node, what: Seq<char>, text: Option<Seq<char>>) -> Option<
    Seq<char>,
> {
    match single_string(node, what) {
        Ok(v) => Some(v),
        Err(_) => text,
    }
}

/// `errors` after `node` was read as one string.
pub open spec fn text_errors(node: Node, what: Seq<char>, errors: Seq<HobParseErrorView>) -> Seq<
    HobParseErrorView,
> {
    match single_string(node, what) {
        Ok(_) => errors,
        Err(e) => errors.push(e),
    }
}

/// An optional truth value after `node` was read into it.
pub open spec fn opt_bool_given(node: Node, what: Seq<char>, value: Option<bool>) -> Option<bool> {
    match single_bool(node, what) {
        Ok(v) => Some(v),
        Err(_) => value,
    }
}

/// `errors` after `node` was read as one truth value.
pub open spec fn bool_errors(node: Node, what: Seq<char>, errors: Seq<HobParseErrorView>) -> Seq<
    HobParseErrorView,
> {
    match single_bool(node, what) {
        Ok(_) => errors,
        Err(e) => errors.push(e),
    }
}

/// A list after the strings of `node` were put after what it held.
pub open spec fn list_added(node: Node, what: Seq<char>, list: Seq<Seq<char>>) -> Seq<Seq<char>> {
    match string_values(node.entries@, what) {
        Ok(values) => list + values,
        Err(_) => list,
    }
}

/// `errors` after `node` was read as a list of strings.
pub open spec fn list_errors(node: Node, what: Seq<char>, errors: Seq<HobParseErrorView>) -> Seq<
    HobParseErrorView,
> {
    match string_values(node.entries@, what) {
        Ok(_) => errors,
        Err(e) => errors.push(e),
    }
}

/// A list after the strings of `node` were given to it: put after what it
/// held, or in its place where `node` says `extends=false`.
pub open spec fn list_extended(node: Node, what: Seq<char>, list: Seq<Seq<char>>) -> Seq<
    Seq<char>,
> {
    match string_values_with_extend(node.entries@, what) {
        Ok((values, extends)) => list_given(list, values, extends),
        Err(_) => list,
    }
}

/// An optional list after the strings of `node` were given to it.
pub open spec fn opt_list_extended(
    node: Node,
    what: Seq<char>,
    list: Option<Seq<Seq<char>>>,
) -> Option<Seq<Seq<char>>> {
    match string_values_with_extend(node.entries@, what) {
        Ok((values, extends)) => match list {
            Some(l) => Some(list_given(l, values, extends)),
            None => Some(values),
        },
        Err(_) => list,
    }
}

/// `errors` after `node` was read as a list that may say `extends=`.
pub open spec fn extended_errors(
    node: Node,
    what: Seq<char>,
    errors: Seq<HobParseErrorView>,
) -> Seq<HobParseErrorView> {
    match string_values_with_extend(node.entries@, what) {
        Ok(_) => errors,
        Err(e) => errors.push(e),
    }
}

/// Reads the one string of `node` into `text`, or records the mistake.
pub(crate) fn string_into(node: &Node, what: &str, text: &mut String, errors: &mut Vec<HobParseError>)
    ensures
        final(text)@ == text_given(*node, what@, old(text)@),
        final(errors).deep_view() == text_errors(*node, what@, old(errors).deep_view()),
{
    match extract_single_string_value(node, what) {
        Ok(v) => {
            *text = v;
        },
        Err(e) => {
            push_error(errors, e);
        },
    }
}

/// Reads the one string of `node` into `text`, or records the mistake.
pub(crate) fn string_into_option(
    node: &Node,
    what: &str,
    text: &mut Option<String>,
    errors: &mut Vec<HobParseError>,
)
    ensures
        final(text).deep_view() == opt_text_given(*node, what@, old(text).deep_view()),
        final(errors).deep_view() == text_errors(*node, what@, old(errors).deep_view()),
{
    match extract_single_string_value(node, what) {
        Ok(v) => {
            *text = Some(v);
        },
        Err(e) => {
            push_error(errors, e);
        },
    }
}

/// Reads the one truth value of `node` into `value`, or records the mistake.
pub(crate) fn bool_into_option(
    node: &Node,
    what: &str,
    value: &mut Option<bool>,
    errors: &mut Vec<HobParseError>,
)
    ensures
        *final(value) == opt_bool_given(*node, what@, *old(value)),
        final(errors).deep_view() == bool_errors(*node, what@, old(errors).deep_view()),
{
    match extract_single_bool_value(node, what) {
        Ok(v) => {
            *value = Some(v);
        },
        Err(e) => {
            push_error(errors, e);
        },
    }
}

/// Puts the strings of `node` after those of `list`, or records the mistake.
pub(crate) fn list_into(node: &Node, what: &str, list: &mut Vec<String>, errors: &mut Vec<HobParseError>)
    ensures
        final(list).deep_view() == list_added(*node, what@, old(list).deep_view()),
        final(errors).deep_view() == list_errors(*node, what@, old(errors).deep_view()),
{
    match extract_string_values(node, what) {
        Ok(values) => {
            give_strings(list, values, true);
        },
        Err(e) => {
            push_error(errors, e);
        },
    }
}

/// Gives `list` the strings of `node`, after or in the place of what it holds,
/// or records the mistake.
pub(crate) fn list_ext_into(
    node: &Node,
    what: &str,
    list: &mut Vec<String>,
    errors: &mut Vec<HobParseError>,
)
    ensures
        final(list).deep_view() == list_extended(*node, what@, old(list).deep_view()),
        final(errors).deep_view() == extended_errors(*node, what@, old(errors).deep_view()),
{
    match extract_string_values_with_extend(node, what) {
        Ok((values, extends)) => {
            give_strings(list, values, extends);
        },
        Err(e) => {
            push_error(errors, e);
        },
    }
}

/// Gives `list` the strings of `node`, after or in the place of what it holds,
/// or records the mistake.
pub(crate) fn list_ext_into_option(
    node: &Node,
    what: &str,
    list: &mut Option<Vec<String>>,
    errors: &mut Vec<HobParseError>,
)
    ensures
        final(list).deep_view() == opt_list_extended(*node, what@, old(list).deep_view()),
        final(errors).deep_view() == extended_errors(*node, what@, old(errors).deep_view()),
{
    match extract_string_values_with_extend(node, what) {
        Ok((values, extends)) => {
            let mut held: Option<Vec<String>> = None;
            std::mem::swap(list, &mut held);
            match held {
                Some(l) => {
                    let mut l = l;
                    give_strings(&mut l, values, extends);
                    *list = Some(l);
                },
                None => {
                    *list = Some(values);
                },
            }
        },
        Err(e) => {
            push_error(errors, e);
        },
    }
}

/// The name under which a fetched file is kept where the recipe gives none:
/// what follows the last `/` of the URL, up to its first `?`.
pub open spec fn default_file_name(url: Seq<char>) -> Seq<char> {
    before_first(after_last(url, '/'), '?')
}

/// The name under which the file of `url` is kept where the recipe gives none.
pub fn file_name_from_url(url: &str) -> (r: String)
    ensures
        r@ == default_file_name(url@),
{
    let chars = chars_of(url);
    let n = chars.len();
    proof {
        lemma_last_index_bounds(chars@, '/');
    }
    let start: usize = match find_last(&chars, '/') {
        Some(k) => k + 1,
        None => 0,
    };
    let mut tail = chars;
    let head: Vec<char> = tail.split_off(start);
    proof {
        assert(head@ =~= after_last(url@, '/'));
        lemma_first_index_bounds(head@, '?');
    }
    let end = find_first(&head, '?');
    assert(start + head.len() == n);
    let r = slice(url, start, start + end);
    assert(r@ =~= default_file_name(url@));
    r
}

/// How far the verification of an artifact has been read.
pub struct VerificationSoFar {
    pub sha256: Option<Seq<u8>>,
    pub errors: Seq<HobParseErrorView>,
}

/// The mistake of a digest that is no hexadecimal number.
pub open spec fn invalid_hex(span: Span, text: Seq<char>) -> HobParseErrorView {
    HobParseErrorView {
        span,
        label: None,
        help: Some(hex_error_text(vstd::utf8::encode_utf8(text))),
        kind: "invalid hex string"@,
    }
}

/// `sofar` after the child `node`: a child `sha256` holds one string, the 32
/// bytes of the digest in hexadecimal.
pub open spec fn verification_after(sofar: VerificationSoFar, node: Node) -> VerificationSoFar {
    if node.name@ == "sha256"@ {
        match single_string(node, "sha256"@) {
            Err(e) => VerificationSoFar { errors: sofar.errors.push(e), ..sofar },
            Ok(text) => {
                let bytes = vstd::utf8::encode_utf8(text);
                let span = node.entries@[0].span;
                if !is_hex(bytes) {
                    VerificationSoFar {
                        errors: sofar.errors.push(invalid_hex(span, text)),
                        ..sofar
                    }
                } else if hex_decoded(bytes).len() != 32 {
                    VerificationSoFar {
                        errors: sofar.errors.push(
                            plain_error(span, "expected 32 byte long hex string for sha256"@),
                        ),
                        ..sofar
                    }
                } else {
                    VerificationSoFar { sha256: Some(hex_decoded(bytes)), ..sofar }
                }
            },
        }
    } else {
        sofar
    }
}

/// What the children `nodes` of an artifact say of its verification.
pub open spec fn verification_read(nodes: Seq<Node>) -> VerificationSoFar
    decreases nodes.len(),
{
    if nodes.len() == 0 {
        VerificationSoFar { sha256: None, errors: Seq::empty() }
    } else {
        verification_after(verification_read(nodes.drop_last()), nodes.last())
    }
}

/// How far a `fetch` node has been read.
pub struct FetchSoFar {
    pub url: Option<Seq<char>>,
    pub file_name: Option<Seq<char>>,
    pub errors: Seq<HobParseErrorView>,
}

/// `sofar` after the child `node`: `url` holds the URL, `name` the file name.
pub open spec fn fetch_after(sofar: FetchSoFar, node: Node) -> FetchSoFar {
    if node.name@ == "url"@ {
        FetchSoFar {
            url: opt_text_given(node, "url of artifact"@, sofar.url),
            errors: text_errors(node, "url of artifact"@, sofar.errors),
            ..sofar
        }
    } else if node.name@ == "name"@ {
        FetchSoFar {
            file_name: opt_text_given(node, "name of artifact"@, sofar.file_name),
            errors: text_errors(node, "name of artifact"@, sofar.errors),
            ..sofar
        }
    } else {
        sofar
    }
}

/// What the children `nodes` of a `fetch` node come to.
pub open spec fn fetch_so_far(nodes: Seq<Node>) -> FetchSoFar
    decreases nodes.len(),
{
    if nodes.len() == 0 {
        FetchSoFar { url: None, file_name: None, errors: Seq::empty() }
    } else {
        fetch_after(fetch_so_far(nodes.drop_last()), nodes.last())
    }
}

/// A `fetch` node: it must give a URL; the file name is taken from the URL
/// where it gives none.
pub open spec fn fetch_read(node: Node) -> Reading<FetchArtifactView> {
    let sofar = fetch_so_far(node.children@);
    match sofar.url {
        Some(url) => Reading {
            value: Some(
                FetchArtifactView {
                    url,
                    file_name: match sofar.file_name {
                        Some(name) => name,
                        None => default_file_name(url),
                    },
                },
            ),
            errors: sofar.errors,
        },
        None => Reading {
            value: None,
            errors: sofar.errors.push(
                plain_error(node.span, "fetch artifact requires an url to be given"@),
            ),
        },
    }
}

/// The source that an artifact node names: `fetch` is the only one known.
pub open spec fn source_read(node: Node) -> Reading<ArtifactSourceView> {
    if node.name@ == "fetch"@ {
        Reading {
            value: match fetch_read(node).value {
                Some(f) => Some(ArtifactSourceView::Fetch(f)),
                None => None,
            },
            errors: fetch_read(node).errors,
        }
    } else {
        Reading {
            value: None,
            errors: seq![plain_error(node.name_span, "Unknown type of artifact"@)],
        }
    }
}

/// An artifact node: its verification, then its source.
pub open spec fn artifact_read(node: Node) -> Reading<ArtifactView> {
    let verification = verification_read(node.children@);
    let source = source_read(node);
    Reading {
        value: match source.value {
            Some(s) => Some(
                ArtifactView {
                    source: s,
                    verification: VerificationView { sha256: verification.sha256 },
                },
            ),
            None => None,
        },
        errors: verification.errors + source.errors,
    }
}

/// The artifacts that `nodes` come to, in order, and the mistakes in them.
pub open spec fn artifacts_read(nodes: Seq<Node>) -> (Seq<ArtifactView>, Seq<HobParseErrorView>)
    decreases nodes.len(),
{
    if nodes.len() == 0 {
        (Seq::empty(), Seq::empty())
    } else {
        let (artifacts, errors) = artifacts_read(nodes.drop_last());
        let last = artifact_read(nodes.last());
        (
            match last.value {
                Some(a) => artifacts.push(a),
                None => artifacts,
            },
            errors + last.errors,
        )
    }
}

/// How far the settings of a build style have been read.
pub struct VariablesSoFar {
    pub vars: BuildStyleVariablesView,
    pub errors: Seq<HobParseErrorView>,
}

/// `sofar` after the child `node`: `configure-script` holds one string,
/// `configure-args` a list that may say `extends=`.
pub open spec fn variables_after(sofar: VariablesSoFar, node: Node) -> VariablesSoFar {
    if node.name@ == "configure-script"@ {
        VariablesSoFar {
            vars: BuildStyleVariablesView {
                configure_script: opt_text_given(
                    node,
                    "configure script"@,
                    sofar.vars.configure_script,
                ),
                ..sofar.vars
            },
            errors: text_errors(node, "configure script"@, sofar.errors),
        }
    } else if node.name@ == "configure-args"@ {
        VariablesSoFar {
            vars: BuildStyleVariablesView {
                configure_args: opt_list_extended(
                    node,
                    "configure args"@,
                    sofar.vars.configure_args,
                ),
                ..sofar.vars
            },
            errors: extended_errors(node, "configure args"@, sofar.errors),
        }
    } else {
        sofar
    }
}

/// What the children `nodes` of a style node say of its settings.
pub open spec fn variables_read(nodes: Seq<Node>) -> VariablesSoFar
    decreases nodes.len(),
{
    if nodes.len() == 0 {
        VariablesSoFar { vars: BuildStyleVariablesView::unset(), errors: Seq::empty() }
    } else {
        variables_after(variables_read(nodes.drop_last()), nodes.last())
    }
}

/// Where the mistake of an unknown build style is shown: at the first entry
/// of the node, or at its name where it has no entry.
pub open spec fn style_place(node: Node) -> Span {
    if node.entries@.len() > 0 {
        node.entries@[0].span
    } else {
        node.name_span
    }
}

/// A `style` node: its one string names the style, its children are the
/// settings. An unknown style is a mistake and counts as `noop`.
pub open spec fn style_read(node: Node) -> Reading<BuildStyleView> {
    let named = match single_string(node, "name of build style"@) {
        Ok(name) => style_named(name),
        Err(_) => None,
    };
    let errors = text_errors(node, "name of build style"@, Seq::empty());
    let vars = variables_read(node.children@);
    Reading {
        value: Some(
            BuildStyleView {
                style: match named {
                    Some(s) => s,
                    None => BuildStyleType::Noop,
                },
                vars: vars.vars,
            },
        ),
        errors: (if named is Some {
            errors
        } else {
            errors.push(plain_error(style_place(node), "unknown build style found"@))
        }) + vars.errors,
    }
}

/// How far an `options` node has been read.
pub struct OptionsSoFar {
    pub strip: Option<bool>,
    pub errors: Seq<HobParseErrorView>,
}

/// `sofar` after the child `node`: `strip` holds one truth value.
pub open spec fn options_after(sofar: OptionsSoFar, node: Node) -> OptionsSoFar {
    if node.name@ == "strip"@ {
        OptionsSoFar {
            strip: opt_bool_given(node, "strip"@, sofar.strip),
            errors: bool_errors(node, "strip"@, sofar.errors),
        }
    } else {
        sofar
    }
}

/// What the children `nodes` of an `options` node come to.
pub open spec fn options_read(nodes: Seq<Node>) -> OptionsSoFar
    decreases nodes.len(),
{
    if nodes.len() == 0 {
        OptionsSoFar { strip: None, errors: Seq::empty() }
    } else {
        options_after(options_read(nodes.drop_last()), nodes.last())
    }
}

/// How far a `side` node has been read.
pub struct SideSoFar {
    pub description: Seq<char>,
    pub depends: Seq<Seq<char>>,
    pub claims: Seq<Seq<char>>,
    pub errors: Seq<HobParseErrorView>,
}

/// `sofar` after the child `node`: `description` holds one string, `depends`
/// and `claim` lists that may say `extends=`.
pub open spec fn side_after(sofar: SideSoFar, node: Node) -> SideSoFar {
    if node.name@ == "description"@ {
        SideSoFar {
            description: text_given(node, "side description"@, sofar.description),
            errors: text_errors(node, "side description"@, sofar.errors),
            ..sofar
        }
    } else if node.name@ == "depends"@ {
        SideSoFar {
            depends: list_extended(node, "side depends"@, sofar.depends),
            errors: extended_errors(node, "side depends"@, sofar.errors),
            ..sofar
        }
    } else if node.name@ == "claim"@ {
        SideSoFar {
            claims: list_extended(node, "side claims"@, sofar.claims),
            errors: extended_errors(node, "side claims"@, sofar.errors),
            ..sofar
        }
    } else {
        sofar
    }
}

/// What the children `nodes` of a `side` node come to, beginning with the
/// description and the dependencies of the recipe.
pub open spec fn side_so_far(nodes: Seq<Node>, description: Seq<char>, depends: Seq<Seq<char>>) -> SideSoFar
    decreases nodes.len(),
{
    if nodes.len() == 0 {
        SideSoFar { description, depends, claims: Seq::empty(), errors: Seq::empty() }
    } else {
        side_after(side_so_far(nodes.drop_last(), description, depends), nodes.last())
    }
}

/// A `side` node of a recipe with `description` and `depends`: its one string
/// is its name. What it does not say of its description and dependencies is
/// as the recipe has it. A mistake in the name is not recorded; the name is
/// empty then.
pub open spec fn side_read(node: Node, description: Seq<char>, depends: Seq<Seq<char>>) -> (
    SideView,
    Seq<HobParseErrorView>,
) {
    let sofar = side_so_far(node.children@, description, depends);
    (
        SideView {
            name: text_given(node, "name of side"@, Seq::empty()),
            description: sofar.description,
            depends: sofar.depends,
            claims: sofar.claims,
        },
        sofar.errors,
    )
}

/// Seen from outside, a list that was given an artifact is the list it was
/// with the artifact after it.
pub proof fn lemma_artifacts_push(before: Vec<Artifact>, after: Vec<Artifact>, item: Artifact)
    requires
        after@ == before@.push(item),
    ensures
        after.deep_view() == before.deep_view().push(item@),
{
    assert(after.deep_view() =~= before.deep_view().push(item@));
}

impl Verification {
    /// What the children of the artifact node `input` say of its verification.
    pub fn parse_node_with_errors(input: &Node) -> (r: (
        Option<Verification>,
        Vec<HobParseError>,
    ))
        ensures
            r.0 matches Some(v) && v@.sha256 == verification_read(input.children@).sha256,
            r.1.deep_view() == verification_read(input.children@).errors,
    {
        let mut errors = no_errors();
        let mut sha256: Option<[u8; 32]> = None;
        let mut i: usize = 0;
        while i < input.children.len()
            invariant
                i <= input.children.len(),
                verification_read(input.children@.take(i as int)) == (VerificationSoFar {
                    sha256: (Verification { sha256 })@.sha256,
                    errors: errors.deep_view(),
                }),
            decreases input.children.len() - i,
        {
            proof {
                assert(input.children@.take(i + 1).drop_last() =~= input.children@.take(
                    i as int,
                ));
            }
            let node = &input.children[i];
            if str_equal(node.name.as_str(), "sha256") {
                match extract_single_string_value(node, "sha256") {
                    Err(e) => {
                        push_error(&mut errors, e);
                    },
                    Ok(text) => {
                        let span = node.entries[0].span;
                        match hex_decode(text.as_str()) {
                            Ok(bytes) => {
                                if bytes.len() != 32 {
                                    push_error(
                                        &mut errors,
                                        error_at(
                                            span,
                                            String::from_str(
                                                "expected 32 byte long hex string for sha256",
                                            ),
                                        ),
                                    );
                                } else {
                                    let mut digest = [0u8;32];
                                    let mut k: usize = 0;
                                    while k < 32
                                        invariant
                                            k <= 32,
                                            bytes.len() == 32,
                                            forall|j: int| 0 <= j < k ==> digest@[j] == bytes@[j],
                                        decreases 32 - k,
                                    {
                                        digest[k] = bytes[k];
                                        k += 1;
                                    }
                                    assert(digest@ =~= bytes@);
                                    sha256 = Some(digest);
                                }
                            },
                            Err(words) => {
                                push_error(
                                    &mut errors,
                                    HobParseError {
                                        span,
                                        label: None,
                                        help: Some(words),
                                        kind: String::from_str("invalid hex string"),
                                    },
                                );
                            },
                        }
                    },
                }
            }
            i += 1;
        }
        proof {
            assert(input.children@.take(i as int) =~= input.children@);
        }
        (Some(Verification { sha256 }), errors)
    }
}

impl FetchArtifact {
    /// The fetch that the `fetch` node `input` describes.
    pub fn parse_node_with_errors(input: &Node) -> (r: (
        Option<FetchArtifact>,
        Vec<HobParseError>,
    ))
        ensures
            match r.0 {
                Some(f) => fetch_read(*input).value == Some(f@),
                None => fetch_read(*input).value is None,
            },
            r.1.deep_view() == fetch_read(*input).errors,
    {
        let mut url: Option<String> = None;
        let mut errors = no_errors();
        let mut file_name: Option<String> = None;
        let mut i: usize = 0;
        while i < input.children.len()
            invariant
                i <= input.children.len(),
                fetch_so_far(input.children@.take(i as int)) == (FetchSoFar {
                    url: url.deep_view(),
                    file_name: file_name.deep_view(),
                    errors: errors.deep_view(),
                }),
            decreases input.children.len() - i,
        {
            proof {
                assert(input.children@.take(i + 1).drop_last() =~= input.children@.take(
                    i as int,
                ));
            }
            let node = &input.children[i];
            if str_equal(node.name.as_str(), "url") {
                string_into_option(node, "url of artifact", &mut url, &mut errors);
            } else if str_equal(node.name.as_str(), "name") {
                string_into_option(node, "name of artifact", &mut file_name, &mut errors);
            }
            i += 1;
        }
        proof {
            assert(input.children@.take(i as int) =~= input.children@);
        }
        match url {
            Some(url) => {
                let file_name = match file_name {
                    Some(name) => name,
                    None => file_name_from_url(url.as_str()),
                };
                (Some(FetchArtifact { file_name, url }), errors)
            },
            None => {
                push_error(
                    &mut errors,
                    error_at(
                        input.span,
                        String::from_str("fetch artifact requires an url to be given"),
                    ),
                );
                (None, errors)
            },
        }
    }
}

impl ArtifactSource {
    /// The source that the artifact node `input` names.
    pub fn parse_node_with_errors(input: &Node) -> (r: (
        Option<ArtifactSource>,
        Vec<HobParseError>,
    ))
        ensures
            match r.0 {
                Some(s) => source_read(*input).value == Some(s@),
                None => source_read(*input).value is None,
            },
            r.1.deep_view() == source_read(*input).errors,
    {
        if str_equal(input.name.as_str(), "fetch") {
            let (fetch, errors) = FetchArtifact::parse_node_with_errors(input);
            match fetch {
                Some(f) => (Some(ArtifactSource::Fetch(f)), errors),
                None => (None, errors),
            }
        } else {
            (
                None,
                one_error(
                    error_at(input.name_span, String::from_str("Unknown type of artifact")),
                ),
            )
        }
    }
}

impl Artifact {
    /// The artifact that the node `input` describes.
    pub fn parse_node_with_errors(input: &Node) -> (r: (Option<Artifact>, Vec<HobParseError>))
        ensures
            r.0.deep_view() == artifact_read(*input).value,
            r.1.deep_view() == artifact_read(*input).errors,
    {
        let (verification, errors) = Verification::parse_node_with_errors(input);
        let mut errors = errors;
        let verification = verification.unwrap();
        let (source, more) = ArtifactSource::parse_node_with_errors(input);
        extend_errors(&mut errors, more);
        match source {
            Some(source) => (Some(Artifact { source, verification }), errors),
            None => (None, errors),
        }
    }

    /// The artifacts that the children of the `artifacts` node `input` come to.
    pub fn parse_list_with_errors(input: &Node) -> (r: (
        Option<Vec<Artifact>>,
        Vec<HobParseError>,
    ))
        ensures
            r.0 matches Some(list) && list.deep_view() == artifacts_read(input.children@).0,
            r.1.deep_view() == artifacts_read(input.children@).1,
    {
        let mut data: Vec<Artifact> = Vec::new();
        assert(data.deep_view() =~= Seq::empty());
        let mut errors = no_errors();
        let mut i: usize = 0;
        while i < input.children.len()
            invariant
                i <= input.children.len(),
                (data.deep_view(), errors.deep_view()) == artifacts_read(
                    input.children@.take(i as int),
                ),
            decreases input.children.len() - i,
        {
            proof {
                assert(input.children@.take(i + 1).drop_last() =~= input.children@.take(
                    i as int,
                ));
            }
            let (artifact, more) = Artifact::parse_node_with_errors(&input.children[i]);
            extend_errors(&mut errors, more);
            match artifact {
                Some(artifact) => {
                    let ghost before = data;
                    data.push(artifact);
                    proof {
                        lemma_artifacts_push(before, data, artifact);
                    }
                },
                None => {},
            }
            i += 1;
        }
        proof {
            assert(input.children@.take(i as int) =~= input.children@);
        }
        (Some(data), errors)
    }
}

impl BuildStyleVariables {
    /// What the children of the style node `input` say of its settings.
    pub fn parse_node_with_errors(input: &Node) -> (r: (
        Option<BuildStyleVariables>,
        Vec<HobParseError>,
    ))
        ensures
            r.0 matches Some(v) && v@ == variables_read(input.children@).vars,
            r.1.deep_view() == variables_read(input.children@).errors,
    {
        let mut vars = BuildStyleVariables::default();
        let mut errors = no_errors();
        let mut i: usize = 0;
        while i < input.children.len()
            invariant
                i <= input.children.len(),
                variables_read(input.children@.take(i as int)) == (VariablesSoFar {
                    vars: vars@,
                    errors: errors.deep_view(),
                }),
            decreases input.children.len() - i,
        {
            proof {
                assert(input.children@.take(i + 1).drop_last() =~= input.children@.take(
                    i as int,
                ));
            }
            let node = &input.children[i];
            if str_equal(node.name.as_str(), "configure-script") {
                string_into_option(
                    node,
                    "configure script",
                    &mut vars.configure_script,
                    &mut errors,
                );
            } else if str_equal(node.name.as_str(), "configure-args") {
                list_ext_into_option(node, "configure args", &mut vars.configure_args, &mut errors);
            }
            i += 1;
        }
        proof {
            assert(input.children@.take(i as int) =~= input.children@);
        }
        (Some(vars), errors)
    }
}

impl BuildStyle {
    /// The build style that the `style` node `input` describes.
    pub fn parse_node_with_errors(input: &Node) -> (r: (Option<BuildStyle>, Vec<HobParseError>))
        ensures
            r.0 matches Some(s) && style_read(*input).value == Some(s@),
            r.1.deep_view() == style_read(*input).errors,
    {
        let mut errors = no_errors();
        let mut name: Option<String> = None;
        string_into_option(input, "name of build style", &mut name, &mut errors);
        let named = match name {
            Some(name) => BuildStyleType::parse(name.as_str()),
            None => None,
        };
        let style = match named {
            Some(style) => style,
            None => {
                let place = if input.entries.len() > 0 {
                    input.entries[0].span
                } else {
                    input.name_span
                };
                push_error(
                    &mut errors,
                    error_at(place, String::from_str("unknown build style found")),
                );
                BuildStyleType::Noop
            },
        };
        let (vars, more) = BuildStyleVariables::parse_node_with_errors(input);
        extend_errors(&mut errors, more);
        (Some(BuildStyle { style, vars: vars.unwrap() }), errors)
    }
}

impl RecipeOptions {
    /// The options that the `options` node `input` holds.
    pub fn parse_node_with_errors(input: &Node) -> (r: (
        Option<RecipeOptions>,
        Vec<HobParseError>,
    ))
        ensures
            r.0 matches Some(o) && o.strip == options_read(input.children@).strip,
            r.1.deep_view() == options_read(input.children@).errors,
    {
        let mut errors = no_errors();
        let mut strip: Option<bool> = None;
        let mut i: usize = 0;
        while i < input.children.len()
            invariant
                i <= input.children.len(),
                options_read(input.children@.take(i as int)) == (OptionsSoFar {
                    strip,
                    errors: errors.deep_view(),
                }),
            decreases input.children.len() - i,
        {
            proof {
                assert(input.children@.take(i + 1).drop_last() =~= input.children@.take(
                    i as int,
                ));
            }
            let node = &input.children[i];
            if str_equal(node.name.as_str(), "strip") {
                bool_into_option(node, "strip", &mut strip, &mut errors);
            }
            i += 1;
        }
        proof {
            assert(input.children@.take(i as int) =~= input.children@);
        }
        (Some(RecipeOptions { strip }), errors)
    }
}

impl Side {
    /// The side that the node `input` of `recipe` describes.
    pub fn parse_node_with_errors(input: &Node, recipe: &Recipe) -> (r: (
        Option<Side>,
        Vec<HobParseError>,
    ))
        ensures
            r.0 matches Some(s) && s@ == side_read(
                *input,
                recipe@.description,
                recipe@.depends,
            ).0,
            r.1.deep_view() == side_read(*input, recipe@.description, recipe@.depends).1,
    {
        let mut dropped = no_errors();
        let mut name = String::new();
        let mut description = recipe.description.clone();
        let mut depends = clone_strings(&recipe.depends);
        let mut claims: Vec<String> = Vec::new();
        assert(claims.deep_view() =~= Seq::empty());
        string_into(input, "name of side", &mut name, &mut dropped);
        let mut errors = no_errors();
        let mut i: usize = 0;
        while i < input.children.len()
            invariant
                i <= input.children.len(),
                side_so_far(
                    input.children@.take(i as int),
                    recipe@.description,
                    recipe@.depends,
                ) == (SideSoFar {
                    description: description@,
                    depends: depends.deep_view(),
                    claims: claims.deep_view(),
                    errors: errors.deep_view(),
                }),
            decreases input.children.len() - i,
        {
            proof {
                assert(input.children@.take(i + 1).drop_last() =~= input.children@.take(
                    i as int,
                ));
            }
            let node = &input.children[i];
            if str_equal(node.name.as_str(), "description") {
                string_into(node, "side description", &mut description, &mut errors);
            } else if str_equal(node.name.as_str(), "depends") {
                list_ext_into(node, "side depends", &mut depends, &mut errors);
            } else if str_equal(node.name.as_str(), "claim") {
                list_ext_into(node, "side claims", &mut claims, &mut errors);
            }
            i += 1;
        }
        proof {
            assert(input.children@.take(i as int) =~= input.children@);
        }
        (Some(Side { name, description, depends, claims }), errors)
    }
}

/// A side that says nothing of its description has the description of its
/// recipe, and a side that says nothing of its dependencies has the
/// dependencies of its recipe.
pub proof fn lemma_side_inherits(nodes: Seq<Node>, description: Seq<char>, depends: Seq<Seq<char>>)
    ensures
        (forall|i: int| 0 <= i < nodes.len() ==> (#[trigger] nodes[i]).name@ != "description"@)
            ==> side_so_far(nodes, description, depends).description == description,
        (forall|i: int| 0 <= i < nodes.len() ==> (#[trigger] nodes[i]).name@ != "depends"@)
            ==> side_so_far(nodes, description, depends).depends == depends,
    decreases nodes.len(),
{
    if nodes.len() > 0 {
        let rest = nodes.drop_last();
        lemma_side_inherits(rest, description, depends);
        if forall|i: int| 0 <= i < nodes.len() ==> (#[trigger] nodes[i]).name@ != "description"@ {
            assert forall|i: int| 0 <= i < rest.len() implies (#[trigger] rest[i]).name@
                != "description"@ by {
                assert(rest[i] == nodes[i]);
            }
            assert(nodes[nodes.len() - 1].name@ != "description"@);
        }
        if forall|i: int| 0 <= i < nodes.len() ==> (#[trigger] nodes[i]).name@ != "depends"@ {
            assert forall|i: int| 0 <= i < rest.len() implies (#[trigger] rest[i]).name@
                != "depends"@ by {
                assert(rest[i] == nodes[i]);
            }
            assert(nodes[nodes.len() - 1].name@ != "depends"@);
            reveal_strlit("depends");
            reveal_strlit("description");
        }
    }
}

/// A side whose only `depends` child comes last and holds `values` without a
/// mistake has the dependencies of its recipe and `values` after them; where
/// the child says `extends=false`, it has `values` alone.
pub proof fn lemma_side_depends(
    nodes: Seq<Node>,
    last: Node,
    description: Seq<char>,
    depends: Seq<Seq<char>>,
    values: Seq<Seq<char>>,
    extends: bool,
)
    requires
        forall|i: int| 0 <= i < nodes.len() ==> (#[trigger] nodes[i]).name@ != "depends"@,
        last.name@ == "depends"@,
        string_values_with_extend(last.entries@, "side depends"@) == Ok::<
            (Seq<Seq<char>>, bool),
            HobParseErrorView,
        >((values, extends)),
    ensures
        side_so_far(nodes.push(last), description, depends).depends == if extends {
            depends + values
        } else {
            values
        },
{
    lemma_side_inherits(nodes, description, depends);
    let all = nodes.push(last);
    assert(all.drop_last() =~= nodes);
    assert(all.last() == last);
    reveal_strlit("depends");
    reveal_strlit("description");
    assert("depends"@.len() != "description"@.len());
    assert(side_so_far(all, description, depends) == side_after(
        side_so_far(nodes, description, depends),
        last,
    ));
}

} // verus!
