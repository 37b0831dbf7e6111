//! Reading recipes from a document: a tree of nodes, each with a name, entries
//! and child nodes.
//!
//! Reading never stops at a mistake: it records the mistake and goes on with
//! what it has.

use crate::text::{concat, concat3, push_string, str_equal};
use vstd::prelude::*;

verus! {

/// A stretch of the document's text: where it begins and how long it is.
#[derive(Debug, Clone, Copy, PartialEq, Eq, Structural)]
pub struct Span {
    pub offset: usize,
    pub len: usize,
}

/// The value of an entry, as far as recipes look at it.
#[derive(Debug, Clone, PartialEq, Eq)]
pub enum Value {
    String(String),
    Bool(bool),
    /// A number, or no value.
    Other,
}

/// An entry of a node: a value, with a name where it is a property.
#[derive(Debug, Clone, PartialEq, Eq)]
pub struct Entry {
    pub name: Option<String>,
    pub value: Value,
    pub span: Span,
}

/// A node of the document.
#[derive(Debug, PartialEq, Eq)]
pub struct Node {
    pub name: String,
    pub name_span: Span,
    pub span: Span,
    pub entries: Vec<Entry>,
    pub children: Vec<Node>,
}

/// A mistake in a recipe document.
#[derive(Debug, PartialEq, Eq)]
pub struct HobParseError {
    /// Where the mistake is.
    pub span: Span,
    /// What to write at that place; `here` where nothing is given.
    pub label: Option<&'static str>,
    /// How to mend it.
    pub help: Option<String>,
    /// What the mistake is.
    pub kind: String,
}

pub struct HobParseErrorView {
    pub span: Span,
    pub label: Option<Seq<char>>,
    pub help: Option<Seq<char>>,
    pub kind: Seq<char>,
}

impl View for HobParseError {
    type V = HobParseErrorView;

    open spec fn view(&self) -> HobParseErrorView {
        HobParseErrorView {
            span: self.span,
            label: self.label.deep_view(),
            help: self.help.deep_view(),
            kind: self.kind@,
        }
    }
}

impl DeepView for HobParseError {
    type V = HobParseErrorView;

    open spec fn deep_view(&self) -> HobParseErrorView {
        self@
    }
}

/// A mistake at `span` with nothing but its kind.
pub open spec fn plain_error(span: Span, kind: Seq<char>) -> HobParseErrorView {
    HobParseErrorView { span, label: None, help: None, kind }
}

/// The stretch from the beginning of `first` to the end of `last`.
pub open spec fn covering(first: Span, last: Span) -> Span {
    let end = if last.len + last.offset > usize::MAX {
        usize::MAX as int
    } else {
        last.len + last.offset
    };
    Span {
        offset: first.offset,
        len: if end >= first.offset {
            (end - first.offset) as usize
        } else {
            0
        },
    }
}

/// What a node that must hold exactly one value of the type called `ty` holds:
/// the place of the value among its entries, or the mistake. `what` says in
/// the mistake what the value is. `fits` tells the entries of the right type.
pub open spec fn single_value(
    node: Node,
    what: Seq<char>,
    ty: Seq<char>,
    fits: spec_fn(Value) -> bool,
) -> Result<int, HobParseErrorView> {
    let entries = node.entries@;
    if entries.len() == 0 {
        Err(plain_error(node.name_span, what + " missing"@))
    } else if entries.len() == 1 {
        if entries[0].name is Some {
            Err(
                plain_error(
                    entries[0].span,
                    what + " expected a value, property found instead"@,
                ),
            )
        } else if fits(entries[0].value) {
            Ok(0)
        } else {
            Err(plain_error(entries[0].span, what + " should be a "@ + ty))
        }
    } else {
        Err(
            plain_error(
                covering(entries[0].span, entries.last().span),
                "only 1 "@ + ty + " expected for "@ + what,
            ),
        )
    }
}

/// The one string that `node` holds, or the mistake.
pub open spec fn single_string(node: Node, what: Seq<char>) -> Result<Seq<char>, HobParseErrorView> {
    match single_value(node, what, "string"@, |v: Value| v is String) {
        Ok(k) => Ok(node.entries@[k].value->String_0@),
        Err(e) => Err(e),
    }
}

/// The one truth value that `node` holds, or the mistake.
pub open spec fn single_bool(node: Node, what: Seq<char>) -> Result<bool, HobParseErrorView> {
    match single_value(node, what, "bool"@, |v: Value| v is Bool) {
        Ok(k) => Ok(node.entries@[k].value->Bool_0),
        Err(e) => Err(e),
    }
}

/// The strings that `entries` hold, in order, or the first mistake: a
/// property, or a value that is no string.
pub open spec fn string_values(entries: Seq<Entry>, what: Seq<char>) -> Result<
    Seq<Seq<char>>,
    HobParseErrorView,
>
    decreases entries.len(),
{
    if entries.len() == 0 {
        Ok(Seq::empty())
    } else {
        match string_values(entries.drop_last(), what) {
            Err(e) => Err(e),
            Ok(values) => value_after(values, entries.last(), what),
        }
    }
}

/// The strings `values` with the value of `entry` after them, or the mistake
/// that `entry` is.
pub open spec fn value_after(values: Seq<Seq<char>>, entry: Entry, what: Seq<char>) -> Result<
    Seq<Seq<char>>,
    HobParseErrorView,
> {
    if entry.name is Some {
        Err(plain_error(entry.span, what + " expected values, property found instead"@))
    } else if entry.value is String {
        Ok(values.push(entry.value->String_0@))
    } else {
        Err(plain_error(entry.span, what + " expects only string values"@))
    }
}

/// How far a list that may begin with `extends=` properties has been read.
pub struct ListSoFar {
    pub values: Seq<Seq<char>>,
    /// Whether no value has been read yet.
    pub first: bool,
    pub extends: bool,
}

/// `sofar` after `entry`: before the first value, a property `extends` sets
/// whether the list extends what was there and must be a truth value; any
/// other entry must be a string and is a value of the list.
pub open spec fn list_after(sofar: ListSoFar, entry: Entry, what: Seq<char>) -> Result<
    ListSoFar,
    HobParseErrorView,
> {
    if sofar.first && entry.name.deep_view() == Some("extends"@) {
        if entry.value is Bool {
            Ok(ListSoFar { extends: entry.value->Bool_0, ..sofar })
        } else {
            Err(plain_error(entry.span, "extends expects a bool"@))
        }
    } else {
        match value_after(sofar.values, entry, what) {
            Ok(values) => Ok(ListSoFar { values, first: false, extends: sofar.extends }),
            Err(e) => Err(e),
        }
    }
}

/// What `entries` come to as a list that may begin with `extends=`, or the
/// first mistake. A list extends unless it says otherwise.
pub open spec fn list_so_far(entries: Seq<Entry>, what: Seq<char>) -> Result<
    ListSoFar,
    HobParseErrorView,
>
    decreases entries.len(),
{
    if entries.len() == 0 {
        Ok(ListSoFar { values: Seq::empty(), first: true, extends: true })
    } else {
        match list_so_far(entries.drop_last(), what) {
            Err(e) => Err(e),
            Ok(sofar) => list_after(sofar, entries.last(), what),
        }
    }
}

/// The strings of `entries` and whether they extend what was there, or the
/// first mistake.
pub open spec fn string_values_with_extend(entries: Seq<Entry>, what: Seq<char>) -> Result<
    (Seq<Seq<char>>, bool),
    HobParseErrorView,
> {
    match list_so_far(entries, what) {
        Ok(sofar) => Ok((sofar.values, sofar.extends)),
        Err(e) => Err(e),
    }
}

/// A list after it was given `values`: extended by them, or replaced by them.
pub open spec fn list_given(list: Seq<Seq<char>>, values: Seq<Seq<char>>, extends: bool) -> Seq<
    Seq<char>,
> {
    if extends {
        list + values
    } else {
        values
    }
}

/// Once an entry of a list is a mistake, the entries after it change nothing.
pub proof fn lemma_string_values_stay_failed(entries: Seq<Entry>, what: Seq<char>, k: int)
    requires
        0 <= k <= entries.len(),
        string_values(entries.take(k), what) is Err,
    ensures
        string_values(entries, what) == string_values(entries.take(k), what),
    decreases entries.len() - k,
{
    if k < entries.len() {
        assert(entries.take(k + 1).drop_last() =~= entries.take(k));
        lemma_string_values_stay_failed(entries, what, k + 1);
    } else {
        assert(entries.take(k) =~= entries);
    }
}

/// Once an entry of a list that may say `extends=` is a mistake, the entries
/// after it change nothing.
pub proof fn lemma_list_stays_failed(entries: Seq<Entry>, what: Seq<char>, k: int)
    requires
        0 <= k <= entries.len(),
        list_so_far(entries.take(k), what) is Err,
    ensures
        list_so_far(entries, what) == list_so_far(entries.take(k), what),
    decreases entries.len() - k,
{
    if k < entries.len() {
        assert(entries.take(k + 1).drop_last() =~= entries.take(k));
        lemma_list_stays_failed(entries, what, k + 1);
    } else {
        assert(entries.take(k) =~= entries);
    }
}

/// A mistake at `span` with nothing but its kind.
pub fn error_at(span: Span, kind: String) -> (r: HobParseError)
    ensures
        r@ == plain_error(span, kind@),
{
    HobParseError { span, label: None, help: None, kind }
}

/// The stretch from the beginning of `first` to the end of `last`.
pub fn span_over(first: Span, last: Span) -> (r: Span)
    ensures
        r == covering(first, last),
{
    let end = last.len.saturating_add(last.offset);
    Span { offset: first.offset, len: end.saturating_sub(first.offset) }
}

/// The mistake of a node that does not hold exactly one value of the type
/// called `ty`.
fn single_value_error(node: &Node, what: &str, ty: &str) -> (r: HobParseError)
    ensures
        forall|fits: spec_fn(Value) -> bool|
            (node.entries@.len() == 1 && node.entries@[0].name is None ==> !fits(
                node.entries@[0].value,
            )) ==> #[trigger] single_value(*node, what@, ty@, fits) == Err::<
                int,
                HobParseErrorView,
            >(r@),
{
    let n = node.entries.len();
    if n == 0 {
        error_at(node.name_span, concat(what, " missing"))
    } else if n == 1 {
        let entry = &node.entries[0];
        if entry.name.is_some() {
            error_at(entry.span, concat(what, " expected a value, property found instead"))
        } else {
            error_at(entry.span, concat3(what, " should be a ", ty))
        }
    } else {
        let mut kind = concat3("only 1 ", ty, " expected for ");
        kind.append(what);
        error_at(span_over(node.entries[0].span, node.entries[n - 1].span), kind)
    }
}

/// The one string that `input` holds. `what` says in a mistake what the
/// string is.
pub fn extract_single_string_value(input: &Node, what: &str) -> (r: Result<String, HobParseError>)
    ensures
        r matches Ok(v) ==> single_string(*input, what@) == Ok::<Seq<char>, HobParseErrorView>(
            v@,
        ),
        r matches Err(e) ==> single_string(*input, what@) == Err::<Seq<char>, HobParseErrorView>(
            e@,
        ),
{
    if input.entries.len() == 1 && input.entries[0].name.is_none() {
        match &input.entries[0].value {
            Value::String(v) => {
                return Ok(v.clone());
            },
            _ => {},
        }
    }
    let e = single_value_error(input, what, "string");
    assert(single_value(*input, what@, "string"@, |v: Value| v is String) == Err::<
        int,
        HobParseErrorView,
    >(e@));
    Err(e)
}

/// The one truth value that `input` holds. `what` says in a mistake what the
/// value is.
pub fn extract_single_bool_value(input: &Node, what: &str) -> (r: Result<bool, HobParseError>)
    ensures
        r matches Ok(v) ==> single_bool(*input, what@) == Ok::<bool, HobParseErrorView>(v),
        r matches Err(e) ==> single_bool(*input, what@) == Err::<bool, HobParseErrorView>(e@),
{
    if input.entries.len() == 1 && input.entries[0].name.is_none() {
        match &input.entries[0].value {
            Value::Bool(v) => {
                return Ok(*v);
            },
            _ => {},
        }
    }
    let e = single_value_error(input, what, "bool");
    assert(single_value(*input, what@, "bool"@, |v: Value| v is Bool) == Err::<
        int,
        HobParseErrorView,
    >(e@));
    Err(e)
}

/// Puts the value of `entry` after `values`.
fn push_value(values: &mut Vec<String>, entry: &Entry, what: &str) -> (r: Result<
    (),
    HobParseError,
>)
    ensures
        r is Ok ==> value_after(old(values).deep_view(), *entry, what@) == Ok::<
            Seq<Seq<char>>,
            HobParseErrorView,
        >(final(values).deep_view()),
        r matches Err(e) ==> value_after(old(values).deep_view(), *entry, what@) == Err::<
            Seq<Seq<char>>,
            HobParseErrorView,
        >(e@),
{
    if entry.name.is_some() {
        return Err(
            error_at(entry.span, concat(what, " expected values, property found instead")),
        );
    }
    match &entry.value {
        Value::String(v) => {
            push_string(values, v.clone());
            Ok(())
        },
        _ => Err(error_at(entry.span, concat(what, " expects only string values"))),
    }
}

/// The strings that `input` holds, in order. `what` says in a mistake what
/// the strings are.
pub fn extract_string_values(input: &Node, what: &str) -> (r: Result<Vec<String>, HobParseError>)
    ensures
        r matches Ok(v) ==> string_values(input.entries@, what@) == Ok::<
            Seq<Seq<char>>,
            HobParseErrorView,
        >(v.deep_view()),
        r matches Err(e) ==> string_values(input.entries@, what@) == Err::<
            Seq<Seq<char>>,
            HobParseErrorView,
        >(e@),
{
    let mut values: Vec<String> = Vec::new();
    assert(values.deep_view() =~= Seq::empty());
    let mut i: usize = 0;
    while i < input.entries.len()
        invariant
            i <= input.entries.len(),
            string_values(input.entries@.take(i as int), what@) == Ok::<
                Seq<Seq<char>>,
                HobParseErrorView,
            >(values.deep_view()),
        decreases input.entries.len() - i,
    {
        proof {
            assert(input.entries@.take(i + 1).drop_last() =~= input.entries@.take(i as int));
        }
        match push_value(&mut values, &input.entries[i], what) {
            Ok(()) => {},
            Err(e) => {
                proof {
                    lemma_string_values_stay_failed(input.entries@, what@, i + 1);
                }
                return Err(e);
            },
        }
        i += 1;
    }
    proof {
        assert(input.entries@.take(i as int) =~= input.entries@);
    }
    Ok(values)
}

/// The strings that `input` holds after its `extends=` properties, and
/// whether they extend what was there. `what` says in a mistake what the
/// strings are.
pub fn extract_string_values_with_extend(input: &Node, what: &str) -> (r: Result<
    (Vec<String>, bool),
    HobParseError,
>)
    ensures
        r matches Ok(v) ==> string_values_with_extend(input.entries@, what@) == Ok::<
            (Seq<Seq<char>>, bool),
            HobParseErrorView,
        >((v.0.deep_view(), v.1)),
        r matches Err(e) ==> string_values_with_extend(input.entries@, what@) == Err::<
            (Seq<Seq<char>>, bool),
            HobParseErrorView,
        >(e@),
{
    let mut values: Vec<String> = Vec::new();
    assert(values.deep_view() =~= Seq::empty());
    let mut first = true;
    let mut extends = true;
    let mut i: usize = 0;
    while i < input.entries.len()
        invariant
            i <= input.entries.len(),
            list_so_far(input.entries@.take(i as int), what@) == Ok::<
                ListSoFar,
                HobParseErrorView,
            >(ListSoFar { values: values.deep_view(), first, extends }),
        decreases input.entries.len() - i,
    {
        proof {
            assert(input.entries@.take(i + 1).drop_last() =~= input.entries@.take(i as int));
        }
        let entry = &input.entries[i];
        let names_extends = match &entry.name {
            Some(name) => str_equal(name.as_str(), "extends"),
            None => false,
        };
        if first && names_extends {
            match &entry.value {
                Value::Bool(v) => {
                    extends = *v;
                },
                _ => {
                    let e = error_at(entry.span, String::from_str("extends expects a bool"));
                    proof {
                        lemma_list_stays_failed(input.entries@, what@, i + 1);
                    }
                    return Err(e);
                },
            }
        } else {
            match push_value(&mut values, entry, what) {
                Ok(()) => {
                    first = false;
                },
                Err(e) => {
                    proof {
                        lemma_list_stays_failed(input.entries@, what@, i + 1);
                    }
                    return Err(e);
                },
            }
        }
        i += 1;
    }
    proof {
        assert(input.entries@.take(i as int) =~= input.entries@);
    }
    Ok((values, extends))
}

/// A list that can be given more values, or other values.
pub trait ListExtHelper<T> {
    /// Puts `value` after what the list holds.
    fn add(&mut self, value: Vec<T>);

    /// Puts `value` in the place of what the list holds.
    fn set(&mut self, value: Vec<T>);
}

impl<T> ListExtHelper<T> for Vec<T> {
    fn add(&mut self, value: Vec<T>)
        ensures
            final(self)@ == old(self)@ + value@,
    {
        let mut value = value;
        self.append(&mut value);
    }

    fn set(&mut self, value: Vec<T>)
        ensures
            final(self)@ == value@,
    {
        *self = value;
    }
}

impl<T> ListExtHelper<T> for Option<Vec<T>> {
    fn add(&mut self, value: Vec<T>)
        ensures
            match *old(self) {
                Some(list) => *final(self) matches Some(all) && all@ == list@ + value@,
                None => *final(self) == Some(value),
            },
    {
        let mut value = value;
        match self {
            Some(data) => {
                data.append(&mut value);
            },
            None => {
                *self = Some(value);
            },
        }
    }

    fn set(&mut self, value: Vec<T>)
        ensures
            *final(self) == Some(value),
    {
        *self = Some(value);
    }
}

/// Gives `list` the strings `values`: after what it holds, or in its place.
pub fn give_strings(list: &mut Vec<String>, values: Vec<String>, extends: bool)
    ensures
        final(list).deep_view() == list_given(old(list).deep_view(), values.deep_view(), extends),
{
    if extends {
        let ghost before = *list;
        ListExtHelper::add(list, values);
        assert(list.deep_view() =~= before.deep_view() + values.deep_view());
    } else {
        ListExtHelper::set(list, values);
        assert(list.deep_view() =~= values.deep_view());
    }
}

/// What reading a node comes to: what was read, if anything could be, and the
/// mistakes that were found on the way.
pub struct Reading<T> {
    pub value: Option<T>,
    pub errors: Seq<HobParseErrorView>,
}

/// Seen from outside, a list that was given a mistake is the list it was with
/// the mistake after it.
pub proof fn lemma_errors_push(
    before: Vec<HobParseError>,
    after: Vec<HobParseError>,
    error: HobParseError,
)
    requires
        after@ == before@.push(error),
    ensures
        after.deep_view() == before.deep_view().push(error@),
{
    assert(after.deep_view() =~= before.deep_view().push(error@));
}

/// Records `error`.
pub fn push_error(errors: &mut Vec<HobParseError>, error: HobParseError)
    ensures
        final(errors).deep_view() == old(errors).deep_view().push(error@),
{
    let ghost before = *errors;
    errors.push(error);
    proof {
        lemma_errors_push(before, *errors, error);
    }
}

/// Records the mistakes of `more` after those of `errors`.
pub fn extend_errors(errors: &mut Vec<HobParseError>, more: Vec<HobParseError>)
    ensures
        final(errors).deep_view() == old(errors).deep_view() + more.deep_view(),
{
    let mut more = more;
    let ghost first = *errors;
    let ghost second = more;
    errors.append(&mut more);
    assert(errors.deep_view() =~= first.deep_view() + second.deep_view());
}

/// No mistakes.
pub fn no_errors() -> (r: Vec<HobParseError>)
    ensures
        r.deep_view() == Seq::<HobParseErrorView>::empty(),
{
    let r: Vec<HobParseError> = Vec::new();
    assert(r.deep_view() =~= Seq::empty());
    r
}

/// The one mistake `error`.
pub fn one_error(error: HobParseError) -> (r: Vec<HobParseError>)
    ensures
        r.deep_view() == seq![error@],
{
    let mut r = no_errors();
    push_error(&mut r, error);
    assert(r.deep_view() =~= seq![error@]);
    r
}

} // verus!
