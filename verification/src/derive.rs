//! The structural contract of a reducer result event.
//!
//! A result event is declared as a struct with named fields: one field called
//! `event` for the call's metadata, and one field per parameter of the
//! reducer, in the reducer's order. From such a declaration this module works
//! out which completion callback the struct binds to and which arguments the
//! callback copies into the struct.

use heck::ToSnakeCase;
use vstd::prelude::*;
use vstd::string::StringExecFns;

verus! {

/// What kind of item a declaration is.
#[derive(Clone, Copy, Debug, PartialEq, Eq, Structural)]
pub enum ItemShape {
    /// A struct with named fields.
    NamedStruct,
    /// A struct with positional fields.
    TupleStruct,
    /// A struct without fields.
    UnitStruct,
    /// An enum.
    Enum,
    /// A union.
    Union,
}

/// Why a declaration cannot be a reducer result event.
#[derive(Clone, Copy, Debug, PartialEq, Eq, Structural)]
pub enum DeriveError {
    /// The item is an enum or a union.
    NotAStruct,
    /// The struct has positional fields, or none.
    UnnamedFields,
    /// More than one field is called `event`.
    DuplicateEventField,
    /// No field is called `event`.
    MissingEventField,
    /// The fields other than `event` are not the reducer's parameters, name
    /// for name and in the reducer's order.
    ParameterMismatch,
}

/// What a declaration binds to.
#[derive(Clone, Debug)]
pub struct ReducerBinding {
    /// The name of the declared struct.
    pub struct_name: String,
    /// The name of the completion callback the struct listens on.
    pub callback: String,
    /// The reducer's parameters, in the order of the declaration.
    pub params: Vec<String>,
}

/// A binding as plain sequences of characters.
pub struct BindingView {
    pub struct_name: Seq<char>,
    pub callback: Seq<char>,
    pub params: Seq<Seq<char>>,
}

impl View for ReducerBinding {
    type V = BindingView;

    open spec fn view(&self) -> BindingView {
        BindingView {
            struct_name: self.struct_name@,
            callback: self.callback@,
            params: field_names(self.params@),
        }
    }
}

/// The snake case form that `heck` gives to `name`.
pub uninterp spec fn snake_case(name: Seq<char>) -> Seq<char>;

/// Calls `heck::ToSnakeCase::to_snake_case` on `name`.
///
/// The conversion reads nothing but its argument, so its result is named
/// rather than described: the contract claims only that the string that comes
/// back is `snake_case` of the argument.
#[verifier::external_body]
fn to_snake_case(name: &str) -> (snake: String)
    ensures
        snake@ == snake_case(name@),
{
    name.to_snake_case()
}

/// The name of the metadata field.
pub open spec fn event_field() -> Seq<char> {
    "event"@
}

/// The prefix of every completion callback's name.
pub open spec fn callback_prefix() -> Seq<char> {
    "on_"@
}

/// The names held by a sequence of strings.
pub open spec fn field_names(fields: Seq<String>) -> Seq<Seq<char>> {
    fields.map_values(|field: String| field@)
}

/// Whether a field stands for a parameter of the reducer.
pub open spec fn is_param() -> spec_fn(Seq<char>) -> bool {
    |name: Seq<char>| name != event_field()
}

/// Whether a field holds the call's metadata.
pub open spec fn is_event() -> spec_fn(Seq<char>) -> bool {
    |name: Seq<char>| name == event_field()
}

/// The fields that stand for parameters, in the order of the declaration.
pub open spec fn param_names(fields: Seq<Seq<char>>) -> Seq<Seq<char>> {
    fields.filter(is_param())
}

/// How many fields are called `event`.
pub open spec fn event_field_count(fields: Seq<Seq<char>>) -> nat {
    fields.filter(is_event()).len()
}

/// The name of the callback for a struct whose snake case name is `snake`.
pub open spec fn callback_of(snake: Seq<char>) -> Seq<char> {
    callback_prefix() + snake
}

/// What a declaration binds to, or why it binds to nothing.
///
/// `snake` is the snake case form of `struct_name`. The item's kind is judged
/// first; a second `event` field is reported before a missing one could be.
pub open spec fn derive_outcome(
    struct_name: Seq<char>,
    snake: Seq<char>,
    shape: ItemShape,
    fields: Seq<Seq<char>>,
) -> Result<BindingView, DeriveError> {
    match shape {
        ItemShape::Enum | ItemShape::Union => Err(DeriveError::NotAStruct),
        ItemShape::TupleStruct | ItemShape::UnitStruct => Err(DeriveError::UnnamedFields),
        ItemShape::NamedStruct => if event_field_count(fields) >= 2 {
            Err(DeriveError::DuplicateEventField)
        } else if event_field_count(fields) == 0 {
            Err(DeriveError::MissingEventField)
        } else {
            Ok(
                BindingView {
                    struct_name,
                    callback: callback_of(snake),
                    params: param_names(fields),
                },
            )
        },
    }
}

/// Whether `outcome` is `expected`, the binding taken by its view.
pub open spec fn outcome_is(
    outcome: Result<ReducerBinding, DeriveError>,
    expected: Result<BindingView, DeriveError>,
) -> bool {
    match outcome {
        Ok(binding) => expected == Ok::<BindingView, DeriveError>(binding@),
        Err(error) => expected == Err::<BindingView, DeriveError>(error),
    }
}

/// Appending a field changes the two filtered sequences by that field alone.
proof fn lemma_filters_step(fields: Seq<Seq<char>>, i: int)
    requires
        0 <= i < fields.len(),
    ensures
        param_names(fields.take(i + 1)) == if fields[i] != event_field() {
            param_names(fields.take(i)).push(fields[i])
        } else {
            param_names(fields.take(i))
        },
        event_field_count(fields.take(i + 1)) == if fields[i] == event_field() {
            event_field_count(fields.take(i)) + 1
        } else {
            event_field_count(fields.take(i))
        },
{
    reveal(Seq::filter);
    let longer = fields.take(i + 1);
    assert(longer.drop_last() =~= fields.take(i));
    assert(longer.last() == fields[i]);
}

/// The name of the completion callback for a struct whose snake case name
/// is `snake`: the prefix `on_`, then `snake`.
pub fn callback_name(snake: &str) -> (callback: String)
    ensures
        callback@ == callback_of(snake@),
{
    String::from_str("on_").concat(snake)
}

/// Works out the binding of a declaration whose snake case name is known.
///
/// `fields` holds the names of the struct's fields in the order of the
/// declaration; it is not read unless `shape` is a struct with named fields.
pub fn binding_from_parts(
    struct_name: &str,
    snake: &str,
    shape: ItemShape,
    fields: &Vec<String>,
) -> (outcome: Result<ReducerBinding, DeriveError>)
    ensures
        outcome_is(outcome, derive_outcome(struct_name@, snake@, shape, field_names(fields@))),
{
    match shape {
        ItemShape::Enum | ItemShape::Union => {
            return Err(DeriveError::NotAStruct);
        },
        ItemShape::TupleStruct | ItemShape::UnitStruct => {
            return Err(DeriveError::UnnamedFields);
        },
        ItemShape::NamedStruct => {},
    }
    let ghost names = field_names(fields@);
    let event = String::from_str("event");
    let mut seen = false;
    let mut params: Vec<String> = Vec::new();
    let mut i: usize = 0;
    proof {
        reveal(Seq::filter);
        assert(names.take(0) =~= Seq::<Seq<char>>::empty());
        assert(field_names(params@) =~= param_names(names.take(0)));
    }
    while i < fields.len()
        invariant
            i <= fields.len(),
            shape == ItemShape::NamedStruct,
            names == field_names(fields@),
            names.len() == fields.len(),
            event@ == event_field(),
            field_names(params@) == param_names(names.take(i as int)),
            event_field_count(names.take(i as int)) == if seen {
                1nat
            } else {
                0nat
            },
        decreases fields.len() - i,
    {
        proof {
            lemma_filters_step(names, i as int);
            assert(names[i as int] == fields@[i as int]@);
        }
        if fields[i] == event {
            if seen {
                proof {
                    lemma_count_grows(names, i as int + 1);
                }
                return Err(DeriveError::DuplicateEventField);
            }
            seen = true;
        } else {
            let ghost before = params@;
            params.push(fields[i].clone());
            assert(field_names(params@) =~= field_names(before).push(names[i as int]));
        }
        i += 1;
    }
    assert(names.take(i as int) =~= names);
    if !seen {
        return Err(DeriveError::MissingEventField);
    }
    Ok(
        ReducerBinding {
            struct_name: String::from_str(struct_name),
            callback: callback_name(snake),
            params,
        },
    )
}

/// A prefix of the fields holds no more `event` fields than all of them.
proof fn lemma_count_grows(fields: Seq<Seq<char>>, n: int)
    requires
        0 <= n <= fields.len(),
    ensures
        event_field_count(fields.take(n)) <= event_field_count(fields),
    decreases fields.len() - n,
{
    if n < fields.len() {
        lemma_filters_step(fields, n);
        lemma_count_grows(fields, n + 1);
    } else {
        assert(fields.take(n) =~= fields);
    }
}

/// Works out what the declaration of a reducer result event binds to.
///
/// The struct listens on the callback named `on_` followed by the snake case
/// form of its own name, and takes the reducer's arguments into its fields
/// other than `event`, in the order of the declaration. A declaration that is
/// no struct with named fields, or that has no `event` field or several, is
/// refused.
pub fn register_reducer_event_derive(
    struct_name: &str,
    shape: ItemShape,
    fields: &Vec<String>,
) -> (outcome: Result<ReducerBinding, DeriveError>)
    ensures
        outcome_is(
            outcome,
            derive_outcome(
                struct_name@,
                snake_case(struct_name@),
                shape,
                field_names(fields@),
            ),
        ),
{
    let snake = to_snake_case(struct_name);
    binding_from_parts(struct_name, snake.as_str(), shape, fields)
}

/// What a declaration binds to when it is held against the names of the
/// reducer's parameters: the binding of the declaration alone, if its
/// parameters are the reducer's, name for name and in the same order, and a
/// refusal otherwise. What is wrong with the declaration alone is reported
/// first.
pub open spec fn reducer_outcome(
    struct_name: Seq<char>,
    snake: Seq<char>,
    shape: ItemShape,
    fields: Seq<Seq<char>>,
    reducer_params: Seq<Seq<char>>,
) -> Result<BindingView, DeriveError> {
    match derive_outcome(struct_name, snake, shape, fields) {
        Ok(binding) => if binding.params == reducer_params {
            Ok(binding)
        } else {
            Err(DeriveError::ParameterMismatch)
        },
        Err(error) => Err(error),
    }
}

/// Whether two lists hold the same names in the same order.
pub fn same_names(left: &Vec<String>, right: &Vec<String>) -> (same: bool)
    ensures
        same == (field_names(left@) == field_names(right@)),
{
    if left.len() != right.len() {
        return false;
    }
    let mut at: usize = 0;
    while at < left.len()
        invariant
            at <= left.len(),
            left.len() == right.len(),
            forall|before: int|
                0 <= before < at ==> field_names(left@)[before] == field_names(right@)[before],
        decreases left.len() - at,
    {
        if left[at] != right[at] {
            assert(field_names(left@)[at as int] != field_names(right@)[at as int]);
            return false;
        }
        at += 1;
    }
    assert(field_names(left@) =~= field_names(right@));
    true
}

/// Holds a binding against the names of the reducer's parameters: gives the
/// binding back if its parameters are the reducer's, name for name and in
/// the same order, and refuses it otherwise.
pub fn check_parameters(binding: ReducerBinding, reducer_params: &Vec<String>) -> (outcome: Result<
    ReducerBinding,
    DeriveError,
>)
    ensures
        match outcome {
            Ok(checked) => checked == binding && binding@.params == field_names(reducer_params@),
            Err(error) => error == DeriveError::ParameterMismatch && binding@.params
                != field_names(reducer_params@),
        },
{
    if same_names(&binding.params, reducer_params) {
        Ok(binding)
    } else {
        Err(DeriveError::ParameterMismatch)
    }
}

/// Works out what the declaration of a result event binds to, for a reducer
/// whose parameter names are known: as `register_reducer_event_derive`, and
/// a declaration whose fields other than `event` are not the reducer's
/// parameters is refused as well.
pub fn register_reducer_event_for(
    struct_name: &str,
    shape: ItemShape,
    fields: &Vec<String>,
    reducer_params: &Vec<String>,
) -> (outcome: Result<ReducerBinding, DeriveError>)
    ensures
        outcome_is(
            outcome,
            reducer_outcome(
                struct_name@,
                snake_case(struct_name@),
                shape,
                field_names(fields@),
                field_names(reducer_params@),
            ),
        ),
{
    match register_reducer_event_derive(struct_name, shape, fields) {
        Ok(binding) => check_parameters(binding, reducer_params),
        Err(error) => Err(error),
    }
}

impl DeriveError {
    /// The words that describe the refusal.
    pub fn message(&self) -> (text: String)
        ensures
            text@ == match *self {
                DeriveError::NotAStruct => "Only structs are supported"@,
                DeriveError::UnnamedFields => "Struct must have named fields"@,
                DeriveError::DuplicateEventField => "Duplicate 'event' field"@,
                DeriveError::MissingEventField => "Struct must have an 'event' field"@,
                DeriveError::ParameterMismatch => "Fields must match the reducer's parameters"@,
            },
    {
        match self {
            DeriveError::NotAStruct => String::from_str("Only structs are supported"),
            DeriveError::UnnamedFields => String::from_str("Struct must have named fields"),
            DeriveError::DuplicateEventField => String::from_str("Duplicate 'event' field"),
            DeriveError::MissingEventField => String::from_str(
                "Struct must have an 'event' field",
            ),
            DeriveError::ParameterMismatch => String::from_str(
                "Fields must match the reducer's parameters",
            ),
        }
    }
}

} // verus!
