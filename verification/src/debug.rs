//! Planning an implementation of debug printing for a structure: the format of each
//! field, and the bounds that the implementation puts on the type parameters.

use vstd::prelude::*;
use vstd::string::StringExecFns;

verus! {

/// A named field of the structure, as far as the plan reads it.
#[derive(Debug, PartialEq, Eq)]
pub struct DebugField {
    pub name: String,
    /// The format asked for by `debug = "..."` on the field.
    pub format: Option<String>,
    /// The name of the last segment of the field's type, where the type is a path.
    pub named_type: Option<String>,
    /// Where that segment has arguments in angle brackets of which the first is a
    /// path: the name of the first segment of that path.
    pub argument: Option<String>,
}

/// The declaration that debug printing is derived for.
#[derive(Debug, PartialEq, Eq)]
pub struct Declaration {
    pub name: String,
    /// The named fields in the order of their declaration; `None` where the
    /// declaration is not a structure with named fields.
    pub fields: Option<Vec<DebugField>>,
    /// The names of the type parameters, in the order of their declaration.
    pub type_parameters: Vec<String>,
    /// The predicate given by `debug(bound = "...")` on the declaration: it replaces
    /// every bound that would be inferred.
    pub bound: Option<String>,
    /// Every type path that occurs in the declaration, as the names of its segments.
    pub type_paths: Vec<Vec<String>>,
}

/// How a field is printed.
#[derive(Debug, PartialEq, Eq)]
pub struct FieldFormat {
    pub name: String,
    pub format: String,
}

/// The bounds of the implementation.
#[derive(Debug, PartialEq, Eq)]
pub enum Bounds {
    /// The predicate that the declaration gives, as it is written there.
    Given { predicate: String },
    /// For each type parameter whether it must be printable itself, and the
    /// associated types that must be: the indices of their type paths among those
    /// of the declaration, in ascending order.
    Inferred { parameters: Vec<bool>, associated: Vec<usize> },
}

/// The plan for an implementation of debug printing.
#[derive(Debug, PartialEq, Eq)]
pub struct DebugPlan {
    pub name: String,
    /// One format for each field, in the order of the declaration.
    pub fields: Vec<FieldFormat>,
    pub bounds: Bounds,
}

/// Why no implementation can be planned.
#[derive(Clone, Copy, Debug, PartialEq, Eq)]
pub enum DebugError {
    /// The declaration is not a structure with named fields.
    NotNamedStruct,
}

impl DebugError {
    /// The message of the error.
    pub open spec fn message_view(self) -> Seq<char> {
        match self {
            DebugError::NotNamedStruct => "字段解析错误"@,
        }
    }

    /// The message of the error, for a reader.
    pub fn message(&self) -> (r: String)
        ensures
            r@ == self.message_view(),
    {
        match self {
            DebugError::NotNamedStruct => String::from_str("字段解析错误"),
        }
    }
}

/// The format that prints a value by its own debug printing.
pub open spec fn plain_format() -> Seq<char> {
    "{:?}"@
}

/// The format of a field: the one asked for, or the plain one.
pub open spec fn format_of(field: DebugField) -> Seq<char> {
    match field.format {
        Some(format) => format@,
        None => plain_format(),
    }
}

/// Some field has `parameter` as the name of its type.
pub open spec fn used_directly(fields: Seq<DebugField>, parameter: Seq<char>) -> bool {
    exists|i: int|
        0 <= i < fields.len() && (#[trigger] fields[i]).named_type is Some
            && fields[i].named_type->Some_0@ == parameter
}

/// What a field is phantom data of: where its type is `PhantomData<P, ..>` for a
/// path `P`, the name of the first segment of `P`.
pub open spec fn phantom_of(field: DebugField) -> Option<Seq<char>> {
    if field.named_type is Some && field.named_type->Some_0@ == "PhantomData"@
        && field.argument is Some {
        Some(field.argument->Some_0@)
    } else {
        None
    }
}

/// Some field is phantom data of `parameter`.
pub open spec fn used_in_phantom(fields: Seq<DebugField>, parameter: Seq<char>) -> bool {
    exists|i: int|
        0 <= i < fields.len() && phantom_of(#[trigger] fields[i]) == Some(parameter)
}

/// The path names an associated type of a type parameter: it has two segments or
/// more, and the first is one of the parameters.
pub open spec fn is_associated(path: Seq<Seq<char>>, parameters: Seq<Seq<char>>) -> bool {
    path.len() >= 2 && parameters.contains(path[0])
}

/// Some type path of the declaration names an associated type of `parameter`.
pub open spec fn has_associated(
    paths: Seq<Seq<Seq<char>>>,
    parameters: Seq<Seq<char>>,
    parameter: Seq<char>,
) -> bool {
    exists|k: int|
        0 <= k < paths.len() && is_associated(#[trigger] paths[k], parameters) && paths[k][0]
            == parameter
}

/// Whether a type parameter must be printable itself. It must where a field has it
/// as its type. Otherwise it need not where it is used in phantom data, or only
/// through its associated types.
pub open spec fn needs_bound(declaration: Declaration, parameter: Seq<char>) -> bool {
    let fields = declaration.fields->Some_0@;
    used_directly(fields, parameter) || (!used_in_phantom(fields, parameter) && !has_associated(
        declaration.type_paths.deep_view(),
        declaration.type_parameters.deep_view(),
        parameter,
    ))
}

/// `found` lists, in ascending order, the indices of exactly those type paths that
/// name an associated type of a type parameter. A path that occurs twice is listed
/// twice.
pub open spec fn lists_associated(declaration: Declaration, found: Seq<usize>) -> bool {
    let paths = declaration.type_paths.deep_view();
    let parameters = declaration.type_parameters.deep_view();
    &&& forall|m: int|
        0 <= m < found.len() ==> (#[trigger] found[m]) < paths.len() && is_associated(
            paths[found[m] as int],
            parameters,
        )
    &&& forall|a: int, b: int| 0 <= a < b < found.len() ==> found[a] < found[b]
    &&& forall|i: int|
        0 <= i < paths.len() && is_associated(#[trigger] paths[i], parameters) ==> found.contains(
            i as usize,
        )
}

/// `bounds` are the bounds for `declaration`.
pub open spec fn bounds_of(declaration: Declaration, bounds: Bounds) -> bool {
    match declaration.bound {
        Some(given) => bounds matches Bounds::Given { predicate } && predicate@ == given@,
        None => {
            &&& bounds matches Bounds::Inferred { parameters, associated }
            &&& parameters@.len() == declaration.type_parameters@.len()
            &&& forall|i: int|
                0 <= i < parameters@.len() ==> #[trigger] parameters@[i] == needs_bound(
                    declaration,
                    declaration.type_parameters@[i]@,
                )
            &&& lists_associated(declaration, associated@)
        },
    }
}

/// What `derive` owes for `declaration`.
pub open spec fn derived(declaration: Declaration, result: Result<DebugPlan, DebugError>) -> bool {
    match declaration.fields {
        None => result == Err::<DebugPlan, DebugError>(DebugError::NotNamedStruct),
        Some(fields) => {
            &&& result matches Ok(plan)
            &&& plan.name@ == declaration.name@
            &&& plan.fields@.len() == fields@.len()
            &&& forall|i: int|
                0 <= i < fields@.len() ==> (#[trigger] plan.fields@[i]).name@ == fields@[i].name@
                    && plan.fields@[i].format@ == format_of(fields@[i])
            &&& bounds_of(declaration, plan.bounds)
        },
    }
}

fn directly(fields: &Vec<DebugField>, parameter: &String) -> (r: bool)
    ensures
        r == used_directly(fields@, parameter@),
{
    let mut i: usize = 0;
    while i < fields.len()
        invariant
            i <= fields.len(),
            forall|k: int|
                0 <= k < i ==> !((#[trigger] fields@[k]).named_type is Some
                    && fields@[k].named_type->Some_0@ == parameter@),
        decreases fields.len() - i,
    {
        match &fields[i].named_type {
            Some(name) => {
                if *name == *parameter {
                    return true;
                }
            },
            None => {},
        }
        i += 1;
    }
    false
}

fn phantom(field: &DebugField) -> (r: Option<&String>)
    ensures
        match r {
            Some(name) => phantom_of(*field) == Some(name@),
            None => phantom_of(*field) is None,
        },
{
    match &field.named_type {
        Some(name) => {
            if *name == String::from_str("PhantomData") {
                match &field.argument {
                    Some(argument) => Some(argument),
                    None => None,
                }
            } else {
                None
            }
        },
        None => None,
    }
}

fn in_phantom(fields: &Vec<DebugField>, parameter: &String) -> (r: bool)
    ensures
        r == used_in_phantom(fields@, parameter@),
{
    let mut i: usize = 0;
    while i < fields.len()
        invariant
            i <= fields.len(),
            forall|k: int| 0 <= k < i ==> phantom_of(#[trigger] fields@[k]) != Some(parameter@),
        decreases fields.len() - i,
    {
        match phantom(&fields[i]) {
            Some(name) => {
                if *name == *parameter {
                    return true;
                }
            },
            None => {},
        }
        i += 1;
    }
    false
}

fn is_parameter(parameters: &Vec<String>, name: &String) -> (r: bool)
    ensures
        r == parameters.deep_view().contains(name@),
{
    let mut i: usize = 0;
    while i < parameters.len()
        invariant
            i <= parameters.len(),
            forall|k: int| 0 <= k < i ==> parameters.deep_view()[k] != name@,
        decreases parameters.len() - i,
    {
        assert(parameters.deep_view()[i as int] == parameters@[i as int]@);
        if parameters[i] == *name {
            return true;
        }
        i += 1;
    }
    false
}

fn associated(path: &Vec<String>, parameters: &Vec<String>) -> (r: bool)
    ensures
        r == is_associated(path.deep_view(), parameters.deep_view()),
{
    if path.len() >= 2 {
        assert(path.deep_view()[0] == path@[0]@);
        is_parameter(parameters, &path[0])
    } else {
        false
    }
}

fn associated_with(
    paths: &Vec<Vec<String>>,
    parameters: &Vec<String>,
    parameter: &String,
) -> (r: bool)
    ensures
        r == has_associated(paths.deep_view(), parameters.deep_view(), parameter@),
{
    let ghost views = paths.deep_view();
    let mut k: usize = 0;
    while k < paths.len()
        invariant
            k <= paths.len(),
            views == paths.deep_view(),
            forall|m: int|
                0 <= m < k ==> !(is_associated(#[trigger] views[m], parameters.deep_view())
                    && views[m][0] == parameter@),
        decreases paths.len() - k,
    {
        assert(views[k as int] == paths@[k as int].deep_view());
        if associated(&paths[k], parameters) {
            assert(views[k as int][0] == paths@[k as int]@[0]@);
            if paths[k][0] == *parameter {
                return true;
            }
        }
        k += 1;
    }
    false
}

fn infer(declaration: &Declaration, fields: &Vec<DebugField>) -> (r: Bounds)
    requires
        declaration.fields == Some(*fields),
        declaration.bound is None,
    ensures
        bounds_of(*declaration, r),
{
    let parameters = &declaration.type_parameters;
    let paths = &declaration.type_paths;
    let ghost views = paths.deep_view();
    let mut bounded: Vec<bool> = Vec::new();
    let mut i: usize = 0;
    while i < parameters.len()
        invariant
            i <= parameters.len(),
            bounded.len() == i,
            declaration.fields == Some(*fields),
            parameters == &declaration.type_parameters,
            paths == &declaration.type_paths,
            forall|k: int|
                0 <= k < i ==> #[trigger] bounded@[k] == needs_bound(
                    *declaration,
                    parameters@[k]@,
                ),
        decreases parameters.len() - i,
    {
        let parameter = &parameters[i];
        let needed = directly(fields, parameter) || (!in_phantom(fields, parameter)
            && !associated_with(paths, parameters, parameter));
        bounded.push(needed);
        i += 1;
    }
    let mut found: Vec<usize> = Vec::new();
    let mut k: usize = 0;
    while k < paths.len()
        invariant
            k <= paths.len(),
            views == paths.deep_view(),
            forall|m: int|
                0 <= m < found.len() ==> (#[trigger] found@[m]) < k && is_associated(
                    views[found@[m] as int],
                    parameters.deep_view(),
                ),
            forall|a: int, b: int| 0 <= a < b < found.len() ==> found@[a] < found@[b],
            forall|i: int|
                0 <= i < k && is_associated(#[trigger] views[i], parameters.deep_view())
                    ==> found@.contains(i as usize),
        decreases paths.len() - k,
    {
        let ghost before = found@;
        assert(views[k as int] == paths@[k as int].deep_view());
        if associated(&paths[k], parameters) {
            found.push(k);
            proof {
                assert(found@[before.len() as int] == k);
                assert forall|i: int|
                    0 <= i < k && is_associated(
                        #[trigger] views[i],
                        parameters.deep_view(),
                    ) implies found@.contains(i as usize) by {
                    let at = choose|at: int| 0 <= at < before.len() && before[at] == i as usize;
                    assert(found@[at] == i as usize);
                }
            }
        }
        k += 1;
    }
    Bounds::Inferred { parameters: bounded, associated: found }
}

/// Plans the implementation of debug printing for `declaration`.
///
/// Fails where the declaration has no named fields.
pub fn derive(declaration: &Declaration) -> (r: Result<DebugPlan, DebugError>)
    ensures
        derived(*declaration, r),
{
    let fields = match &declaration.fields {
        Some(fields) => fields,
        None => {
            return Err(DebugError::NotNamedStruct);
        },
    };
    let mut formats: Vec<FieldFormat> = Vec::new();
    let mut i: usize = 0;
    while i < fields.len()
        invariant
            i <= fields.len(),
            formats.len() == i,
            forall|k: int|
                0 <= k < i ==> (#[trigger] formats@[k]).name@ == fields@[k].name@
                    && formats@[k].format@ == format_of(fields@[k]),
        decreases fields.len() - i,
    {
        let format = match &fields[i].format {
            Some(format) => format.clone(),
            None => String::from_str("{:?}"),
        };
        formats.push(FieldFormat { name: fields[i].name.clone(), format });
        i += 1;
    }
    let bounds = match &declaration.bound {
        Some(given) => Bounds::Given { predicate: given.clone() },
        None => infer(declaration, fields),
    };
    Ok(DebugPlan { name: declaration.name.clone(), fields: formats, bounds })
}

} // verus!
