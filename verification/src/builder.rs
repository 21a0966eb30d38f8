//! Planning a builder for a structure: what the builder stores for each field, which
//! setters it offers, and what its `build` checks and hands over.
//!
//! The plan holds decisions only. Writing them out as declarations is left to
//! whoever holds the types of the fields.

use vstd::prelude::*;
use vstd::string::StringExecFns;

verus! {

/// The type of a field, as far as the plan reads it.
#[derive(Debug, PartialEq, Eq)]
pub enum TypeShape {
    /// A path such as `Option<String>` or `std::vec::Vec<u8>`: the name of its last
    /// segment, and whether that segment has arguments in angle brackets of which
    /// the first is a type.
    Path { last_segment: String, type_argument: bool },
    /// Any other type.
    Other,
}

/// A named field of the structure.
#[derive(Debug, PartialEq, Eq)]
pub struct Field {
    pub name: String,
    pub shape: TypeShape,
    /// The name asked for by `each = "..."`: the field is a collection that is
    /// filled one item at a time by a setter of this name.
    pub each: Option<String>,
}

/// The structure that a builder is derived for.
#[derive(Debug, PartialEq, Eq)]
pub struct Structure {
    pub name: String,
    /// The named fields in the order of their declaration; `None` where the
    /// declaration is not a structure with named fields.
    pub fields: Option<Vec<Field>>,
}

/// What the builder stores for a field.
#[derive(Clone, Copy, Debug, PartialEq, Eq, Structural)]
pub enum Storage {
    /// The field is an `Option` already: the builder stores an `Option` of its
    /// inner type.
    Inner,
    /// The builder stores the field's own type.
    Declared,
    /// The builder stores an `Option` of the field's type.
    Wrapped,
}

/// What a fresh builder holds for a field.
#[derive(Clone, Copy, Debug, PartialEq, Eq, Structural)]
pub enum Initial {
    /// An empty collection.
    Empty,
    /// Nothing yet.
    Absent,
}

/// What a setter takes and what it does with it.
#[derive(Clone, Copy, Debug, PartialEq, Eq, Structural)]
pub enum SetterKind {
    /// Takes the inner type of an optional field and stores it.
    StoreInner,
    /// Takes one item and appends it to the collection.
    PushEach,
    /// Takes a whole collection and stores a copy of it.
    ReplaceAll,
    /// Takes the field's type and stores it.
    Store,
}

/// A setter of the builder.
#[derive(Debug, PartialEq, Eq)]
pub struct Setter {
    pub name: String,
    pub kind: SetterKind,
}

/// The value of a [`Setter`].
pub struct SetterView {
    pub name: Seq<char>,
    pub kind: SetterKind,
}

impl DeepView for Setter {
    type V = SetterView;

    open spec fn deep_view(&self) -> SetterView {
        SetterView { name: self.name@, kind: self.kind }
    }
}

/// How `build` hands a field over.
#[derive(Clone, Copy, Debug, PartialEq, Eq, Structural)]
pub enum Fill {
    /// A copy of what the builder stores.
    AsStored,
    /// A copy of the value inside the stored `Option`.
    Taken,
}

/// The plan for one field.
#[derive(Debug, PartialEq, Eq)]
pub struct FieldPlan {
    pub storage: Storage,
    pub initial: Initial,
    pub setters: Vec<Setter>,
    /// Whether `build` fails with "<name> field is missing" while the field is unset.
    pub required: bool,
    pub fill: Fill,
}

/// The plan for a builder.
#[derive(Debug, PartialEq, Eq)]
pub struct BuilderPlan {
    /// The name of the builder: the structure's name followed by `Builder`.
    pub builder_name: String,
    /// One plan for each field, in the order of the declaration.
    pub fields: Vec<FieldPlan>,
}

/// Why no builder can be planned.
#[derive(Clone, Copy, Debug, PartialEq, Eq)]
pub enum BuilderError {
    /// The declaration is not a structure with named fields.
    NotNamedStruct,
    /// This field asks for a setter of single items and is not a `Vec`.
    EachNeedsVec { field: usize },
}

impl BuilderError {
    /// The message of the error.
    pub open spec fn message_view(self) -> Seq<char> {
        match self {
            BuilderError::NotNamedStruct => "解析字段名错误"@,
            BuilderError::EachNeedsVec { .. } => "each field must be specified with Vec field"@,
        }
    }

    /// The message of the error, for a reader.
    pub fn message(&self) -> (r: String)
        ensures
            r@ == self.message_view(),
    {
        match self {
            BuilderError::NotNamedStruct => String::from_str("解析字段名错误"),
            BuilderError::EachNeedsVec { .. } => String::from_str(
                "each field must be specified with Vec field",
            ),
        }
    }
}

/// `shape` is a path that ends in `outer<T, ..>` for a type `T`.
pub open spec fn wraps(shape: TypeShape, outer: Seq<char>) -> bool {
    shape matches TypeShape::Path { last_segment, type_argument } && last_segment@ == outer
        && type_argument
}

/// The field is an `Option` of something.
pub open spec fn is_optional(field: Field) -> bool {
    wraps(field.shape, "Option"@)
}

/// The field is a `Vec` of something.
pub open spec fn is_vec(field: Field) -> bool {
    wraps(field.shape, "Vec"@)
}

/// An optional field keeps its `Option`; a field that is filled item by item keeps
/// its type; every other field is wrapped in an `Option`.
pub open spec fn storage_of(field: Field) -> Storage {
    if is_optional(field) {
        Storage::Inner
    } else if field.each is Some {
        Storage::Declared
    } else {
        Storage::Wrapped
    }
}

/// A field that is filled item by item starts empty, every other one absent.
pub open spec fn initial_of(field: Field) -> Initial {
    if field.each is Some {
        Initial::Empty
    } else {
        Initial::Absent
    }
}

/// The setters of a field. An optional field has one that takes the inner type. A
/// field that is filled item by item has one of the name asked for, and a second for
/// the whole collection unless the two names are the same. Every other field has one
/// that takes the field's type.
pub open spec fn setters_of(field: Field) -> Seq<SetterView> {
    if is_optional(field) {
        seq![SetterView { name: field.name@, kind: SetterKind::StoreInner }]
    } else if field.each is Some {
        let each = field.each->Some_0@;
        if each == field.name@ {
            seq![SetterView { name: each, kind: SetterKind::PushEach }]
        } else {
            seq![
                SetterView { name: each, kind: SetterKind::PushEach },
                SetterView { name: field.name@, kind: SetterKind::ReplaceAll },
            ]
        }
    } else {
        seq![SetterView { name: field.name@, kind: SetterKind::Store }]
    }
}

/// `build` insists on a field that is neither optional nor filled item by item.
pub open spec fn required_of(field: Field) -> bool {
    !is_optional(field) && field.each is None
}

/// A required field is taken out of its `Option`; the others are copied as stored.
pub open spec fn fill_of(field: Field) -> Fill {
    if field.each is Some {
        Fill::AsStored
    } else if !is_optional(field) {
        Fill::Taken
    } else {
        Fill::AsStored
    }
}

/// The field asks for a setter of single items, is not optional, and is no `Vec`.
pub open spec fn each_without_vec(field: Field) -> bool {
    !is_optional(field) && field.each is Some && !is_vec(field)
}

/// `plan` is the plan for `field`.
pub open spec fn plans(field: Field, plan: FieldPlan) -> bool {
    &&& plan.storage == storage_of(field)
    &&& plan.initial == initial_of(field)
    &&& plan.setters.deep_view() == setters_of(field)
    &&& plan.required == required_of(field)
    &&& plan.fill == fill_of(field)
}

/// What `derive` owes for `structure`.
pub open spec fn derived(structure: Structure, result: Result<BuilderPlan, BuilderError>) -> bool {
    match structure.fields {
        None => result == Err::<BuilderPlan, BuilderError>(BuilderError::NotNamedStruct),
        Some(fields) => match result {
            Ok(plan) => {
                &&& forall|i: int| 0 <= i < fields@.len() ==> !each_without_vec(fields@[i])
                &&& plan.builder_name@ == structure.name@ + "Builder"@
                &&& plan.fields@.len() == fields@.len()
                &&& forall|i: int|
                    0 <= i < fields@.len() ==> plans(fields@[i], #[trigger] plan.fields@[i])
            },
            Err(BuilderError::EachNeedsVec { field }) => {
                &&& 0 <= field < fields@.len()
                &&& each_without_vec(fields@[field as int])
                &&& forall|i: int| 0 <= i < field ==> !each_without_vec(fields@[i])
            },
            Err(BuilderError::NotNamedStruct) => false,
        },
    }
}

fn shape_wraps(shape: &TypeShape, outer: &str) -> (r: bool)
    ensures
        r == wraps(*shape, outer@),
{
    match shape {
        TypeShape::Path { last_segment, type_argument } => {
            *type_argument && *last_segment == String::from_str(outer)
        },
        TypeShape::Other => false,
    }
}

fn plan_field(field: &Field) -> (r: FieldPlan)
    ensures
        plans(*field, r),
{
    let optional = shape_wraps(&field.shape, "Option");
    let mut setters: Vec<Setter> = Vec::new();
    if optional {
        setters.push(Setter { name: field.name.clone(), kind: SetterKind::StoreInner });
    } else {
        match &field.each {
            Some(each) => {
                setters.push(Setter { name: each.clone(), kind: SetterKind::PushEach });
                if *each != field.name {
                    setters.push(
                        Setter { name: field.name.clone(), kind: SetterKind::ReplaceAll },
                    );
                }
            },
            None => {
                setters.push(Setter { name: field.name.clone(), kind: SetterKind::Store });
            },
        }
    }
    assert(setters.deep_view() =~= setters_of(*field));
    let item_by_item = field.each.is_some();
    FieldPlan {
        storage: if optional {
            Storage::Inner
        } else if item_by_item {
            Storage::Declared
        } else {
            Storage::Wrapped
        },
        initial: if item_by_item {
            Initial::Empty
        } else {
            Initial::Absent
        },
        setters,
        required: !optional && !item_by_item,
        fill: if item_by_item {
            Fill::AsStored
        } else if !optional {
            Fill::Taken
        } else {
            Fill::AsStored
        },
    }
}

/// Plans the builder of `structure`.
///
/// Fails where the declaration has no named fields, and at the first field that
/// asks for a setter of single items although it is neither optional nor a `Vec`.
pub fn derive(structure: &Structure) -> (r: Result<BuilderPlan, BuilderError>)
    ensures
        derived(*structure, r),
{
    let fields = match &structure.fields {
        Some(fields) => fields,
        None => {
            return Err(BuilderError::NotNamedStruct);
        },
    };
    let mut plans_made: Vec<FieldPlan> = Vec::new();
    let mut i: usize = 0;
    while i < fields.len()
        invariant
            i <= fields.len(),
            structure.fields == Some(*fields),
            plans_made.len() == i,
            forall|k: int| 0 <= k < i ==> !each_without_vec(fields@[k]),
            forall|k: int| 0 <= k < i ==> plans(fields@[k], #[trigger] plans_made@[k]),
        decreases fields.len() - i,
    {
        let field = &fields[i];
        if !shape_wraps(&field.shape, "Option") && field.each.is_some() && !shape_wraps(
            &field.shape,
            "Vec",
        ) {
            return Err(BuilderError::EachNeedsVec { field: i });
        }
        plans_made.push(plan_field(field));
        i += 1;
    }
    Ok(BuilderPlan { builder_name: structure.name.clone().concat("Builder"), fields: plans_made })
}

} // verus!
