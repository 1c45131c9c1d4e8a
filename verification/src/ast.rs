//! The query document syntax tree: type literals, operations, fragments,
//! selections, directives, arguments and variable definitions.

use vstd::prelude::*;
use crate::input_value::{value_model, InputValue, ValueModel};
use crate::scalar::ScalarValue;
use crate::span::Spanning;

verus! {

/// A type literal in a syntax tree.
///
/// This enum carries no semantic information and might refer to types that
/// do not exist. Repeatedly unwrapping the list shapes always reaches
/// exactly one named leaf. The optional size on list shapes is inert
/// metadata carried for other layers; nothing here reads it.
#[derive(Debug)]
pub enum Type {
    /// A `null`able named type, e.g. `String`.
    Named(String),
    /// A `null`able list type, e.g. `[String]`.
    ///
    /// The list itself is `null`able; the inner type may be non-`null`.
    List(Box<Type>, Option<usize>),
    /// A non-`null` named type, e.g. `String!`.
    NonNullNamed(String),
    /// A non-`null` list type, e.g. `[String]!`.
    ///
    /// The list itself is non-`null`; the inner type may be `null`able.
    NonNullList(Box<Type>, Option<usize>),
}

/// The name at the unique named leaf of a type literal.
pub open spec fn innermost_name_of(t: Type) -> Seq<char>
    decreases t,
{
    match t {
        Type::Named(n) => n@,
        Type::NonNullNamed(n) => n@,
        Type::List(inner, _) => innermost_name_of(*inner),
        Type::NonNullList(inner, _) => innermost_name_of(*inner),
    }
}

/// Canonical text of a type literal: `Name`, `Name!`, `[T]` or `[T]!`,
/// where `T` is the inner literal's own text.
pub open spec fn type_text(t: Type) -> Seq<char>
    decreases t,
{
    match t {
        Type::Named(n) => n@,
        Type::NonNullNamed(n) => n@ + seq!['!'],
        Type::List(inner, _) => seq!['['] + type_text(*inner) + seq![']'],
        Type::NonNullList(inner, _) => seq!['['] + type_text(*inner) + seq![']', '!'],
    }
}

impl Type {
    /// The name of this type literal, if it is a named shape; list shapes
    /// have none.
    pub fn name(&self) -> (r: Option<&str>)
        ensures
            match r {
                Some(n) => (*self is Named || *self is NonNullNamed) && n@ == innermost_name_of(
                    *self,
                ),
                None => *self is List || *self is NonNullList,
            },
    {
        match self {
            Type::Named(n) => Some(n.as_str()),
            Type::NonNullNamed(n) => Some(n.as_str()),
            _ => None,
        }
    }

    /// The innermost name of this type literal, found by unwrapping the
    /// list shapes.
    ///
    /// Every type literal contains exactly one named leaf, so this is
    /// total.
    pub fn innermost_name(&self) -> (r: &str)
        ensures
            r@ == innermost_name_of(*self),
        decreases *self,
    {
        match self {
            Type::Named(n) => n.as_str(),
            Type::NonNullNamed(n) => n.as_str(),
            Type::List(inner, _) => inner.innermost_name(),
            Type::NonNullList(inner, _) => inner.innermost_name(),
        }
    }

    /// Whether this type literal can only represent non-`null` values:
    /// true exactly for the outermost non-`null` shapes, regardless of
    /// inner nullability.
    pub fn is_non_null(&self) -> (r: bool)
        ensures
            r == (*self is NonNullNamed || *self is NonNullList),
    {
        match self {
            Type::NonNullNamed(_) => true,
            Type::NonNullList(..) => true,
            _ => false,
        }
    }

    /// Renders this type literal in its canonical textual form.
    pub fn render(&self) -> (r: String)
        ensures
            r@ == type_text(*self),
        decreases *self,
    {
        match self {
            Type::Named(n) => n.clone(),
            Type::NonNullNamed(n) => {
                let mut out = n.clone();
                out.append("!");
                proof {
                    reveal_strlit("!");
                    assert(out@ =~= type_text(*self));
                }
                out
            }
            Type::List(inner, _) => {
                let mut out = String::new();
                out.append("[");
                let t = inner.render();
                out.append(t.as_str());
                out.append("]");
                proof {
                    reveal_strlit("[");
                    reveal_strlit("]");
                    assert(out@ =~= type_text(*self));
                }
                out
            }
            Type::NonNullList(inner, _) => {
                let mut out = String::new();
                out.append("[");
                let t = inner.render();
                out.append(t.as_str());
                out.append("]!");
                proof {
                    reveal_strlit("[");
                    reveal_strlit("]!");
                    assert(out@ =~= type_text(*self));
                }
                out
            }
        }
    }
}

/// A directive attached to a definition, field or fragment: a name with
/// optional arguments.
#[derive(Debug)]
pub struct Directive<'a, S> {
    /// The directive's name.
    pub name: Spanning<&'a str>,
    /// The directive's arguments, if any were written.
    pub arguments: Option<Spanning<Arguments<'a, S>>>,
}

/// The arguments written at a field or directive: an ordered sequence of
/// name/value pairs. Duplicate names are permitted by the structure;
/// lookup by name takes the first match.
#[derive(Debug)]
pub struct Arguments<'a, S> {
    /// The argument entries, in source order.
    pub items: Vec<(Spanning<&'a str>, Spanning<InputValue<S>>)>,
}

/// The first index among argument entries whose name is `key`.
pub open spec fn first_arg_index<S: ScalarValue>(
    items: Seq<(Spanning<&str>, Spanning<InputValue<S>>)>,
    key: Seq<char>,
) -> Option<int>
    decreases items.len(),
{
    if items.len() == 0 {
        None
    } else if items[0].0.item@ == key {
        Some(0)
    } else {
        match first_arg_index(items.drop_first(), key) {
            Some(i) => Some(i + 1),
            None => None,
        }
    }
}

/// If the first `j` argument names differ from `key` and name `j` equals
/// it, then `j` is the first index of `key`.
proof fn lemma_first_arg_index<S: ScalarValue>(
    items: Seq<(Spanning<&str>, Spanning<InputValue<S>>)>,
    key: Seq<char>,
    j: int,
)
    requires
        0 <= j < items.len(),
        items[j].0.item@ == key,
        forall|k: int| 0 <= k < j ==> (#[trigger] items[k]).0.item@ != key,
    ensures
        first_arg_index(items, key) == Some(j),
    decreases j,
{
    if j > 0 {
        assert(items.drop_first()[j - 1] == items[j]);
        assert forall|k: int| 0 <= k < j - 1 implies (#[trigger] items.drop_first()[k]).0.item@
            != key by {
            assert(items.drop_first()[k] == items[k + 1]);
        }
        lemma_first_arg_index(items.drop_first(), key, j - 1);
    }
}

/// If no argument name equals `key`, the lookup finds nothing.
proof fn lemma_first_arg_index_none<S: ScalarValue>(
    items: Seq<(Spanning<&str>, Spanning<InputValue<S>>)>,
    key: Seq<char>,
)
    requires
        forall|k: int| 0 <= k < items.len() ==> (#[trigger] items[k]).0.item@ != key,
    ensures
        first_arg_index(items, key) is None,
    decreases items.len(),
{
    if items.len() > 0 {
        assert forall|k: int| 0 <= k < items.drop_first().len() implies (#[trigger]
            items.drop_first()[k]).0.item@ != key by {
            assert(items.drop_first()[k] == items[k + 1]);
        }
        lemma_first_arg_index_none(items.drop_first(), key);
    }
}

impl<'a, S: ScalarValue> Arguments<'a, S> {
    /// Consumes the arguments, yielding their entries in order.
    pub fn into_iter(self) -> (r: std::vec::IntoIter<(Spanning<&'a str>, Spanning<InputValue<S>>)>)
        ensures
            vstd::std_specs::vec::into_iter_elts(r) == self.items@,
    {
        self.items.into_iter()
    }

    /// Iterates over the entries in order.
    pub fn iter(&self) -> (r: std::slice::Iter<'_, (Spanning<&'a str>, Spanning<InputValue<S>>)>)
        ensures
            vstd::std_specs::slice::into_iter_elts(r) == self.items@,
    {
        self.items.as_slice().iter()
    }

    /// How many argument entries were written.
    pub fn len(&self) -> (r: usize)
        ensures
            r == self.items@.len(),
    {
        self.items.len()
    }

    /// The value of the first argument named `key`, if any.
    #[verifier::loop_isolation(false)]
    pub fn get(&self, key: &str) -> (r: Option<&Spanning<InputValue<S>>>)
        ensures
            match r {
                Some(sv) => {
                    &&& first_arg_index(self.items@, key@) is Some
                    &&& {
                        let i = first_arg_index(self.items@, key@)->0;
                        sv.span == self.items@[i].1.span && value_model(sv.item) == value_model(
                            self.items@[i].1.item,
                        )
                    }
                },
                None => first_arg_index(self.items@, key@) is None,
            },
    {
        let mut i: usize = 0;
        while i < self.items.len()
            invariant
                i <= self.items@.len(),
                forall|k: int| 0 <= k < i as int ==> (#[trigger] self.items@[k]).0.item@ != key@,
            decreases self.items@.len() - i,
        {
            if crate::scalar::str_eq(self.items[i].0.item, key) {
                proof {
                    lemma_first_arg_index(self.items@, key@, i as int);
                }
                return Some(&self.items[i].1);
            }
            i += 1;
        }
        proof {
            lemma_first_arg_index_none(self.items@, key@);
        }
        None
    }
}

/// One declared variable: its type literal, optional default literal and
/// directives.
#[derive(Debug)]
pub struct VariableDefinition<'a, S> {
    /// The declared type literal.
    pub var_type: Spanning<Type>,
    /// The declared default value, if one was written.
    pub default_value: Option<Spanning<InputValue<S>>>,
    /// The directives attached to the declaration, if any.
    pub directives: Option<Vec<Spanning<Directive<'a, S>>>>,
}

/// The variable declarations of an operation, in source order.
#[derive(Debug)]
pub struct VariableDefinitions<'a, S> {
    /// The declarations, each with the declared name.
    pub items: Vec<(Spanning<&'a str>, VariableDefinition<'a, S>)>,
}

impl<'a, S> VariableDefinitions<'a, S> {
    /// Iterates over the declarations in order.
    pub fn iter(&self) -> (r: std::slice::Iter<'_, (Spanning<&'a str>, VariableDefinition<'a, S>)>)
        ensures
            vstd::std_specs::slice::into_iter_elts(r) == self.items@,
    {
        self.items.as_slice().iter()
    }
}

/// One requested field, possibly aliased, with its arguments, directives
/// and nested selection set.
#[derive(Debug)]
pub struct Field<'a, S> {
    /// The response name the field was requested under, if aliased.
    pub alias: Option<Spanning<&'a str>>,
    /// The field's name.
    pub name: Spanning<&'a str>,
    /// The arguments written at the field, if any.
    pub arguments: Option<Spanning<Arguments<'a, S>>>,
    /// The directives attached to the field, if any.
    pub directives: Option<Vec<Spanning<Directive<'a, S>>>>,
    /// The nested selection set, if the field has one.
    pub selection_set: Option<Vec<Selection<'a, S>>>,
}

/// A named fragment spread in a selection set, written `...name`.
#[derive(Debug)]
pub struct FragmentSpread<'a, S> {
    /// The spread fragment's name.
    pub name: Spanning<&'a str>,
    /// The directives attached to the spread, if any.
    pub directives: Option<Vec<Spanning<Directive<'a, S>>>>,
}

/// An inline fragment in a selection set, written `...on Name { ... }`.
#[derive(Debug)]
pub struct InlineFragment<'a, S> {
    /// The type condition, if one was written.
    pub type_condition: Option<Spanning<&'a str>>,
    /// The directives attached to the fragment, if any.
    pub directives: Option<Vec<Spanning<Directive<'a, S>>>>,
    /// The fragment's selection set.
    pub selection_set: Vec<Selection<'a, S>>,
}

/// An entry in a selection set: a field, a fragment spread, or an inline
/// fragment. Each variant carries its location in the query source.
#[derive(Debug)]
pub enum Selection<'a, S> {
    /// A requested field.
    Field(Spanning<Field<'a, S>>),
    /// A named fragment spread.
    FragmentSpread(Spanning<FragmentSpread<'a, S>>),
    /// An inline fragment.
    InlineFragment(Spanning<InlineFragment<'a, S>>),
}

/// The kind of an operation.
#[derive(Clone, Copy, Debug, PartialEq, Eq, Structural)]
pub enum OperationType {
    /// A read-only query.
    Query,
    /// A mutation.
    Mutation,
    /// A subscription.
    Subscription,
}

/// One operation of a document: its kind, optional name, declared
/// variables, directives and selection set.
#[derive(Debug)]
pub struct Operation<'a, S> {
    /// Whether this is a query, mutation or subscription.
    pub operation_type: OperationType,
    /// The operation's name, if one was written.
    pub name: Option<Spanning<&'a str>>,
    /// The declared variables, if any.
    pub variable_definitions: Option<Spanning<VariableDefinitions<'a, S>>>,
    /// The directives attached to the operation, if any.
    pub directives: Option<Vec<Spanning<Directive<'a, S>>>>,
    /// The operation's selection set.
    pub selection_set: Vec<Selection<'a, S>>,
}

/// One named fragment definition of a document.
#[derive(Debug)]
pub struct Fragment<'a, S> {
    /// The fragment's name.
    pub name: Spanning<&'a str>,
    /// The type the fragment applies to.
    pub type_condition: Spanning<&'a str>,
    /// The directives attached to the fragment, if any.
    pub directives: Option<Vec<Spanning<Directive<'a, S>>>>,
    /// The fragment's selection set.
    pub selection_set: Vec<Selection<'a, S>>,
}

/// One top-level definition of a document.
#[derive(Debug)]
pub enum Definition<'a, S> {
    /// An operation definition.
    Operation(Spanning<Operation<'a, S>>),
    /// A fragment definition.
    Fragment(Spanning<Fragment<'a, S>>),
}

/// A parsed document: its definitions in source order.
pub type Document<'a, S> = [Definition<'a, S>];

/// A parsed document that owns its definitions.
pub type OwnedDocument<'a, S> = Vec<Definition<'a, S>>;

} // verus!
