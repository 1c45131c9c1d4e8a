//! The input-value algebra: a JSON-like recursive value type supporting
//! construction, constant folding against a variable binding map, equality
//! that ignores source positions, variable discovery and canonical textual
//! rendering.

use vstd::prelude::*;
use crate::scalar::ScalarValue;
use crate::span::{SpannedModel, Spanning};

verus! {

/// A JSON-like value that can be passed into query execution, either
/// out-of-band, or in-band as a default variable value. These are _not_
/// constant and might contain variables.
///
/// List elements and object entries carry the position in the source file
/// they were parsed from, if available.
///
/// An object is an order-preserving, duplicate-tolerant association list,
/// not a uniqueness-enforcing map: it mirrors the literal source text
/// faithfully, and uniqueness enforcement belongs to a higher layer.
#[derive(Debug)]
pub enum InputValue<S> {
    /// An explicit `null` literal.
    Null,
    /// A leaf scalar value.
    Scalar(S),
    /// An enum value, written as a bare name.
    Enum(String),
    /// A reference to a variable, written `$name`.
    Variable(String),
    /// A list literal.
    List(Vec<Spanning<InputValue<S>>>),
    /// An object literal: an ordered sequence of key/value entries.
    Object(Vec<(Spanning<String>, Spanning<InputValue<S>>)>),
}

/// Mathematical model of an [`InputValue`] over the scalar model `M`.
pub enum ValueModel<M> {
    /// Model of an explicit `null`.
    Null,
    /// Model of a scalar leaf.
    Scalar(M),
    /// Model of an enum value: its name.
    Enum(Seq<char>),
    /// Model of a variable reference: the variable's name.
    Variable(Seq<char>),
    /// Model of a list: the element models with their spans.
    List(Seq<SpannedModel<ValueModel<M>>>),
    /// Model of an object: the key/value entry models with their spans.
    Object(Seq<(SpannedModel<Seq<char>>, SpannedModel<ValueModel<M>>)>),
}

/// Models of the elements of a list literal.
pub open spec fn list_entries_model<S: ScalarValue>(
    l: Seq<Spanning<InputValue<S>>>,
) -> Seq<SpannedModel<ValueModel<S::M>>>
    decreases l,
    via list_entries_model_decreases::<S>
{
    Seq::new(
        l.len(),
        |i: int|
            if 0 <= i < l.len() {
                SpannedModel { item: value_model(l[i].item), span: l[i].span }
            } else {
                SpannedModel { item: ValueModel::Null, span: None }
            },
    )
}

/// Models of the entries of an object literal.
pub open spec fn object_entries_model<S: ScalarValue>(
    o: Seq<(Spanning<String>, Spanning<InputValue<S>>)>,
) -> Seq<(SpannedModel<Seq<char>>, SpannedModel<ValueModel<S::M>>)>
    decreases o,
    via object_entries_model_decreases::<S>
{
    Seq::new(
        o.len(),
        |i: int|
            if 0 <= i < o.len() {
                (
                    SpannedModel { item: o[i].0.item@, span: o[i].0.span },
                    SpannedModel { item: value_model(o[i].1.item), span: o[i].1.span },
                )
            } else {
                (
                    SpannedModel { item: Seq::empty(), span: None },
                    SpannedModel { item: ValueModel::Null, span: None },
                )
            },
    )
}

/// The mathematical model of a value: the same tree over sequences and
/// scalar models.
pub open spec fn value_model<S: ScalarValue>(v: InputValue<S>) -> ValueModel<S::M>
    decreases v,
{
    match v {
        InputValue::Null => ValueModel::Null,
        InputValue::Scalar(s) => ValueModel::Scalar(s.m()),
        InputValue::Enum(e) => ValueModel::Enum(e@),
        InputValue::Variable(x) => ValueModel::Variable(x@),
        InputValue::List(l) => ValueModel::List(list_entries_model(l@)),
        InputValue::Object(o) => ValueModel::Object(object_entries_model(o@)),
    }
}

#[via_fn]
proof fn list_entries_model_decreases<S: ScalarValue>(l: Seq<Spanning<InputValue<S>>>) {
    assert forall|i: int| 0 <= i < l.len() implies #[trigger]
        decreases_to!(l => l[i].item) by {
        assert(decreases_to!(l => l[i]));
        assert(decreases_to!(l[i] => l[i].item));
    }
}

#[via_fn]
proof fn object_entries_model_decreases<S: ScalarValue>(
    o: Seq<(Spanning<String>, Spanning<InputValue<S>>)>,
) {
    assert forall|i: int| 0 <= i < o.len() implies #[trigger]
        decreases_to!(o => o[i].1.item) by {
        assert(decreases_to!(o => o[i]));
        assert(decreases_to!(o[i] => o[i].1.item));
    }
}

impl<S: ScalarValue> InputValue<S> {
    /// Constructs a `null` value.
    pub fn null() -> (r: Self)
        ensures
            value_model(r) == ValueModel::<S::M>::Null,
    {
        InputValue::Null
    }

    /// Constructs a scalar value.
    pub fn scalar(v: S) -> (r: Self)
        ensures
            value_model(r) == ValueModel::Scalar(v.m()),
    {
        InputValue::Scalar(v)
    }

    /// Constructs an enum value.
    pub fn enum_value(s: &str) -> (r: Self)
        ensures
            value_model(r) == ValueModel::<S::M>::Enum(s@),
    {
        InputValue::Enum(s.to_owned())
    }

    /// Constructs a variable reference.
    pub fn variable(v: &str) -> (r: Self)
        ensures
            value_model(r) == ValueModel::<S::M>::Variable(v@),
    {
        InputValue::Variable(v.to_owned())
    }

    /// Constructs a list in which no element carries location information.
    ///
    /// Useful where values are built programmatically and no source code
    /// position is available.
    pub fn list(l: Vec<Self>) -> (r: Self)
        ensures
            value_model(r) == ValueModel::List(
                Seq::new(
                    l@.len(),
                    |i: int| SpannedModel { item: value_model(l@[i]), span: None },
                ),
            ),
    {
        let mut items: Vec<Spanning<Self>> = Vec::new();
        let mut l = l;
        let ghost orig = l@;
        let ghost taken = 0int;
        while l.len() > 0
            invariant
                taken == orig.len() - l@.len(),
                0 <= taken <= orig.len(),
                l@ =~= orig.skip(taken),
                items@.len() == taken,
                forall|j: int| 0 <= j < taken ==> (#[trigger] items@[j]).span is None
                    && value_model(items@[j].item) == value_model(orig[j]),
            decreases l@.len(),
        {
            let v = l.remove(0);
            items.push(Spanning::unlocated(v));
            proof {
                taken = taken + 1;
            }
        }
        let r = InputValue::List(items);
        proof {
            assert(list_entries_model(items@) =~= Seq::new(
                orig.len(),
                |i: int| SpannedModel { item: value_model(orig[i]), span: None },
            ));
        }
        r
    }

    /// Constructs a list from parsed, located elements.
    pub fn parsed_list(l: Vec<Spanning<Self>>) -> (r: Self)
        ensures
            value_model(r) == ValueModel::List(list_entries_model(l@)),
    {
        InputValue::List(l)
    }

    /// Constructs an object in which no key or value carries location
    /// information.
    ///
    /// The entries are taken as given, in order: an object is an ordered,
    /// duplicate-tolerant association list.
    pub fn object(o: Vec<(String, Self)>) -> (r: Self)
        ensures
            value_model(r) == ValueModel::Object(
                Seq::new(
                    o@.len(),
                    |i: int|
                        (
                            SpannedModel { item: o@[i].0@, span: None },
                            SpannedModel { item: value_model(o@[i].1), span: None },
                        ),
                ),
            ),
    {
        let mut entries: Vec<(Spanning<String>, Spanning<Self>)> = Vec::new();
        let mut o = o;
        let ghost orig = o@;
        let ghost taken = 0int;
        while o.len() > 0
            invariant
                taken == orig.len() - o@.len(),
                0 <= taken <= orig.len(),
                o@ =~= orig.skip(taken),
                entries@.len() == taken,
                forall|j: int| 0 <= j < taken ==> (#[trigger] entries@[j]).0.span is None
                    && entries@[j].1.span is None && entries@[j].0.item@ == orig[j].0@
                    && value_model(entries@[j].1.item) == value_model(orig[j].1),
            decreases o@.len(),
        {
            let (k, v) = o.remove(0);
            entries.push((Spanning::unlocated(k), Spanning::unlocated(v)));
            proof {
                taken = taken + 1;
            }
        }
        let r = InputValue::Object(entries);
        proof {
            assert(object_entries_model(entries@) =~= Seq::new(
                orig.len(),
                |i: int|
                    (
                        SpannedModel { item: orig[i].0@, span: None },
                        SpannedModel { item: value_model(orig[i].1), span: None },
                    ),
            ));
        }
        r
    }

    /// Constructs an object from parsed, located entries.
    pub fn parsed_object(o: Vec<(Spanning<String>, Spanning<Self>)>) -> (r: Self)
        ensures
            value_model(r) == ValueModel::Object(object_entries_model(o@)),
    {
        InputValue::Object(o)
    }

    /// Does the value represent a `null`?
    pub fn is_null(&self) -> (r: bool)
        ensures
            r == (value_model(*self) is Null),
    {
        match self {
            InputValue::Null => true,
            _ => false,
        }
    }

    /// Does the value represent a variable reference?
    pub fn is_variable(&self) -> (r: bool)
        ensures
            r == (value_model(*self) is Variable),
    {
        match self {
            InputValue::Variable(_) => true,
            _ => false,
        }
    }

    /// Views the underlying enum name, if this value is an enum value.
    pub fn as_enum_value(&self) -> (r: Option<&str>)
        ensures
            match r {
                Some(name) => value_model(*self) == ValueModel::<S::M>::Enum(name@),
                None => !(value_model(*self) is Enum),
            },
    {
        match self {
            InputValue::Enum(e) => Some(e.as_str()),
            _ => None,
        }
    }

    /// Views the underlying scalar, if this value is a scalar.
    pub fn as_scalar(&self) -> (r: Option<&S>)
        ensures
            match r {
                Some(s) => value_model(*self) == ValueModel::Scalar(s.m()),
                None => !(value_model(*self) is Scalar),
            },
    {
        match self {
            InputValue::Scalar(s) => Some(s),
            _ => None,
        }
    }
}

} // verus!

verus! {

/// Models of a variable binding list: each name with the model of its value.
pub open spec fn bindings_model<S: ScalarValue>(
    entries: Seq<(String, InputValue<S>)>,
) -> Seq<(Seq<char>, ValueModel<S::M>)> {
    Seq::new(
        entries.len(),
        |i: int|
            if 0 <= i < entries.len() {
                (entries[i].0@, value_model(entries[i].1))
            } else {
                (Seq::empty(), ValueModel::Null)
            },
    )
}

/// First-match lookup of `name` in a binding list.
pub open spec fn lookup<M>(
    bs: Seq<(Seq<char>, ValueModel<M>)>,
    name: Seq<char>,
) -> Option<ValueModel<M>>
    decreases bs.len(),
{
    if bs.len() == 0 {
        None
    } else if bs[0].0 == name {
        Some(bs[0].1)
    } else {
        lookup(bs.drop_first(), name)
    }
}

/// If no binding among the first `i` matches `name`, the lookup result is
/// decided by the remaining bindings alone.
proof fn lemma_lookup_skip<M>(bs: Seq<(Seq<char>, ValueModel<M>)>, name: Seq<char>, i: int)
    requires
        0 <= i <= bs.len(),
        forall|j: int| 0 <= j < i ==> (#[trigger] bs[j]).0 != name,
    ensures
        lookup(bs, name) == lookup(bs.skip(i), name),
    decreases i,
{
    if i > 0 {
        lemma_lookup_skip(bs.drop_first(), name, i - 1);
        assert(bs.drop_first().skip(i - 1) =~= bs.skip(i));
    } else {
        assert(bs.skip(0) =~= bs);
    }
}

/// A runtime variable binding map: an ordered name-to-value mapping, where
/// the binding inserted most recently wins.
#[derive(Debug)]
pub struct Variables<S> {
    entries: Vec<(String, InputValue<S>)>,
}

impl<S: ScalarValue> Variables<S> {
    /// The bindings this map holds, newest first.
    pub closed spec fn model(self) -> Seq<(Seq<char>, ValueModel<S::M>)> {
        bindings_model(self.entries@)
    }

    /// An empty binding map.
    pub fn new() -> (r: Self)
        ensures
            r.model() == Seq::<(Seq<char>, ValueModel<S::M>)>::empty(),
    {
        let r = Variables { entries: Vec::new() };
        proof {
            assert(r.model() =~= Seq::<(Seq<char>, ValueModel<S::M>)>::empty());
        }
        r
    }

    /// Binds `name` to `value`; the new binding shadows any earlier one of
    /// the same name.
    pub fn insert(&mut self, name: &str, value: InputValue<S>)
        ensures
            final(self).model() == seq![(name@, value_model(value))] + old(self).model(),
    {
        self.entries.insert(0, (name.to_owned(), value));
        proof {
            assert(self.model() =~= seq![(name@, value_model(value))] + old(self).model());
        }
    }

    /// Looks `name` up; the most recently inserted binding of that name wins.
    #[verifier::loop_isolation(false)]
    pub fn get(&self, name: &str) -> (r: Option<&InputValue<S>>)
        ensures
            match r {
                Some(v) => lookup(self.model(), name@) == Some(value_model(*v)),
                None => lookup(self.model(), name@) is None,
            },
    {
        let mut i: usize = 0;
        while i < self.entries.len()
            invariant
                i <= self.entries@.len(),
                forall|j: int| 0 <= j < i as int ==> (#[trigger] self.model()[j]).0 != name@,
            decreases self.entries@.len() - i,
        {
            if crate::scalar::str_eq(self.entries[i].0.as_str(), name) {
                proof {
                    lemma_lookup_skip(self.model(), name@, i as int);
                    assert(self.model().skip(i as int)[0] == self.model()[i as int]);
                }
                return Some(&self.entries[i].1);
            }
            i += 1;
        }
        proof {
            lemma_lookup_skip(self.model(), name@, i as int);
        }
        None
    }
}

} // verus!

verus! {

/// Constant folding, on models.
///
/// - A variable resolves to its binding, or to `None` if it has none.
/// - A list keeps its length: an element whose folding fails is replaced by
///   `null` (a list position has no independent default, and dropping it
///   would shift indices); folding a list itself always succeeds.
/// - An object drops every entry whose value fails to fold (the absent value
///   may fall back to a schema-level default elsewhere); folding an object
///   itself always succeeds.
/// - `null`, scalars and enum values pass through unchanged.
pub open spec fn const_fold<M>(
    v: ValueModel<M>,
    vars: Seq<(Seq<char>, ValueModel<M>)>,
) -> Option<ValueModel<M>>
    decreases v,
    via const_fold_decreases::<M>
{
    match v {
        ValueModel::Variable(name) => lookup(vars, name),
        ValueModel::List(items) => Some(
            ValueModel::List(
                Seq::new(
                    items.len(),
                    |i: int|
                        if 0 <= i < items.len() {
                            SpannedModel {
                                item: match const_fold(items[i].item, vars) {
                                    Some(m) => m,
                                    None => ValueModel::Null,
                                },
                                span: items[i].span,
                            }
                        } else {
                            SpannedModel { item: ValueModel::Null, span: None }
                        },
                ),
            ),
        ),
        ValueModel::Object(entries) => Some(ValueModel::Object(object_fold(entries, vars))),
        _ => Some(v),
    }
}

/// Constant folding of an object's entries: each value is folded, and an
/// entry whose value fails to fold is dropped.
pub open spec fn object_fold<M>(
    entries: Seq<(SpannedModel<Seq<char>>, SpannedModel<ValueModel<M>>)>,
    vars: Seq<(Seq<char>, ValueModel<M>)>,
) -> Seq<(SpannedModel<Seq<char>>, SpannedModel<ValueModel<M>>)>
    decreases entries,
    via object_fold_decreases::<M>
{
    if entries.len() == 0 {
        Seq::empty()
    } else {
        let rest = object_fold(entries.drop_first(), vars);
        match const_fold(entries[0].1.item, vars) {
            Some(m) => seq![(entries[0].0, SpannedModel { item: m, span: entries[0].1.span })]
                + rest,
            None => rest,
        }
    }
}

#[via_fn]
proof fn const_fold_decreases<M>(v: ValueModel<M>, vars: Seq<(Seq<char>, ValueModel<M>)>) {
    match v {
        ValueModel::List(items) => {
            assert forall|i: int| 0 <= i < items.len() implies #[trigger]
                decreases_to!(v => items[i].item) by {
                assert(decreases_to!(v => v->List_0));
                assert(decreases_to!(v->List_0 => v->List_0[i]));
                assert(decreases_to!(v->List_0[i] => v->List_0[i].item));
            }
        }
        _ => {}
    }
}

#[via_fn]
proof fn object_fold_decreases<M>(
    entries: Seq<(SpannedModel<Seq<char>>, SpannedModel<ValueModel<M>>)>,
    vars: Seq<(Seq<char>, ValueModel<M>)>,
) {
    if entries.len() > 0 {
        assert(decreases_to!(entries => entries[0].1.item));
        assert(decreases_to!(entries => entries.subrange(1, entries.len() as int)));
        assert(entries.drop_first() =~= entries.subrange(1, entries.len() as int));
    }
}

/// Appending an entry folds independently of the entries before it.
proof fn lemma_object_fold_push<M>(
    entries: Seq<(SpannedModel<Seq<char>>, SpannedModel<ValueModel<M>>)>,
    e: (SpannedModel<Seq<char>>, SpannedModel<ValueModel<M>>),
    vars: Seq<(Seq<char>, ValueModel<M>)>,
)
    ensures
        object_fold(entries.push(e), vars) == object_fold(entries, vars) + (
        match const_fold(e.1.item, vars) {
            Some(m) => seq![(e.0, SpannedModel { item: m, span: e.1.span })],
            None => Seq::empty(),
        }),
    decreases entries.len(),
{
    let pushed = entries.push(e);
    let tail = match const_fold(e.1.item, vars) {
        Some(m) => seq![(e.0, SpannedModel { item: m, span: e.1.span })],
        None => Seq::<(SpannedModel<Seq<char>>, SpannedModel<ValueModel<M>>)>::empty(),
    };
    if entries.len() == 0 {
        assert(pushed.drop_first() =~= Seq::<
            (SpannedModel<Seq<char>>, SpannedModel<ValueModel<M>>),
        >::empty());
        assert(pushed[0] == e);
        assert(object_fold(pushed.drop_first(), vars) =~= Seq::<
            (SpannedModel<Seq<char>>, SpannedModel<ValueModel<M>>),
        >::empty());
        assert(object_fold(pushed, vars) =~= tail);
        assert(object_fold(entries, vars) + tail =~= tail);
    } else {
        assert(pushed.drop_first() =~= entries.drop_first().push(e));
        lemma_object_fold_push(entries.drop_first(), e, vars);
        assert(pushed[0] == entries[0]);
        match const_fold(entries[0].1.item, vars) {
            Some(m) => {
                assert(object_fold(pushed, vars) =~= object_fold(entries, vars) + tail);
            }
            None => {
                assert(object_fold(pushed, vars) =~= object_fold(entries, vars) + tail);
            }
        }
    }
}

impl<S: ScalarValue> InputValue<S> {
    /// Clones the value; the clone has the same model.
    #[verifier::loop_isolation(false)]
    pub(crate) fn deep_clone(&self) -> (r: Self)
        ensures
            value_model(r) == value_model(*self),
        decreases *self,
    {
        match self {
            InputValue::Null => InputValue::Null,
            InputValue::Scalar(s) => InputValue::Scalar(s.sv_clone()),
            InputValue::Enum(e) => InputValue::Enum(e.clone()),
            InputValue::Variable(x) => InputValue::Variable(x.clone()),
            InputValue::List(l) => {
                let mut out: Vec<Spanning<Self>> = Vec::new();
                let mut i: usize = 0;
                while i < l.len()
                    invariant
                        i <= l@.len(),
                        out@.len() == i as int,
                        forall|j: int| 0 <= j < i as int ==> (#[trigger] out@[j]).span
                            == l@[j].span && value_model(out@[j].item) == value_model(l@[j].item),
                    decreases l@.len() - i,
                {
                    proof {
                        assert(decreases_to!(*self => self->List_0));
                        assert(decreases_to!(self->List_0 => self->List_0@));
                        assert(decreases_to!(self->List_0@ => self->List_0@[i as int]));
                        assert(decreases_to!(self->List_0@[i as int]
                            => self->List_0@[i as int].item));
                    }
                    let c = l[i].item.deep_clone();
                    out.push(Spanning { item: c, span: l[i].span });
                    i += 1;
                }
                let r = InputValue::List(out);
                proof {
                    assert(list_entries_model(out@) =~= list_entries_model(l@));
                }
                r
            }
            InputValue::Object(o) => {
                let mut out: Vec<(Spanning<String>, Spanning<Self>)> = Vec::new();
                let mut i: usize = 0;
                while i < o.len()
                    invariant
                        i <= o@.len(),
                        out@.len() == i as int,
                        forall|j: int| 0 <= j < i as int ==> (#[trigger] out@[j]).0.span
                            == o@[j].0.span && out@[j].0.item@ == o@[j].0.item@
                            && out@[j].1.span == o@[j].1.span
                            && value_model(out@[j].1.item) == value_model(o@[j].1.item),
                    decreases o@.len() - i,
                {
                    proof {
                        assert(decreases_to!(*self => self->Object_0));
                        assert(decreases_to!(self->Object_0 => self->Object_0@));
                        assert(decreases_to!(self->Object_0@ => self->Object_0@[i as int]));
                        assert(decreases_to!(self->Object_0@[i as int]
                            => self->Object_0@[i as int].1.item));
                    }
                    let k = Spanning { item: o[i].0.item.clone(), span: o[i].0.span };
                    let c = o[i].1.item.deep_clone();
                    out.push((k, Spanning { item: c, span: o[i].1.span }));
                    i += 1;
                }
                let r = InputValue::Object(out);
                proof {
                    assert(object_entries_model(out@) =~= object_entries_model(o@));
                }
                r
            }
        }
    }

    /// Resolves all variables of this value to their bound `values`.
    ///
    /// If a variable has no binding:
    /// - the fold returns [`None`] in case this value is itself a variable;
    /// - an object entry with that variable as value is skipped;
    /// - a list element with that variable is replaced by `null`.
    ///
    /// A variable (or an object entry) left out this way can pick up a
    /// default value later, if one is provided; a single list element,
    /// on the contrary, cannot have a default value.
    pub fn into_const(self, values: &Variables<S>) -> (r: Option<Self>)
        ensures
            match const_fold(value_model(self), values.model()) {
                Some(m) => r is Some && value_model(r->0) == m,
                None => r is None,
            },
    {
        Self::fold_ref(&self, values)
    }

    /// Folding by reference: the verified core of [`InputValue::into_const`].
    #[verifier::loop_isolation(false)]
    fn fold_ref(&self, values: &Variables<S>) -> (r: Option<Self>)
        ensures
            match const_fold(value_model(*self), values.model()) {
                Some(m) => r is Some && value_model(r->0) == m,
                None => r is None,
            },
        decreases *self,
    {
        match self {
            InputValue::Null => Some(InputValue::Null),
            InputValue::Scalar(s) => Some(InputValue::Scalar(s.sv_clone())),
            InputValue::Enum(e) => Some(InputValue::Enum(e.clone())),
            InputValue::Variable(x) => {
                match values.get(x.as_str()) {
                    Some(v) => Some(v.deep_clone()),
                    None => None,
                }
            }
            InputValue::List(l) => {
                let mut out: Vec<Spanning<Self>> = Vec::new();
                let mut i: usize = 0;
                let ghost folded = const_fold(value_model(*self), values.model())->0->List_0;
                while i < l.len()
                    invariant
                        i <= l@.len(),
                        out@.len() == i as int,
                        folded.len() == l@.len(),
                        forall|j: int| 0 <= j < i as int ==> (#[trigger] out@[j]).span
                            == folded[j].span && value_model(out@[j].item) == folded[j].item,
                    decreases l@.len() - i,
                {
                    proof {
                        assert(decreases_to!(*self => self->List_0));
                        assert(decreases_to!(self->List_0 => self->List_0@));
                        assert(decreases_to!(self->List_0@ => self->List_0@[i as int]));
                        assert(decreases_to!(self->List_0@[i as int]
                            => self->List_0@[i as int].item));
                    }
                    let f = match Self::fold_ref(&l[i].item, values) {
                        Some(f) => f,
                        None => InputValue::Null,
                    };
                    out.push(Spanning { item: f, span: l[i].span });
                    i += 1;
                }
                let r = InputValue::List(out);
                proof {
                    assert(list_entries_model(out@) =~= folded);
                }
                Some(r)
            }
            InputValue::Object(o) => {
                let mut out: Vec<(Spanning<String>, Spanning<Self>)> = Vec::new();
                let mut i: usize = 0;
                while i < o.len()
                    invariant
                        i <= o@.len(),
                        object_entries_model(out@) =~= object_fold(
                            object_entries_model(o@).take(i as int),
                            values.model(),
                        ),
                    decreases o@.len() - i,
                {
                    proof {
                        assert(decreases_to!(*self => self->Object_0));
                        assert(decreases_to!(self->Object_0 => self->Object_0@));
                        assert(decreases_to!(self->Object_0@ => self->Object_0@[i as int]));
                        assert(decreases_to!(self->Object_0@[i as int]
                            => self->Object_0@[i as int].1.item));
                        lemma_object_fold_push(
                            object_entries_model(o@).take(i as int),
                            object_entries_model(o@)[i as int],
                            values.model(),
                        );
                        assert(object_entries_model(o@).take(i as int).push(
                            object_entries_model(o@)[i as int],
                        ) =~= object_entries_model(o@).take(i as int + 1));
                    }
                    match Self::fold_ref(&o[i].1.item, values) {
                        Some(f) => {
                            let k = Spanning { item: o[i].0.item.clone(), span: o[i].0.span };
                            out.push((k, Spanning { item: f, span: o[i].1.span }));
                            proof {
                                assert(object_entries_model(out@) =~= object_fold(
                                    object_entries_model(o@).take(i as int + 1),
                                    values.model(),
                                ));
                            }
                        }
                        None => {
                            proof {
                                assert(object_entries_model(out@) =~= object_fold(
                                    object_entries_model(o@).take(i as int + 1),
                                    values.model(),
                                ));
                            }
                        }
                    }
                    i += 1;
                }
                let r = InputValue::Object(out);
                proof {
                    assert(object_entries_model(o@).take(o@.len() as int)
                        =~= object_entries_model(o@));
                }
                Some(r)
            }
        }
    }
}

} // verus!

verus! {

/// Structural equality of value models that disregards all span metadata.
///
/// Lists are equal when they have the same length and are pairwise equal in
/// order. Objects are equal when they have the same length and every entry on
/// the left has at least one matching entry on the right (equal key,
/// recursively equal value) — an order-independent, "any match" comparison,
/// not a one-to-one pairing.
pub open spec fn unloc_eq<M>(a: ValueModel<M>, b: ValueModel<M>) -> bool
    decreases a, 0int,
    via unloc_eq_decreases::<M>
{
    match (a, b) {
        (ValueModel::Null, ValueModel::Null) => true,
        (ValueModel::Scalar(x), ValueModel::Scalar(y)) => x == y,
        (ValueModel::Enum(x), ValueModel::Enum(y)) => x == y,
        (ValueModel::Variable(x), ValueModel::Variable(y)) => x == y,
        (ValueModel::List(l1), ValueModel::List(l2)) => l1.len() == l2.len() && (forall|i: int|
            0 <= i < l1.len() ==> unloc_eq(#[trigger] l1[i].item, l2[i].item)),
        (ValueModel::Object(o1), ValueModel::Object(o2)) => o1.len() == o2.len() && (forall|
            i: int,
        |
            0 <= i < o1.len() ==> entry_matched(#[trigger] o1[i], o2)),
        _ => false,
    }
}

/// Does some entry of `o2` carry the same key as `entry` and a value equal
/// to its value, ignoring spans?
pub open spec fn entry_matched<M>(
    entry: (SpannedModel<Seq<char>>, SpannedModel<ValueModel<M>>),
    o2: Seq<(SpannedModel<Seq<char>>, SpannedModel<ValueModel<M>>)>,
) -> bool
    decreases entry, 1int,
{
    exists|k: int|
        0 <= k < o2.len() && (#[trigger] o2[k]).0.item == entry.0.item && unloc_eq(
            entry.1.item,
            o2[k].1.item,
        )
}

#[via_fn]
proof fn unloc_eq_decreases<M>(a: ValueModel<M>, b: ValueModel<M>) {
    match a {
        ValueModel::List(l1) => {
            assert forall|i: int| 0 <= i < l1.len() implies #[trigger]
                decreases_to!(a => l1[i].item) by {
                assert(decreases_to!(a => a->List_0));
                assert(decreases_to!(a->List_0 => a->List_0[i]));
                assert(decreases_to!(a->List_0[i] => a->List_0[i].item));
            }
        }
        ValueModel::Object(o1) => {
            assert forall|i: int| 0 <= i < o1.len() implies #[trigger]
                decreases_to!(a, 0int => o1[i], 1int) by {
                assert(decreases_to!(a => a->Object_0));
                assert(decreases_to!(a->Object_0 => a->Object_0[i]));
            }
        }
        _ => {}
    }
}

impl<S: ScalarValue> InputValue<S> {
    /// Compares this value with `other`, ignoring any source position
    /// information.
    #[verifier::loop_isolation(false)]
    pub fn unlocated_eq(&self, other: &Self) -> (r: bool)
        ensures
            r == unloc_eq(value_model(*self), value_model(*other)),
        decreases *self,
    {
        match (self, other) {
            (InputValue::Null, InputValue::Null) => true,
            (InputValue::Scalar(x), InputValue::Scalar(y)) => x.sv_eq(y),
            (InputValue::Enum(x), InputValue::Enum(y)) => crate::scalar::str_eq(
                x.as_str(),
                y.as_str(),
            ),
            (InputValue::Variable(x), InputValue::Variable(y)) => crate::scalar::str_eq(
                x.as_str(),
                y.as_str(),
            ),
            (InputValue::List(l1), InputValue::List(l2)) => {
                if l1.len() != l2.len() {
                    return false;
                }
                let ghost m1 = value_model(*self)->List_0;
                let ghost m2 = value_model(*other)->List_0;
                let mut i: usize = 0;
                while i < l1.len()
                    invariant
                        i <= l1@.len(),
                        forall|j: int| 0 <= j < i as int ==> unloc_eq(
                            #[trigger] m1[j].item,
                            m2[j].item,
                        ),
                    decreases l1@.len() - i,
                {
                    proof {
                        assert(decreases_to!(*self => self->List_0));
                        assert(decreases_to!(self->List_0 => self->List_0@));
                        assert(decreases_to!(self->List_0@ => self->List_0@[i as int]));
                        assert(decreases_to!(self->List_0@[i as int]
                            => self->List_0@[i as int].item));
                    }
                    proof {
                        assert(m1[i as int].item == value_model(l1@[i as int].item));
                        assert(m2[i as int].item == value_model(l2@[i as int].item));
                    }
                    if !l1[i].item.unlocated_eq(&l2[i].item) {
                        proof {
                            assert(!unloc_eq(m1[i as int].item, m2[i as int].item));
                        }
                        return false;
                    }
                    i += 1;
                }
                true
            }
            (InputValue::Object(o1), InputValue::Object(o2)) => {
                if o1.len() != o2.len() {
                    return false;
                }
                let ghost m1 = value_model(*self)->Object_0;
                let ghost m2 = value_model(*other)->Object_0;
                let mut i: usize = 0;
                while i < o1.len()
                    invariant
                        i <= o1@.len(),
                        forall|j: int| 0 <= j < i as int ==> entry_matched(#[trigger] m1[j], m2),
                    decreases o1@.len() - i,
                {
                    let mut j: usize = 0;
                    let mut found: bool = false;
                    while j < o2.len() && !found
                        invariant
                            0 <= j <= o2@.len(),
                            found ==> entry_matched(m1[i as int], m2),
                            !found ==> forall|k: int| 0 <= k < j as int ==> !((#[trigger] m2[k]).0.item
                                == m1[i as int].0.item && unloc_eq(m1[i as int].1.item, m2[k].1.item)),
                        decreases (if found { 0int } else { o2@.len() - j + 1 }),
                    {
                        proof {
                            assert(decreases_to!(*self => self->Object_0));
                            assert(decreases_to!(self->Object_0 => self->Object_0@));
                            assert(decreases_to!(self->Object_0@ => self->Object_0@[i as int]));
                            assert(decreases_to!(self->Object_0@[i as int]
                                => self->Object_0@[i as int].1.item));
                        }
                        proof {
                            assert(m1[i as int].0.item == o1@[i as int].0.item@);
                            assert(m1[i as int].1.item == value_model(o1@[i as int].1.item));
                            assert(m2[j as int].0.item == o2@[j as int].0.item@);
                            assert(m2[j as int].1.item == value_model(o2@[j as int].1.item));
                        }
                        if crate::scalar::str_eq(o1[i].0.item.as_str(), o2[j].0.item.as_str())
                            && o1[i].1.item.unlocated_eq(&o2[j].1.item) {
                            found = true;
                        } else {
                            j += 1;
                        }
                    }
                    if !found {
                        proof {
                            assert(j as int == m2.len());
                            assert(!entry_matched(m1[i as int], m2));
                            assert(0 <= (i as int) && (i as int) < m1.len());
                            assert(!unloc_eq(value_model(*self), value_model(*other)));
                        }
                        return false;
                    }
                    i += 1;
                }
                proof {
                    assert(m1.len() == m2.len());
                    assert(forall|j: int| 0 <= j < m1.len() ==> entry_matched(
                        #[trigger] m1[j],
                        m2,
                    ));
                    assert(unloc_eq(value_model(*self), value_model(*other)));
                }
                true
            }
            _ => false,
        }
    }
}

} // verus!

verus! {

/// The views of a sequence of borrowed strings.
pub open spec fn names_model(r: Seq<&str>) -> Seq<Seq<char>> {
    Seq::new(r.len(), |i: int| if 0 <= i < r.len() { r[i]@ } else { Seq::empty() })
}

/// Every variable name reachable anywhere in a value, in depth-first order,
/// without deduplication.
pub open spec fn ref_vars<M>(v: ValueModel<M>) -> Seq<Seq<char>>
    decreases v, 0int,
{
    match v {
        ValueModel::Variable(name) => seq![name],
        ValueModel::List(items) => ref_vars_list(items),
        ValueModel::Object(entries) => ref_vars_object(entries),
        _ => Seq::empty(),
    }
}

/// The variable names reachable from the elements of a list, concatenated in
/// order.
pub open spec fn ref_vars_list<M>(items: Seq<SpannedModel<ValueModel<M>>>) -> Seq<Seq<char>>
    decreases items, 1int,
    via ref_vars_list_decreases::<M>
{
    if items.len() == 0 {
        Seq::empty()
    } else {
        ref_vars(items[0].item) + ref_vars_list(items.drop_first())
    }
}

/// The variable names reachable from the values of an object's entries,
/// concatenated in order; keys contribute nothing.
pub open spec fn ref_vars_object<M>(
    entries: Seq<(SpannedModel<Seq<char>>, SpannedModel<ValueModel<M>>)>,
) -> Seq<Seq<char>>
    decreases entries, 1int,
    via ref_vars_object_decreases::<M>
{
    if entries.len() == 0 {
        Seq::empty()
    } else {
        ref_vars(entries[0].1.item) + ref_vars_object(entries.drop_first())
    }
}

#[via_fn]
proof fn ref_vars_list_decreases<M>(items: Seq<SpannedModel<ValueModel<M>>>) {
    if items.len() > 0 {
        assert(decreases_to!(items => items[0].item));
        assert(decreases_to!(items => items.subrange(1, items.len() as int)));
        assert(items.drop_first() =~= items.subrange(1, items.len() as int));
    }
}

#[via_fn]
proof fn ref_vars_object_decreases<M>(
    entries: Seq<(SpannedModel<Seq<char>>, SpannedModel<ValueModel<M>>)>,
) {
    if entries.len() > 0 {
        assert(decreases_to!(entries => entries[0].1.item));
        assert(decreases_to!(entries => entries.subrange(1, entries.len() as int)));
        assert(entries.drop_first() =~= entries.subrange(1, entries.len() as int));
    }
}

/// Appending a list element contributes its variables after those of the
/// elements before it.
proof fn lemma_ref_vars_list_push<M>(
    items: Seq<SpannedModel<ValueModel<M>>>,
    e: SpannedModel<ValueModel<M>>,
)
    ensures
        ref_vars_list(items.push(e)) == ref_vars_list(items) + ref_vars(e.item),
    decreases items.len(),
{
    let pushed = items.push(e);
    if items.len() == 0 {
        assert(pushed.drop_first() =~= Seq::<SpannedModel<ValueModel<M>>>::empty());
        assert(ref_vars_list(pushed.drop_first()) =~= Seq::<Seq<char>>::empty());
        assert(pushed[0] == e);
        assert(ref_vars_list(pushed) =~= ref_vars_list(items) + ref_vars(e.item));
    } else {
        assert(pushed.drop_first() =~= items.drop_first().push(e));
        lemma_ref_vars_list_push(items.drop_first(), e);
        assert(pushed[0] == items[0]);
        assert(ref_vars_list(pushed) =~= ref_vars_list(items) + ref_vars(e.item));
    }
}

/// Appending an object entry contributes its value's variables after those
/// of the entries before it.
proof fn lemma_ref_vars_object_push<M>(
    entries: Seq<(SpannedModel<Seq<char>>, SpannedModel<ValueModel<M>>)>,
    e: (SpannedModel<Seq<char>>, SpannedModel<ValueModel<M>>),
)
    ensures
        ref_vars_object(entries.push(e)) == ref_vars_object(entries) + ref_vars(e.1.item),
    decreases entries.len(),
{
    let pushed = entries.push(e);
    if entries.len() == 0 {
        assert(pushed.drop_first() =~= Seq::<
            (SpannedModel<Seq<char>>, SpannedModel<ValueModel<M>>),
        >::empty());
        assert(ref_vars_object(pushed.drop_first()) =~= Seq::<Seq<char>>::empty());
        assert(pushed[0] == e);
        assert(ref_vars_object(pushed) =~= ref_vars_object(entries) + ref_vars(e.1.item));
    } else {
        assert(pushed.drop_first() =~= entries.drop_first().push(e));
        lemma_ref_vars_object_push(entries.drop_first(), e);
        assert(pushed[0] == entries[0]);
        assert(ref_vars_object(pushed) =~= ref_vars_object(entries) + ref_vars(e.1.item));
    }
}

impl<S: ScalarValue> InputValue<S> {
    /// Collects every variable name referenced anywhere in this value,
    /// depth-first, in order, without deduplication.
    #[verifier::loop_isolation(false)]
    pub fn referenced_variables<'a>(&'a self) -> (r: Vec<&'a str>)
        ensures
            names_model(r@) == ref_vars(value_model(*self)),
        decreases *self,
    {
        match self {
            InputValue::Variable(name) => {
                let mut out: Vec<&'a str> = Vec::new();
                out.push(name.as_str());
                proof {
                    assert(names_model(out@) =~= ref_vars(value_model(*self)));
                }
                out
            }
            InputValue::List(l) => {
                let ghost items = value_model(*self)->List_0;
                let mut out: Vec<&'a str> = Vec::new();
                let mut i: usize = 0;
                proof {
                    assert(names_model(out@) =~= ref_vars_list(items.take(0)));
                }
                while i < l.len()
                    invariant
                        i <= l@.len(),
                        names_model(out@) == ref_vars_list(items.take(i as int)),
                    decreases l@.len() - i,
                {
                    proof {
                        assert(decreases_to!(*self => self->List_0));
                        assert(decreases_to!(self->List_0 => self->List_0@));
                        assert(decreases_to!(self->List_0@ => self->List_0@[i as int]));
                        assert(decreases_to!(self->List_0@[i as int]
                            => self->List_0@[i as int].item));
                    }
                    let mut sub = l[i].item.referenced_variables();
                    proof {
                        lemma_ref_vars_list_push(items.take(i as int), items[i as int]);
                        assert(items.take(i as int).push(items[i as int])
                            =~= items.take(i as int + 1));
                        assert(items[i as int].item == value_model(l@[i as int].item));
                    }
                    let ghost old_out = out@;
                    let ghost old_sub = sub@;
                    out.append(&mut sub);
                    proof {
                        assert(names_model(out@) =~= names_model(old_out) + names_model(old_sub));
                        assert(names_model(out@) =~= ref_vars_list(items.take(i as int + 1)));
                    }
                    i += 1;
                }
                proof {
                    assert(items.take(l@.len() as int) =~= items);
                }
                out
            }
            InputValue::Object(o) => {
                let ghost entries = value_model(*self)->Object_0;
                let mut out: Vec<&'a str> = Vec::new();
                let mut i: usize = 0;
                proof {
                    assert(names_model(out@) =~= ref_vars_object(entries.take(0)));
                }
                while i < o.len()
                    invariant
                        i <= o@.len(),
                        names_model(out@) == ref_vars_object(entries.take(i as int)),
                    decreases o@.len() - i,
                {
                    proof {
                        assert(decreases_to!(*self => self->Object_0));
                        assert(decreases_to!(self->Object_0 => self->Object_0@));
                        assert(decreases_to!(self->Object_0@ => self->Object_0@[i as int]));
                        assert(decreases_to!(self->Object_0@[i as int]
                            => self->Object_0@[i as int].1.item));
                    }
                    let mut sub = o[i].1.item.referenced_variables();
                    proof {
                        lemma_ref_vars_object_push(entries.take(i as int), entries[i as int]);
                        assert(entries.take(i as int).push(entries[i as int])
                            =~= entries.take(i as int + 1));
                        assert(entries[i as int].1.item == value_model(o@[i as int].1.item));
                    }
                    let ghost old_out = out@;
                    let ghost old_sub = sub@;
                    out.append(&mut sub);
                    proof {
                        assert(names_model(out@) =~= names_model(old_out) + names_model(old_sub));
                        assert(names_model(out@) =~= ref_vars_object(entries.take(i as int + 1)));
                    }
                    i += 1;
                }
                proof {
                    assert(entries.take(o@.len() as int) =~= entries);
                }
                out
            }
            _ => {
                let out: Vec<&'a str> = Vec::new();
                proof {
                    assert(names_model(out@) =~= ref_vars(value_model(*self)));
                }
                out
            }
        }
    }
}

} // verus!

verus! {

/// Canonical text of a value: `null`, the scalar's own rendering, a bare
/// name for an enum value, `$name` for a variable, `[e1, e2]` for a list and
/// `{k1: v1, k2: v2}` for an object, entries in storage order.
pub open spec fn rendered<S: ScalarValue>(m: ValueModel<S::M>) -> Seq<char>
    decreases m, 0int,
{
    match m {
        ValueModel::Null => seq!['n', 'u', 'l', 'l'],
        ValueModel::Scalar(sm) => S::txt(sm),
        ValueModel::Enum(name) => name,
        ValueModel::Variable(name) => seq!['$'] + name,
        ValueModel::List(items) => seq!['['] + rendered_items::<S>(items, items.len() as int)
            + seq![']'],
        ValueModel::Object(entries) => seq!['{'] + rendered_entries::<S>(
            entries,
            entries.len() as int,
        ) + seq!['}'],
    }
}

/// Text of the first `n` elements of a list, joined with `, `.
pub open spec fn rendered_items<S: ScalarValue>(
    items: Seq<SpannedModel<ValueModel<S::M>>>,
    n: int,
) -> Seq<char>
    decreases items, n,
    via rendered_items_decreases::<S>
{
    if n <= 0 || n > items.len() {
        Seq::empty()
    } else {
        rendered_items::<S>(items, n - 1) + (if n > 1 {
            seq![',', ' ']
        } else {
            Seq::empty()
        }) + rendered::<S>(items[n - 1].item)
    }
}

/// Text of the first `n` entries of an object, each as `key: value`, joined
/// with `, `.
pub open spec fn rendered_entries<S: ScalarValue>(
    entries: Seq<(SpannedModel<Seq<char>>, SpannedModel<ValueModel<S::M>>)>,
    n: int,
) -> Seq<char>
    decreases entries, n,
    via rendered_entries_decreases::<S>
{
    if n <= 0 || n > entries.len() {
        Seq::empty()
    } else {
        rendered_entries::<S>(entries, n - 1) + (if n > 1 {
            seq![',', ' ']
        } else {
            Seq::empty()
        }) + entries[n - 1].0.item + seq![':', ' '] + rendered::<S>(entries[n - 1].1.item)
    }
}

#[via_fn]
proof fn rendered_items_decreases<S: ScalarValue>(
    items: Seq<SpannedModel<ValueModel<S::M>>>,
    n: int,
) {
    if 0 < n <= items.len() {
        assert(decreases_to!(items => items[n - 1]));
        assert(decreases_to!(items[n - 1] => items[n - 1].item));
    }
}

#[via_fn]
proof fn rendered_entries_decreases<S: ScalarValue>(
    entries: Seq<(SpannedModel<Seq<char>>, SpannedModel<ValueModel<S::M>>)>,
    n: int,
) {
    if 0 < n <= entries.len() {
        assert(decreases_to!(entries => entries[n - 1]));
        assert(decreases_to!(entries[n - 1] => entries[n - 1].1.item));
    }
}

impl<S: ScalarValue> InputValue<S> {
    /// Renders this value in its canonical textual form.
    #[verifier::loop_isolation(false)]
    pub fn render(&self) -> (r: String)
        ensures
            r@ == rendered::<S>(value_model(*self)),
        decreases *self,
    {
        match self {
            InputValue::Null => {
                let r = String::from_str("null");
                proof {
                    reveal_strlit("null");
                    assert(r@ =~= rendered::<S>(value_model(*self)));
                }
                r
            }
            InputValue::Scalar(s) => s.render(),
            InputValue::Enum(e) => e.clone(),
            InputValue::Variable(x) => {
                let mut out = String::new();
                out.append("$");
                out.append(x.as_str());
                proof {
                    reveal_strlit("$");
                    assert(out@ =~= rendered::<S>(value_model(*self)));
                }
                out
            }
            InputValue::List(l) => {
                let ghost items = value_model(*self)->List_0;
                let mut out = String::new();
                out.append("[");
                proof {
                    reveal_strlit("[");
                    reveal_strlit("]");
                    reveal_strlit(", ");
                    assert(out@ =~= seq!['['] + rendered_items::<S>(items, 0));
                }
                let mut i: usize = 0;
                while i < l.len()
                    invariant
                        i <= l@.len(),
                        out@ == seq!['['] + rendered_items::<S>(items, i as int),
                    decreases l@.len() - i,
                {
                    proof {
                        assert(decreases_to!(*self => self->List_0));
                        assert(decreases_to!(self->List_0 => self->List_0@));
                        assert(decreases_to!(self->List_0@ => self->List_0@[i as int]));
                        assert(decreases_to!(self->List_0@[i as int]
                            => self->List_0@[i as int].item));
                    }
                    if i > 0 {
                        out.append(", ");
                    }
                    let t = l[i].item.render();
                    out.append(t.as_str());
                    proof {
                        assert(items[i as int].item == value_model(l@[i as int].item));
                        assert(out@ =~= seq!['['] + rendered_items::<S>(items, i as int + 1));
                    }
                    i += 1;
                }
                out.append("]");
                proof {
                    assert(out@ =~= rendered::<S>(value_model(*self)));
                }
                out
            }
            InputValue::Object(o) => {
                let ghost entries = value_model(*self)->Object_0;
                let mut out = String::new();
                out.append("{");
                proof {
                    reveal_strlit("{");
                    reveal_strlit("}");
                    reveal_strlit(", ");
                    reveal_strlit(": ");
                    assert(out@ =~= seq!['{'] + rendered_entries::<S>(entries, 0));
                }
                let mut i: usize = 0;
                while i < o.len()
                    invariant
                        i <= o@.len(),
                        out@ == seq!['{'] + rendered_entries::<S>(entries, i as int),
                    decreases o@.len() - i,
                {
                    proof {
                        assert(decreases_to!(*self => self->Object_0));
                        assert(decreases_to!(self->Object_0 => self->Object_0@));
                        assert(decreases_to!(self->Object_0@ => self->Object_0@[i as int]));
                        assert(decreases_to!(self->Object_0@[i as int]
                            => self->Object_0@[i as int].1.item));
                    }
                    if i > 0 {
                        out.append(", ");
                    }
                    out.append(o[i].0.item.as_str());
                    out.append(": ");
                    let t = o[i].1.item.render();
                    out.append(t.as_str());
                    proof {
                        assert(entries[i as int].0.item == o@[i as int].0.item@);
                        assert(entries[i as int].1.item == value_model(o@[i as int].1.item));
                        assert(out@ =~= seq!['{'] + rendered_entries::<S>(entries, i as int + 1));
                    }
                    i += 1;
                }
                out.append("}");
                proof {
                    assert(out@ =~= rendered::<S>(value_model(*self)));
                }
                out
            }
        }
    }
}

} // verus!

verus! {

/// The view of a borrowed object-entry list: each key's view with the model
/// of the value it refers to.
pub open spec fn borrowed_entries_model<S: ScalarValue>(
    r: Seq<(&str, &InputValue<S>)>,
) -> Seq<(Seq<char>, ValueModel<S::M>)> {
    Seq::new(
        r.len(),
        |i: int|
            if 0 <= i < r.len() {
                (r[i].0@, value_model(*r[i].1))
            } else {
                (Seq::empty(), ValueModel::Null)
            },
    )
}

/// The first index of `key` in an association list, if any.
pub open spec fn assoc_index<M>(
    acc: Seq<(Seq<char>, ValueModel<M>)>,
    key: Seq<char>,
) -> Option<int>
    decreases acc.len(),
{
    if acc.len() == 0 {
        None
    } else if acc[0].0 == key {
        Some(0)
    } else {
        match assoc_index(acc.drop_first(), key) {
            Some(i) => Some(i + 1),
            None => None,
        }
    }
}

/// One insertion step of a uniqueness-enforcing ordered map: a new key is
/// appended, an existing key keeps its position and takes the new value.
pub open spec fn assoc_upsert<M>(
    acc: Seq<(Seq<char>, ValueModel<M>)>,
    key: Seq<char>,
    value: ValueModel<M>,
) -> Seq<(Seq<char>, ValueModel<M>)> {
    match assoc_index(acc, key) {
        Some(i) => acc.update(i, (key, value)),
        None => acc.push((key, value)),
    }
}

/// The ordered map that results from inserting `entries[i ..]` in order
/// into `acc`.
pub open spec fn assoc_collect<M>(
    entries: Seq<(SpannedModel<Seq<char>>, SpannedModel<ValueModel<M>>)>,
    i: int,
    acc: Seq<(Seq<char>, ValueModel<M>)>,
) -> Seq<(Seq<char>, ValueModel<M>)>
    decreases entries.len() - i,
{
    if i < 0 || i >= entries.len() {
        acc
    } else {
        assoc_collect(entries, i + 1, assoc_upsert(acc, entries[i].0.item, entries[i].1.item))
    }
}

impl<S: ScalarValue> InputValue<S> {
    /// Views this value as a list of references to its elements, if it is a
    /// list.
    pub fn to_list_value(&self) -> (r: Option<Vec<&Self>>)
        ensures
            match r {
                Some(refs) => value_model(*self) is List && refs@.len() == value_model(
                    *self,
                )->List_0.len() && (forall|i: int| 0 <= i < refs@.len() ==> value_model(
                    *(#[trigger] refs@[i]),
                ) == value_model(*self)->List_0[i].item),
                None => !(value_model(*self) is List),
            },
    {
        match self {
            InputValue::List(l) => {
                let ghost items = value_model(*self)->List_0;
                let mut out: Vec<&Self> = Vec::new();
                let mut i: usize = 0;
                #[verifier::loop_isolation(false)]
                while i < l.len()
                    invariant
                        i <= l@.len(),
                        out@.len() == i as int,
                        forall|j: int| 0 <= j < i as int ==> value_model(*(#[trigger] out@[j]))
                            == items[j].item,
                    decreases l@.len() - i,
                {
                    out.push(&l[i].item);
                    i += 1;
                }
                Some(out)
            }
            _ => None,
        }
    }

    /// Views this value as an ordered key-to-value mapping over references,
    /// if it is an object.
    ///
    /// Duplicate keys are collapsed as a uniqueness-enforcing ordered map
    /// would collapse them on insertion: the first occurrence fixes the
    /// position, the last occurrence supplies the value.
    pub fn to_object_value(&self) -> (r: Option<Vec<(&str, &Self)>>)
        ensures
            match r {
                Some(refs) => value_model(*self) is Object && borrowed_entries_model(refs@)
                    == assoc_collect(value_model(*self)->Object_0, 0, Seq::empty()),
                None => !(value_model(*self) is Object),
            },
    {
        match self {
            InputValue::Object(o) => {
                let ghost entries = value_model(*self)->Object_0;
                let mut out: Vec<(&str, &Self)> = Vec::new();
                let mut i: usize = 0;
                proof {
                    assert(borrowed_entries_model(out@) =~= Seq::<
                        (Seq<char>, ValueModel<S::M>),
                    >::empty());
                }
                #[verifier::loop_isolation(false)]
                while i < o.len()
                    invariant
                        i <= o@.len(),
                        assoc_collect(entries, 0, Seq::empty()) == assoc_collect(
                            entries,
                            i as int,
                            borrowed_entries_model(out@),
                        ),
                    decreases o@.len() - i,
                {
                    proof {
                        assert(entries[i as int].0.item == o@[i as int].0.item@);
                        assert(entries[i as int].1.item == value_model(o@[i as int].1.item));
                    }
                    let ghost before = borrowed_entries_model(out@);
                    let mut j: usize = 0;
                    let mut found: bool = false;
                    #[verifier::loop_isolation(false)]
                    while j < out.len() && !found
                        invariant
                            0 <= j <= out@.len(),
                            borrowed_entries_model(out@) == before,
                            found ==> (0 <= (j as int) && (j as int) < before.len()
                                && before[j as int].0 == entries[i as int].0.item
                                && assoc_index(before, entries[i as int].0.item)
                                    == Some(j as int)),
                            !found ==> forall|k: int|
                                0 <= k < j as int ==> (#[trigger] before[k]).0
                                    != entries[i as int].0.item,
                        decreases (if found { 0int } else { out@.len() - j + 1 }),
                    {
                        if crate::scalar::str_eq(out[j].0, o[i].0.item.as_str()) {
                            proof {
                                lemma_assoc_index_first(before, entries[i as int].0.item, j as int);
                            }
                            found = true;
                        } else {
                            j += 1;
                        }
                    }
                    if found {
                        let v: (&str, &Self) = (out[j].0, &o[i].1.item);
                        out.set(j, v);
                        proof {
                            assert(borrowed_entries_model(out@) =~= assoc_upsert(
                                before,
                                entries[i as int].0.item,
                                entries[i as int].1.item,
                            ));
                        }
                    } else {
                        proof {
                            assert(j as int == before.len());
                            lemma_assoc_index_none(before, entries[i as int].0.item);
                        }
                        out.push((o[i].0.item.as_str(), &o[i].1.item));
                        proof {
                            assert(borrowed_entries_model(out@) =~= assoc_upsert(
                                before,
                                entries[i as int].0.item,
                                entries[i as int].1.item,
                            ));
                        }
                    }
                    i += 1;
                }
                Some(out)
            }
            _ => None,
        }
    }
}

/// If the first `j` keys differ from `key` and key `j` equals it, then `j`
/// is the first index of `key`.
proof fn lemma_assoc_index_first<M>(
    acc: Seq<(Seq<char>, ValueModel<M>)>,
    key: Seq<char>,
    j: int,
)
    requires
        0 <= j < acc.len(),
        acc[j].0 == key,
        forall|k: int| 0 <= k < j ==> (#[trigger] acc[k]).0 != key,
    ensures
        assoc_index(acc, key) == Some(j),
    decreases j,
{
    if j == 0 {
    } else {
        assert(acc.drop_first()[j - 1] == acc[j]);
        assert forall|k: int| 0 <= k < j - 1 implies (#[trigger] acc.drop_first()[k]).0
            != key by {
            assert(acc.drop_first()[k] == acc[k + 1]);
        }
        lemma_assoc_index_first(acc.drop_first(), key, j - 1);
    }
}

/// If no key equals `key`, the lookup finds nothing.
proof fn lemma_assoc_index_none<M>(acc: Seq<(Seq<char>, ValueModel<M>)>, key: Seq<char>)
    requires
        forall|k: int| 0 <= k < acc.len() ==> (#[trigger] acc[k]).0 != key,
    ensures
        assoc_index(acc, key) is None,
    decreases acc.len(),
{
    if acc.len() > 0 {
        assert forall|k: int| 0 <= k < acc.drop_first().len() implies (#[trigger]
            acc.drop_first()[k]).0 != key by {
            assert(acc.drop_first()[k] == acc[k + 1]);
        }
        lemma_assoc_index_none(acc.drop_first(), key);
    }
}

} // verus!

verus! {

/// The same value model with every span removed.
pub open spec fn unspanned<M>(m: ValueModel<M>) -> ValueModel<M>
    decreases m,
    via unspanned_decreases::<M>
{
    match m {
        ValueModel::List(items) => ValueModel::List(
            Seq::new(
                items.len(),
                |i: int|
                    if 0 <= i < items.len() {
                        SpannedModel { item: unspanned(items[i].item), span: None }
                    } else {
                        SpannedModel { item: ValueModel::Null, span: None }
                    },
            ),
        ),
        ValueModel::Object(entries) => ValueModel::Object(
            Seq::new(
                entries.len(),
                |i: int|
                    if 0 <= i < entries.len() {
                        (
                            SpannedModel { item: entries[i].0.item, span: None },
                            SpannedModel { item: unspanned(entries[i].1.item), span: None },
                        )
                    } else {
                        (
                            SpannedModel { item: Seq::empty(), span: None },
                            SpannedModel { item: ValueModel::Null, span: None },
                        )
                    },
            ),
        ),
        _ => m,
    }
}

#[via_fn]
proof fn unspanned_decreases<M>(m: ValueModel<M>) {
    match m {
        ValueModel::List(items) => {
            assert forall|i: int| 0 <= i < items.len() implies #[trigger]
                decreases_to!(m => items[i].item) by {
                assert(decreases_to!(m => m->List_0));
                assert(decreases_to!(m->List_0 => m->List_0[i]));
                assert(decreases_to!(m->List_0[i] => m->List_0[i].item));
            }
        }
        ValueModel::Object(entries) => {
            assert forall|i: int| 0 <= i < entries.len() implies #[trigger]
                decreases_to!(m => entries[i].1.item) by {
                assert(decreases_to!(m => m->Object_0));
                assert(decreases_to!(m->Object_0 => m->Object_0[i]));
                assert(decreases_to!(m->Object_0[i] => m->Object_0[i].1.item));
            }
        }
        _ => {}
    }
}

/// Position is excluded from the equality [`InputValue::unlocated_eq`]
/// decides: two values of identical span-stripped structure compare equal,
/// however their spans differ.
pub proof fn lemma_unlocated_eq_ignores_spans<M>(a: ValueModel<M>, b: ValueModel<M>)
    requires
        unspanned(a) == unspanned(b),
    ensures
        unloc_eq(a, b),
    decreases a,
{
    match (a, b) {
        (ValueModel::List(l1), ValueModel::List(l2)) => {
            assert(unspanned(a)->List_0 == unspanned(b)->List_0);
            assert(unspanned(a)->List_0.len() == l1.len());
            assert(unspanned(b)->List_0.len() == l2.len());
            assert forall|i: int| 0 <= i < l1.len() implies unloc_eq(
                #[trigger] l1[i].item,
                l2[i].item,
            ) by {
                assert(decreases_to!(a => a->List_0));
                assert(decreases_to!(a->List_0 => a->List_0[i]));
                assert(decreases_to!(a->List_0[i] => a->List_0[i].item));
                assert(unspanned(a)->List_0[i] == unspanned(b)->List_0[i]);
                assert(unspanned(a)->List_0[i].item == unspanned(l1[i].item));
                assert(unspanned(b)->List_0[i].item == unspanned(l2[i].item));
                assert(unspanned(l1[i].item) == unspanned(l2[i].item));
                lemma_unlocated_eq_ignores_spans(l1[i].item, l2[i].item);
            }
        }
        (ValueModel::Object(o1), ValueModel::Object(o2)) => {
            assert(unspanned(a)->Object_0 == unspanned(b)->Object_0);
            assert(unspanned(a)->Object_0.len() == o1.len());
            assert(unspanned(b)->Object_0.len() == o2.len());
            assert forall|i: int| 0 <= i < o1.len() implies entry_matched(
                #[trigger] o1[i],
                o2,
            ) by {
                assert(decreases_to!(a => a->Object_0));
                assert(decreases_to!(a->Object_0 => a->Object_0[i]));
                assert(decreases_to!(a->Object_0[i] => a->Object_0[i].1.item));
                assert(unspanned(a)->Object_0[i] == unspanned(b)->Object_0[i]);
                assert(unspanned(a)->Object_0[i].0.item == o1[i].0.item);
                assert(unspanned(b)->Object_0[i].0.item == o2[i].0.item);
                assert(unspanned(a)->Object_0[i].1.item == unspanned(o1[i].1.item));
                assert(unspanned(b)->Object_0[i].1.item == unspanned(o2[i].1.item));
                assert(o1[i].0.item == o2[i].0.item);
                assert(unspanned(o1[i].1.item) == unspanned(o2[i].1.item));
                lemma_unlocated_eq_ignores_spans(o1[i].1.item, o2[i].1.item);
                assert(0 <= i < o2.len() && o2[i].0.item == o1[i].0.item && unloc_eq(
                    o1[i].1.item,
                    o2[i].1.item,
                ));
            }
        }
        (ValueModel::Null, _) => {
            assert(unspanned(a) is Null);
        }
        (ValueModel::Scalar(x), _) => {
            assert(unspanned(a) is Scalar);
        }
        (ValueModel::Enum(x), _) => {
            assert(unspanned(a) is Enum);
        }
        (ValueModel::Variable(x), _) => {
            assert(unspanned(a) is Variable);
        }
        _ => {}
    }
}

/// Every variable name of a list element occurs among the list's variable
/// names; if the latter are none, each element is variable-free.
proof fn lemma_ref_vars_list_parts<M>(items: Seq<SpannedModel<ValueModel<M>>>, j: int)
    requires
        0 <= j < items.len(),
        ref_vars_list(items).len() == 0,
    ensures
        ref_vars(items[j].item).len() == 0,
    decreases j,
{
    if j > 0 {
        lemma_ref_vars_list_parts(items.drop_first(), j - 1);
        assert(items.drop_first()[j - 1] == items[j]);
    }
}

/// Every variable name of an object entry's value occurs among the
/// object's variable names; if the latter are none, each value is
/// variable-free.
proof fn lemma_ref_vars_object_parts<M>(
    entries: Seq<(SpannedModel<Seq<char>>, SpannedModel<ValueModel<M>>)>,
    j: int,
)
    requires
        0 <= j < entries.len(),
        ref_vars_object(entries).len() == 0,
    ensures
        ref_vars(entries[j].1.item).len() == 0,
    decreases j,
{
    if j > 0 {
        lemma_ref_vars_object_parts(entries.drop_first(), j - 1);
        assert(entries.drop_first()[j - 1] == entries[j]);
    }
}

/// Folding the entries of an object whose values all fold to themselves
/// keeps the entries unchanged.
proof fn lemma_object_fold_id<M>(
    entries: Seq<(SpannedModel<Seq<char>>, SpannedModel<ValueModel<M>>)>,
    vars: Seq<(Seq<char>, ValueModel<M>)>,
)
    requires
        forall|k: int| 0 <= k < entries.len() ==> const_fold((#[trigger] entries[k]).1.item, vars)
            == Some(entries[k].1.item),
    ensures
        object_fold(entries, vars) == entries,
    decreases entries.len(),
{
    if entries.len() > 0 {
        assert forall|k: int| 0 <= k < entries.drop_first().len() implies const_fold(
            (#[trigger] entries.drop_first()[k]).1.item,
            vars,
        ) == Some(entries.drop_first()[k].1.item) by {
            assert(entries.drop_first()[k] == entries[k + 1]);
        }
        lemma_object_fold_id(entries.drop_first(), vars);
        assert(entries[0].1 == SpannedModel { item: entries[0].1.item, span: entries[0].1.span });
        assert(object_fold(entries, vars) =~= entries);
    }
}

/// Folding a variable-free value is the identity: if a value references no
/// variables, folding it against any bindings returns the value unchanged.
pub proof fn lemma_fold_variable_free<M>(v: ValueModel<M>, vars: Seq<(Seq<char>, ValueModel<M>)>)
    requires
        ref_vars(v).len() == 0,
    ensures
        const_fold(v, vars) == Some(v),
    decreases v,
{
    match v {
        ValueModel::List(items) => {
            assert forall|i: int| 0 <= i < items.len() implies const_fold(
                (#[trigger] items[i]).item,
                vars,
            ) == Some(items[i].item) by {
                assert(decreases_to!(v => v->List_0));
                assert(decreases_to!(v->List_0 => v->List_0[i]));
                assert(decreases_to!(v->List_0[i] => v->List_0[i].item));
                lemma_ref_vars_list_parts(items, i);
                lemma_fold_variable_free(items[i].item, vars);
            }
            assert(const_fold(v, vars)->0->List_0 =~= items);
        }
        ValueModel::Object(entries) => {
            assert forall|i: int| 0 <= i < entries.len() implies const_fold(
                (#[trigger] entries[i]).1.item,
                vars,
            ) == Some(entries[i].1.item) by {
                assert(decreases_to!(v => v->Object_0));
                assert(decreases_to!(v->Object_0 => v->Object_0[i]));
                assert(decreases_to!(v->Object_0[i] => v->Object_0[i].1.item));
                lemma_ref_vars_object_parts(entries, i);
                lemma_fold_variable_free(entries[i].1.item, vars);
            }
            lemma_object_fold_id(entries, vars);
        }
        _ => {}
    }
}

/// Folding never changes the length of a list: it always succeeds on a
/// list, and the folded list has exactly as many elements as the input.
pub proof fn lemma_fold_list_length<M>(
    items: Seq<SpannedModel<ValueModel<M>>>,
    vars: Seq<(Seq<char>, ValueModel<M>)>,
)
    ensures
        const_fold(ValueModel::List(items), vars) is Some,
        const_fold(ValueModel::List(items), vars)->0->List_0.len() == items.len(),
{
}

/// Folding an object never invents entries: it always succeeds on an
/// object, and every entry of the folded object carries the key of some
/// input entry and the folded value of that entry.
pub proof fn lemma_fold_object_subset<M>(
    entries: Seq<(SpannedModel<Seq<char>>, SpannedModel<ValueModel<M>>)>,
    vars: Seq<(Seq<char>, ValueModel<M>)>,
)
    ensures
        const_fold(ValueModel::Object(entries), vars) is Some,
        forall|j: int|
            0 <= j < object_fold(entries, vars).len() ==> exists|i: int|
                0 <= i < entries.len() && (#[trigger] object_fold(entries, vars)[j]).0
                    == entries[i].0 && const_fold(entries[i].1.item, vars)
                    == Some(object_fold(entries, vars)[j].1.item),
    decreases entries.len(),
{
    let folded = object_fold(entries, vars);
    if entries.len() > 0 {
        lemma_fold_object_subset(entries.drop_first(), vars);
        let rest = object_fold(entries.drop_first(), vars);
        assert forall|j: int| 0 <= j < folded.len() implies exists|i: int|
            0 <= i < entries.len() && (#[trigger] folded[j]).0 == entries[i].0 && const_fold(
                entries[i].1.item,
                vars,
            ) == Some(folded[j].1.item) by {
            match const_fold(entries[0].1.item, vars) {
                Some(m) => {
                    if j == 0 {
                        assert(folded[0].0 == entries[0].0 && const_fold(entries[0].1.item, vars)
                            == Some(folded[0].1.item));
                    } else {
                        assert(folded[j] == rest[j - 1]);
                        let i0 = choose|i0: int|
                            0 <= i0 < entries.drop_first().len() && (#[trigger] rest[j - 1]).0
                                == entries.drop_first()[i0].0 && const_fold(
                                entries.drop_first()[i0].1.item,
                                vars,
                            ) == Some(rest[j - 1].1.item);
                        assert(entries.drop_first()[i0] == entries[i0 + 1]);
                        assert(0 <= i0 + 1 < entries.len() && folded[j].0 == entries[i0 + 1].0
                            && const_fold(entries[i0 + 1].1.item, vars)
                            == Some(folded[j].1.item));
                    }
                }
                None => {
                    assert(folded[j] == rest[j]);
                    let i0 = choose|i0: int|
                        0 <= i0 < entries.drop_first().len() && (#[trigger] rest[j]).0
                            == entries.drop_first()[i0].0 && const_fold(
                            entries.drop_first()[i0].1.item,
                            vars,
                        ) == Some(rest[j].1.item);
                    assert(entries.drop_first()[i0] == entries[i0 + 1]);
                    assert(0 <= i0 + 1 < entries.len() && folded[j].0 == entries[i0 + 1].0
                        && const_fold(entries[i0 + 1].1.item, vars) == Some(folded[j].1.item));
                }
            }
        }
    }
}

} // verus!

verus! {

/// The string a scalar value model holds, if it is a string scalar.
pub open spec fn scalar_string<S: ScalarValue>(m: ValueModel<S::M>) -> Option<Seq<char>> {
    match m {
        ValueModel::Scalar(sm) => S::as_str_model(sm),
        _ => None,
    }
}

/// Parsing of an unstructured [`InputValue`] into a Rust data type.
///
/// The conversion can fail; the error kind is fully defined by the
/// implementing type, and this crate merely propagates it. `accepts` decides
/// on which value models the conversion succeeds and `parsed` gives the
/// parsed result on those.
pub trait FromInputValue<S: ScalarValue>: Sized {
    /// Type of this conversion's error.
    type Error;

    /// On which value models the conversion succeeds.
    spec fn accepts(m: ValueModel<S::M>) -> bool;

    /// What the conversion yields on an accepted value model.
    spec fn parses_to(m: ValueModel<S::M>, t: Self) -> bool;

    /// Which error the conversion reports on a rejected value model.
    spec fn rejects_with(m: ValueModel<S::M>, e: Self::Error) -> bool;

    /// Performs the conversion.
    fn from_input_value(v: &InputValue<S>) -> (r: Result<Self, Self::Error>)
        ensures
            match r {
                Ok(t) => Self::accepts(value_model(*v)) && Self::parses_to(value_model(*v), t),
                Err(e) => !Self::accepts(value_model(*v)) && Self::rejects_with(
                    value_model(*v),
                    e,
                ),
            },
    ;

    /// Performs the conversion from an absent value, so that an implementer
    /// can distinguish an omitted value from an explicit `null`.
    ///
    /// The default implementation treats the absent value exactly as an
    /// explicit `null`.
    fn from_implicit_null() -> (r: Result<Self, Self::Error>)
        ensures
            match r {
                Ok(t) => Self::accepts(ValueModel::Null) && Self::parses_to(ValueModel::Null, t),
                Err(e) => !Self::accepts(ValueModel::Null) && Self::rejects_with(
                    ValueModel::Null,
                    e,
                ),
            },
    {
        Self::from_input_value(&InputValue::<S>::Null)
    }
}

/// Losslessly renders a Rust data type as an [`InputValue`].
pub trait ToInputValue<S: ScalarValue> {
    /// Model of the value this data renders as.
    spec fn to_model(&self) -> ValueModel<S::M>;

    /// Performs the conversion.
    fn to_input_value(&self) -> (r: InputValue<S>)
        ensures
            value_model(r) == self.to_model(),
    ;
}

/// Consuming conversion into an [`InputValue`].
///
/// Only types cheaply representable as a single scalar get such a
/// conversion; containers and composites are converted entry by entry by
/// their caller. `Option` maps an absent value to `null`.
pub trait IntoInputValue<S: ScalarValue>: Sized {
    /// Model of the value this data converts to.
    spec fn into_model(self) -> ValueModel<S::M>;

    /// Performs the conversion.
    fn into_input_value(self) -> (r: InputValue<S>)
        ensures
            value_model(r) == self.into_model(),
    ;
}

impl<S: ScalarValue> IntoInputValue<S> for InputValue<S> {
    open spec fn into_model(self) -> ValueModel<S::M> {
        value_model(self)
    }

    fn into_input_value(self) -> (r: InputValue<S>) {
        self
    }
}

impl<S: ScalarValue, T: IntoInputValue<S>> IntoInputValue<S> for Option<T> {
    open spec fn into_model(self) -> ValueModel<S::M> {
        match self {
            Some(v) => v.into_model(),
            None => ValueModel::Null,
        }
    }

    fn into_input_value(self) -> (r: InputValue<S>) {
        match self {
            Some(v) => v.into_input_value(),
            None => InputValue::Null,
        }
    }
}

impl<S: ScalarValue> IntoInputValue<S> for String {
    open spec fn into_model(self) -> ValueModel<S::M> {
        ValueModel::Scalar(S::str_model(self@))
    }

    fn into_input_value(self) -> (r: InputValue<S>) {
        InputValue::Scalar(S::from_string(self))
    }
}

impl<S: ScalarValue> IntoInputValue<S> for i32 {
    open spec fn into_model(self) -> ValueModel<S::M> {
        ValueModel::Scalar(S::int_model(self))
    }

    fn into_input_value(self) -> (r: InputValue<S>) {
        InputValue::Scalar(S::from_int(self))
    }
}

impl<S: ScalarValue> IntoInputValue<S> for bool {
    open spec fn into_model(self) -> ValueModel<S::M> {
        ValueModel::Scalar(S::bool_model(self))
    }

    fn into_input_value(self) -> (r: InputValue<S>) {
        InputValue::Scalar(S::from_bool(self))
    }
}

impl<S: ScalarValue> InputValue<S> {
    /// Shorthand form of invoking [`FromInputValue::from_input_value`].
    pub fn convert<T: FromInputValue<S>>(&self) -> (r: Result<T, T::Error>)
        ensures
            match r {
                Ok(t) => T::accepts(value_model(*self)) && T::parses_to(value_model(*self), t),
                Err(e) => !T::accepts(value_model(*self)) && T::rejects_with(
                    value_model(*self),
                    e,
                ),
            },
    {
        T::from_input_value(self)
    }
}

} // verus!

verus! {

#[verifier::external_type_specification]
#[verifier::external_body]
pub struct ExArcStr(arcstr::ArcStr);

/// The characters a shared `arcstr` string holds.
pub uninterp spec fn arcstr_text(s: arcstr::ArcStr) -> Seq<char>;

/// Relies on `arcstr::ArcStr::as_str`: the slice of the shared string's
/// characters.
#[verifier::external_body]
fn arcstr_as_str(s: &arcstr::ArcStr) -> (r: &str)
    ensures
        r@ == arcstr_text(*s),
{
    s.as_str()
}

impl<S: ScalarValue> IntoInputValue<S> for arcstr::ArcStr {
    open spec fn into_model(self) -> ValueModel<S::M> {
        ValueModel::Scalar(S::str_model(arcstr_text(self)))
    }

    fn into_input_value(self) -> (r: InputValue<S>) {
        let t: String = arcstr_as_str(&self).to_owned();
        InputValue::Scalar(S::from_string(t))
    }
}

} // verus!

verus! {

impl<S: ScalarValue> PartialEq for InputValue<S> {
    /// Structural equality over the payload: scalars compare by model,
    /// lists and objects pairwise in order, and spans never participate.
    #[verifier::loop_isolation(false)]
    fn eq(&self, other: &Self) -> (r: bool)
        ensures
            r == (unspanned(value_model(*self)) == unspanned(value_model(*other))),
        decreases *self,
    {
        match (self, other) {
            (InputValue::Null, InputValue::Null) => true,
            (InputValue::Scalar(x), InputValue::Scalar(y)) => x.sv_eq(y),
            (InputValue::Enum(x), InputValue::Enum(y)) => crate::scalar::str_eq(
                x.as_str(),
                y.as_str(),
            ),
            (InputValue::Variable(x), InputValue::Variable(y)) => crate::scalar::str_eq(
                x.as_str(),
                y.as_str(),
            ),
            (InputValue::List(l1), InputValue::List(l2)) => {
                let ghost u1 = unspanned(value_model(*self))->List_0;
                let ghost u2 = unspanned(value_model(*other))->List_0;
                if l1.len() != l2.len() {
                    proof {
                        assert(u1.len() != u2.len());
                    }
                    return false;
                }
                let mut i: usize = 0;
                while i < l1.len()
                    invariant
                        i <= l1@.len(),
                        forall|j: int| 0 <= j < i as int ==> (#[trigger] u1[j]).item == u2[j].item,
                    decreases l1@.len() - i,
                {
                    proof {
                        assert(decreases_to!(*self => self->List_0));
                        assert(decreases_to!(self->List_0 => self->List_0@));
                        assert(decreases_to!(self->List_0@ => self->List_0@[i as int]));
                        assert(decreases_to!(self->List_0@[i as int]
                            => self->List_0@[i as int].item));
                        assert(u1[i as int].item == unspanned(value_model(l1@[i as int].item)));
                        assert(u2[i as int].item == unspanned(value_model(l2@[i as int].item)));
                    }
                    if !l1[i].item.eq(&l2[i].item) {
                        proof {
                            assert(u1[i as int] != u2[i as int]);
                        }
                        return false;
                    }
                    i += 1;
                }
                proof {
                    assert(u1 =~= u2);
                }
                true
            }
            (InputValue::Object(o1), InputValue::Object(o2)) => {
                let ghost u1 = unspanned(value_model(*self))->Object_0;
                let ghost u2 = unspanned(value_model(*other))->Object_0;
                if o1.len() != o2.len() {
                    proof {
                        assert(u1.len() != u2.len());
                    }
                    return false;
                }
                let mut i: usize = 0;
                while i < o1.len()
                    invariant
                        i <= o1@.len(),
                        forall|j: int| 0 <= j < i as int ==> (#[trigger] u1[j]).0.item
                            == u2[j].0.item && u1[j].1.item == u2[j].1.item,
                    decreases o1@.len() - i,
                {
                    proof {
                        assert(decreases_to!(*self => self->Object_0));
                        assert(decreases_to!(self->Object_0 => self->Object_0@));
                        assert(decreases_to!(self->Object_0@ => self->Object_0@[i as int]));
                        assert(decreases_to!(self->Object_0@[i as int]
                            => self->Object_0@[i as int].1.item));
                        assert(u1[i as int].0.item == o1@[i as int].0.item@);
                        assert(u2[i as int].0.item == o2@[i as int].0.item@);
                        assert(u1[i as int].1.item == unspanned(value_model(o1@[i as int].1.item)));
                        assert(u2[i as int].1.item == unspanned(value_model(o2@[i as int].1.item)));
                    }
                    if !crate::scalar::str_eq(o1[i].0.item.as_str(), o2[i].0.item.as_str()) {
                        proof {
                            assert(u1[i as int] != u2[i as int]);
                        }
                        return false;
                    }
                    if !o1[i].1.item.eq(&o2[i].1.item) {
                        proof {
                            assert(u1[i as int] != u2[i as int]);
                        }
                        return false;
                    }
                    i += 1;
                }
                proof {
                    assert(u1 =~= u2);
                }
                true
            }
            _ => {
                proof {
                    assert(unspanned(value_model(*self)) != unspanned(value_model(*other)));
                }
                false
            }
        }
    }
}

impl<S: ScalarValue> vstd::std_specs::cmp::PartialEqSpecImpl for InputValue<S> {
    open spec fn obeys_eq_spec() -> bool {
        true
    }

    open spec fn eq_spec(&self, other: &Self) -> bool {
        unspanned(value_model(*self)) == unspanned(value_model(*other))
    }
}

} // verus!
