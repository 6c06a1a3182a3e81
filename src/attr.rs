use vstd::prelude::*;

verus! {

/// What an attribute visitor is shown for one attribute, as mathematical values.
pub struct AttrEvent {
    pub name: Seq<char>,
    pub value: Seq<char>,
    pub fixed: bool,
}

/// An attribute: a literal name with a value that is either a literal or
/// supplied at runtime.
pub trait Attr {
    /// True when the value is a literal that never varies across renders.
    spec fn value_fixed() -> bool;

    spec fn name(&self) -> Seq<char>;

    spec fn value(&self) -> Seq<char>;

    fn is_value_static(&self) -> (r: bool)
        ensures
            r == Self::value_fixed(),
    ;

    fn attr_name(&self) -> (r: &str)
        ensures
            r@ == self.name(),
    ;

    fn attr_value(&self) -> (r: &str)
        ensures
            r@ == self.value(),
    ;
}

/// The event that an attribute visitor receives for an attribute.
pub open spec fn attr_event<A: Attr>(a: &A) -> AttrEvent {
    AttrEvent { name: a.name(), value: a.value(), fixed: A::value_fixed() }
}

/// Whether a current attribute may be diffed against an ancestor one: the same
/// name and staticness, and the same literal value when the value is static.
pub open spec fn attr_consistent(curr: AttrEvent, ancestor: AttrEvent) -> bool {
    &&& curr.name == ancestor.name
    &&& curr.fixed == ancestor.fixed
    &&& curr.fixed ==> curr.value == ancestor.value
}

pub open spec fn attrs_agree(curr: Seq<AttrEvent>, ancestor: Seq<AttrEvent>) -> bool {
    &&& curr.len() == ancestor.len()
    &&& forall|i: int| 0 <= i < curr.len() ==> #[trigger] attr_consistent(curr[i], ancestor[i])
}

pub open spec fn attr_pair_up(curr: Seq<AttrEvent>, ancestor: Seq<AttrEvent>) -> Seq<
    (AttrEvent, AttrEvent),
> {
    Seq::new(curr.len(), |i: int| (curr[i], ancestor[i]))
}

pub trait AttrVisitor {
    /// The attributes this visitor has been handed, oldest first. An
    /// implementation that is verified defines it as its record of the
    /// callbacks it received.
    open spec fn trace(&self) -> Seq<AttrEvent> {
        Seq::empty()
    }

    fn on_attr<A: Attr>(&mut self, attr: &A)
        ensures
            final(self).trace() == old(self).trace().push(attr_event(attr)),
    ;
}

pub trait AttrDiffer {
    /// The (current, ancestor) pairs this differ has been handed, oldest first.
    /// An implementation that is verified defines it as its record of the
    /// callbacks it received.
    open spec fn trace(&self) -> Seq<(AttrEvent, AttrEvent)> {
        Seq::empty()
    }

    fn on_attr<A: Attr>(&mut self, curr: &A, ancestor: &A)
        ensures
            final(self).trace() == old(self).trace().push((attr_event(curr), attr_event(ancestor))),
    ;
}

pub struct AttrStatic {
    name: &'static str,
    value: &'static str,
}

impl AttrStatic {
    pub fn new(name: &'static str, value: &'static str) -> (r: AttrStatic)
        ensures
            r.name() == name@,
            r.value() == value@,
    {
        AttrStatic { name, value }
    }
}

impl Attr for AttrStatic {
    open spec fn value_fixed() -> bool {
        true
    }

    closed spec fn name(&self) -> Seq<char> {
        self.name@
    }

    closed spec fn value(&self) -> Seq<char> {
        self.value@
    }

    fn is_value_static(&self) -> (r: bool) {
        true
    }

    fn attr_name(&self) -> (r: &str) {
        self.name
    }

    fn attr_value(&self) -> (r: &str) {
        self.value
    }
}

pub struct AttrDyn {
    name: &'static str,
    value: String,
}

impl AttrDyn {
    pub fn new(name: &'static str, value: String) -> (r: AttrDyn)
        ensures
            r.name() == name@,
            r.value() == value@,
    {
        AttrDyn { name, value }
    }
}

impl Attr for AttrDyn {
    open spec fn value_fixed() -> bool {
        false
    }

    closed spec fn name(&self) -> Seq<char> {
        self.name@
    }

    closed spec fn value(&self) -> Seq<char> {
        self.value@
    }

    fn is_value_static(&self) -> (r: bool) {
        false
    }

    fn attr_name(&self) -> (r: &str) {
        self.name
    }

    fn attr_value(&self) -> (r: &str) {
        self.value.as_str()
    }
}

pub trait AttrList {
    /// How many attributes a list of this type holds: a property of the type alone.
    spec fn arity() -> nat;

    /// The events of the list's attributes in declaration order.
    spec fn events(&self) -> Seq<AttrEvent>;

    proof fn lemma_events_len(&self)
        ensures
            self.events().len() == Self::arity(),
    ;

    fn visit<V: AttrVisitor>(&self, visitor: &mut V)
        ensures
            final(visitor).trace() == old(visitor).trace() + self.events(),
    ;

    fn diff<D: AttrDiffer>(&self, ancestor: &Self, differ: &mut D)
        requires
            attrs_agree(self.events(), ancestor.events()),
        ensures
            final(differ).trace() == old(differ).trace() + attr_pair_up(
                self.events(),
                ancestor.events(),
            ),
    ;
}

/// Every attribute list may be diffed against itself, and the differ is then
/// handed each attribute's event paired with itself, in declaration order.
pub proof fn lemma_attrs_diff_self<L: AttrList>(l: &L)
    ensures
        attrs_agree(l.events(), l.events()),
        attr_pair_up(l.events(), l.events()) == l.events().map_values(|e: AttrEvent| (e, e)),
{
    assert(attr_pair_up(l.events(), l.events()) =~= l.events().map_values(
        |e: AttrEvent| (e, e),
    ));
}

/// No attributes at all.
impl AttrList for () {
    open spec fn arity() -> nat {
        0
    }

    open spec fn events(&self) -> Seq<AttrEvent> {
        Seq::empty()
    }

    proof fn lemma_events_len(&self) {
    }

    fn visit<V: AttrVisitor>(&self, visitor: &mut V) {
        assert(old(visitor).trace() + self.events() =~= old(visitor).trace());
    }

    fn diff<D: AttrDiffer>(&self, ancestor: &Self, differ: &mut D) {
        assert(old(differ).trace() + attr_pair_up(self.events(), ancestor.events())
            =~= old(differ).trace());
    }
}

/// A list of one attribute.
pub struct AttrListEntry<A>(A);

impl<A: Attr> AttrListEntry<A> {
    pub fn new(attr: A) -> (r: AttrListEntry<A>)
        ensures
            r.events() == seq![attr_event(&attr)],
    {
        AttrListEntry(attr)
    }
}

impl<A: Attr> AttrList for AttrListEntry<A> {
    open spec fn arity() -> nat {
        1
    }

    closed spec fn events(&self) -> Seq<AttrEvent> {
        seq![attr_event(&self.0)]
    }

    proof fn lemma_events_len(&self) {
    }

    fn visit<V: AttrVisitor>(&self, visitor: &mut V) {
        visitor.on_attr(&self.0);
        assert(final(visitor).trace() =~= old(visitor).trace() + self.events());
    }

    fn diff<D: AttrDiffer>(&self, ancestor: &Self, differ: &mut D) {
        differ.on_attr(&self.0, &ancestor.0);
        assert(attr_pair_up(self.events(), ancestor.events()) =~= seq![
            (attr_event(&self.0), attr_event(&ancestor.0)),
        ]);
    }
}

/// Two attribute lists one after the other: the left one first.
impl<L1: AttrList, L2: AttrList> AttrList for (L1, L2) {
    open spec fn arity() -> nat {
        L1::arity() + L2::arity()
    }

    open spec fn events(&self) -> Seq<AttrEvent> {
        self.0.events() + self.1.events()
    }

    proof fn lemma_events_len(&self) {
        self.0.lemma_events_len();
        self.1.lemma_events_len();
    }

    fn visit<V: AttrVisitor>(&self, visitor: &mut V) {
        self.0.visit(visitor);
        self.1.visit(visitor);
        assert(final(visitor).trace() =~= old(visitor).trace() + self.events());
    }

    fn diff<D: AttrDiffer>(&self, ancestor: &Self, differ: &mut D) {
        proof {
            self.0.lemma_events_len();
            ancestor.0.lemma_events_len();
            let (c1, c2, a1, a2) = (
                self.0.events(),
                self.1.events(),
                ancestor.0.events(),
                ancestor.1.events(),
            );
            assert forall|i: int| 0 <= i < c1.len() implies #[trigger] attr_consistent(
                c1[i],
                a1[i],
            ) by {
                assert(attr_consistent((c1 + c2)[i], (a1 + a2)[i]));
            }
            assert forall|i: int| 0 <= i < c2.len() implies #[trigger] attr_consistent(
                c2[i],
                a2[i],
            ) by {
                assert(attr_consistent((c1 + c2)[c1.len() + i], (a1 + a2)[c1.len() + i]));
            }
        }
        self.0.diff(&ancestor.0, differ);
        self.1.diff(&ancestor.1, differ);
        assert(final(differ).trace() =~= old(differ).trace() + attr_pair_up(
            self.events(),
            ancestor.events(),
        ));
    }
}

} // verus!
