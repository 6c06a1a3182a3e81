use vstd::prelude::*;

use crate::attr::{AttrDiffer, AttrEvent, AttrList, AttrVisitor, attr_pair_up, attrs_agree};

verus! {

/// What a visitor is shown by one node callback, as mathematical values.
pub enum Event {
    Tag { name: Seq<char>, fixed: bool },
    Text { content: Seq<char>, fixed: bool },
}

/// The event that a visitor receives for a text leaf.
pub open spec fn text_event<T: Text>(t: &T) -> Event {
    Event::Text { content: t.content(), fixed: T::content_fixed() }
}

/// Whether a current leaf may be diffed against an ancestor leaf: both are of
/// the same kind and staticness, and a static leaf holds the same literal.
pub open spec fn consistent(curr: Event, ancestor: Event) -> bool {
    match (curr, ancestor) {
        (Event::Tag { name: a, fixed: fa }, Event::Tag { name: b, fixed: fb }) => fa == fb && (fa
            ==> a == b),
        (Event::Text { content: a, fixed: fa }, Event::Text { content: b, fixed: fb }) => fa == fb
            && (fa ==> a == b),
        _ => false,
    }
}

/// Two snapshots of one list agree when they have the same length and every
/// position is consistent.
pub open spec fn agree(curr: Seq<Event>, ancestor: Seq<Event>) -> bool {
    &&& curr.len() == ancestor.len()
    &&& forall|i: int| 0 <= i < curr.len() ==> #[trigger] consistent(curr[i], ancestor[i])
}

/// The pairs a differ receives for two snapshots, position by position.
pub open spec fn pair_up(curr: Seq<Event>, ancestor: Seq<Event>) -> Seq<(Event, Event)> {
    Seq::new(curr.len(), |i: int| (curr[i], ancestor[i]))
}

/// A consumer of one snapshot: one callback per visited tag or text leaf.
pub trait NodeVisitor {
    /// The events this visitor has been handed, oldest first. An implementation
    /// that is verified defines it as its record of the callbacks it received.
    open spec fn trace(&self) -> Seq<Event> {
        Seq::empty()
    }

    fn on_tag<T: TagName>(&mut self, tag: &T)
        ensures
            final(self).trace() == old(self).trace().push(tag_event(tag)),
    ;

    fn on_text<T: Text>(&mut self, text: &T)
        ensures
            final(self).trace() == old(self).trace().push(text_event(text)),
    ;
}

/// A consumer of a snapshot paired with its ancestor: one callback per diffed
/// tag or text leaf, with the current value first.
pub trait NodeDiffer {
    /// The (current, ancestor) pairs this differ has been handed, oldest first.
    /// An implementation that is verified defines it as its record of the
    /// callbacks it received.
    open spec fn trace(&self) -> Seq<(Event, Event)> {
        Seq::empty()
    }

    fn on_tag<T: TagName>(&mut self, curr: &T, ancestor: &T)
        ensures
            final(self).trace() == old(self).trace().push((tag_event(curr), tag_event(ancestor))),
    ;

    fn on_text<T: Text>(&mut self, curr: &T, ancestor: &T)
        ensures
            final(self).trace() == old(self).trace().push((text_event(curr), text_event(ancestor))),
    ;
}

/// A tag or a text leaf. `visit` hands the node to one visitor callback, `diff`
/// hands the node and its ancestor to one differ callback. A node whose name or
/// content is static may only be diffed against an ancestor holding the same
/// literal: callers prove this, so no check is made at runtime.
pub trait Node {
    /// The event this node hands to a visitor.
    spec fn event(&self) -> Event;

    fn visit<V: NodeVisitor>(&self, visitor: &mut V)
        ensures
            final(visitor).trace() == old(visitor).trace().push(self.event()),
    ;

    fn diff<D: NodeDiffer>(&self, ancestor: &Self, differ: &mut D)
        requires
            consistent(self.event(), ancestor.event()),
        ensures
            final(differ).trace() == old(differ).trace().push((self.event(), ancestor.event())),
    ;
}

/// The name of an element: what a visitor callback is handed for a tag.
/// It stands apart from `Tag` because the traversal methods of `Tag` are bounded
/// by the visitor traits, and Verus refuses a cycle between trait bounds.
pub trait TagName {
    /// True when the name is a literal that never varies across renders.
    spec fn tag_fixed() -> bool;

    spec fn name(&self) -> Seq<char>;

    fn is_tag_static(&self) -> (r: bool)
        ensures
            r == Self::tag_fixed(),
    ;

    fn tag(&self) -> (r: &str)
        ensures
            r@ == self.name(),
    ;
}

/// An element with a name, a child list and an attribute list. Visiting or
/// diffing a tag never enters its children or attributes: the consumer asks for
/// that explicitly.
pub trait Tag: TagName {
    /// The events of the children, in declaration order.
    spec fn children_events(&self) -> Seq<Event>;

    /// The events of the attributes, in declaration order.
    spec fn attr_events(&self) -> Seq<AttrEvent>;

    fn visit_children<V: NodeVisitor>(&self, visitor: &mut V)
        ensures
            final(visitor).trace() == old(visitor).trace() + self.children_events(),
    ;

    fn diff_children<D: NodeDiffer>(&self, ancestor: &Self, differ: &mut D)
        requires
            agree(self.children_events(), ancestor.children_events()),
        ensures
            final(differ).trace() == old(differ).trace() + pair_up(
                self.children_events(),
                ancestor.children_events(),
            ),
    ;

    fn visit_attr<V: AttrVisitor>(&self, visitor: &mut V)
        ensures
            final(visitor).trace() == old(visitor).trace() + self.attr_events(),
    ;

    fn diff_attr<D: AttrDiffer>(&self, ancestor: &Self, differ: &mut D)
        requires
            attrs_agree(self.attr_events(), ancestor.attr_events()),
        ensures
            final(differ).trace() == old(differ).trace() + attr_pair_up(
                self.attr_events(),
                ancestor.attr_events(),
            ),
    ;
}

/// A tag whose name is a literal.
pub struct TagStatic<C, A> {
    tag: &'static str,
    children: C,
    attrs: A,
}

impl<C: NodeList, A: AttrList> TagStatic<C, A> {
    pub fn new(tag: &'static str, children: C, attrs: A) -> (r: TagStatic<C, A>)
        ensures
            r.name() == tag@,
            r.children_events() == children.events(),
            r.attr_events() == attrs.events(),
    {
        TagStatic { tag, children, attrs }
    }
}

impl<C, A> TagName for TagStatic<C, A> {
    open spec fn tag_fixed() -> bool {
        true
    }

    closed spec fn name(&self) -> Seq<char> {
        self.tag@
    }

    fn is_tag_static(&self) -> (r: bool) {
        true
    }

    fn tag(&self) -> (r: &str) {
        self.tag
    }
}

impl<C: NodeList, A: AttrList> Tag for TagStatic<C, A> {
    closed spec fn children_events(&self) -> Seq<Event> {
        self.children.events()
    }

    closed spec fn attr_events(&self) -> Seq<AttrEvent> {
        self.attrs.events()
    }

    fn visit_children<V: NodeVisitor>(&self, visitor: &mut V) {
        self.children.visit(visitor);
    }

    fn diff_children<D: NodeDiffer>(&self, ancestor: &Self, differ: &mut D) {
        self.children.diff(&ancestor.children, differ);
    }

    fn visit_attr<V: AttrVisitor>(&self, visitor: &mut V) {
        self.attrs.visit(visitor);
    }

    fn diff_attr<D: AttrDiffer>(&self, ancestor: &Self, differ: &mut D) {
        self.attrs.diff(&ancestor.attrs, differ);
    }
}

impl<C: NodeList, A: AttrList> Node for TagStatic<C, A> {
    open spec fn event(&self) -> Event {
        tag_event(self)
    }

    fn visit<V: NodeVisitor>(&self, visitor: &mut V) {
        visitor.on_tag(self);
    }

    fn diff<D: NodeDiffer>(&self, ancestor: &Self, differ: &mut D) {
        differ.on_tag(self, ancestor);
    }
}

/// A tag whose name is supplied at runtime and may change between renders.
pub struct TagDyn<C, A> {
    tag: String,
    children: C,
    attrs: A,
}

impl<C: NodeList, A: AttrList> TagDyn<C, A> {
    pub fn new(tag: String, children: C, attrs: A) -> (r: TagDyn<C, A>)
        ensures
            r.name() == tag@,
            r.children_events() == children.events(),
            r.attr_events() == attrs.events(),
    {
        TagDyn { tag, children, attrs }
    }
}

impl<C, A> TagName for TagDyn<C, A> {
    open spec fn tag_fixed() -> bool {
        false
    }

    closed spec fn name(&self) -> Seq<char> {
        self.tag@
    }

    fn is_tag_static(&self) -> (r: bool) {
        false
    }

    fn tag(&self) -> (r: &str) {
        self.tag.as_str()
    }
}

impl<C: NodeList, A: AttrList> Tag for TagDyn<C, A> {
    closed spec fn children_events(&self) -> Seq<Event> {
        self.children.events()
    }

    closed spec fn attr_events(&self) -> Seq<AttrEvent> {
        self.attrs.events()
    }

    fn visit_children<V: NodeVisitor>(&self, visitor: &mut V) {
        self.children.visit(visitor);
    }

    fn diff_children<D: NodeDiffer>(&self, ancestor: &Self, differ: &mut D) {
        self.children.diff(&ancestor.children, differ);
    }

    fn visit_attr<V: AttrVisitor>(&self, visitor: &mut V) {
        self.attrs.visit(visitor);
    }

    fn diff_attr<D: AttrDiffer>(&self, ancestor: &Self, differ: &mut D) {
        self.attrs.diff(&ancestor.attrs, differ);
    }
}

impl<C: NodeList, A: AttrList> Node for TagDyn<C, A> {
    open spec fn event(&self) -> Event {
        tag_event(self)
    }

    fn visit<V: NodeVisitor>(&self, visitor: &mut V) {
        visitor.on_tag(self);
    }

    fn diff<D: NodeDiffer>(&self, ancestor: &Self, differ: &mut D) {
        differ.on_tag(self, ancestor);
    }
}

/// The event that a visitor receives for a tag.
pub open spec fn tag_event<T: TagName>(t: &T) -> Event {
    Event::Tag { name: t.name(), fixed: T::tag_fixed() }
}

/// A text leaf.
pub trait Text {
    /// True when the content is a literal that never varies across renders.
    spec fn content_fixed() -> bool;

    spec fn content(&self) -> Seq<char>;

    fn is_static(&self) -> (r: bool)
        ensures
            r == Self::content_fixed(),
    ;

    fn get(&self) -> (r: &str)
        ensures
            r@ == self.content(),
    ;
}

/// A text leaf whose content is a literal.
pub struct TextStatic(&'static str);

impl TextStatic {
    pub fn new(content: &'static str) -> (r: TextStatic)
        ensures
            r.content() == content@,
    {
        TextStatic(content)
    }
}

impl Text for TextStatic {
    open spec fn content_fixed() -> bool {
        true
    }

    closed spec fn content(&self) -> Seq<char> {
        self.0@
    }

    fn is_static(&self) -> (r: bool) {
        true
    }

    fn get(&self) -> (r: &str) {
        self.0
    }
}

impl Node for TextStatic {
    open spec fn event(&self) -> Event {
        text_event(self)
    }

    fn visit<V: NodeVisitor>(&self, visitor: &mut V) {
        visitor.on_text(self);
    }

    fn diff<D: NodeDiffer>(&self, ancestor: &Self, differ: &mut D) {
        differ.on_text(self, ancestor);
    }
}

/// A text leaf whose content is supplied at runtime and may change between renders.
pub struct TextDyn(String);

impl TextDyn {
    pub fn new(content: String) -> (r: TextDyn)
        ensures
            r.content() == content@,
    {
        TextDyn(content)
    }
}

impl Text for TextDyn {
    open spec fn content_fixed() -> bool {
        false
    }

    closed spec fn content(&self) -> Seq<char> {
        self.0@
    }

    fn is_static(&self) -> (r: bool) {
        false
    }

    fn get(&self) -> (r: &str) {
        self.0.as_str()
    }
}

impl Node for TextDyn {
    open spec fn event(&self) -> Event {
        text_event(self)
    }

    fn visit<V: NodeVisitor>(&self, visitor: &mut V) {
        visitor.on_text(self);
    }

    fn diff<D: NodeDiffer>(&self, ancestor: &Self, differ: &mut D) {
        differ.on_text(self, ancestor);
    }
}

pub trait NodeList {
    /// How many nodes a list of this type holds: a property of the type alone.
    spec fn arity() -> nat;

    /// The events of the list's nodes in declaration order.
    spec fn events(&self) -> Seq<Event>;

    proof fn lemma_events_len(&self)
        ensures
            self.events().len() == Self::arity(),
    ;

    fn visit<V: NodeVisitor>(&self, visitor: &mut V)
        ensures
            final(visitor).trace() == old(visitor).trace() + self.events(),
    ;

    fn diff<D: NodeDiffer>(&self, ancestor: &Self, differ: &mut D)
        requires
            agree(self.events(), ancestor.events()),
        ensures
            final(differ).trace() == old(differ).trace() + pair_up(
                self.events(),
                ancestor.events(),
            ),
    ;
}

/// A list of one node.
pub struct NodeListEntry<N>(N);

impl<N: Node> NodeListEntry<N> {
    /// The node this entry holds.
    pub closed spec fn node(&self) -> N {
        self.0
    }

    pub fn new(node: N) -> (r: NodeListEntry<N>)
        ensures
            r.node() == node,
            r.events() == seq![node.event()],
    {
        NodeListEntry(node)
    }
}

impl<N: Node> NodeList for NodeListEntry<N> {
    open spec fn arity() -> nat {
        1
    }

    closed spec fn events(&self) -> Seq<Event> {
        seq![self.0.event()]
    }

    proof fn lemma_events_len(&self) {
    }

    fn visit<V: NodeVisitor>(&self, visitor: &mut V) {
        self.0.visit(visitor);
        assert(final(visitor).trace() =~= old(visitor).trace() + self.events());
    }

    fn diff<D: NodeDiffer>(&self, ancestor: &Self, differ: &mut D) {
        assert(consistent(self.events()[0], ancestor.events()[0]));
        self.0.diff(&ancestor.0, differ);
        assert(pair_up(self.events(), ancestor.events()) =~= seq![(self.0.event(), ancestor.0.event())]);
    }
}

/// Two lists one after the other: the left one first.
impl<L1: NodeList, L2: NodeList> NodeList for (L1, L2) {
    open spec fn arity() -> nat {
        L1::arity() + L2::arity()
    }

    open spec fn events(&self) -> Seq<Event> {
        self.0.events() + self.1.events()
    }

    proof fn lemma_events_len(&self) {
        self.0.lemma_events_len();
        self.1.lemma_events_len();
    }

    fn visit<V: NodeVisitor>(&self, visitor: &mut V) {
        self.0.visit(visitor);
        self.1.visit(visitor);
        assert(final(visitor).trace() =~= old(visitor).trace() + self.events());
    }

    fn diff<D: NodeDiffer>(&self, ancestor: &Self, differ: &mut D) {
        proof {
            self.0.lemma_events_len();
            ancestor.0.lemma_events_len();
            lemma_agree_split(self.0.events(), self.1.events(), ancestor.0.events(), ancestor.1.events());
        }
        self.0.diff(&ancestor.0, differ);
        self.1.diff(&ancestor.1, differ);
        proof {
            lemma_pair_up_concat(self.0.events(), self.1.events(), ancestor.0.events(), ancestor.1.events());
        }
        assert(final(differ).trace() =~= old(differ).trace() + pair_up(self.events(), ancestor.events()));
    }
}

/// Whether a tag's name or a text's content is static depends on its type
/// alone: any two values of one type, and so any two snapshots and any number
/// of calls, report the same.
pub proof fn lemma_staticness_per_type<T: TagName, X: Text>(t1: &T, t2: &T, x1: &X, x2: &X)
    ensures
        tag_event(t1)->Tag_fixed == tag_event(t2)->Tag_fixed,
        text_event(x1)->Text_fixed == text_event(x2)->Text_fixed,
        tag_event(t1)->Tag_fixed == T::tag_fixed(),
        text_event(x1)->Text_fixed == X::content_fixed(),
{
}

/// Every node may be diffed against itself, and the differ is then handed the
/// node's own event as both current and ancestor.
pub proof fn lemma_node_diff_self<N: Node>(n: &N)
    ensures
        consistent(n.event(), n.event()),
{
}

/// Every list may be diffed against itself, and the differ is then handed each
/// node's event paired with itself, in declaration order.
pub proof fn lemma_list_diff_self<L: NodeList>(l: &L)
    ensures
        agree(l.events(), l.events()),
        pair_up(l.events(), l.events()) == l.events().map_values(|e: Event| (e, e)),
{
    assert(pair_up(l.events(), l.events()) =~= l.events().map_values(|e: Event| (e, e)));
}

/// Every tag may be diffed against itself, together with its children and its
/// attributes, and each differ is then handed pairs of equal events.
pub proof fn lemma_tag_diff_self<T: Tag>(t: &T)
    ensures
        consistent(tag_event(t), tag_event(t)),
        agree(t.children_events(), t.children_events()),
        pair_up(t.children_events(), t.children_events()) == t.children_events().map_values(
            |e: Event| (e, e),
        ),
        attrs_agree(t.attr_events(), t.attr_events()),
        attr_pair_up(t.attr_events(), t.attr_events()) == t.attr_events().map_values(
            |e: AttrEvent| (e, e),
        ),
{
    assert(pair_up(t.children_events(), t.children_events()) =~= t.children_events().map_values(
        |e: Event| (e, e),
    ));
    assert(attr_pair_up(t.attr_events(), t.attr_events()) =~= t.attr_events().map_values(
        |e: AttrEvent| (e, e),
    ));
}

/// Visiting a list hands the visitor exactly one event per entry of the list,
/// and diffing hands the differ exactly one pair per entry.
pub proof fn lemma_one_callback_per_entry<L: NodeList>(l: &L, ancestor: &L)
    ensures
        l.events().len() == L::arity(),
        pair_up(l.events(), ancestor.events()).len() == L::arity(),
{
    l.lemma_events_len();
}

/// A list of three nodes built as a pair whose left side is a pair is visited
/// and diffed in declaration order: first, second, third.
pub proof fn lemma_declaration_order<A: Node, B: Node, C: Node>(
    l: &((NodeListEntry<A>, NodeListEntry<B>), NodeListEntry<C>),
    ancestor: &((NodeListEntry<A>, NodeListEntry<B>), NodeListEntry<C>),
)
    ensures
        l.events() == seq![l.0.0.node().event(), l.0.1.node().event(), l.1.node().event()],
        pair_up(l.events(), ancestor.events()) == seq![
            (l.0.0.node().event(), ancestor.0.0.node().event()),
            (l.0.1.node().event(), ancestor.0.1.node().event()),
            (l.1.node().event(), ancestor.1.node().event()),
        ],
{
    assert(l.events() =~= seq![l.0.0.node().event(), l.0.1.node().event(), l.1.node().event()]);
    assert(pair_up(l.events(), ancestor.events()) =~= seq![
        (l.0.0.node().event(), ancestor.0.0.node().event()),
        (l.0.1.node().event(), ancestor.0.1.node().event()),
        (l.1.node().event(), ancestor.1.node().event()),
    ]);
}

proof fn lemma_agree_split(c1: Seq<Event>, c2: Seq<Event>, a1: Seq<Event>, a2: Seq<Event>)
    requires
        c1.len() == a1.len(),
        agree(c1 + c2, a1 + a2),
    ensures
        agree(c1, a1),
        agree(c2, a2),
{
    assert forall|i: int| 0 <= i < c1.len() implies #[trigger] consistent(c1[i], a1[i]) by {
        assert(consistent((c1 + c2)[i], (a1 + a2)[i]));
    }
    assert forall|i: int| 0 <= i < c2.len() implies #[trigger] consistent(c2[i], a2[i]) by {
        assert(consistent((c1 + c2)[c1.len() + i], (a1 + a2)[c1.len() + i]));
    }
}

proof fn lemma_pair_up_concat(c1: Seq<Event>, c2: Seq<Event>, a1: Seq<Event>, a2: Seq<Event>)
    requires
        c1.len() == a1.len(),
        c2.len() == a2.len(),
    ensures
        pair_up(c1 + c2, a1 + a2) == pair_up(c1, a1) + pair_up(c2, a2),
{
    assert(pair_up(c1 + c2, a1 + a2) =~= pair_up(c1, a1) + pair_up(c2, a2));
}

} // verus!
