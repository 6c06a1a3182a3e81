use vdom::attr::{Attr, AttrDiffer, AttrDyn, AttrListEntry, AttrStatic, AttrVisitor};
use vdom::node::{
    Node, NodeDiffer, NodeList, NodeListEntry, NodeVisitor, Tag, TagDyn, TagName, TagStatic, Text,
    TextDyn, TextStatic,
};

#[derive(Default)]
struct Recorder {
    seen: Vec<(String, String, bool)>,
}

impl NodeVisitor for Recorder {
    fn on_tag<T: TagName>(&mut self, tag: &T) {
        self.seen.push(("tag".to_string(), tag.tag().to_string(), tag.is_tag_static()));
    }

    fn on_text<T: Text>(&mut self, text: &T) {
        self.seen.push(("text".to_string(), text.get().to_string(), text.is_static()));
    }
}

#[derive(Default)]
struct PairRecorder {
    seen: Vec<(String, String, String)>,
}

impl NodeDiffer for PairRecorder {
    fn on_tag<T: TagName>(&mut self, curr: &T, ancestor: &T) {
        self.seen.push(("tag".to_string(), curr.tag().to_string(), ancestor.tag().to_string()));
    }

    fn on_text<T: Text>(&mut self, curr: &T, ancestor: &T) {
        self.seen.push(("text".to_string(), curr.get().to_string(), ancestor.get().to_string()));
    }
}

#[derive(Default)]
struct AttrRecorder {
    seen: Vec<(String, String, bool)>,
}

impl AttrVisitor for AttrRecorder {
    fn on_attr<A: Attr>(&mut self, attr: &A) {
        self.seen.push((
            attr.attr_name().to_string(),
            attr.attr_value().to_string(),
            attr.is_value_static(),
        ));
    }
}

#[derive(Default)]
struct AttrPairRecorder {
    seen: Vec<(String, String, String)>,
}

impl AttrDiffer for AttrPairRecorder {
    fn on_attr<A: Attr>(&mut self, curr: &A, ancestor: &A) {
        self.seen.push((
            curr.attr_name().to_string(),
            curr.attr_value().to_string(),
            ancestor.attr_value().to_string(),
        ));
    }
}

type Counter = TagStatic<(NodeListEntry<TextStatic>, NodeListEntry<TextDyn>), ()>;

fn counter(count: &str) -> Counter {
    TagStatic::new(
        "div",
        (
            NodeListEntry::new(TextStatic::new("hello")),
            NodeListEntry::new(TextDyn::new(count.to_string())),
        ),
        (),
    )
}

fn pair(curr: &str, ancestor: &str) -> (String, String, String) {
    ("text".to_string(), curr.to_string(), ancestor.to_string())
}

#[test]
fn diff_unchanged_dynamic_text() {
    let curr = counter("count:0");
    let ancestor = counter("count:0");
    let mut d = PairRecorder::default();
    curr.diff_children(&ancestor, &mut d);
    assert_eq!(d.seen, vec![pair("hello", "hello"), pair("count:0", "count:0")]);
}

#[test]
fn diff_changed_dynamic_text_is_seen_by_consumer() {
    let curr = counter("count:1");
    let ancestor = counter("count:0");
    let mut d = PairRecorder::default();
    curr.diff_children(&ancestor, &mut d);
    assert_eq!(d.seen, vec![pair("hello", "hello"), pair("count:1", "count:0")]);
    let changed: Vec<_> = d.seen.iter().filter(|(_, c, a)| c != a).collect();
    assert_eq!(changed.len(), 1);
    assert_eq!(changed[0].1, "count:1");
}

#[test]
fn diff_tag_hands_over_both_snapshots() {
    let curr = counter("count:1");
    let ancestor = counter("count:0");
    let mut d = PairRecorder::default();
    curr.diff(&ancestor, &mut d);
    assert_eq!(d.seen, vec![("tag".to_string(), "div".to_string(), "div".to_string())]);
}

#[test]
fn visit_tag_does_not_enter_children() {
    let t = counter("count:0");
    let mut v = Recorder::default();
    t.visit(&mut v);
    assert_eq!(v.seen, vec![("tag".to_string(), "div".to_string(), true)]);
}

#[test]
fn visit_children_in_declaration_order() {
    let t = counter("count:7");
    let mut v = Recorder::default();
    t.visit_children(&mut v);
    assert_eq!(
        v.seen,
        vec![
            ("text".to_string(), "hello".to_string(), true),
            ("text".to_string(), "count:7".to_string(), false),
        ]
    );
}

fn three(a: &str, b: &'static str, c: &str) -> ((NodeListEntry<TextDyn>, NodeListEntry<TextStatic>), NodeListEntry<TextDyn>) {
    (
        (NodeListEntry::new(TextDyn::new(a.to_string())), NodeListEntry::new(TextStatic::new(b))),
        NodeListEntry::new(TextDyn::new(c.to_string())),
    )
}

#[test]
fn visit_nested_pairs_in_declaration_order() {
    let l = three("A", "B", "C");
    let mut v = Recorder::default();
    l.visit(&mut v);
    let order: Vec<_> = v.seen.iter().map(|e| e.1.clone()).collect();
    assert_eq!(order, vec!["A", "B", "C"]);
}

#[test]
fn diff_nested_pairs_in_declaration_order() {
    let l = three("A", "B", "C");
    let m = three("a", "B", "c");
    let mut d = PairRecorder::default();
    l.diff(&m, &mut d);
    assert_eq!(d.seen, vec![pair("A", "a"), pair("B", "B"), pair("C", "c")]);
}

#[test]
fn visit_calls_once_per_leaf() {
    let l = (
        three("1", "2", "3"),
        (NodeListEntry::new(TextStatic::new("4")), NodeListEntry::new(TextStatic::new("5"))),
    );
    let mut v = Recorder::default();
    l.visit(&mut v);
    let order: Vec<_> = v.seen.iter().map(|e| e.1.clone()).collect();
    assert_eq!(order, vec!["1", "2", "3", "4", "5"]);
}

#[test]
fn visit_single_entry_calls_once() {
    let l = NodeListEntry::new(TextStatic::new("only"));
    let mut v = Recorder::default();
    l.visit(&mut v);
    assert_eq!(v.seen, vec![("text".to_string(), "only".to_string(), true)]);
}

#[test]
fn diff_against_equal_value_gives_equal_pairs() {
    let l = (three("x", "y", "z"), NodeListEntry::new(counter("count:3")));
    let m = (three("x", "y", "z"), NodeListEntry::new(counter("count:3")));
    let mut d = PairRecorder::default();
    l.diff(&m, &mut d);
    assert_eq!(d.seen.len(), 4);
    for (_, c, a) in &d.seen {
        assert_eq!(c, a);
    }
    assert_eq!(d.seen[3], ("tag".to_string(), "div".to_string(), "div".to_string()));
}

#[test]
fn static_flags_do_not_change_across_calls() {
    let s = counter("count:0");
    let d: TagDyn<NodeListEntry<TextStatic>, ()> =
        TagDyn::new("span".to_string(), NodeListEntry::new(TextStatic::new("x")), ());
    for _ in 0..3 {
        let mut v = Recorder::default();
        s.visit(&mut v);
        d.visit(&mut v);
        let mut p = PairRecorder::default();
        s.diff(&s, &mut p);
        d.diff(&d, &mut p);
        assert!(s.is_tag_static());
        assert!(!d.is_tag_static());
        assert_eq!(v.seen[0].2, true);
        assert_eq!(v.seen[1].2, false);
    }
    assert!(TextStatic::new("a").is_static());
    assert!(!TextDyn::new("a".to_string()).is_static());
}

#[test]
fn dynamic_tag_name_may_differ() {
    let curr: TagDyn<NodeListEntry<TextStatic>, ()> =
        TagDyn::new("h1".to_string(), NodeListEntry::new(TextStatic::new("t")), ());
    let ancestor: TagDyn<NodeListEntry<TextStatic>, ()> =
        TagDyn::new("h2".to_string(), NodeListEntry::new(TextStatic::new("t")), ());
    assert_eq!(curr.tag(), "h1");
    let mut d = PairRecorder::default();
    curr.diff(&ancestor, &mut d);
    curr.diff_children(&ancestor, &mut d);
    assert_eq!(
        d.seen,
        vec![("tag".to_string(), "h1".to_string(), "h2".to_string()), pair("t", "t")]
    );
}

#[test]
fn text_getters() {
    assert_eq!(TextStatic::new("lit").get(), "lit");
    assert_eq!(TextDyn::new("run".to_string()).get(), "run");
    assert_eq!(TextStatic::new("").get(), "");
}

type Linked = TagStatic<
    NodeListEntry<TextStatic>,
    ((AttrListEntry<AttrStatic>, AttrListEntry<AttrDyn>), AttrListEntry<AttrStatic>),
>;

fn link(href: &str) -> Linked {
    TagStatic::new(
        "a",
        NodeListEntry::new(TextStatic::new("go")),
        (
            (
                AttrListEntry::new(AttrStatic::new("class", "nav")),
                AttrListEntry::new(AttrDyn::new("href", href.to_string())),
            ),
            AttrListEntry::new(AttrStatic::new("id", "home")),
        ),
    )
}

#[test]
fn visit_attributes_in_declaration_order() {
    let t = link("/x");
    let mut v = AttrRecorder::default();
    t.visit_attr(&mut v);
    assert_eq!(
        v.seen,
        vec![
            ("class".to_string(), "nav".to_string(), true),
            ("href".to_string(), "/x".to_string(), false),
            ("id".to_string(), "home".to_string(), true),
        ]
    );
}

#[test]
fn diff_attributes_pairs_values() {
    let curr = link("/new");
    let ancestor = link("/old");
    let mut d = AttrPairRecorder::default();
    curr.diff_attr(&ancestor, &mut d);
    assert_eq!(
        d.seen,
        vec![
            ("class".to_string(), "nav".to_string(), "nav".to_string()),
            ("href".to_string(), "/new".to_string(), "/old".to_string()),
            ("id".to_string(), "home".to_string(), "home".to_string()),
        ]
    );
}

#[test]
fn empty_attribute_list_calls_nothing() {
    let t = counter("count:0");
    let mut v = AttrRecorder::default();
    t.visit_attr(&mut v);
    assert!(v.seen.is_empty());
    let mut d = AttrPairRecorder::default();
    t.diff_attr(&counter("count:1"), &mut d);
    assert!(d.seen.is_empty());
}
