//! A queryable document tree.
//!
//! The host's HTML engine parses fetched bytes into a tree; this module
//! holds the tree as plain values and gives the extractors a verified
//! query surface: descent by simple selectors (tag, id, class), first
//! matching attribute, and node text.
//!
//! `select` searches a node and all of its descendants in document order
//! (pre-order), the node itself included when it matches.

use vstd::prelude::*;

verus! {

/// One attribute of an element: its name and its value.
pub struct Attrib {
    pub name: String,
    pub value: String,
}

/// One element of the document tree. `text` is the visible text content
/// of the element as the HTML engine reports it.
pub struct Elem {
    pub tag: String,
    pub id_attr: String,
    pub classes: Vec<String>,
    pub attrs: Vec<Attrib>,
    pub text: String,
    pub children: Vec<Elem>,
}

/// A simple selector: each present part must hold of a matching element.
pub struct Selector {
    pub tag: Option<String>,
    pub id_attr: Option<String>,
    pub class: Option<String>,
}

/// The mathematical value of a `Selector`.
pub struct SelView {
    pub tag: Option<Seq<char>>,
    pub id_attr: Option<Seq<char>>,
    pub class: Option<Seq<char>>,
}

impl View for Selector {
    type V = SelView;

    open spec fn view(&self) -> SelView {
        SelView {
            tag: if self.tag is Some {
                Some(self.tag->0@)
            } else {
                None
            },
            id_attr: if self.id_attr is Some {
                Some(self.id_attr->0@)
            } else {
                None
            },
            class: if self.class is Some {
                Some(self.class->0@)
            } else {
                None
            },
        }
    }
}

impl Selector {
    /// A selector on the tag name alone, as in `"img"`.
    pub fn of_tag(tag: &str) -> (r: Selector)
        ensures
            r@ == (SelView { tag: Some(tag@), id_attr: None, class: None }),
    {
        Selector { tag: Some(tag.to_owned()), id_attr: None, class: None }
    }

    /// A selector on one class alone, as in `".book-title"`.
    pub fn of_class(class: &str) -> (r: Selector)
        ensures
            r@ == (SelView { tag: None, id_attr: None, class: Some(class@) }),
    {
        Selector { tag: None, id_attr: None, class: Some(class.to_owned()) }
    }

    /// A selector on tag name and class, as in `"li.book-li"`.
    pub fn of_tag_class(tag: &str, class: &str) -> (r: Selector)
        ensures
            r@ == (SelView { tag: Some(tag@), id_attr: None, class: Some(class@) }),
    {
        Selector { tag: Some(tag.to_owned()), id_attr: None, class: Some(class.to_owned()) }
    }

    /// A selector on the id alone, as in `"#pagelink"`.
    pub fn of_id(id_attr: &str) -> (r: Selector)
        ensures
            r@ == (SelView { tag: None, id_attr: Some(id_attr@), class: None }),
    {
        Selector { tag: None, id_attr: Some(id_attr.to_owned()), class: None }
    }

    /// A selector on tag name and id, as in `"div#Cover"`.
    pub fn of_tag_id(tag: &str, id_attr: &str) -> (r: Selector)
        ensures
            r@ == (SelView { tag: Some(tag@), id_attr: Some(id_attr@), class: None }),
    {
        Selector { tag: Some(tag.to_owned()), id_attr: Some(id_attr.to_owned()), class: None }
    }
}

/// The view of a selector on the tag name alone.
pub open spec fn sv_tag(t: Seq<char>) -> SelView {
    SelView { tag: Some(t), id_attr: None, class: None }
}

/// The view of a selector on one class alone.
pub open spec fn sv_class(c: Seq<char>) -> SelView {
    SelView { tag: None, id_attr: None, class: Some(c) }
}

/// The view of a selector on tag name and class.
pub open spec fn sv_tag_class(t: Seq<char>, c: Seq<char>) -> SelView {
    SelView { tag: Some(t), id_attr: None, class: Some(c) }
}

/// The view of a selector on the id alone.
pub open spec fn sv_id(i: Seq<char>) -> SelView {
    SelView { tag: None, id_attr: Some(i), class: None }
}

/// The view of a selector on tag name and id.
pub open spec fn sv_tag_id(t: Seq<char>, i: Seq<char>) -> SelView {
    SelView { tag: Some(t), id_attr: Some(i), class: None }
}

/// Whether the element carries the class `c`.
pub open spec fn elem_has_class(e: Elem, c: Seq<char>) -> bool {
    exists|i: int| 0 <= i < e.classes@.len() && e.classes@[i]@ == c
}

/// Whether the element satisfies every present part of the selector.
pub open spec fn sel_matches(e: Elem, s: SelView) -> bool {
    &&& (s.tag is Some ==> e.tag@ == s.tag->0)
    &&& (s.id_attr is Some ==> e.id_attr@ == s.id_attr->0)
    &&& (s.class is Some ==> elem_has_class(e, s.class->0))
}

/// All elements of the tree rooted at `e` that match `s`, in document
/// order, `e` itself included when it matches.
pub open spec fn select_all(e: Elem, s: SelView) -> Seq<Elem>
    decreases e,
{
    let below = select_in_children(e.children@, s);
    if sel_matches(e, s) {
        seq![e] + below
    } else {
        below
    }
}

/// The matches found under each element of `es` in turn.
pub open spec fn select_in_children(es: Seq<Elem>, s: SelView) -> Seq<Elem>
    decreases es,
{
    if es.len() == 0 {
        Seq::empty()
    } else {
        select_all(es[0], s) + select_in_children(es.drop_first(), s)
    }
}

/// The elements that a vector of references points at, in order.
pub open spec fn derefs(s: Seq<&Elem>) -> Seq<Elem> {
    s.map_values(|e: &Elem| *e)
}

pub proof fn lemma_select_in_children_snoc(es: Seq<Elem>, e: Elem, s: SelView)
    ensures
        select_in_children(es.push(e), s) == select_in_children(es, s) + select_all(e, s),
    decreases es.len(),
{
    reveal_with_fuel(select_in_children, 2);
    if es.len() == 0 {
        assert(es.push(e)[0] == e);
        assert(es.push(e).drop_first() =~= Seq::<Elem>::empty());
        assert(select_in_children(es.push(e), s) == select_all(e, s) + select_in_children(
            Seq::<Elem>::empty(),
            s,
        ));
        assert(select_in_children(es.push(e), s) =~= select_in_children(es, s) + select_all(e, s));
    } else {
        assert(es.push(e).drop_first() =~= es.drop_first().push(e));
        lemma_select_in_children_snoc(es.drop_first(), e, s);
        assert(es.push(e)[0] == es[0]);
        assert(select_in_children(es.push(e), s) =~= select_in_children(es, s) + select_all(e, s));
    }
}

fn has_class_exec(e: &Elem, c: &String) -> (r: bool)
    ensures
        r == elem_has_class(*e, c@),
{
    let mut i: usize = 0;
    while i < e.classes.len()
        invariant
            0 <= i <= e.classes.len(),
            forall|j: int| 0 <= j < i ==> e.classes@[j]@ != c@,
        decreases e.classes.len() - i,
    {
        if e.classes[i] == *c {
            return true;
        }
        i += 1;
    }
    false
}

/// Whether the element satisfies the selector.
pub fn sel_matches_exec(e: &Elem, s: &Selector) -> (r: bool)
    ensures
        r == sel_matches(*e, s@),
{
    let tag_ok = match &s.tag {
        Some(t) => e.tag == *t,
        None => true,
    };
    let id_ok = match &s.id_attr {
        Some(n) => e.id_attr == *n,
        None => true,
    };
    let class_ok = match &s.class {
        Some(c) => has_class_exec(e, c),
        None => true,
    };
    tag_ok && id_ok && class_ok
}

/// The part `e` itself contributes to `select_all(e, s)`.
pub open spec fn own_match(e: Elem, s: SelView) -> Seq<Elem> {
    if sel_matches(e, s) {
        seq![e]
    } else {
        Seq::empty()
    }
}

fn select_into<'a>(e: &'a Elem, s: &Selector, out: &mut Vec<&'a Elem>)
    ensures
        derefs(final(out)@) == derefs(old(out)@) + select_all(*e, s@),
    decreases *e,
{
    let ghost base = out@;
    if sel_matches_exec(e, s) {
        out.push(e);
    }
    proof {
        assert(derefs(out@) =~= derefs(base) + own_match(*e, s@));
    }
    let ghost mid = out@;
    let mut i: usize = 0;
    while i < e.children.len()
        invariant
            0 <= i <= e.children.len(),
            derefs(out@) == derefs(mid) + select_in_children(
                e.children@.take(i as int),
                s@,
            ),
        decreases e.children.len() - i,
    {
        proof {
            assert(decreases_to!(*e => e.children));
            assert(decreases_to!(e.children => e.children@[i as int]));
        }
        let ghost before = out@;
        select_into(&e.children[i], s, out);
        proof {
            lemma_select_in_children_snoc(e.children@.take(i as int), e.children@[i as int], s@);
            assert(e.children@.take(i as int + 1) =~= e.children@.take(i as int).push(
                e.children@[i as int],
            ));
            assert(derefs(out@) =~= derefs(mid) + select_in_children(
                e.children@.take(i as int + 1),
                s@,
            ));
        }
        i += 1;
    }
    proof {
        assert(e.children@.take(e.children@.len() as int) =~= e.children@);
        assert(derefs(out@) =~= derefs(base) + select_all(*e, s@));
    }
}

/// All matches of `s` in the tree rooted at `e`, in document order.
pub fn select<'a>(e: &'a Elem, s: &Selector) -> (r: Vec<&'a Elem>)
    ensures
        derefs(r@) == select_all(*e, s@),
{
    let mut out: Vec<&'a Elem> = Vec::new();
    proof {
        assert(derefs(out@) =~= Seq::<Elem>::empty());
    }
    select_into(e, s, &mut out);
    out
}

/// All matches of `s` under each node of `nodes` in turn: the second step
/// of a chained selection.
pub fn select_within<'a>(nodes: &Vec<&'a Elem>, s: &Selector) -> (r: Vec<&'a Elem>)
    ensures
        derefs(r@) == select_in_children(derefs(nodes@), s@),
{
    let mut out: Vec<&'a Elem> = Vec::new();
    proof {
        assert(derefs(out@) =~= Seq::<Elem>::empty());
    }
    let mut i: usize = 0;
    while i < nodes.len()
        invariant
            0 <= i <= nodes.len(),
            derefs(out@) == select_in_children(derefs(nodes@).take(i as int), s@),
        decreases nodes.len() - i,
    {
        select_into(nodes[i], s, &mut out);
        proof {
            lemma_select_in_children_snoc(
                derefs(nodes@).take(i as int),
                derefs(nodes@)[i as int],
                s@,
            );
            assert(derefs(nodes@).take(i as int + 1) =~= derefs(nodes@).take(i as int).push(
                derefs(nodes@)[i as int],
            ));
        }
        i += 1;
    }
    proof {
        assert(derefs(nodes@).take(derefs(nodes@).len() as int) =~= derefs(nodes@));
    }
    out
}

/// The text of the first node of `ns`; empty where `ns` is empty.
pub open spec fn first_text(ns: Seq<Elem>) -> Seq<char> {
    if ns.len() == 0 {
        Seq::empty()
    } else {
        ns[0].text@
    }
}

/// The text of the node at `k`; empty where `ns` has no such node.
pub open spec fn nth_text(ns: Seq<Elem>, k: int) -> Seq<char> {
    if 0 <= k < ns.len() {
        ns[k].text@
    } else {
        Seq::empty()
    }
}

/// The text of the first selected node, as the host's `text()` read on a
/// selection reports it.
pub fn text_of(nodes: &Vec<&Elem>) -> (r: String)
    ensures
        r@ == first_text(derefs(nodes@)),
{
    if nodes.len() == 0 {
        String::new()
    } else {
        nodes[0].text.clone()
    }
}

/// The text of the selected node at `k`; empty where there is none.
pub fn nth_text_of(nodes: &Vec<&Elem>, k: usize) -> (r: String)
    ensures
        r@ == nth_text(derefs(nodes@), k as int),
{
    if k < nodes.len() {
        nodes[k].text.clone()
    } else {
        String::new()
    }
}

/// The value of the first attribute of `attrs` named `name`.
pub open spec fn attr_in(attrs: Seq<Attrib>, name: Seq<char>) -> Option<Seq<char>>
    decreases attrs.len(),
{
    if attrs.len() == 0 {
        None
    } else if attrs[0].name@ == name {
        Some(attrs[0].value@)
    } else {
        attr_in(attrs.drop_first(), name)
    }
}

/// The attribute value that a read of `name` on the selection yields: the
/// value from the first node that carries the attribute.
pub open spec fn first_attr(ns: Seq<Elem>, name: Seq<char>) -> Option<Seq<char>>
    decreases ns.len(),
{
    if ns.len() == 0 {
        None
    } else if attr_in(ns[0].attrs@, name) is Some {
        attr_in(ns[0].attrs@, name)
    } else {
        first_attr(ns.drop_first(), name)
    }
}

/// The first attribute of `e` named `name`, if it carries one.
pub fn elem_attr(e: &Elem, name: &String) -> (r: Option<String>)
    ensures
        r is Some <==> attr_in(e.attrs@, name@) is Some,
        r is Some ==> r->0@ == attr_in(e.attrs@, name@)->0,
{
    proof {
        assert(e.attrs@.skip(0) =~= e.attrs@);
    }
    let mut i: usize = 0;
    while i < e.attrs.len()
        invariant
            0 <= i <= e.attrs.len(),
            attr_in(e.attrs@, name@) == attr_in(e.attrs@.skip(i as int), name@),
        decreases e.attrs.len() - i,
    {
        proof {
            assert(e.attrs@.skip(i as int)[0] == e.attrs@[i as int]);
            assert(e.attrs@.skip(i as int).drop_first() =~= e.attrs@.skip(i as int + 1));
        }
        if e.attrs[i].name == *name {
            proof {
                assert(attr_in(e.attrs@.skip(i as int), name@) == Some(
                    e.attrs@[i as int].value@,
                ));
            }
            return Some(e.attrs[i].value.clone());
        }
        i += 1;
    }
    proof {
        assert(e.attrs@.skip(e.attrs@.len() as int) =~= Seq::<Attrib>::empty());
    }
    None
}

/// The first attribute value named `name` over the selection, if any node
/// carries it.
pub fn attr_of(nodes: &Vec<&Elem>, name: &String) -> (r: Option<String>)
    ensures
        r is Some <==> first_attr(derefs(nodes@), name@) is Some,
        r is Some ==> r->0@ == first_attr(derefs(nodes@), name@)->0,
{
    proof {
        assert(derefs(nodes@).skip(0) =~= derefs(nodes@));
    }
    let mut i: usize = 0;
    while i < nodes.len()
        invariant
            0 <= i <= nodes.len(),
            first_attr(derefs(nodes@), name@) == first_attr(
                derefs(nodes@).skip(i as int),
                name@,
            ),
        decreases nodes.len() - i,
    {
        proof {
            assert(derefs(nodes@).skip(i as int)[0] == derefs(nodes@)[i as int]);
            assert(derefs(nodes@).skip(i as int).drop_first() =~= derefs(nodes@).skip(
                i as int + 1,
            ));
        }
        let got = elem_attr(nodes[i], name);
        if got.is_some() {
            return got;
        }
        i += 1;
    }
    proof {
        assert(derefs(nodes@).skip(derefs(nodes@).len() as int) =~= Seq::<Elem>::empty());
    }
    None
}

/// `first_attr` with a missing attribute read as the empty string, as the
/// host's value read does.
pub open spec fn attr_text(ns: Seq<Elem>, name: Seq<char>) -> Seq<char> {
    match first_attr(ns, name) {
        Some(v) => v,
        None => Seq::empty(),
    }
}

/// The first attribute value named `name` over the selection, the empty
/// string where no node carries it.
pub fn attr_or_empty(nodes: &Vec<&Elem>, name: &String) -> (r: String)
    ensures
        r@ == attr_text(derefs(nodes@), name@),
{
    match attr_of(nodes, name) {
        Some(v) => v,
        None => String::new(),
    }
}


/// The attribute values named `name` over `nodes`, in order, nodes that
/// lack the attribute left out.
pub open spec fn lazy_srcs(nodes: Seq<Elem>, name: Seq<char>) -> Seq<Seq<char>>
    decreases nodes.len(),
{
    if nodes.len() == 0 {
        Seq::empty()
    } else {
        let rest = lazy_srcs(nodes.drop_first(), name);
        match attr_in(nodes[0].attrs@, name) {
            Some(v) => seq![v] + rest,
            None => rest,
        }
    }
}

pub proof fn lemma_lazy_srcs_snoc(nodes: Seq<Elem>, e: Elem, name: Seq<char>)
    ensures
        lazy_srcs(nodes.push(e), name) == lazy_srcs(nodes, name) + (match attr_in(
            e.attrs@,
            name,
        ) {
            Some(v) => seq![v],
            None => Seq::<Seq<char>>::empty(),
        }),
    decreases nodes.len(),
{
    reveal_with_fuel(lazy_srcs, 2);
    if nodes.len() == 0 {
        assert(nodes.push(e)[0] == e);
        assert(nodes.push(e).drop_first() =~= Seq::<Elem>::empty());
        match attr_in(e.attrs@, name) {
            Some(v) => {
                assert(lazy_srcs(nodes.push(e), name) =~= lazy_srcs(nodes, name) + seq![v]);
            },
            None => {
                assert(lazy_srcs(nodes.push(e), name) =~= lazy_srcs(nodes, name) + Seq::<
                    Seq<char>,
                >::empty());
            },
        }
    } else {
        assert(nodes.push(e).drop_first() =~= nodes.drop_first().push(e));
        lemma_lazy_srcs_snoc(nodes.drop_first(), e, name);
        assert(nodes.push(e)[0] == nodes[0]);
        match attr_in(e.attrs@, name) {
            Some(v) => {
                assert(lazy_srcs(nodes.push(e), name) =~= lazy_srcs(nodes, name) + seq![v]);
            },
            None => {
                assert(lazy_srcs(nodes.push(e), name) =~= lazy_srcs(nodes, name) + Seq::<
                    Seq<char>,
                >::empty());
            },
        }
    }
}

/// No node is invented: the attribute values collected over `nodes` never
/// number more than the nodes themselves.
pub proof fn lemma_lazy_srcs_len(nodes: Seq<Elem>, name: Seq<char>)
    ensures
        lazy_srcs(nodes, name).len() <= nodes.len(),
    decreases nodes.len(),
{
    if nodes.len() == 0 {
    } else {
        lemma_lazy_srcs_len(nodes.drop_first(), name);
    }
}

/// Nothing without the attribute is included: every collected value is
/// the attribute value of one of the nodes.
pub proof fn lemma_lazy_srcs_sourced(nodes: Seq<Elem>, name: Seq<char>, j: int)
    requires
        0 <= j < lazy_srcs(nodes, name).len(),
    ensures
        exists|k: int|
            0 <= k < nodes.len() && attr_in(#[trigger] nodes[k].attrs@, name) == Some(
                lazy_srcs(nodes, name)[j],
            ),
    decreases nodes.len(),
{
    if nodes.len() == 0 {
    } else {
        match attr_in(nodes[0].attrs@, name) {
            Some(v) => {
                if j == 0 {
                    assert(attr_in(nodes[0].attrs@, name) == Some(lazy_srcs(nodes, name)[0]));
                } else {
                    lemma_lazy_srcs_sourced(nodes.drop_first(), name, j - 1);
                    let k = choose|k: int|
                        0 <= k < nodes.drop_first().len() && attr_in(
                            #[trigger] nodes.drop_first()[k].attrs@,
                            name,
                        ) == Some(lazy_srcs(nodes.drop_first(), name)[j - 1]);
                    assert(nodes[k + 1] == nodes.drop_first()[k]);
                    assert(attr_in(nodes[k + 1].attrs@, name) == Some(lazy_srcs(nodes, name)[j]));
                }
            },
            None => {
                lemma_lazy_srcs_sourced(nodes.drop_first(), name, j);
                let k = choose|k: int|
                    0 <= k < nodes.drop_first().len() && attr_in(
                        #[trigger] nodes.drop_first()[k].attrs@,
                        name,
                    ) == Some(lazy_srcs(nodes.drop_first(), name)[j]);
                assert(nodes[k + 1] == nodes.drop_first()[k]);
                assert(attr_in(nodes[k + 1].attrs@, name) == Some(lazy_srcs(nodes, name)[j]));
            },
        }
    }
}

} // verus!
