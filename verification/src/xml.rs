//! The decoder's view of an XML document: a tree of elements, each with its
//! local tag name, the text directly under it, its attributes and its element
//! children in document order. Parsing raw text into this tree is delegated
//! to roxmltree behind a trusted boundary; every walk over the tree is
//! verified here.

use vstd::prelude::*;

verus! {

/// One element of a parsed document.
pub struct XmlNode {
    pub tag: String,
    pub text: Option<String>,
    pub attrs: Vec<(String, String)>,
    pub children: Vec<XmlNode>,
}

/// The mathematical shape of an element.
pub ghost struct NodeView {
    pub tag: Seq<char>,
    pub text: Option<Seq<char>>,
    pub attrs: Seq<(Seq<char>, Seq<char>)>,
    pub children: Seq<NodeView>,
}

pub open spec fn node_view(n: XmlNode) -> NodeView
    decreases n, 0int,
    via node_view_decreases
{
    NodeView {
        tag: n.tag@,
        text: match n.text {
            Some(t) => Some(t@),
            None => None,
        },
        attrs: Seq::new(n.attrs@.len(), |i: int| (n.attrs@[i].0@, n.attrs@[i].1@)),
        children: children_views(n.children@, 0),
    }
}

/// The views of the nodes `cs[i..]`, in order.
pub open spec fn children_views(cs: Seq<XmlNode>, i: int) -> Seq<NodeView>
    recommends
        0 <= i,
    decreases cs, cs.len() - i,
        when i <= cs.len()
{
    if i < 0 || i >= cs.len() {
        Seq::empty()
    } else {
        seq![node_view(cs[i])] + children_views(cs, i + 1)
    }
}

#[via_fn]
proof fn node_view_decreases(n: XmlNode) {
    assert(decreases_to!(n => n.children));
    assert(decreases_to!(n.children => n.children@));
}

/// Each element of `children_views(cs, i)` is the view of its node.
pub proof fn lemma_children_views(cs: Seq<XmlNode>, i: int)
    requires
        0 <= i <= cs.len(),
    ensures
        children_views(cs, i).len() == cs.len() - i,
        forall|j: int|
            0 <= j < cs.len() - i ==> #[trigger] children_views(cs, i)[j] == node_view(cs[i + j]),
    decreases cs.len() - i,
{
    if i < cs.len() {
        lemma_children_views(cs, i + 1);
    }
}

impl View for XmlNode {
    type V = NodeView;

    open spec fn view(&self) -> NodeView {
        node_view(*self)
    }
}

/// What a parse of `s` yields: the root element of the well-formed document
/// written by `s`, or `None` when `s` is not well-formed XML. Only the
/// trusted parser below speaks for this name.
pub uninterp spec fn xml_doc(s: Seq<char>) -> Option<NodeView>;

#[verifier::external_type_specification]
#[verifier::external_body]
pub struct ExNode<'a, 'input: 'a>(roxmltree::Node<'a, 'input>);

/// Relies on roxmltree::Node: `tag_name().name()` is the element's local
/// name, `text()` the text of its first child when that child is a text
/// node, `attributes()` its attributes and `children()` its child nodes in
/// document order, elements among them kept here.
#[verifier::external_body]
fn node_to_tree(n: roxmltree::Node<'_, '_>) -> XmlNode {
    XmlNode {
        tag: n.tag_name().name().to_string(),
        text: n.text().map(|t| t.to_string()),
        attrs: n.attributes().map(|a| (a.name().to_string(), a.value().to_string())).collect(),
        children: n.children().filter(|c| c.is_element()).map(node_to_tree).collect(),
    }
}

/// Relies on roxmltree::Document::parse, which returns `Ok` exactly when the
/// text is a well-formed XML document, and on `Document::root_element`.
#[verifier::external_body]
pub(crate) fn parse_xml(s: &str) -> (r: Option<XmlNode>)
    ensures
        (r is Some) == (xml_doc(s@) is Some),
        r matches Some(t) ==> xml_doc(s@) == Some(t@),
{
    match roxmltree::Document::parse(s) {
        Ok(doc) => Some(node_to_tree(doc.root_element())),
        Err(_) => None,
    }
}

/// The first child of `cs[i..]` tagged `tag`, if any.
pub open spec fn find_in_from(cs: Seq<NodeView>, tag: Seq<char>, i: int) -> Option<NodeView>
    recommends
        0 <= i,
    decreases cs.len() - i,
        when i <= cs.len()
{
    if i < 0 || i >= cs.len() {
        None
    } else if cs[i].tag == tag {
        Some(cs[i])
    } else {
        find_in_from(cs, tag, i + 1)
    }
}

/// The first child of `n` tagged `tag`, if any.
pub open spec fn child_of(n: NodeView, tag: Seq<char>) -> Option<NodeView> {
    find_in_from(n.children, tag, 0)
}

/// All descendants of `n` (itself included) tagged `tag`, in document order.
pub open spec fn descs(n: NodeView, tag: Seq<char>) -> Seq<NodeView>
    decreases n, 0int,
{
    (if n.tag == tag {
        seq![n]
    } else {
        Seq::empty()
    }) + descs_in(n.children, tag, 0)
}

/// All descendants of the nodes `cs[i..]` tagged `tag`, in document order.
pub open spec fn descs_in(cs: Seq<NodeView>, tag: Seq<char>, i: int) -> Seq<NodeView>
    recommends
        0 <= i,
    decreases cs, cs.len() - i,
        when i <= cs.len()
{
    if i < 0 || i >= cs.len() {
        Seq::empty()
    } else {
        descs(cs[i], tag) + descs_in(cs, tag, i + 1)
    }
}

/// The text directly under the first child of `n` tagged `tag`.
pub open spec fn text_of_child(n: NodeView, tag: Seq<char>) -> Option<Seq<char>> {
    match child_of(n, tag) {
        Some(c) => c.text,
        None => None,
    }
}

/// The first nested value of `n`: the text of its first element child when
/// it has one, else the text directly under `n`.
pub open spec fn first_value_of(n: NodeView) -> Option<Seq<char>> {
    if n.children.len() > 0 {
        n.children[0].text
    } else {
        n.text
    }
}

/// The value of the first attribute of `n` named `name`, if any.
pub open spec fn attr_from(attrs: Seq<(Seq<char>, Seq<char>)>, name: Seq<char>, i: int) -> Option<
    Seq<char>,
>
    recommends
        0 <= i,
    decreases attrs.len() - i,
        when i <= attrs.len()
{
    if i < 0 || i >= attrs.len() {
        None
    } else if attrs[i].0 == name {
        Some(attrs[i].1)
    } else {
        attr_from(attrs, name, i + 1)
    }
}

pub open spec fn attr_of(n: NodeView, name: Seq<char>) -> Option<Seq<char>> {
    attr_from(n.attrs, name, 0)
}

pub open spec fn views_of(s: Seq<&XmlNode>) -> Seq<NodeView> {
    s.map_values(|r: &XmlNode| node_view(*r))
}

impl XmlNode {
    /// The first child tagged `tag`.
    pub fn child<'a>(&'a self, tag: &str) -> (r: Option<&'a XmlNode>)
        ensures
            match r {
                Some(m) => child_of(self@, tag@) == Some(m@),
                None => child_of(self@, tag@) is None,
            },
    {
        let n = self.children.len();
        proof {
            lemma_children_views(self.children@, 0);
        }
        let mut i: usize = 0;
        while i < n
            invariant
                n == self.children@.len(),
                n == self@.children.len(),
                0 <= i <= n,
                find_in_from(self@.children, tag@, 0) == find_in_from(self@.children, tag@, i as int),
            decreases n - i,
        {
            proof {
                lemma_children_views(self.children@, 0);
            }
            assert(self@.children[i as int] == node_view(self.children@[i as int]));
            if crate::strutil::str_eq(self.children[i].tag.as_str(), tag) {
                return Some(&self.children[i]);
            }
            i = i + 1;
        }
        None
    }

    /// The text directly under the first child tagged `tag`.
    pub fn child_text<'a>(&'a self, tag: &str) -> (r: Option<&'a String>)
        ensures
            match r {
                Some(t) => text_of_child(self@, tag@) == Some(t@),
                None => text_of_child(self@, tag@) is None,
            },
    {
        match self.child(tag) {
            Some(c) => {
                match &c.text {
                    Some(t) => Some(t),
                    None => None,
                }
            },
            None => None,
        }
    }

    /// The first nested value: the text of the first element child when one
    /// exists, else the text directly under this element.
    pub fn first_value<'a>(&'a self) -> (r: Option<&'a String>)
        ensures
            match r {
                Some(t) => first_value_of(self@) == Some(t@),
                None => first_value_of(self@) is None,
            },
    {
        if self.children.len() > 0 {
            proof {
                lemma_children_views(self.children@, 0);
            }
            assert(self@.children[0] == node_view(self.children@[0]));
            match &self.children[0].text {
                Some(t) => Some(t),
                None => None,
            }
        } else {
            match &self.text {
                Some(t) => Some(t),
                None => None,
            }
        }
    }

    /// The value of the first attribute named `name`.
    pub fn attr<'a>(&'a self, name: &str) -> (r: Option<&'a String>)
        ensures
            match r {
                Some(v) => attr_of(self@, name@) == Some(v@),
                None => attr_of(self@, name@) is None,
            },
    {
        let n = self.attrs.len();
        let mut i: usize = 0;
        while i < n
            invariant
                n == self.attrs@.len(),
                0 <= i <= n,
                attr_from(self@.attrs, name@, 0) == attr_from(self@.attrs, name@, i as int),
            decreases n - i,
        {
            assert(self@.attrs[i as int] == (self.attrs@[i as int].0@, self.attrs@[i as int].1@));
            if crate::strutil::str_eq(self.attrs[i].0.as_str(), name) {
                return Some(&self.attrs[i].1);
            }
            i = i + 1;
        }
        None
    }

    /// All descendants (this element included) tagged `tag`, document order.
    pub fn descendants<'a>(&'a self, tag: &str) -> (r: Vec<&'a XmlNode>)
        ensures
            views_of(r@) == descs(self@, tag@),
    {
        let mut out: Vec<&XmlNode> = Vec::new();
        collect_descs(self, tag, &mut out);
        proof {
            assert(views_of(Seq::<&XmlNode>::empty()) =~= Seq::<NodeView>::empty());
        }
        out
    }

    /// The first descendant (this element included) tagged `tag`.
    pub fn find_descendant<'a>(&'a self, tag: &str) -> (r: Option<&'a XmlNode>)
        ensures
            match r {
                Some(m) => descs(self@, tag@).len() > 0 && m@ == descs(self@, tag@)[0],
                None => descs(self@, tag@).len() == 0,
            },
    {
        let ds = self.descendants(tag);
        if ds.len() > 0 {
            assert(views_of(ds@)[0] == ds@[0]@);
            Some(ds[0])
        } else {
            None
        }
    }
}

fn collect_descs<'a>(n: &'a XmlNode, tag: &str, out: &mut Vec<&'a XmlNode>)
    ensures
        views_of(final(out)@) == views_of(old(out)@) + descs(n@, tag@),
    decreases *n,
{
    if crate::strutil::str_eq(n.tag.as_str(), tag) {
        let ghost before = out@;
        out.push(n);
        proof {
            assert(views_of(out@) =~= views_of(before) + seq![n@]);
        }
    }
    let ghost mid = out@;
    proof {
        if n@.tag != tag@ {
            assert(views_of(mid) =~= views_of(old(out)@) + Seq::<NodeView>::empty());
        }
    }
    let m = n.children.len();
    proof {
        lemma_children_views(n.children@, 0);
    }
    let mut j: usize = 0;
    while j < m
        invariant
            m == n.children@.len(),
            m == n@.children.len(),
            0 <= j <= m,
            views_of(mid) + descs_in(n@.children, tag@, 0) == views_of(out@) + descs_in(
                n@.children,
                tag@,
                j as int,
            ),
            views_of(mid) == views_of(old(out)@) + (if n@.tag == tag@ {
                seq![n@]
            } else {
                Seq::<NodeView>::empty()
            }),
        decreases m - j,
    {
        proof {
            lemma_children_views(n.children@, 0);
        }
        assert(n@.children[j as int] == node_view(n.children@[j as int]));
        collect_descs(&n.children[j], tag, out);
        j = j + 1;
    }
    proof {
        assert(descs_in(n@.children, tag@, m as int) =~= Seq::<NodeView>::empty());
        assert(views_of(out@) =~= views_of(out@) + Seq::<NodeView>::empty());
        assert(views_of(mid) + descs_in(n@.children, tag@, 0) =~= views_of(old(out)@) + descs(
            n@,
            tag@,
        ));
    }
}

} // verus!
