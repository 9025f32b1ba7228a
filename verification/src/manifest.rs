//! The permissions an application asks for, read from the elements of its
//! manifest. Decoding the manifest into elements is left to the caller.

use vstd::prelude::*;
use vstd::string::{StrSliceExecFns, StringExecFns};

verus! {

/// An element of the manifest, as far as the permissions depend on it.
#[derive(Debug, Clone, PartialEq, Eq)]
pub struct Element {
    pub tag: String,
    /// The attributes with their values; no name occurs twice.
    pub attributes: Vec<(String, String)>,
}

/// A child of the manifest's root.
#[derive(Debug, Clone, PartialEq, Eq)]
pub enum Node {
    Element(Element),
    Cdata(String),
}

/// `value` without `prefix` in front, if it starts with it.
pub open spec fn spec_strip_prefix(value: Seq<char>, prefix: Seq<char>) -> Option<Seq<char>> {
    if prefix.len() <= value.len() && value.subrange(0, prefix.len() as int) == prefix {
        Some(value.subrange(prefix.len() as int, value.len() as int))
    } else {
        None
    }
}

/// The value of the first of `attributes` with the name `name`.
pub open spec fn spec_attribute(attributes: Seq<(String, String)>, name: Seq<char>) -> Option<
    Seq<char>,
>
    decreases attributes.len(),
{
    if attributes.len() == 0 {
        None
    } else if attributes[0].0@ == name {
        Some(attributes[0].1@)
    } else {
        spec_attribute(attributes.subrange(1, attributes.len() as int), name)
    }
}

/// The permission a node asks for: the name that a `uses-permission` element
/// gives as `android:name`, without the `android.permission.` in front of
/// it. A name that does not start so counts for nothing.
pub open spec fn spec_permission(node: Node) -> Option<Seq<char>> {
    match node {
        Node::Element(element) => if element.tag@ == "uses-permission"@ {
            match spec_attribute(element.attributes@, "android:name"@) {
                Some(name) => spec_strip_prefix(name, "android.permission."@),
                None => None,
            }
        } else {
            None
        },
        Node::Cdata(_) => None,
    }
}

/// The permissions that `nodes` ask for, in their order.
pub open spec fn spec_permissions(nodes: Seq<Node>) -> Seq<Seq<char>>
    decreases nodes.len(),
{
    if nodes.len() == 0 {
        Seq::empty()
    } else {
        spec_permissions(nodes.drop_last()) + match spec_permission(nodes.last()) {
            Some(name) => seq![name],
            None => Seq::empty(),
        }
    }
}

/// The strings of `names`, as values.
pub open spec fn string_views(names: Seq<String>) -> Seq<Seq<char>> {
    Seq::new(names.len(), |i: int| names[i]@)
}

fn same(one: &str, other: &str) -> (equal: bool)
    ensures
        equal == (one@ == other@),
{
    String::from_str(one) == String::from_str(other)
}

/// Takes `prefix` off the front of `value`.
pub fn strip_prefix(value: &str, prefix: &str) -> (rest: Option<String>)
    ensures
        match rest {
            Some(rest) => spec_strip_prefix(value@, prefix@) == Some(rest@),
            None => spec_strip_prefix(value@, prefix@).is_none(),
        },
{
    let length = value.unicode_len();
    let front = prefix.unicode_len();
    if front <= length && same(value.substring_char(0, front), prefix) {
        Some(String::from_str(value.substring_char(front, length)))
    } else {
        None
    }
}

/// Looks an attribute up by its name.
pub fn attribute<'a>(attributes: &'a Vec<(String, String)>, name: &str) -> (value: Option<
    &'a String,
>)
    ensures
        match value {
            Some(value) => spec_attribute(attributes@, name@) == Some(value@),
            None => spec_attribute(attributes@, name@).is_none(),
        },
{
    let mut i: usize = 0;
    assert(attributes@.subrange(0, attributes@.len() as int) =~= attributes@);
    while i < attributes.len()
        invariant
            i <= attributes@.len(),
            spec_attribute(attributes@, name@) == spec_attribute(
                attributes@.subrange(i as int, attributes@.len() as int),
                name@,
            ),
        decreases attributes@.len() - i,
    {
        let ghost rest = attributes@.subrange(i as int, attributes@.len() as int);
        assert(rest[0] == attributes@[i as int]);
        assert(rest.subrange(1, rest.len() as int) =~= attributes@.subrange(
            i + 1,
            attributes@.len() as int,
        ));
        if same(attributes[i].0.as_str(), name) {
            return Some(&attributes[i].1);
        }
        i += 1;
    }
    None
}

/// The permission a node of the manifest asks for.
pub fn permission(node: &Node) -> (name: Option<String>)
    ensures
        match name {
            Some(name) => spec_permission(*node) == Some(name@),
            None => spec_permission(*node).is_none(),
        },
{
    match node {
        Node::Element(element) => {
            if same(element.tag.as_str(), "uses-permission") {
                match attribute(&element.attributes, "android:name") {
                    Some(name) => strip_prefix(name.as_str(), "android.permission."),
                    None => None,
                }
            } else {
                None
            }
        },
        Node::Cdata(_) => None,
    }
}

/// The permissions an application asks for, given the children of the root
/// of its manifest; `None` for a manifest without a root.
pub fn parse_permissions(root: Option<&Vec<Node>>) -> (permissions: Option<Vec<String>>)
    ensures
        match (root, permissions) {
            (Some(nodes), Some(names)) => string_views(names@) == spec_permissions(nodes@),
            (None, None) => true,
            _ => false,
        },
{
    let nodes = match root {
        Some(nodes) => nodes,
        None => {
            return None;
        },
    };
    let mut names: Vec<String> = Vec::new();
    let mut i: usize = 0;
    assert(string_views(names@) =~= spec_permissions(nodes@.take(0)));
    while i < nodes.len()
        invariant
            i <= nodes@.len(),
            string_views(names@) == spec_permissions(nodes@.take(i as int)),
        decreases nodes@.len() - i,
    {
        let ghost before = names@;
        proof {
            assert(nodes@.take(i + 1).drop_last() =~= nodes@.take(i as int));
            assert(nodes@.take(i + 1).last() == nodes@[i as int]);
        }
        match permission(&nodes[i]) {
            Some(name) => {
                names.push(name);
                assert(string_views(names@) =~= string_views(before) + seq![name@]);
            },
            None => {},
        }
        i += 1;
    }
    assert(nodes@.take(i as int) =~= nodes@);
    Some(names)
}

} // verus!
