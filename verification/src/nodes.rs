//! The node model: elements and attributes, the tree that the parser builds.
//!
//! Each exec type has a mathematical model (`AttributeModel`, `ElementModel`)
//! that the contracts of the whole crate speak of.

use vstd::prelude::*;

verus! {

/// The mathematical value of an [`Attribute`]: its name and its value as
/// character sequences.
#[verifier::ext_equal]
pub struct AttributeModel {
    pub name: Seq<char>,
    pub value: Seq<char>,
}

/// The mathematical value of an [`Element`]: its name, its attributes in
/// insertion order, its children in document order, and the self-closing
/// flag.
#[verifier::ext_equal]
pub struct ElementModel {
    pub name: Seq<char>,
    pub attributes: Seq<AttributeModel>,
    pub children: Seq<ElementModel>,
    pub empty: bool,
}

/// An attribute: an immutable `name`/`value` pair of strings.
#[derive(Debug, PartialEq)]
pub struct Attribute {
    name: String,
    value: String,
}

impl View for Attribute {
    type V = AttributeModel;

    closed spec fn view(&self) -> AttributeModel {
        AttributeModel { name: self.name@, value: self.value@ }
    }
}

/// The model of a sequence of attributes.
pub open spec fn attributes_model(s: Seq<Attribute>) -> Seq<AttributeModel> {
    Seq::new(s.len(), |i: int| s[i]@)
}

/// A named tree node with attributes, children and a self-closing flag.
/// Text content is stored as a synthetic attribute named `text_data`.
#[derive(Debug, PartialEq)]
pub struct Element {
    name: String,
    attributes: Vec<Attribute>,
    children: Vec<Element>,
    empty: bool,
}

/// The model of an element: the tree of its names, attributes and flags.
pub closed spec fn element_model(e: Element) -> ElementModel
    decreases e,
{
    ElementModel {
        name: e.name@,
        attributes: attributes_model(e.attributes@),
        children: Seq::new(
            e.children@.len(),
            |i: int|
                if 0 <= i < e.children@.len() {
                    element_model(e.children@[i])
                } else {
                    ElementModel {
                        name: Seq::<char>::empty(),
                        attributes: Seq::<AttributeModel>::empty(),
                        children: Seq::<ElementModel>::empty(),
                        empty: false,
                    }
                },
        ),
        empty: e.empty,
    }
}

impl View for Element {
    type V = ElementModel;

    closed spec fn view(&self) -> ElementModel {
        element_model(*self)
    }
}

/// The first element of `children` whose name is `name`, if any:
/// the linear-scan lookup that `get_child` performs.
pub open spec fn first_child_named(children: Seq<ElementModel>, name: Seq<char>) -> Option<
    ElementModel,
>
    decreases children.len(),
{
    if children.len() == 0 {
        None
    } else if children[0].name == name {
        Some(children[0])
    } else {
        first_child_named(children.drop_first(), name)
    }
}

/// The first attribute of `attrs` whose name is `name`, if any:
/// the linear-scan lookup that `get_attribute` performs.
pub open spec fn first_attribute_named(attrs: Seq<AttributeModel>, name: Seq<char>) -> Option<
    AttributeModel,
>
    decreases attrs.len(),
{
    if attrs.len() == 0 {
        None
    } else if attrs[0].name == name {
        Some(attrs[0])
    } else {
        first_attribute_named(attrs.drop_first(), name)
    }
}

impl Element {
    /// A fresh element with no name, no attributes and no children.
    pub fn new_empty() -> (result: Element)
        ensures
            result@ == (ElementModel {
                name: Seq::<char>::empty(),
                attributes: Seq::<AttributeModel>::empty(),
                children: Seq::<ElementModel>::empty(),
                empty: false,
            }),
    {
        let e = Element { name: String::new(), attributes: Vec::new(), children: Vec::new(), empty: false };
        proof {
            assert(e@.name =~= Seq::<char>::empty());
            assert(e@.attributes =~= Seq::<AttributeModel>::empty());
            assert(e@.children =~= Seq::<ElementModel>::empty());
            assert(e@.empty == false);
            assert(e@ =~= ElementModel {
                name: Seq::<char>::empty(),
                attributes: Seq::<AttributeModel>::empty(),
                children: Seq::<ElementModel>::empty(),
                empty: false,
            });
        }
        e
    }

    /// A fresh element named `s`, with no attributes and no children.
    pub fn new(s: &str) -> (result: Element)
        ensures
            result@ == (ElementModel {
                name: s@,
                attributes: Seq::<AttributeModel>::empty(),
                children: Seq::<ElementModel>::empty(),
                empty: false,
            }),
    {
        let e = Element { name: s.to_owned(), attributes: Vec::new(), children: Vec::new(), empty: false };
        proof {
            assert(e@.name =~= s@);
            assert(e@.attributes =~= Seq::<AttributeModel>::empty());
            assert(e@.children =~= Seq::<ElementModel>::empty());
            assert(e@ =~= ElementModel {
                name: s@,
                attributes: Seq::<AttributeModel>::empty(),
                children: Seq::<ElementModel>::empty(),
                empty: false,
            });
        }
        e
    }

    /// Appends `e` at the end of the children, in document order.
    pub fn append_child(&mut self, e: Element)
        ensures
            final(self)@ == (ElementModel { children: old(self)@.children.push(e@), ..old(self)@ }),
    {
        self.children.push(e);
        proof {
            assert(self@.name =~= old(self)@.name);
            assert(self@.attributes =~= old(self)@.attributes);
            assert(self@.children =~= old(self)@.children.push(e@));
            assert(self@ =~= ElementModel { children: old(self)@.children.push(e@), ..old(self)@ });
        }
    }

    /// Appends `a` at the end of the attribute list, keeping insertion order.
    pub fn append_attribute(&mut self, a: Attribute)
        ensures
            final(self)@ == (ElementModel {
                attributes: old(self)@.attributes.push(a@),
                ..old(self)@
            }),
    {
        self.attributes.push(a);
        proof {
            assert(self@.name =~= old(self)@.name);
            assert(self@.attributes =~= old(self)@.attributes.push(a@));
            assert(self@.children =~= old(self)@.children);
            assert(self@ =~= ElementModel { attributes: old(self)@.attributes.push(a@), ..old(self)@ });
        }
    }

    /// Records text content: appends a synthetic attribute named `text_data`
    /// whose value is the text, at the position the text appeared.
    pub fn set_text(&mut self, t: &str)
        ensures
            final(self)@ == (ElementModel {
                attributes: old(self)@.attributes.push(
                    AttributeModel { name: "text_data"@, value: t@ },
                ),
                ..old(self)@
            }),
    {
        self.append_attribute(Attribute::new("text_data", t));
    }

    /// The element's name.
    pub fn get_name(&self) -> (result: &str)
        ensures
            result@ == self@.name,
    {
        self.name.as_str()
    }

    /// Whether the element's name equals `s`, by exact string equality.
    pub fn has_name(&self, s: &String) -> (result: bool)
        ensures
            result == (self@.name == s@),
    {
        self.name == *s
    }

    /// Replaces the element's name by `s`.
    pub fn set_name(&mut self, s: &str)
        ensures
            final(self)@ == (ElementModel { name: s@, ..old(self)@ }),
    {
        self.name = s.to_owned();
        proof {
            assert(self@.name =~= s@);
            assert(self@.attributes =~= old(self)@.attributes);
            assert(self@.children =~= old(self)@.children);
            assert(self@ =~= ElementModel { name: s@, ..old(self)@ });
        }
    }

    /// How many children the element has.
    pub fn get_child_count(&self) -> (result: usize)
        ensures
            result == self@.children.len(),
    {
        self.children.len()
    }

    /// Sets the self-closing flag.
    pub fn set_empty(&mut self, b: bool)
        ensures
            final(self)@ == (ElementModel { empty: b, ..old(self)@ }),
    {
        self.empty = b;
        proof {
            assert(self@.name =~= old(self)@.name);
            assert(self@.attributes =~= old(self)@.attributes);
            assert(self@.children =~= old(self)@.children);
            assert(self@ =~= ElementModel { empty: b, ..old(self)@ });
        }
    }

    /// Whether the element was written as a self-closing tag.
    pub fn is_empty(&mut self) -> (result: bool)
        ensures
            *final(self) == *old(self),
            result == old(self)@.empty,
    {
        self.empty
    }

    /// The self-closing flag, read through a shared reference.
    pub fn get_empty(&self) -> (result: bool)
        ensures
            result == self@.empty,
    {
        self.empty
    }

    /// Replaces the whole attribute list.
    pub fn set_attributes(&mut self, a: Vec<Attribute>)
        ensures
            final(self)@ == (ElementModel { attributes: attributes_model(a@), ..old(self)@ }),
    {
        self.attributes = a;
        proof {
            assert(self@.name =~= old(self)@.name);
            assert(self@.attributes =~= attributes_model(a@));
            assert(self@.children =~= old(self)@.children);
            assert(self@ =~= ElementModel { attributes: attributes_model(a@), ..old(self)@ });
        }
    }

    /// The first child named `name`, by linear scan, or `None`.
    pub fn get_child(&self, name: &str) -> (result: Option<&Element>)
        ensures
            match result {
                Some(c) => first_child_named(self@.children, name@) == Some(c@),
                None => first_child_named(self@.children, name@) is None,
            },
    {
        let key: String = name.to_owned();
        let n = self.children.len();
        proof {
            assert(self@.children.skip(0) =~= self@.children);
        }
        for i in 0..n
            invariant
                n == self.children.len(),
                key@ == name@,
                first_child_named(self@.children, name@) == first_child_named(
                    self@.children.skip(i as int),
                    name@,
                ),
        {
            proof {
                assert(self@.children.skip(i as int)[0] == self@.children[i as int]);
                assert(self@.children[i as int] == element_model(self.children@[i as int]));
            }
            if self.children[i].name == key {
                return Some(&self.children[i]);
            }
            proof {
                assert(self@.children.skip(i as int).drop_first() =~= self@.children.skip(
                    i as int + 1,
                ));
            }
        }
        proof {
            assert(self@.children.skip(n as int) =~= Seq::<ElementModel>::empty());
        }
        None
    }

    /// The first child in document order, or `None` if there are none.
    pub fn get_first_child(&self) -> (result: Option<&Element>)
        ensures
            match result {
                Some(c) => self@.children.len() > 0 && c@ == self@.children[0],
                None => self@.children.len() == 0,
            },
    {
        if self.children.len() > 0 {
            Some(&self.children[0])
        } else {
            None
        }
    }

    /// The children, in document order, for traversal.
    pub fn iter_children(&self) -> (result: &Vec<Element>)
        ensures
            result@.len() == self@.children.len(),
            forall|i: int|
                0 <= i < result@.len() ==> (#[trigger] result@[i])@ == self@.children[i],
    {
        &self.children
    }

    /// The first attribute named `name`, by linear scan, or `None`.
    pub fn get_attribute(&self, name: &str) -> (result: Option<&Attribute>)
        ensures
            match result {
                Some(a) => first_attribute_named(self@.attributes, name@) == Some(a@),
                None => first_attribute_named(self@.attributes, name@) is None,
            },
    {
        let key: String = name.to_owned();
        let n = self.attributes.len();
        proof {
            assert(self@.attributes.skip(0) =~= self@.attributes);
        }
        for i in 0..n
            invariant
                n == self.attributes.len(),
                key@ == name@,
                first_attribute_named(self@.attributes, name@) == first_attribute_named(
                    self@.attributes.skip(i as int),
                    name@,
                ),
        {
            proof {
                assert(self@.attributes.skip(i as int)[0] == self@.attributes[i as int]);
                assert(self@.attributes[i as int] == self.attributes@[i as int]@);
            }
            if self.attributes[i].name == key {
                return Some(&self.attributes[i]);
            }
            proof {
                assert(self@.attributes.skip(i as int).drop_first() =~= self@.attributes.skip(
                    i as int + 1,
                ));
            }
        }
        proof {
            assert(self@.attributes.skip(n as int) =~= Seq::<AttributeModel>::empty());
        }
        None
    }

    /// The attributes, in insertion order, for traversal.
    pub fn iter_attributes(&self) -> (result: &Vec<Attribute>)
        ensures
            result@.len() == self@.attributes.len(),
            forall|i: int|
                0 <= i < result@.len() ==> (#[trigger] result@[i])@ == self@.attributes[i],
    {
        &self.attributes
    }
}

impl Attribute {
    /// A new attribute pair `n`/`v`.
    pub fn new(n: &str, v: &str) -> (result: Attribute)
        ensures
            result@ == (AttributeModel { name: n@, value: v@ }),
    {
        Attribute { name: n.to_owned(), value: v.to_owned() }
    }

    /// The attribute's name.
    pub fn get_name(&self) -> (result: &str)
        ensures
            result@ == self@.name,
    {
        self.name.as_str()
    }

    /// The attribute's value.
    pub fn get_value(&self) -> (result: &str)
        ensures
            result@ == self@.value,
    {
        self.value.as_str()
    }

    /// Renders the attribute in tag syntax: `name="value"`.
    pub fn print(&self) -> (result: String)
        ensures
            result@ == self@.name + seq!['=', '"'] + self@.value + seq!['"'],
    {
        let mut s = self.name.clone();
        s.append("=\"");
        s.append(self.value.as_str());
        s.append("\"");
        proof {
            reveal_strlit("=\"");
            reveal_strlit("\"");
            assert(s@ =~= self@.name + seq!['=', '"'] + self@.value + seq!['"']);
        }
        s
    }
}

impl Clone for Attribute {
    /// A copy with the same name and value.
    fn clone(&self) -> (result: Self)
        ensures
            result@ == self@,
    {
        Attribute { name: self.name.clone(), value: self.value.clone() }
    }
}

} // verus!
