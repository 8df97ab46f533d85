//! Qualified names and the attribute extractor.

use vstd::prelude::*;
use vstd::string::*;

verus! {

/// A name as it stands in a document, as plain text.
pub struct NameView {
    pub local_name: Seq<char>,
    pub prefix: Option<Seq<char>>,
}

/// An attribute as plain text.
pub struct AttributeView {
    pub name: NameView,
    pub value: Seq<char>,
}

/// The name of an element or an attribute: a local name and, where the
/// document gave one, a namespace prefix.
#[derive(Debug, Clone, PartialEq, Eq)]
pub struct QualifiedName {
    pub local_name: String,
    pub prefix: Option<String>,
}

/// One raw attribute of a start element.
#[derive(Debug, Clone, PartialEq, Eq)]
pub struct Attribute {
    pub name: QualifiedName,
    pub value: String,
}

impl View for QualifiedName {
    type V = NameView;

    open spec fn view(&self) -> NameView {
        NameView {
            local_name: self.local_name@,
            prefix: match self.prefix {
                Some(prefix) => Some(prefix@),
                None => None,
            },
        }
    }
}

impl View for Attribute {
    type V = AttributeView;

    open spec fn view(&self) -> AttributeView {
        AttributeView { name: self.name@, value: self.value@ }
    }
}

/// The attributes of a start element, each as plain text.
pub open spec fn attribute_views(attributes: Seq<Attribute>) -> Seq<AttributeView> {
    attributes.map_values(|a: Attribute| a@)
}

/// `prefix:local` where the name has a prefix, `local` where it has none.
pub open spec fn qualified(name: NameView) -> Seq<char> {
    match name.prefix {
        Some(prefix) => prefix + seq![':'] + name.local_name,
        None => name.local_name,
    }
}

/// The pair that the extractor gives for one attribute.
pub open spec fn extracted(attribute: AttributeView) -> (Seq<char>, Seq<char>) {
    (qualified(attribute.name), attribute.value)
}

/// A list of extracted pairs, each as plain text.
pub open spec fn pair_views(pairs: Seq<(String, String)>) -> Seq<(Seq<char>, Seq<char>)> {
    pairs.map_values(|p: (String, String)| (p.0@, p.1@))
}

impl QualifiedName {
    /// The name as one string: `prefix:local`, or `local` without a prefix.
    pub fn qualified(&self) -> (text: String)
        ensures
            text@ == qualified(self@),
    {
        match &self.prefix {
            Some(prefix) => {
                let mut text = prefix.clone();
                proof {
                    reveal_strlit(":");
                }
                text.append(":");
                text.append(self.local_name.as_str());
                assert(text@ =~= prefix@ + seq![':'] + self.local_name@);
                text
            },
            None => self.local_name.clone(),
        }
    }
}

/// Turns the raw attributes of one start element into pairs of qualified
/// name and value, in the order of the input.
pub fn xml_parse_attributes(attr: &Vec<Attribute>) -> (attributes: Vec<(String, String)>)
    ensures
        pair_views(attributes@) == attribute_views(attr@).map_values(
            |a: AttributeView| extracted(a),
        ),
{
    let mut attributes: Vec<(String, String)> = Vec::new();
    let mut i: usize = 0;
    while i < attr.len()
        invariant
            i <= attr.len(),
            attributes@.len() == i,
            forall|k: int|
                0 <= k < i ==> (#[trigger] attributes@[k]).0@ == qualified(attr@[k]@.name)
                    && attributes@[k].1@ == attr@[k]@.value,
        decreases attr.len() - i,
    {
        let a = &attr[i];
        let a_name = a.name.qualified();
        let a_value = a.value.clone();
        attributes.push((a_name, a_value));
        i += 1;
    }
    assert(pair_views(attributes@) =~= attribute_views(attr@).map_values(
        |a: AttributeView| extracted(a),
    ));
    attributes
}

} // verus!
