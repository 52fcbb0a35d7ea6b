//! The XML values that the serializer builds and hands to the xml-rs emitter:
//! qualified names, attributes, namespace declarations and start elements,
//! with the helpers that rebind a prefix while keeping expanded names in sync.

use std::borrow::Cow;
use vstd::prelude::*;

use ::xml::attribute::OwnedAttribute;
use ::xml::name::OwnedName;
use ::xml::namespace::Namespace;

verus! {

// ---------------------------------------------------------------------------
// Outside types of xml-rs that values of this module are converted to.
// ---------------------------------------------------------------------------

#[verifier::external_type_specification]
#[verifier::external_body]
pub struct ExOwnedName(::xml::name::OwnedName);

#[verifier::external_type_specification]
#[verifier::external_body]
pub struct ExOwnedAttribute(::xml::attribute::OwnedAttribute);

#[verifier::external_type_specification]
#[verifier::external_body]
pub struct ExNamespace(::xml::namespace::Namespace);

// ---------------------------------------------------------------------------
// Mathematical model
// ---------------------------------------------------------------------------

/// A qualified name as text: local part, namespace URI and prefix.
#[verifier::ext_equal]
pub struct NameView {
    pub local_name: Seq<char>,
    pub namespace: Option<Seq<char>>,
    pub prefix: Option<Seq<char>>,
}

/// An attribute as text: its qualified name and its value.
#[verifier::ext_equal]
pub struct AttributeView {
    pub name: NameView,
    pub value: Seq<char>,
}

/// A start element: its name, its attributes in order, and the prefix to URI
/// declarations that it carries.
#[verifier::ext_equal]
pub struct StartElementView {
    pub name: NameView,
    pub attributes: Seq<AttributeView>,
    pub namespace: Map<Seq<char>, Seq<char>>,
}

pub open spec fn opt_string_view(o: Option<String>) -> Option<Seq<char>> {
    match o {
        Some(s) => Some(s@),
        None => None,
    }
}

pub open spec fn opt_str_view(o: Option<&str>) -> Option<Seq<char>> {
    match o {
        Some(s) => Some(s@),
        None => None,
    }
}

/// The URI bound to `prefix` in `namespace`, if any.
pub open spec fn lookup(namespace: Map<Seq<char>, Seq<char>>, prefix: Seq<char>) -> Option<
    Seq<char>,
> {
    if namespace.dom().contains(prefix) {
        Some(namespace[prefix])
    } else {
        None
    }
}

/// The declarations held by a list of (prefix, URI) entries; a later entry for a
/// prefix overrides an earlier one.
pub open spec fn mappings_of(entries: Seq<(String, String)>) -> Map<Seq<char>, Seq<char>>
    decreases entries.len(),
{
    if entries.len() == 0 {
        Map::empty()
    } else {
        mappings_of(entries.drop_last()).insert(entries.last().0@, entries.last().1@)
    }
}

pub open spec fn attribute_views(attributes: Seq<XmlAttribute>) -> Seq<AttributeView> {
    attributes.map_values(|a: XmlAttribute| a@)
}

/// The text under which a name is written in a document: `prefix:local` or `local`.
pub open spec fn rendered_name(name: NameView) -> Seq<char> {
    match name.prefix {
        Some(p) => p + seq![':'] + name.local_name,
        None => name.local_name,
    }
}

/// `name` is the element name written as `text`, split at its first `:` into a
/// prefix and a local part, with the namespace URI that `namespace` binds to that
/// prefix (to the empty prefix for a name without `:`).
pub open spec fn splits_qualified_name(
    text: Seq<char>,
    name: NameView,
    namespace: Map<Seq<char>, Seq<char>>,
) -> bool {
    match name.prefix {
        Some(p) => {
            &&& text == p + seq![':'] + name.local_name
            &&& !p.contains(':')
            &&& name.namespace == lookup(namespace, p)
        },
        None => {
            &&& !text.contains(':')
            &&& name.local_name == text
            &&& name.namespace == lookup(namespace, Seq::empty())
        },
    }
}

/// An element name is governed by `prefix` when it carries that prefix, or when
/// it carries none and `prefix` is the empty (default) prefix.
pub open spec fn element_in_scope(name: NameView, prefix: Seq<char>) -> bool {
    match name.prefix {
        Some(p) => p == prefix,
        None => prefix.len() == 0,
    }
}

/// An attribute name is governed only by the non-empty prefix that it carries:
/// the default namespace never applies to an unprefixed attribute.
pub open spec fn attribute_in_scope(name: NameView, prefix: Seq<char>) -> bool {
    prefix.len() > 0 && name.prefix == Some(prefix)
}

pub open spec fn with_namespace(name: NameView, uri: Seq<char>) -> NameView {
    NameView { local_name: name.local_name, namespace: Some(uri), prefix: name.prefix }
}

pub open spec fn rebound_attribute(a: AttributeView, prefix: Seq<char>, uri: Seq<char>) -> AttributeView {
    if attribute_in_scope(a.name, prefix) {
        AttributeView { name: with_namespace(a.name, uri), value: a.value }
    } else {
        a
    }
}

/// `e` with `prefix` bound to `uri`, and every name that `prefix` governs
/// expanded to `uri`.
pub open spec fn rebind(e: StartElementView, prefix: Seq<char>, uri: Seq<char>) -> StartElementView {
    StartElementView {
        name: if element_in_scope(e.name, prefix) {
            with_namespace(e.name, uri)
        } else {
            e.name
        },
        attributes: e.attributes.map_values(|a: AttributeView| rebound_attribute(a, prefix, uri)),
        namespace: e.namespace.insert(prefix, uri),
    }
}

/// Every name that a declared prefix governs is expanded to the URI that the
/// element declares for it.
pub open spec fn expanded_names_consistent(e: StartElementView) -> bool {
    forall|prefix: Seq<char>|
        #![trigger e.namespace.dom().contains(prefix)]
        e.namespace.dom().contains(prefix) ==> {
            &&& element_in_scope(e.name, prefix) ==> e.name.namespace == Some(e.namespace[prefix])
            &&& forall|i: int|
                0 <= i < e.attributes.len() && attribute_in_scope(
                    #[trigger] e.attributes[i].name,
                    prefix,
                ) ==> e.attributes[i].name.namespace == Some(e.namespace[prefix])
        }
}

/// An ordinary attribute named `local_name`: no prefix and that local name.
pub open spec fn is_plain_attribute(a: AttributeView, local_name: Seq<char>) -> bool {
    a.name.prefix is None && a.name.local_name == local_name
}

/// `attributes` with the value of the first ordinary attribute named `local_name`
/// replaced by `value`, or with such an attribute appended when there is none.
pub open spec fn set_plain_attribute(
    attributes: Seq<AttributeView>,
    local_name: Seq<char>,
    value: Seq<char>,
) -> Seq<AttributeView>
    decreases attributes.len(),
{
    if attributes.len() == 0 {
        seq![
            AttributeView {
                name: NameView { local_name: local_name, namespace: None, prefix: None },
                value: value,
            },
        ]
    } else if is_plain_attribute(attributes[0], local_name) {
        attributes.update(0, AttributeView { name: attributes[0].name, value: value })
    } else {
        seq![attributes[0]] + set_plain_attribute(attributes.drop_first(), local_name, value)
    }
}

/// The value of the first ordinary attribute named `local_name`, if any.
pub open spec fn plain_attribute_value(attributes: Seq<AttributeView>, local_name: Seq<char>) -> Option<
    Seq<char>,
>
    decreases attributes.len(),
{
    if attributes.len() == 0 {
        None
    } else if is_plain_attribute(attributes[0], local_name) {
        Some(attributes[0].value)
    } else {
        plain_attribute_value(attributes.drop_first(), local_name)
    }
}

// ---------------------------------------------------------------------------
// Names for the xml-rs values built from this module's values
// ---------------------------------------------------------------------------

/// The xml-rs `OwnedName` whose three fields hold the given name.
pub uninterp spec fn xml_rs_name(name: NameView) -> OwnedName;

/// The xml-rs `OwnedAttribute` whose name and value hold the given attribute.
pub uninterp spec fn xml_rs_attribute(attribute: AttributeView) -> OwnedAttribute;

/// The prefix to URI mappings that an xml-rs `Namespace` holds.
pub uninterp spec fn xml_rs_namespace_mappings(namespace: Namespace) -> Map<Seq<char>, Seq<char>>;

// ---------------------------------------------------------------------------
// Names
// ---------------------------------------------------------------------------

/// A qualified XML name.
#[derive(Clone, Debug)]
pub struct XmlName {
    pub local_name: String,
    pub namespace: Option<String>,
    pub prefix: Option<String>,
}

impl View for XmlName {
    type V = NameView;

    open spec fn view(&self) -> NameView {
        NameView {
            local_name: self.local_name@,
            namespace: opt_string_view(self.namespace),
            prefix: opt_string_view(self.prefix),
        }
    }
}

pub(crate) fn copy_opt_string(o: &Option<String>) -> (r: Option<String>)
    ensures
        opt_string_view(r) == opt_string_view(*o),
{
    match o {
        Some(s) => Some(s.clone()),
        None => None,
    }
}

fn opt_str_to_string(o: Option<&str>) -> (r: Option<String>)
    ensures
        opt_string_view(r) == opt_str_view(o),
{
    match o {
        Some(s) => Some(s.to_owned()),
        None => None,
    }
}

impl XmlName {
    /// A name with no prefix and no namespace.
    pub fn local(local_name: &str) -> (name: XmlName)
        ensures
            name@ == (NameView { local_name: local_name@, namespace: None, prefix: None }),
    {
        XmlName { local_name: local_name.to_owned(), namespace: None, prefix: None }
    }

    /// A name in the given namespace, with or without a prefix.
    pub fn qualified(local_name: &str, namespace: &str, prefix: Option<&str>) -> (name: XmlName)
        ensures
            name@ == (NameView {
                local_name: local_name@,
                namespace: Some(namespace@),
                prefix: opt_str_view(prefix),
            }),
    {
        XmlName {
            local_name: local_name.to_owned(),
            namespace: Some(namespace.to_owned()),
            prefix: opt_str_to_string(prefix),
        }
    }

    /// The namespace URI of this name, if any.
    pub fn namespace_ref(&self) -> (r: Option<&str>)
        ensures
            opt_str_view(r) == self@.namespace,
    {
        match &self.namespace {
            Some(s) => Some(s.as_str()),
            None => None,
        }
    }

    /// The prefix of this name, if any.
    pub fn prefix_ref(&self) -> (r: Option<&str>)
        ensures
            opt_str_view(r) == self@.prefix,
    {
        match &self.prefix {
            Some(s) => Some(s.as_str()),
            None => None,
        }
    }

    pub(crate) fn copy(&self) -> (r: XmlName)
        ensures
            r@ == self@,
    {
        XmlName {
            local_name: self.local_name.clone(),
            namespace: copy_opt_string(&self.namespace),
            prefix: copy_opt_string(&self.prefix),
        }
    }

    /// Builds the xml-rs `OwnedName` struct whose fields are copies of this
    /// name's local name, namespace URI and prefix.
    #[verifier::external_body]
    pub(crate) fn to_xml_rs(&self) -> (name: OwnedName)
        ensures
            name == xml_rs_name(self@),
    {
        OwnedName {
            local_name: self.local_name.clone(),
            namespace: self.namespace.clone(),
            prefix: self.prefix.clone(),
        }
    }

    /// Copies the three public fields of an xml-rs `OwnedName` (local name,
    /// namespace URI, prefix) into a name; the `OwnedName` with those fields is
    /// the one given.
    #[verifier::external_body]
    pub(crate) fn from_xml_rs(name: &OwnedName) -> (r: XmlName)
        ensures
            xml_rs_name(r@) == *name,
    {
        XmlName {
            local_name: name.local_name.clone(),
            namespace: name.namespace.clone(),
            prefix: name.prefix.clone(),
        }
    }
}

// ---------------------------------------------------------------------------
// Attributes
// ---------------------------------------------------------------------------

/// An XML attribute: a qualified name and a value.
#[derive(Clone, Debug)]
pub struct XmlAttribute {
    pub name: XmlName,
    pub value: String,
}

impl View for XmlAttribute {
    type V = AttributeView;

    open spec fn view(&self) -> AttributeView {
        AttributeView { name: self.name@, value: self.value@ }
    }
}

impl XmlAttribute {
    pub fn new(name: XmlName, value: &str) -> (attribute: XmlAttribute)
        ensures
            attribute@ == (AttributeView { name: name@, value: value@ }),
    {
        XmlAttribute { name, value: value.to_owned() }
    }

    pub(crate) fn copy(&self) -> (r: XmlAttribute)
        ensures
            r@ == self@,
    {
        XmlAttribute { name: self.name.copy(), value: self.value.clone() }
    }

    /// Builds the xml-rs `OwnedAttribute` (via `OwnedAttribute::new`) whose name
    /// is the `OwnedName` holding this attribute's name fields and whose value is
    /// a copy of this attribute's value.
    #[verifier::external_body]
    pub(crate) fn to_xml_rs(&self) -> (attribute: OwnedAttribute)
        ensures
            attribute == xml_rs_attribute(self@),
    {
        OwnedAttribute::new(
            OwnedName {
                local_name: self.name.local_name.clone(),
                namespace: self.name.namespace.clone(),
                prefix: self.name.prefix.clone(),
            },
            self.value.clone(),
        )
    }

    /// Copies the name fields and the value of an xml-rs `OwnedAttribute`; the
    /// `OwnedAttribute` with those fields is the one given.
    #[verifier::external_body]
    pub(crate) fn from_xml_rs(attribute: &OwnedAttribute) -> (r: XmlAttribute)
        ensures
            xml_rs_attribute(r@) == *attribute,
    {
        XmlAttribute {
            name: XmlName {
                local_name: attribute.name.local_name.clone(),
                namespace: attribute.name.namespace.clone(),
                prefix: attribute.name.prefix.clone(),
            },
            value: attribute.value.clone(),
        }
    }
}

// ---------------------------------------------------------------------------
// Namespace declarations
// ---------------------------------------------------------------------------

/// `Namespace::empty()` of xml-rs: a namespace without mappings.
#[verifier::external_body]
fn xml_rs_namespace_empty() -> (r: Namespace)
    ensures
        xml_rs_namespace_mappings(r).dom().is_empty(),
{
    Namespace::empty()
}

/// `Namespace::force_put` of xml-rs: binds `prefix` to `uri`, replacing any
/// earlier binding of `prefix` (an insert into its `BTreeMap`).
#[verifier::external_body]
fn xml_rs_namespace_force_put(namespace: &mut Namespace, prefix: String, uri: String)
    ensures
        xml_rs_namespace_mappings(*final(namespace)) == xml_rs_namespace_mappings(
            *old(namespace),
        ).insert(prefix@, uri@),
{
    namespace.force_put(prefix, uri);
}

/// The mappings of an xml-rs `Namespace`, copied out of its `BTreeMap` by
/// walking it once: every prefix occurs once, with its URI.
#[verifier::external_body]
fn xml_rs_namespace_entries(namespace: &Namespace) -> (entries: Vec<(String, String)>)
    ensures
        mappings_of(entries@) == xml_rs_namespace_mappings(*namespace),
{
    namespace.0.iter().map(|(prefix, uri)| (prefix.clone(), uri.clone())).collect()
}

/// A set of namespace declarations: prefixes (the empty prefix for the default
/// namespace) bound to namespace URIs.
#[derive(Clone, Debug)]
pub struct XmlNamespace {
    entries: Vec<(String, String)>,
}

impl View for XmlNamespace {
    type V = Map<Seq<char>, Seq<char>>;

    closed spec fn view(&self) -> Map<Seq<char>, Seq<char>> {
        mappings_of(self.entries@)
    }
}

proof fn lemma_mappings_last_binding(entries: Seq<(String, String)>, i: int)
    requires
        0 <= i < entries.len(),
        forall|j: int| i < j < entries.len() ==> entries[j].0@ != entries[i].0@,
    ensures
        mappings_of(entries).dom().contains(entries[i].0@),
        mappings_of(entries)[entries[i].0@] == entries[i].1@,
    decreases entries.len(),
{
    if i < entries.len() - 1 {
        let rest = entries.drop_last();
        assert forall|j: int| i < j < rest.len() implies rest[j].0@ != rest[i].0@ by {
            assert(rest[j] == entries[j]);
        }
        lemma_mappings_last_binding(rest, i);
        assert(entries.last() == entries[entries.len() - 1]);
    }
}

proof fn lemma_mappings_absent(entries: Seq<(String, String)>, prefix: Seq<char>)
    requires
        forall|j: int| 0 <= j < entries.len() ==> entries[j].0@ != prefix,
    ensures
        !mappings_of(entries).dom().contains(prefix),
    decreases entries.len(),
{
    if entries.len() > 0 {
        let rest = entries.drop_last();
        assert forall|j: int| 0 <= j < rest.len() implies rest[j].0@ != prefix by {
            assert(rest[j] == entries[j]);
        }
        lemma_mappings_absent(rest, prefix);
        assert(entries.last() == entries[entries.len() - 1]);
    }
}

proof fn lemma_mappings_update_last_binding(
    entries: Seq<(String, String)>,
    i: int,
    entry: (String, String),
)
    requires
        0 <= i < entries.len(),
        entry.0@ == entries[i].0@,
        forall|j: int| i < j < entries.len() ==> entries[j].0@ != entries[i].0@,
    ensures
        mappings_of(entries.update(i, entry)) =~= mappings_of(entries).insert(entry.0@, entry.1@),
    decreases entries.len(),
{
    let updated = entries.update(i, entry);
    if i == entries.len() - 1 {
        assert(updated.drop_last() =~= entries.drop_last());
    } else {
        let rest = entries.drop_last();
        assert forall|j: int| i < j < rest.len() implies rest[j].0@ != rest[i].0@ by {
            assert(rest[j] == entries[j]);
        }
        lemma_mappings_update_last_binding(rest, i, entry);
        assert(updated.drop_last() =~= rest.update(i, entry));
        assert(updated.last() == entries.last());
        assert(entries.last() == entries[entries.len() - 1]);
    }
}

proof fn lemma_mappings_take_step(entries: Seq<(String, String)>, i: int)
    requires
        0 <= i < entries.len(),
    ensures
        mappings_of(entries.take(i + 1)) == mappings_of(entries.take(i)).insert(
            entries[i].0@,
            entries[i].1@,
        ),
{
    assert(entries.take(i + 1).drop_last() =~= entries.take(i));
}

impl XmlNamespace {
    /// No declarations.
    pub fn empty() -> (namespace: XmlNamespace)
        ensures
            namespace@ == Map::<Seq<char>, Seq<char>>::empty(),
    {
        XmlNamespace { entries: Vec::new() }
    }

    /// The index of the last entry for `prefix`.
    fn find(&self, prefix: &str) -> (r: Option<usize>)
        ensures
            match r {
                Some(i) => {
                    &&& i < self.entries@.len()
                    &&& self.entries@[i as int].0@ == prefix@
                    &&& forall|j: int|
                        i < j < self.entries@.len() ==> self.entries@[j].0@ != prefix@
                },
                None => forall|j: int|
                    0 <= j < self.entries@.len() ==> self.entries@[j].0@ != prefix@,
            },
    {
        let key = prefix.to_owned();
        let mut i = self.entries.len();
        while i > 0
            invariant
                i <= self.entries@.len(),
                key@ == prefix@,
                forall|j: int| i <= j < self.entries@.len() ==> self.entries@[j].0@ != prefix@,
            decreases i,
        {
            i = i - 1;
            if self.entries[i].0 == key {
                return Some(i);
            }
        }
        None
    }

    /// Whether `prefix` is declared.
    pub fn contains(&self, prefix: &str) -> (r: bool)
        ensures
            r == self@.dom().contains(prefix@),
    {
        match self.find(prefix) {
            Some(i) => {
                proof {
                    lemma_mappings_last_binding(self.entries@, i as int);
                }
                true
            },
            None => {
                proof {
                    lemma_mappings_absent(self.entries@, prefix@);
                }
                false
            },
        }
    }

    /// The URI bound to `prefix`, if any.
    pub fn get(&self, prefix: &str) -> (r: Option<&str>)
        ensures
            opt_str_view(r) == lookup(self@, prefix@),
    {
        match self.find(prefix) {
            Some(i) => {
                proof {
                    lemma_mappings_last_binding(self.entries@, i as int);
                }
                Some(self.entries[i].1.as_str())
            },
            None => {
                proof {
                    lemma_mappings_absent(self.entries@, prefix@);
                }
                None
            },
        }
    }

    /// Binds `prefix` to `uri` unless `prefix` is already declared; returns
    /// whether the binding was added.
    pub fn put(&mut self, prefix: &str, uri: &str) -> (inserted: bool)
        ensures
            inserted == !old(self)@.dom().contains(prefix@),
            final(self)@ == (if inserted {
                old(self)@.insert(prefix@, uri@)
            } else {
                old(self)@
            }),
    {
        if self.contains(prefix) {
            false
        } else {
            self.force_put(prefix, uri);
            true
        }
    }

    /// Binds `prefix` to `uri`, replacing any earlier binding; returns the URI
    /// that `prefix` was bound to before.
    pub fn force_put(&mut self, prefix: &str, uri: &str) -> (previous: Option<String>)
        ensures
            opt_string_view(previous) == lookup(old(self)@, prefix@),
            final(self)@ == old(self)@.insert(prefix@, uri@),
    {
        let entry = (prefix.to_owned(), uri.to_owned());
        match self.find(prefix) {
            Some(i) => {
                proof {
                    lemma_mappings_last_binding(self.entries@, i as int);
                    lemma_mappings_update_last_binding(self.entries@, i as int, entry);
                }
                let previous = self.entries[i].1.clone();
                self.entries.set(i, entry);
                Some(previous)
            },
            None => {
                proof {
                    lemma_mappings_absent(self.entries@, prefix@);
                }
                self.entries.push(entry);
                proof {
                    assert(self.entries@.drop_last() =~= old(self).entries@);
                }
                None
            },
        }
    }

    pub(crate) fn copy(&self) -> (r: XmlNamespace)
        ensures
            r@ == self@,
    {
        let mut entries: Vec<(String, String)> = Vec::new();
        let n = self.entries.len();
        let mut i: usize = 0;
        while i < n
            invariant
                n == self.entries@.len(),
                i <= n,
                entries@ == self.entries@.take(i as int),
            decreases n - i,
        {
            entries.push((self.entries[i].0.clone(), self.entries[i].1.clone()));
            proof {
                assert(entries@ =~= self.entries@.take(i + 1));
            }
            i = i + 1;
        }
        proof {
            assert(self.entries@.take(n as int) =~= self.entries@);
        }
        XmlNamespace { entries }
    }

    /// Builds the xml-rs `Namespace` with the same mappings.
    pub(crate) fn to_xml_rs(&self) -> (namespace: Namespace)
        ensures
            xml_rs_namespace_mappings(namespace) == self@,
    {
        let mut namespace = xml_rs_namespace_empty();
        let n = self.entries.len();
        let mut i: usize = 0;
        proof {
            assert(self.entries@.take(0) =~= Seq::<(String, String)>::empty());
        }
        while i < n
            invariant
                n == self.entries@.len(),
                i <= n,
                xml_rs_namespace_mappings(namespace) == mappings_of(self.entries@.take(i as int)),
            decreases n - i,
        {
            proof {
                lemma_mappings_take_step(self.entries@, i as int);
            }
            xml_rs_namespace_force_put(
                &mut namespace,
                self.entries[i].0.clone(),
                self.entries[i].1.clone(),
            );
            i = i + 1;
        }
        proof {
            assert(self.entries@.take(n as int) =~= self.entries@);
        }
        namespace
    }

    /// The declarations held by an xml-rs `Namespace`.
    pub(crate) fn from_xml_rs(namespace: &Namespace) -> (r: XmlNamespace)
        ensures
            r@ == xml_rs_namespace_mappings(*namespace),
    {
        XmlNamespace { entries: xml_rs_namespace_entries(namespace) }
    }
}

// ---------------------------------------------------------------------------
// Start elements
// ---------------------------------------------------------------------------

/// A start element as handed to the start-element updater: its name, its
/// attributes and its namespace declarations.
#[derive(Clone, Debug)]
pub struct XmlStartElement {
    pub name: XmlName,
    pub attributes: Vec<XmlAttribute>,
    pub namespace: XmlNamespace,
}

impl View for XmlStartElement {
    type V = StartElementView;

    open spec fn view(&self) -> StartElementView {
        StartElementView {
            name: self.name@,
            attributes: attribute_views(self.attributes@),
            namespace: self.namespace@,
        }
    }
}

proof fn lemma_set_plain_attribute_at(
    attributes: Seq<AttributeView>,
    local_name: Seq<char>,
    value: Seq<char>,
    i: int,
)
    requires
        0 <= i < attributes.len(),
        is_plain_attribute(attributes[i], local_name),
        forall|j: int| 0 <= j < i ==> !is_plain_attribute(attributes[j], local_name),
    ensures
        set_plain_attribute(attributes, local_name, value) =~= attributes.update(
            i,
            AttributeView { name: attributes[i].name, value: value },
        ),
    decreases attributes.len(),
{
    if i > 0 {
        let rest = attributes.drop_first();
        assert forall|j: int| 0 <= j < i - 1 implies !is_plain_attribute(rest[j], local_name) by {
            assert(rest[j] == attributes[j + 1]);
        }
        lemma_set_plain_attribute_at(rest, local_name, value, i - 1);
        assert(!is_plain_attribute(attributes[0], local_name));
    }
}

proof fn lemma_set_plain_attribute_absent(
    attributes: Seq<AttributeView>,
    local_name: Seq<char>,
    value: Seq<char>,
)
    requires
        forall|j: int| 0 <= j < attributes.len() ==> !is_plain_attribute(attributes[j], local_name),
    ensures
        set_plain_attribute(attributes, local_name, value) =~= attributes.push(
            AttributeView {
                name: NameView { local_name: local_name, namespace: None, prefix: None },
                value: value,
            },
        ),
    decreases attributes.len(),
{
    if attributes.len() > 0 {
        let rest = attributes.drop_first();
        assert forall|j: int| 0 <= j < rest.len() implies !is_plain_attribute(rest[j], local_name) by {
            assert(rest[j] == attributes[j + 1]);
        }
        lemma_set_plain_attribute_absent(rest, local_name, value);
        assert(!is_plain_attribute(attributes[0], local_name));
    }
}

impl XmlStartElement {
    pub fn new(name: XmlName, attributes: Vec<XmlAttribute>, namespace: XmlNamespace) -> (event:
        XmlStartElement)
        ensures
            event@ == (StartElementView {
                name: name@,
                attributes: attribute_views(attributes@),
                namespace: namespace@,
            }),
    {
        XmlStartElement { name, attributes, namespace }
    }

    /// Expands every name that `prefix` governs to `uri`; declarations unchanged.
    fn expand_names(&mut self, prefix: &str, uri: &str)
        ensures
            final(self)@ == (StartElementView {
                namespace: old(self)@.namespace,
                ..rebind(old(self)@, prefix@, uri@)
            }),
    {
        let key = prefix.to_owned();
        let element_matches = match &self.name.prefix {
            Some(p) => *p == key,
            None => prefix.is_empty(),
        };
        if element_matches {
            self.name.namespace = Some(uri.to_owned());
        }
        let ghost old_attributes = attribute_views(old(self).attributes@);
        let ghost expanded_name = self.name@;
        let n = self.attributes.len();
        let mut i: usize = 0;
        while i < n
            invariant
                self.name@ == expanded_name,
                self.namespace@ == old(self).namespace@,
                n == self.attributes@.len(),
                n == old_attributes.len(),
                i <= n,
                key@ == prefix@,
                forall|j: int|
                    0 <= j < i ==> #[trigger] self.attributes@[j]@ == rebound_attribute(
                        old_attributes[j],
                        prefix@,
                        uri@,
                    ),
                forall|j: int| i <= j < n ==> #[trigger] self.attributes@[j]@ == old_attributes[j],
            decreases n - i,
        {
            let ghost current = self.attributes@;
            assert(current[i as int]@ == old_attributes[i as int]);
            let in_scope = match &self.attributes[i].name.prefix {
                Some(p) => !prefix.is_empty() && *p == key,
                None => false,
            };
            assert(in_scope == attribute_in_scope(old_attributes[i as int].name, prefix@));
            if in_scope {
                let name = XmlName {
                    local_name: self.attributes[i].name.local_name.clone(),
                    namespace: Some(uri.to_owned()),
                    prefix: copy_opt_string(&self.attributes[i].name.prefix),
                };
                let value = self.attributes[i].value.clone();
                self.attributes.set(i, XmlAttribute { name, value });
            }
            assert(self.attributes@[i as int]@ == rebound_attribute(
                old_attributes[i as int],
                prefix@,
                uri@,
            ));
            assert(forall|j: int| 0 <= j < n && j != i ==> self.attributes@[j] == current[j]);
            i = i + 1;
        }
        proof {
            assert(attribute_views(self.attributes@) =~= old_attributes.map_values(
                |a: AttributeView| rebound_attribute(a, prefix@, uri@),
            ));
        }
    }

    /// Rebinds a prefix that this element already declares; does nothing and
    /// returns `false` when it does not declare `prefix`.
    pub fn update_namespace(&mut self, prefix: &str, uri: &str) -> (updated: bool)
        ensures
            updated == old(self)@.namespace.dom().contains(prefix@),
            updated ==> final(self)@ == rebind(old(self)@, prefix@, uri@),
            !updated ==> final(self)@ == old(self)@,
    {
        if !self.namespace.contains(prefix) {
            return false;
        }
        self.set_namespace(prefix, uri);
        true
    }

    /// Declares `prefix` as bound to `uri`, inserting or replacing the
    /// declaration, and expands the names that `prefix` governs; returns the URI
    /// that was declared for `prefix` before.
    pub fn set_namespace(&mut self, prefix: &str, uri: &str) -> (previous: Option<String>)
        ensures
            opt_string_view(previous) == lookup(old(self)@.namespace, prefix@),
            final(self)@ == rebind(old(self)@, prefix@, uri@),
    {
        let previous = self.namespace.force_put(prefix, uri);
        self.expand_names(prefix, uri);
        previous
    }

    /// Sets the value of the ordinary (unprefixed) attribute `local_name`,
    /// replacing the first such attribute or appending a new one.
    pub fn set_attribute(&mut self, local_name: &str, value: &str)
        ensures
            final(self)@ == (StartElementView {
                attributes: set_plain_attribute(old(self)@.attributes, local_name@, value@),
                ..old(self)@
            }),
    {
        let key = local_name.to_owned();
        let ghost old_attributes = attribute_views(self.attributes@);
        let n = self.attributes.len();
        let mut i: usize = 0;
        let mut found = false;
        while i < n && !found
            invariant
                n == self.attributes@.len(),
                attribute_views(self.attributes@) == old_attributes,
                key@ == local_name@,
                i <= n,
                found ==> i < n && is_plain_attribute(old_attributes[i as int], local_name@),
                forall|j: int| 0 <= j < i ==> !is_plain_attribute(old_attributes[j], local_name@),
            decreases n - i + (if found { 0int } else { 1int }),
        {
            proof {
                assert(old_attributes[i as int] == self.attributes@[i as int]@);
            }
            let plain = match &self.attributes[i].name.prefix {
                Some(_) => false,
                None => self.attributes[i].name.local_name == key,
            };
            if plain {
                found = true;
            } else {
                i = i + 1;
            }
        }
        if found {
            proof {
                lemma_set_plain_attribute_at(old_attributes, local_name@, value@, i as int);
            }
            let name = self.attributes[i].name.copy();
            self.attributes.set(i, XmlAttribute { name, value: value.to_owned() });
            proof {
                assert(attribute_views(self.attributes@) =~= old_attributes.update(
                    i as int,
                    AttributeView { name: old_attributes[i as int].name, value: value@ },
                ));
            }
        } else {
            proof {
                lemma_set_plain_attribute_absent(old_attributes, local_name@, value@);
            }
            self.attributes.push(XmlAttribute::new(XmlName::local(local_name), value));
            proof {
                assert(attribute_views(self.attributes@) =~= old_attributes.push(
                    AttributeView {
                        name: NameView { local_name: local_name@, namespace: None, prefix: None },
                        value: value@,
                    },
                ));
            }
        }
    }
}

// ---------------------------------------------------------------------------
// Writer events
// ---------------------------------------------------------------------------

/// An event of the library's own writer interface.
#[derive(Debug)]
pub enum XmlWriteEvent<'a> {
    StartElement { name: Cow<'a, str>, attributes: Vec<XmlAttribute>, namespace: XmlNamespace },
    EndElement,
    Characters(Cow<'a, str>),
    CData(Cow<'a, str>),
}

// ---------------------------------------------------------------------------
// Laws of the namespace and attribute helpers
// ---------------------------------------------------------------------------

/// Rebinding a prefix expands every name that the prefix governs (the element
/// name, and the attributes that carry the prefix) to the new URI.
pub proof fn law_rebind_expands_governed_names(e: StartElementView, prefix: Seq<char>, uri: Seq<char>)
    ensures
        rebind(e, prefix, uri).namespace.dom().contains(prefix),
        rebind(e, prefix, uri).namespace[prefix] == uri,
        element_in_scope(e.name, prefix) ==> rebind(e, prefix, uri).name.namespace == Some(uri),
        forall|i: int|
            0 <= i < e.attributes.len() && attribute_in_scope(#[trigger] e.attributes[i].name, prefix)
                ==> rebind(e, prefix, uri).attributes[i].name.namespace == Some(uri),
{
}

/// Rebinding a prefix leaves every local name, prefix and attribute value as it
/// was, keeps the attribute count, never touches an unprefixed attribute (the
/// default namespace does not apply to attributes), and leaves the names of
/// other prefixes alone.
pub proof fn law_rebind_changes_only_governed_namespaces(
    e: StartElementView,
    prefix: Seq<char>,
    uri: Seq<char>,
)
    ensures
        rebind(e, prefix, uri).attributes.len() == e.attributes.len(),
        rebind(e, prefix, uri).name.local_name == e.name.local_name,
        rebind(e, prefix, uri).name.prefix == e.name.prefix,
        !element_in_scope(e.name, prefix) ==> rebind(e, prefix, uri).name == e.name,
        forall|i: int|
            #![trigger e.attributes[i]]
            0 <= i < e.attributes.len() ==> {
                &&& rebind(e, prefix, uri).attributes[i].name.local_name
                    == e.attributes[i].name.local_name
                &&& rebind(e, prefix, uri).attributes[i].name.prefix == e.attributes[i].name.prefix
                &&& rebind(e, prefix, uri).attributes[i].value == e.attributes[i].value
                &&& e.attributes[i].name.prefix is None ==> rebind(e, prefix, uri).attributes[i]
                    == e.attributes[i]
                &&& !attribute_in_scope(e.attributes[i].name, prefix) ==> rebind(
                    e,
                    prefix,
                    uri,
                ).attributes[i] == e.attributes[i]
            },
        forall|other: Seq<char>|
            other != prefix ==> lookup(#[trigger] rebind(e, prefix, uri).namespace, other)
                == lookup(e.namespace, other),
{
    assert forall|other: Seq<char>| other != prefix implies lookup(
        #[trigger] rebind(e, prefix, uri).namespace,
        other,
    ) == lookup(e.namespace, other) by {
        let m = e.namespace.insert(prefix, uri);
        assert(m.dom().contains(other) == e.namespace.dom().contains(other));
    }
}

/// When an element's names agree with its declarations, they still agree after
/// a prefix is rebound: the helpers keep expanded names in sync.
pub proof fn law_rebind_keeps_expanded_names_consistent(
    e: StartElementView,
    prefix: Seq<char>,
    uri: Seq<char>,
)
    requires
        expanded_names_consistent(e),
    ensures
        expanded_names_consistent(rebind(e, prefix, uri)),
{
    let r = rebind(e, prefix, uri);
    assert forall|q: Seq<char>| #![trigger r.namespace.dom().contains(q)] r.namespace.dom().contains(q) implies {
        &&& element_in_scope(r.name, q) ==> r.name.namespace == Some(r.namespace[q])
        &&& forall|i: int|
            0 <= i < r.attributes.len() && attribute_in_scope(#[trigger] r.attributes[i].name, q)
                ==> r.attributes[i].name.namespace == Some(r.namespace[q])
    } by {
        if q != prefix {
            assert(e.namespace.dom().contains(q));
            if element_in_scope(e.name, prefix) && element_in_scope(e.name, q) {
                assert(q =~= prefix);
            }
            assert forall|i: int|
                0 <= i < r.attributes.len() && attribute_in_scope(#[trigger] r.attributes[i].name, q)
                implies r.attributes[i].name.namespace == Some(r.namespace[q]) by {
                assert(r.attributes[i] == rebound_attribute(e.attributes[i], prefix, uri));
                assert(attribute_in_scope(e.attributes[i].name, q));
            }
        } else {
            assert forall|i: int|
                0 <= i < r.attributes.len() && attribute_in_scope(#[trigger] r.attributes[i].name, q)
                implies r.attributes[i].name.namespace == Some(r.namespace[q]) by {
                assert(r.attributes[i] == rebound_attribute(e.attributes[i], prefix, uri));
            }
        }
    }
}

/// Rebinding a prefix twice to the same URI is the same as rebinding it once.
pub proof fn law_rebind_idempotent(e: StartElementView, prefix: Seq<char>, uri: Seq<char>)
    ensures
        rebind(rebind(e, prefix, uri), prefix, uri) == rebind(e, prefix, uri),
{
    let once = rebind(e, prefix, uri);
    let twice = rebind(once, prefix, uri);
    assert(twice.attributes =~= once.attributes) by {
        assert forall|i: int| 0 <= i < once.attributes.len() implies twice.attributes[i]
            == once.attributes[i] by {
            assert(once.attributes[i] == rebound_attribute(e.attributes[i], prefix, uri));
        }
    }
    assert(twice.namespace =~= once.namespace);
}

/// After an attribute is set, reading it back gives the value that was set.
pub proof fn law_set_attribute_then_read(
    attributes: Seq<AttributeView>,
    local_name: Seq<char>,
    value: Seq<char>,
)
    ensures
        plain_attribute_value(set_plain_attribute(attributes, local_name, value), local_name)
            == Some(value),
    decreases attributes.len(),
{
    if attributes.len() > 0 && !is_plain_attribute(attributes[0], local_name) {
        law_set_attribute_then_read(attributes.drop_first(), local_name, value);
        let r = set_plain_attribute(attributes, local_name, value);
        assert(r.drop_first() =~= set_plain_attribute(attributes.drop_first(), local_name, value));
    }
}

/// Setting one attribute leaves what every other ordinary attribute reads as.
pub proof fn law_set_attribute_leaves_others(
    attributes: Seq<AttributeView>,
    local_name: Seq<char>,
    value: Seq<char>,
    other: Seq<char>,
)
    requires
        other != local_name,
    ensures
        plain_attribute_value(set_plain_attribute(attributes, local_name, value), other)
            == plain_attribute_value(attributes, other),
    decreases attributes.len(),
{
    let r = set_plain_attribute(attributes, local_name, value);
    if attributes.len() == 0 {
        assert(r.drop_first() =~= Seq::<AttributeView>::empty());
        assert(!is_plain_attribute(r[0], other));
        assert(plain_attribute_value(r, other) == plain_attribute_value(r.drop_first(), other));
    } else if is_plain_attribute(attributes[0], local_name) {
        assert(r.drop_first() =~= attributes.drop_first());
        assert(!is_plain_attribute(r[0], other));
        assert(!is_plain_attribute(attributes[0], other));
    } else {
        law_set_attribute_leaves_others(attributes.drop_first(), local_name, value, other);
        assert(r.drop_first() =~= set_plain_attribute(attributes.drop_first(), local_name, value));
    }
}

/// Setting an attribute adds one attribute exactly when none of that name was
/// present, and setting it again replaces the value in place.
pub proof fn law_set_attribute_replaces_or_appends(
    attributes: Seq<AttributeView>,
    local_name: Seq<char>,
    value: Seq<char>,
    value2: Seq<char>,
)
    ensures
        set_plain_attribute(attributes, local_name, value).len() == attributes.len() + (
        if plain_attribute_value(attributes, local_name) is None {
            1int
        } else {
            0int
        }),
        set_plain_attribute(set_plain_attribute(attributes, local_name, value), local_name, value2)
            == set_plain_attribute(attributes, local_name, value2),
    decreases attributes.len(),
{
    if attributes.len() > 0 && !is_plain_attribute(attributes[0], local_name) {
        law_set_attribute_replaces_or_appends(attributes.drop_first(), local_name, value, value2);
        let r = set_plain_attribute(attributes, local_name, value);
        assert(r.drop_first() =~= set_plain_attribute(attributes.drop_first(), local_name, value));
        assert(r[0] == attributes[0]);
        let r2 = set_plain_attribute(r, local_name, value2);
        assert(r2 =~= seq![attributes[0]] + set_plain_attribute(
            set_plain_attribute(attributes.drop_first(), local_name, value),
            local_name,
            value2,
        ));
    } else if attributes.len() > 0 {
        let r = set_plain_attribute(attributes, local_name, value);
        assert(set_plain_attribute(r, local_name, value2) =~= set_plain_attribute(
            attributes,
            local_name,
            value2,
        ));
    } else {
        let r = set_plain_attribute(attributes, local_name, value);
        assert(set_plain_attribute(r, local_name, value2) =~= set_plain_attribute(
            attributes,
            local_name,
            value2,
        ));
    }
}

/// The split of an element name at its first `:` is unique, and the split
/// name is written back as the text it came from.
pub proof fn law_qualified_split_is_unique(
    text: Seq<char>,
    namespace: Map<Seq<char>, Seq<char>>,
    a: NameView,
    b: NameView,
)
    requires
        splits_qualified_name(text, a, namespace),
        splits_qualified_name(text, b, namespace),
    ensures
        a == b,
        rendered_name(a) == text,
{
    match (a.prefix, b.prefix) {
        (Some(p), Some(q)) => {
            if p.len() < q.len() {
                assert(text[p.len() as int] == ':');
                assert(q[p.len() as int] == text[p.len() as int]);
                assert(q.contains(':'));
            } else if q.len() < p.len() {
                assert(text[q.len() as int] == ':');
                assert(p[q.len() as int] == text[q.len() as int]);
                assert(p.contains(':'));
            } else {
                assert(p =~= text.take(p.len() as int));
                assert(q =~= text.take(q.len() as int));
                assert(a.local_name =~= text.skip(p.len() as int + 1));
                assert(b.local_name =~= text.skip(q.len() as int + 1));
            }
        },
        (Some(p), None) => {
            assert(text[p.len() as int] == ':');
        },
        (None, Some(q)) => {
            assert(text[q.len() as int] == ':');
        },
        (None, None) => {},
    }
}

} // verus!
