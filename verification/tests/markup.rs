use yaserde::markup::{XmlAttribute, XmlName, XmlNamespace, XmlStartElement};

const V1: &str = "urn:example:v1";
const V2: &str = "urn:example:v2";

fn namespace_of(entries: &[(&str, &str)]) -> XmlNamespace {
  let mut namespace = XmlNamespace::empty();
  for (prefix, uri) in entries {
    namespace.force_put(prefix, uri);
  }
  namespace
}

#[test]
fn names_are_built_from_their_parts() {
  let local = XmlName::local("item");
  assert_eq!(local.local_name, "item");
  assert_eq!(local.prefix_ref(), None);
  assert_eq!(local.namespace_ref(), None);
  let qualified = XmlName::qualified("item", V1, Some("p"));
  assert_eq!(qualified.local_name, "item");
  assert_eq!(qualified.prefix_ref(), Some("p"));
  assert_eq!(qualified.namespace_ref(), Some(V1));
  let unprefixed = XmlName::qualified("item", V1, None);
  assert_eq!(unprefixed.prefix_ref(), None);
  assert_eq!(unprefixed.namespace_ref(), Some(V1));
  let attribute = XmlAttribute::new(qualified, "value");
  assert_eq!(attribute.value, "value");
  assert_eq!(attribute.name.local_name, "item");
}

#[test]
fn namespace_put_keeps_an_existing_binding() {
  let mut namespace = XmlNamespace::empty();
  assert!(!namespace.contains("a"));
  assert!(namespace.put("a", V1));
  assert!(!namespace.put("a", V2));
  assert_eq!(namespace.get("a"), Some(V1));
  assert!(namespace.contains("a"));
  assert_eq!(namespace.get("b"), None);
}

#[test]
fn namespace_force_put_replaces_and_returns_the_previous_binding() {
  let mut namespace = XmlNamespace::empty();
  assert_eq!(namespace.force_put("a", V1), None);
  assert_eq!(namespace.force_put("", "urn:default"), None);
  assert_eq!(namespace.force_put("a", V2), Some(V1.to_owned()));
  assert_eq!(namespace.get("a"), Some(V2));
  assert_eq!(namespace.get(""), Some("urn:default"));
}

fn prefixed_event(namespace: XmlNamespace) -> XmlStartElement {
  XmlStartElement::new(
    XmlName::qualified("root", V1, Some("p")),
    vec![
      XmlAttribute::new(XmlName::qualified("id", V1, Some("p")), "1"),
      XmlAttribute::new(XmlName::local("plain"), "2"),
      XmlAttribute::new(XmlName::qualified("other", "urn:q", Some("q")), "3"),
    ],
    namespace,
  )
}

#[test]
fn update_namespace_rebinds_a_declared_prefix() {
  let mut event = prefixed_event(namespace_of(&[("p", V1), ("q", "urn:q")]));
  assert!(event.update_namespace("p", V2));
  assert_eq!(event.namespace.get("p"), Some(V2));
  assert_eq!(event.namespace.get("q"), Some("urn:q"));
  assert_eq!(event.name.namespace_ref(), Some(V2));
  assert_eq!(event.attributes[0].name.namespace_ref(), Some(V2));
  assert_eq!(event.attributes[1].name.namespace_ref(), None);
  assert_eq!(event.attributes[2].name.namespace_ref(), Some("urn:q"));
  assert_eq!(event.attributes[0].value, "1");
  assert_eq!(event.attributes[0].name.local_name, "id");
}

#[test]
fn update_namespace_leaves_an_undeclared_prefix_alone() {
  let mut event = prefixed_event(namespace_of(&[("q", "urn:q")]));
  assert!(!event.update_namespace("p", V2));
  assert_eq!(event.namespace.get("p"), None);
  assert_eq!(event.name.namespace_ref(), Some(V1));
  assert_eq!(event.attributes[0].name.namespace_ref(), Some(V1));
}

#[test]
fn default_namespace_reaches_unprefixed_elements_but_not_attributes() {
  let mut event = XmlStartElement::new(
    XmlName::local("root"),
    vec![XmlAttribute::new(XmlName::local("plain"), "1")],
    XmlNamespace::empty(),
  );
  assert_eq!(event.set_namespace("", V1), None);
  assert_eq!(event.name.namespace_ref(), Some(V1));
  assert_eq!(event.attributes[0].name.namespace_ref(), None);
  assert_eq!(event.set_namespace("", V2), Some(V1.to_owned()));
  assert_eq!(event.name.namespace_ref(), Some(V2));
  assert!(event.update_namespace("", V1));
  assert_eq!(event.name.namespace_ref(), Some(V1));
}

#[test]
fn rebinding_one_prefix_leaves_names_of_other_prefixes() {
  let mut event = prefixed_event(namespace_of(&[("p", V1)]));
  event.set_namespace("q", V2);
  assert_eq!(event.name.namespace_ref(), Some(V1));
  assert_eq!(event.attributes[0].name.namespace_ref(), Some(V1));
  assert_eq!(event.attributes[2].name.namespace_ref(), Some(V2));
}

#[test]
fn rebinding_keeps_expanded_names_consistent() {
  let mut event = prefixed_event(namespace_of(&[("p", V1), ("q", "urn:q")]));
  event.set_namespace("p", V2);
  event.set_namespace("q", "urn:q2");
  for (prefix, uri) in [("p", V2), ("q", "urn:q2")] {
    assert_eq!(event.namespace.get(prefix), Some(uri));
    if event.name.prefix_ref() == Some(prefix) {
      assert_eq!(event.name.namespace_ref(), Some(uri));
    }
    for attribute in &event.attributes {
      if attribute.name.prefix_ref() == Some(prefix) {
        assert_eq!(attribute.name.namespace_ref(), Some(uri));
      }
    }
  }
}

#[test]
fn rebinding_twice_is_rebinding_once() {
  let mut once = prefixed_event(namespace_of(&[("p", V1)]));
  once.set_namespace("p", V2);
  let mut twice = prefixed_event(namespace_of(&[("p", V1)]));
  twice.set_namespace("p", V2);
  assert_eq!(twice.set_namespace("p", V2), Some(V2.to_owned()));
  assert_eq!(format!("{:?}", once.name), format!("{:?}", twice.name));
  assert_eq!(format!("{:?}", once.attributes), format!("{:?}", twice.attributes));
}

#[test]
fn set_attribute_replaces_the_first_plain_attribute_only() {
  let mut event = XmlStartElement::new(
    XmlName::local("root"),
    vec![
      XmlAttribute::new(XmlName::qualified("plain", V1, Some("p")), "prefixed"),
      XmlAttribute::new(XmlName::local("plain"), "first"),
      XmlAttribute::new(XmlName::local("plain"), "second"),
    ],
    XmlNamespace::empty(),
  );
  event.set_attribute("plain", "changed");
  assert_eq!(event.attributes.len(), 3);
  assert_eq!(event.attributes[0].value, "prefixed");
  assert_eq!(event.attributes[1].value, "changed");
  assert_eq!(event.attributes[2].value, "second");
}

#[test]
fn set_attribute_appends_a_missing_attribute_and_reads_back() {
  let mut event = XmlStartElement::new(XmlName::local("root"), Vec::new(), XmlNamespace::empty());
  event.set_attribute("version", "1");
  assert_eq!(event.attributes.len(), 1);
  assert_eq!(event.attributes[0].name.local_name, "version");
  assert_eq!(event.attributes[0].name.prefix_ref(), None);
  assert_eq!(event.attributes[0].name.namespace_ref(), None);
  event.set_attribute("version", "2");
  event.set_attribute("kind", "x");
  assert_eq!(event.attributes.len(), 2);
  assert_eq!(event.attributes[0].value, "2");
  assert_eq!(event.attributes[1].value, "x");
}
