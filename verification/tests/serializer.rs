use std::borrow::Cow;
use std::io::Cursor;
use std::io::Write;
use std::sync::Arc;
use std::sync::Mutex;
use yaserde::markup::{XmlAttribute, XmlName, XmlNamespace, XmlWriteEvent};
use yaserde::ser::{serialize_with_writer, serialize_with_writer_content, Config, Serializer};
use yaserde::YaSerialize;

const V1: &str = "urn:example:v1";

fn output(serializer: Serializer<Vec<u8>>) -> String {
  String::from_utf8(serializer.into_inner()).unwrap()
}

#[test]
fn write_event_writes_each_kind_of_event() {
  let mut serializer = Serializer::new_for_inner(Vec::new());
  let mut namespace = XmlNamespace::empty();
  namespace.put("ns", "urn:example?x=\"y\"");
  serializer
    .write_event(XmlWriteEvent::StartElement {
      name: "ns:root".into(),
      attributes: vec![XmlAttribute::new(XmlName::local("value"), "<&\"'")],
      namespace,
    })
    .unwrap();
  serializer
    .write_event(XmlWriteEvent::CData("raw <& text".into()))
    .unwrap();
  serializer
    .write_event(XmlWriteEvent::Characters(Cow::Owned("a<b".to_owned())))
    .unwrap();
  serializer.write_event(XmlWriteEvent::EndElement).unwrap();
  assert_eq!(
    output(serializer),
    "<ns:root xmlns:ns=\"urn:example?x=&quot;y&quot;\" value=\"&lt;&amp;&quot;&apos;\"><![CDATA[raw <& text]]>a&lt;b</ns:root>"
  );
}

#[test]
fn characters_are_escaped_and_cdata_is_kept() {
  let mut serializer = Serializer::new_for_inner(Vec::new());
  serializer
    .write_start_element("a", Vec::new(), XmlNamespace::empty())
    .unwrap();
  serializer.write_characters("<&>").unwrap();
  serializer.write_cdata("<&>").unwrap();
  serializer.write_end_element().unwrap();
  assert_eq!(output(serializer), "<a>&lt;&amp;&gt;<![CDATA[<&>]]></a>");
}

#[test]
fn default_config_writes_the_document_declaration() {
  let config = Config::default();
  assert!(!config.perform_indent);
  assert!(config.write_document_declaration);
  assert!(config.indent_string.is_none());
  let mut serializer = Serializer::new_from_writer(Vec::new(), &config);
  serializer
    .write_start_element("root", Vec::new(), XmlNamespace::empty())
    .unwrap();
  serializer.write_end_element().unwrap();
  assert_eq!(
    output(serializer),
    "<?xml version=\"1.0\" encoding=\"UTF-8\"?><root />"
  );
}

#[test]
fn config_indents_with_the_given_string() {
  let config = Config {
    perform_indent: true,
    write_document_declaration: false,
    indent_string: Some("\t".to_owned()),
  };
  let mut serializer = Serializer::new_from_writer(Vec::new(), &config);
  serializer
    .write_start_element("root", Vec::new(), XmlNamespace::empty())
    .unwrap();
  serializer
    .write_start_element("child", Vec::new(), XmlNamespace::empty())
    .unwrap();
  serializer.write_end_element().unwrap();
  serializer.write_end_element().unwrap();
  assert_eq!(output(serializer), "<root>\n\t<child />\n</root>");
}

#[test]
fn config_keeps_cdata_as_cdata() {
  let mut serializer = Serializer::new_from_writer(
    Vec::new(),
    &Config {
      perform_indent: false,
      write_document_declaration: false,
      indent_string: None,
    },
  );
  serializer
    .write_start_element("a", Vec::new(), XmlNamespace::empty())
    .unwrap();
  serializer.write_cdata("x<y").unwrap();
  serializer.write_end_element().unwrap();
  assert_eq!(output(serializer), "<a><![CDATA[x<y]]></a>");
}

#[test]
fn serializer_over_a_caller_made_emitter() {
  let writer = xml::writer::EmitterConfig::new()
    .write_document_declaration(false)
    .create_writer(Vec::new());
  let mut serializer = Serializer::new(writer);
  serializer
    .write_start_element("x", Vec::new(), XmlNamespace::empty())
    .unwrap();
  serializer.write_end_element().unwrap();
  assert_eq!(output(serializer), "<x />");
}

#[test]
fn flags_and_start_event_name_are_kept() {
  let mut serializer = Serializer::new_for_inner(Vec::new());
  assert!(!serializer.skip_start_end());
  serializer.set_skip_start_end(true);
  assert!(serializer.skip_start_end());
  assert_eq!(serializer.get_start_event_name(), None);
  serializer.set_start_event_name(Some("name".to_owned()));
  assert_eq!(serializer.get_start_event_name(), Some("name".to_owned()));
  serializer.set_start_event_name(None);
  assert_eq!(serializer.get_start_event_name(), None);
}

#[test]
fn emitter_errors_become_messages() {
  let mut serializer = Serializer::new_for_inner(Vec::new());
  assert_eq!(
    serializer.write_end_element(),
    Err("emitter error: last element name is not available".to_owned())
  );
}

#[test]
fn raw_events_pass_through_without_an_updater() {
  let mut serializer = Serializer::new_for_inner(Vec::new());
  serializer
    .write(xml::writer::XmlEvent::start_element("p:raw").ns("p", V1))
    .unwrap();
  serializer.write(xml::writer::XmlEvent::characters("x")).unwrap();
  serializer.write(xml::writer::XmlEvent::end_element()).unwrap();
  assert_eq!(output(serializer), "<p:raw xmlns:p=\"urn:example:v1\">x</p:raw>");
}

#[test]
fn raw_events_other_than_start_elements_skip_the_updater() {
  let calls = Arc::new(Mutex::new(0usize));
  let seen = Arc::clone(&calls);
  let mut serializer = Serializer::new_for_inner(Vec::new());
  serializer.set_start_element_updater(move |_| {
    *seen.lock().unwrap() += 1;
  });
  serializer
    .write(xml::writer::XmlEvent::start_element("a"))
    .unwrap();
  serializer.write(xml::writer::XmlEvent::characters("t")).unwrap();
  serializer.write(xml::writer::XmlEvent::cdata("c")).unwrap();
  serializer.write_characters("u").unwrap();
  serializer.write(xml::writer::XmlEvent::end_element()).unwrap();
  assert_eq!(*calls.lock().unwrap(), 1);
  assert_eq!(output(serializer), "<a>t<![CDATA[c]]>u</a>");
}

#[test]
fn updater_is_offered_the_name_split_at_its_first_colon() {
  let offered: Arc<Mutex<Vec<(Option<String>, String, Option<String>)>>> =
    Arc::new(Mutex::new(Vec::new()));
  let record = Arc::clone(&offered);
  let mut serializer = Serializer::new_for_inner(Vec::new());
  serializer.set_start_element_updater(move |event| {
    record.lock().unwrap().push((
      event.name.prefix.clone(),
      event.name.local_name.clone(),
      event.name.namespace.clone(),
    ));
  });
  let mut namespace = XmlNamespace::empty();
  namespace.put("", "urn:default");
  namespace.put("p", V1);
  serializer
    .write_start_element("root", Vec::new(), namespace)
    .unwrap();
  let mut child_namespace = XmlNamespace::empty();
  child_namespace.put("p", V1);
  serializer
    .write_start_element("p:child", Vec::new(), child_namespace)
    .unwrap();
  serializer
    .write_start_element("a:b:c", Vec::new(), XmlNamespace::empty())
    .unwrap();
  serializer.write_end_element().unwrap();
  serializer.write_end_element().unwrap();
  serializer.write_end_element().unwrap();
  let offered = offered.lock().unwrap();
  assert_eq!(
    *offered,
    vec![
      (None, "root".to_owned(), Some("urn:default".to_owned())),
      (Some("p".to_owned()), "child".to_owned(), Some(V1.to_owned())),
      (Some("a".to_owned()), "b:c".to_owned(), None),
    ]
  );
  assert_eq!(
    output(serializer),
    "<root xmlns=\"urn:default\" xmlns:p=\"urn:example:v1\"><p:child><a:b:c /></p:child></root>"
  );
}

#[test]
fn updater_changes_reach_the_output() {
  let mut serializer = Serializer::new_for_inner(Vec::new());
  serializer.set_start_element_updater(|event| {
    event.set_attribute("version", "2");
    event.set_namespace("v", "urn:version");
  });
  serializer
    .write_start_element(
      "root",
      vec![XmlAttribute::new(XmlName::local("version"), "1")],
      XmlNamespace::empty(),
    )
    .unwrap();
  serializer.write_end_element().unwrap();
  assert_eq!(
    output(serializer),
    "<root xmlns:v=\"urn:version\" version=\"2\" />"
  );
}

struct Wrapper {
  text: String,
}

impl YaSerialize for Wrapper {
  fn serialize<W: Write>(&self, writer: &mut Serializer<W>) -> Result<(), String> {
    let skip = writer.skip_start_end();
    if !skip {
      writer.write_start_element("wrapper", Vec::new(), XmlNamespace::empty())?;
    }
    writer.set_skip_start_end(false);
    writer.write_start_element("child", Vec::new(), XmlNamespace::empty())?;
    writer.write_characters(&self.text)?;
    writer.write_end_element()?;
    if !skip {
      writer.write_end_element()?;
    }
    Ok(())
  }
}

struct Failing;

impl YaSerialize for Failing {
  fn serialize<W: Write>(&self, _writer: &mut Serializer<W>) -> Result<(), String> {
    Err("cannot serialize".to_owned())
  }
}

#[test]
fn serialize_with_writer_writes_the_whole_model() {
  let model = Wrapper { text: "x".to_owned() };
  let cursor = serialize_with_writer(&model, Cursor::new(Vec::new()), &Config::default()).unwrap();
  assert_eq!(
    String::from_utf8(cursor.into_inner()).unwrap(),
    "<?xml version=\"1.0\" encoding=\"UTF-8\"?><wrapper><child>x</child></wrapper>"
  );
}

#[test]
fn serialize_with_writer_content_skips_the_outer_element() {
  let model = Wrapper { text: "x".to_owned() };
  let cursor = serialize_with_writer_content(&model, Cursor::new(Vec::new())).unwrap();
  assert_eq!(
    String::from_utf8(cursor.into_inner()).unwrap(),
    "<child>x</child>"
  );
}

#[test]
fn serialization_errors_are_passed_on() {
  assert_eq!(
    serialize_with_writer(&Failing, Vec::new(), &Config::default()).err(),
    Some("cannot serialize".to_owned())
  );
  assert_eq!(
    serialize_with_writer_content(&Failing, Vec::new()).err(),
    Some("cannot serialize".to_owned())
  );
}

#[test]
fn write_split_event_offers_start_element_parts_to_the_updater() {
  let offered: Arc<Mutex<Vec<(String, Option<String>, usize)>>> = Arc::new(Mutex::new(Vec::new()));
  let seen = Arc::clone(&offered);
  let mut serializer = Serializer::new_for_inner(Vec::new());
  serializer.set_start_element_updater(move |event| {
    seen.lock().unwrap().push((
      event.name.local_name.clone(),
      event.name.prefix.clone(),
      event.attributes.len(),
    ));
    event.set_attribute("added", "yes");
  });
  let name = xml::name::OwnedName {
    local_name: "raw".to_owned(),
    namespace: Some(V1.to_owned()),
    prefix: Some("p".to_owned()),
  };
  let attributes = vec![xml::attribute::OwnedAttribute::new(
    xml::name::OwnedName::local("id"),
    "42",
  )];
  let mut namespace = xml::namespace::Namespace::empty();
  namespace.put("p", V1);
  serializer
    .write_split_event(Ok((name, attributes, namespace)))
    .unwrap();
  serializer
    .write_split_event(Err(xml::writer::XmlEvent::characters("t")))
    .unwrap();
  serializer.write_end_element().unwrap();
  assert_eq!(
    *offered.lock().unwrap(),
    vec![("raw".to_owned(), Some("p".to_owned()), 1)]
  );
  assert_eq!(
    output(serializer),
    "<p:raw xmlns:p=\"urn:example:v1\" id=\"42\" added=\"yes\">t</p:raw>"
  );
}

#[test]
fn write_split_event_without_an_updater_writes_the_parts_as_given() {
  let mut serializer = Serializer::new_for_inner(Vec::new());
  let name = xml::name::OwnedName::local("plain");
  serializer
    .write_split_event(Ok((name, Vec::new(), xml::namespace::Namespace::empty())))
    .unwrap();
  serializer
    .write_split_event(Err(xml::writer::XmlEvent::cdata("c")))
    .unwrap();
  serializer.write_end_element().unwrap();
  assert_eq!(output(serializer), "<plain><![CDATA[c]]></plain>");
}

#[test]
fn into_result_hands_on_the_model_outcome() {
  let mut serializer = Serializer::new_for_inner(Vec::new());
  serializer.write_start_element("done", Vec::new(), XmlNamespace::empty()).unwrap();
  serializer.write_end_element().unwrap();
  let written = serializer.into_result(Ok(())).unwrap();
  assert_eq!(String::from_utf8(written).unwrap(), "<done />");

  let serializer = Serializer::new_for_inner(Vec::new());
  assert_eq!(
    serializer.into_result(Err("model failed".to_owned())).err(),
    Some("model failed".to_owned())
  );
}

#[test]
fn emitter_messages_start_with_the_emitter_prefix() {
  let mut serializer = Serializer::new_for_inner(Vec::new());
  let message = serializer.write_end_element().unwrap_err();
  assert!(message.starts_with("emitter error: "));
  let message = serializer
    .write_event(XmlWriteEvent::EndElement)
    .unwrap_err();
  assert!(message.starts_with("emitter error: "));
}

struct Empty;

impl YaSerialize for Empty {
  fn serialize<W: Write>(&self, writer: &mut Serializer<W>) -> Result<(), String> {
    writer.write_start_element("a", Vec::new(), XmlNamespace::empty())?;
    writer.write_end_element()
  }
}

#[test]
fn serialize_with_writer_follows_the_config_and_keeps_earlier_bytes() {
  let written = serialize_with_writer(&Empty, b"<!-- x -->".to_vec(), &Config::default()).unwrap();
  assert_eq!(
    String::from_utf8(written).unwrap(),
    "<!-- x --><?xml version=\"1.0\" encoding=\"UTF-8\"?><a />"
  );
  let config = Config {
    write_document_declaration: false,
    ..Config::default()
  };
  let written = serialize_with_writer(&Empty, Vec::new(), &config).unwrap();
  assert_eq!(String::from_utf8(written).unwrap(), "<a />");
  let written = serialize_with_writer_content(&Empty, Vec::new()).unwrap();
  assert_eq!(String::from_utf8(written).unwrap(), "<a />");
}

#[test]
fn write_xml_rs_event_passes_other_events_through_and_updates_start_elements() {
  let calls = Arc::new(Mutex::new(0usize));
  let seen = Arc::clone(&calls);
  let mut serializer = Serializer::new_for_inner(Vec::new());
  serializer.set_start_element_updater(move |event| {
    *seen.lock().unwrap() += 1;
    event.set_attribute("seen", "1");
  });
  serializer
    .write_xml_rs_event(xml::writer::XmlEvent::start_element("e").into())
    .unwrap();
  serializer
    .write_xml_rs_event(xml::writer::XmlEvent::comment("note"))
    .unwrap();
  serializer
    .write_xml_rs_event(xml::writer::XmlEvent::characters("t"))
    .unwrap();
  serializer
    .write_xml_rs_event(xml::writer::XmlEvent::end_element().into())
    .unwrap();
  assert_eq!(*calls.lock().unwrap(), 1);
  assert_eq!(output(serializer), "<e seen=\"1\"><!-- note -->t</e>");
}

#[test]
fn raw_writes_through_a_noop_updater_match_raw_writes_without_one() {
  fn write_all(serializer: &mut Serializer<Vec<u8>>) {
    let mut namespace = xml::namespace::Namespace::empty();
    namespace.put("p", V1);
    serializer
      .write(xml::writer::XmlEvent::StartElement {
        name: xml::name::Name::qualified("raw", V1, Some("p")),
        attributes: Cow::Owned(vec![xml::attribute::Attribute::new(
          xml::name::Name::local("id"),
          "42",
        )]),
        namespace: Cow::Owned(namespace),
      })
      .unwrap();
    serializer.write(xml::writer::XmlEvent::characters("x")).unwrap();
    serializer.write(xml::writer::XmlEvent::end_element()).unwrap();
  }
  let mut plain = Serializer::new_for_inner(Vec::new());
  write_all(&mut plain);
  let mut noop = Serializer::new_for_inner(Vec::new());
  noop.set_start_element_updater(|_| {});
  write_all(&mut noop);
  let plain = output(plain);
  assert_eq!(plain, "<p:raw xmlns:p=\"urn:example:v1\" id=\"42\">x</p:raw>");
  assert_eq!(output(noop), plain);
}

#[test]
fn a_replaced_updater_never_runs_again() {
  let first = Arc::new(Mutex::new(0usize));
  let second = Arc::new(Mutex::new(0usize));
  let mut serializer = Serializer::new_for_inner(Vec::new());
  let seen = Arc::clone(&first);
  serializer.set_start_element_updater(move |_| *seen.lock().unwrap() += 1);
  serializer.write_start_element("a", Vec::new(), XmlNamespace::empty()).unwrap();
  let seen = Arc::clone(&second);
  serializer.set_start_element_updater(move |_| *seen.lock().unwrap() += 1);
  serializer.write_start_element("b", Vec::new(), XmlNamespace::empty()).unwrap();
  serializer
    .write(xml::writer::XmlEvent::start_element("c"))
    .unwrap();
  serializer.write_end_element().unwrap();
  serializer.write_end_element().unwrap();
  serializer.write_end_element().unwrap();
  assert_eq!(*first.lock().unwrap(), 1);
  assert_eq!(*second.lock().unwrap(), 2);
  assert_eq!(output(serializer), "<a><b><c /></b></a>");
}
