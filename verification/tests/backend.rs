use yaserde::de::{from_reader_with_parser, Deserializer, XmlEventReader, XmlReadEvent, XmlRsReader, YaDeserialize};
use yaserde::markup::{XmlAttribute, XmlName, XmlNamespace};

#[derive(Debug, PartialEq)]
struct Root {
  item: String,
}

const XML: &str = "<Root><item>a<![CDATA[b]]>c</item></Root>";

/// Skips the document prologue, whitespace and comments up to the next start
/// element, and gives its parts.
fn next_start<P: XmlEventReader>(
  reader: &mut Deserializer<P>,
) -> Result<(XmlName, Vec<XmlAttribute>, XmlNamespace), String> {
  loop {
    match reader.next_event()? {
      XmlReadEvent::StartElement { name, attributes, namespace } => return Ok((name, attributes, namespace)),
      XmlReadEvent::StartDocument | XmlReadEvent::Whitespace(_) | XmlReadEvent::Comment(_) => {}
      other => return Err(format!("expected a start element, found {:?}", other)),
    }
  }
}

/// Skips up to the next start element, which must be named `name`.
fn expect_start<P: XmlEventReader>(reader: &mut Deserializer<P>, name: &str) -> Result<(), String> {
  let (found, _, _) = next_start(reader)?;
  if found.local_name == name {
    Ok(())
  } else {
    Err(format!("expected <{}>, found <{}>", name, found.local_name))
  }
}

/// The trimmed text content of the next element, which must be named `name`.
fn text_of<P: XmlEventReader>(reader: &mut Deserializer<P>, name: &str) -> Result<String, String> {
  expect_start(reader, name)?;
  Ok(reader.read_text()?.trim().to_owned())
}

fn expect_end<P: XmlEventReader>(reader: &mut Deserializer<P>) -> Result<(), String> {
  loop {
    match reader.next_event()? {
      XmlReadEvent::EndElement { .. } => return Ok(()),
      XmlReadEvent::Whitespace(_) | XmlReadEvent::Comment(_) => {}
      other => return Err(format!("expected an end element, found {:?}", other)),
    }
  }
}

impl YaDeserialize for Root {
  fn deserialize<P: XmlEventReader>(reader: &mut Deserializer<P>) -> Result<Self, String> {
    expect_start(reader, "Root")?;
    let item = text_of(reader, "item")?;
    expect_end(reader)?;
    Ok(Root { item })
  }
}

#[test]
fn xml_rs_backend_can_be_selected_explicitly() {
  let parser = XmlRsReader::from_reader(XML.as_bytes());
  let loaded: Root = from_reader_with_parser(parser).unwrap();
  assert_eq!(loaded, Root { item: "abc".into() });
}

#[derive(Debug, PartialEq)]
struct NamespacedEnvelope {
  id: String,
  child: String,
}

impl YaDeserialize for NamespacedEnvelope {
  fn deserialize<P: XmlEventReader>(reader: &mut Deserializer<P>) -> Result<Self, String> {
    let (name, attributes, _) = next_start(reader)?;
    if name.local_name != "Envelope" || name.namespace_ref() != Some("urn:test") {
      return Err(format!("unexpected root {:?}", name));
    }
    let id = attributes
      .iter()
      .find(|attribute| attribute.name.local_name == "id")
      .map(|attribute| attribute.value.clone())
      .ok_or_else(|| "missing id".to_owned())?;
    let (child_name, _, _) = next_start(reader)?;
    if child_name.local_name != "child" || child_name.namespace_ref() != Some("urn:test") {
      return Err(format!("unexpected child {:?}", child_name));
    }
    let child = reader.read_text()?.trim().to_owned();
    expect_end(reader)?;
    Ok(NamespacedEnvelope { id, child })
  }
}

#[derive(Debug, PartialEq)]
struct FlattenOuter {
  known: String,
  extra: FlattenExtra,
}

#[derive(Debug, PartialEq)]
struct FlattenExtra {
  other: String,
}

impl YaDeserialize for FlattenOuter {
  fn deserialize<P: XmlEventReader>(reader: &mut Deserializer<P>) -> Result<Self, String> {
    expect_start(reader, "FlattenOuter")?;
    let known = text_of(reader, "known")?;
    let other = text_of(reader, "other")?;
    expect_end(reader)?;
    Ok(FlattenOuter { known, extra: FlattenExtra { other } })
  }
}

#[derive(Debug, PartialEq)]
enum Choice {
  A,
  B,
}

#[derive(Debug, PartialEq)]
struct ChoiceHolder {
  choice: Choice,
}

impl YaDeserialize for ChoiceHolder {
  fn deserialize<P: XmlEventReader>(reader: &mut Deserializer<P>) -> Result<Self, String> {
    expect_start(reader, "ChoiceHolder")?;
    let choice = match text_of(reader, "choice")?.as_str() {
      "A" => Choice::A,
      "B" => Choice::B,
      other => return Err(format!("unknown choice {}", other)),
    };
    expect_end(reader)?;
    Ok(ChoiceHolder { choice })
  }
}

#[test]
fn xml_rs_backend_parity_cases() {
  let spaced = "<Root><!-- skip --><item> a <![CDATA[b]]> c </item></Root>";
  let loaded: Root = from_reader_with_parser(XmlRsReader::from_reader(spaced.as_bytes())).unwrap();
  assert_eq!(
    loaded,
    Root {
      item: "a b c".into()
    }
  );

  let namespaced = r#"<s:Envelope xmlns:s="urn:test" id="1"><s:child>value</s:child></s:Envelope>"#;
  let loaded: NamespacedEnvelope =
    from_reader_with_parser(XmlRsReader::from_reader(namespaced.as_bytes())).unwrap();
  assert_eq!(
    loaded,
    NamespacedEnvelope {
      id: "1".into(),
      child: "value".into(),
    }
  );

  let flattened = "<FlattenOuter><known>k</known><other>o</other></FlattenOuter>";
  let loaded: FlattenOuter =
    from_reader_with_parser(XmlRsReader::from_reader(flattened.as_bytes())).unwrap();
  assert_eq!(
    loaded,
    FlattenOuter {
      known: "k".into(),
      extra: FlattenExtra { other: "o".into() },
    }
  );

  let choice = "<ChoiceHolder><choice>B</choice></ChoiceHolder>";
  let loaded: ChoiceHolder =
    from_reader_with_parser(XmlRsReader::from_reader(choice.as_bytes())).unwrap();
  assert_eq!(loaded, ChoiceHolder { choice: Choice::B });
}
