use yaserde::de::{Deserializer, XmlEventReader, XmlReadEvent, XmlRsReader};

fn start_of(text: &str) -> Deserializer<XmlRsReader> {
  let mut reader = Deserializer::new(XmlRsReader::from_reader(text.as_bytes()));
  assert!(matches!(reader.next_event(), Ok(XmlReadEvent::StartDocument)));
  reader
}

#[test]
fn read_text_joins_text_and_cdata_up_to_the_end_element() {
  let mut reader = start_of("<r>a<![CDATA[<b>]]>c&amp;</r>");
  match reader.next_event() {
    Ok(XmlReadEvent::StartElement { name, .. }) => assert_eq!(name.local_name, "r"),
    other => panic!("unexpected {:?}", other),
  }
  assert_eq!(reader.read_text(), Ok("a<b>c&".to_owned()));
  assert!(matches!(reader.next_event(), Ok(XmlReadEvent::EndDocument)));
}

#[test]
fn read_text_of_an_empty_element_is_empty() {
  let mut reader = start_of("<r/>");
  assert!(matches!(reader.next_event(), Ok(XmlReadEvent::StartElement { .. })));
  assert_eq!(reader.read_text(), Ok(String::new()));
}

#[test]
fn read_text_refuses_a_nested_element() {
  let mut reader = start_of("<r>a<b/>c</r>");
  assert!(matches!(reader.next_event(), Ok(XmlReadEvent::StartElement { .. })));
  assert_eq!(
    reader.read_text(),
    Err("unexpected start element in text content".to_owned())
  );
}

#[test]
fn read_text_refuses_the_end_of_the_document() {
  let mut reader = start_of("<r/>");
  assert!(matches!(reader.next_event(), Ok(XmlReadEvent::StartElement { .. })));
  assert!(matches!(reader.next_event(), Ok(XmlReadEvent::EndElement { .. })));
  assert_eq!(
    reader.read_text(),
    Err("unexpected end of document in text content".to_owned())
  );
}

#[test]
fn reader_repeats_the_last_event_once_the_document_ends() {
  let mut parser = XmlRsReader::from_reader("<r/>".as_bytes());
  let mut kinds = Vec::new();
  for _ in 0..6 {
    kinds.push(match parser.next_event() {
      Ok(XmlReadEvent::StartDocument) => "start-document",
      Ok(XmlReadEvent::StartElement { .. }) => "start",
      Ok(XmlReadEvent::EndElement { .. }) => "end",
      Ok(XmlReadEvent::EndDocument) => "end-document",
      Ok(_) => "other",
      Err(_) => "error",
    });
  }
  assert_eq!(
    kinds,
    vec!["start-document", "start", "end", "end-document", "end-document", "end-document"]
  );
}

#[test]
fn reader_reports_parse_errors_and_repeats_them() {
  let mut parser = XmlRsReader::from_reader("<r>".as_bytes());
  assert!(matches!(parser.next_event(), Ok(XmlReadEvent::StartDocument)));
  assert!(matches!(parser.next_event(), Ok(XmlReadEvent::StartElement { .. })));
  let first = parser.next_event().unwrap_err();
  assert!(!first.is_empty());
  assert_eq!(parser.next_event().unwrap_err(), first);
}

#[test]
fn reader_converts_names_attributes_and_namespaces() {
  let mut parser = XmlRsReader::from_reader(
    "<s:Envelope xmlns:s=\"urn:test\" id=\"1\"><s:child/></s:Envelope>".as_bytes(),
  );
  assert!(matches!(parser.next_event(), Ok(XmlReadEvent::StartDocument)));
  match parser.next_event() {
    Ok(XmlReadEvent::StartElement { name, attributes, namespace }) => {
      assert_eq!(name.local_name, "Envelope");
      assert_eq!(name.prefix_ref(), Some("s"));
      assert_eq!(name.namespace_ref(), Some("urn:test"));
      assert_eq!(attributes.len(), 1);
      assert_eq!(attributes[0].name.local_name, "id");
      assert_eq!(attributes[0].value, "1");
      assert_eq!(namespace.get("s"), Some("urn:test"));
    }
    other => panic!("unexpected {:?}", other),
  }
}

#[test]
fn reader_from_xml_rs_events_hands_them_out_in_document_order() {
  let events: Vec<_> = xml::reader::EventReader::new("<a>t</a>".as_bytes())
    .into_iter()
    .collect();
  assert_eq!(events.len(), 5);
  let mut parser = XmlRsReader::from_xml_rs_events(events);
  assert!(matches!(parser.next_event(), Ok(XmlReadEvent::StartDocument)));
  match parser.next_event() {
    Ok(XmlReadEvent::StartElement { name, .. }) => assert_eq!(name.local_name, "a"),
    other => panic!("unexpected {:?}", other),
  }
  match parser.next_event() {
    Ok(XmlReadEvent::Characters(text)) => assert_eq!(text, "t"),
    other => panic!("unexpected {:?}", other),
  }
  assert!(matches!(parser.next_event(), Ok(XmlReadEvent::EndElement { .. })));
  assert!(matches!(parser.next_event(), Ok(XmlReadEvent::EndDocument)));
  assert!(matches!(parser.next_event(), Ok(XmlReadEvent::EndDocument)));
}

#[test]
fn reader_from_no_events_ends_the_document() {
  let mut parser = XmlRsReader::from_xml_rs_events(Vec::new());
  assert!(matches!(parser.next_event(), Ok(XmlReadEvent::EndDocument)));
}
