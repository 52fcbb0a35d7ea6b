//! Reading XML events back into data structures.
//!
//! A `Deserializer` pulls events from an `XmlEventReader` (the xml-rs pull
//! parser by default) and hands them to a `YaDeserialize` implementation. It
//! keeps, as ghost state, the outcome of every pull.

use crate::markup::{
    attribute_views, copy_opt_string, opt_string_view, xml_rs_attribute, xml_rs_name,
    xml_rs_namespace_mappings, AttributeView, NameView, XmlAttribute, XmlName, XmlNamespace,
};
use std::io::Read;
use vstd::prelude::*;
use vstd::string::StringExecFns;

use ::xml::attribute::OwnedAttribute;
use ::xml::common::XmlVersion;
use ::xml::name::OwnedName;
use ::xml::namespace::Namespace;
use ::xml::reader::Error as ReaderError;
use ::xml::reader::EventReader;
use ::xml::reader::XmlEvent as ReaderEvent;

verus! {

#[verifier::external_type_specification]
#[verifier::external_body]
pub struct ExReaderEvent(::xml::reader::XmlEvent);

#[verifier::external_type_specification]
#[verifier::external_body]
pub struct ExReaderError(::xml::reader::Error);

/// An event read from an XML document.
#[derive(Clone, Debug)]
pub enum XmlReadEvent {
    StartDocument,
    EndDocument,
    ProcessingInstruction { name: String, data: Option<String> },
    StartElement { name: XmlName, attributes: Vec<XmlAttribute>, namespace: XmlNamespace },
    EndElement { name: XmlName },
    CData(String),
    Comment(String),
    Characters(String),
    Whitespace(String),
}

/// An event read from an XML document, as text.
pub enum ReadEventView {
    StartDocument,
    EndDocument,
    ProcessingInstruction { name: Seq<char>, data: Option<Seq<char>> },
    StartElement {
        name: NameView,
        attributes: Seq<AttributeView>,
        namespace: Map<Seq<char>, Seq<char>>,
    },
    EndElement { name: NameView },
    CData(Seq<char>),
    Comment(Seq<char>),
    Characters(Seq<char>),
    Whitespace(Seq<char>),
}

impl View for XmlReadEvent {
    type V = ReadEventView;

    open spec fn view(&self) -> ReadEventView {
        match self {
            XmlReadEvent::StartDocument => ReadEventView::StartDocument,
            XmlReadEvent::EndDocument => ReadEventView::EndDocument,
            XmlReadEvent::ProcessingInstruction { name, data } => ReadEventView::ProcessingInstruction {
                name: name@,
                data: opt_string_view(*data),
            },
            XmlReadEvent::StartElement { name, attributes, namespace } => ReadEventView::StartElement {
                name: name@,
                attributes: attribute_views(attributes@),
                namespace: namespace@,
            },
            XmlReadEvent::EndElement { name } => ReadEventView::EndElement { name: name@ },
            XmlReadEvent::CData(text) => ReadEventView::CData(text@),
            XmlReadEvent::Comment(text) => ReadEventView::Comment(text@),
            XmlReadEvent::Characters(text) => ReadEventView::Characters(text@),
            XmlReadEvent::Whitespace(text) => ReadEventView::Whitespace(text@),
        }
    }
}

/// The outcome of pulling an event, as text.
pub open spec fn outcome_view(outcome: Result<XmlReadEvent, String>) -> Result<
    ReadEventView,
    Seq<char>,
> {
    match outcome {
        Ok(event) => Ok(event@),
        Err(message) => Err(message@),
    }
}

fn copy_attributes(attributes: &Vec<XmlAttribute>) -> (r: Vec<XmlAttribute>)
    ensures
        attribute_views(r@) == attribute_views(attributes@),
{
    let mut copied: Vec<XmlAttribute> = Vec::new();
    let n = attributes.len();
    let mut i: usize = 0;
    while i < n
        invariant
            n == attributes@.len(),
            i <= n,
            copied@.len() == i,
            attribute_views(copied@) == attribute_views(attributes@.take(i as int)),
        decreases n - i,
    {
        let ghost prev = copied@;
        copied.push(attributes[i].copy());
        proof {
            assert forall|j: int| 0 <= j < i + 1 implies attribute_views(copied@)[j]
                == attribute_views(attributes@.take(i + 1))[j] by {
                if j < i {
                    assert(attribute_views(prev)[j] == attribute_views(attributes@.take(i as int))[j]);
                    assert(copied@[j] == prev[j]);
                }
            }
            assert(attribute_views(copied@) =~= attribute_views(attributes@.take(i + 1)));
        }
        i = i + 1;
    }
    proof {
        assert(attributes@.take(n as int) =~= attributes@);
    }
    copied
}

impl XmlReadEvent {
    fn copy(&self) -> (r: XmlReadEvent)
        ensures
            r@ == self@,
    {
        match self {
            XmlReadEvent::StartDocument => XmlReadEvent::StartDocument,
            XmlReadEvent::EndDocument => XmlReadEvent::EndDocument,
            XmlReadEvent::ProcessingInstruction { name, data } => XmlReadEvent::ProcessingInstruction {
                name: name.clone(),
                data: copy_opt_string(data),
            },
            XmlReadEvent::StartElement { name, attributes, namespace } => XmlReadEvent::StartElement {
                name: name.copy(),
                attributes: copy_attributes(attributes),
                namespace: namespace.copy(),
            },
            XmlReadEvent::EndElement { name } => XmlReadEvent::EndElement { name: name.copy() },
            XmlReadEvent::CData(text) => XmlReadEvent::CData(text.clone()),
            XmlReadEvent::Comment(text) => XmlReadEvent::Comment(text.clone()),
            XmlReadEvent::Characters(text) => XmlReadEvent::Characters(text.clone()),
            XmlReadEvent::Whitespace(text) => XmlReadEvent::Whitespace(text.clone()),
        }
    }
}

/// A source of XML events.
pub trait XmlEventReader: Sized {
    /// What one pull may do: take the reader from `before` to `after` and
    /// give `outcome`. A reader may say what that is; by default it is left
    /// open.
    open spec fn pulled(before: Self, after: Self, outcome: Result<XmlReadEvent, String>) -> bool {
        true
    }

    fn next_event(&mut self) -> (outcome: Result<XmlReadEvent, String>)
        ensures
            Self::pulled(*old(self), *final(self), outcome),
    ;
}

/// What an xml-rs reader event holds.
pub enum ReaderEventView {
    StartDocument { version: XmlVersion, encoding: Seq<char>, standalone: Option<bool> },
    EndDocument,
    ProcessingInstruction { name: Seq<char>, data: Option<Seq<char>> },
    StartElement {
        name: OwnedName,
        attributes: Seq<OwnedAttribute>,
        namespace: Map<Seq<char>, Seq<char>>,
    },
    EndElement { name: OwnedName },
    CData(Seq<char>),
    Comment(Seq<char>),
    Characters(Seq<char>),
    Whitespace(Seq<char>),
}

/// What the xml-rs reader event `event` holds.
pub uninterp spec fn xml_rs_read_event(event: ReaderEvent) -> ReaderEventView;

/// The fields of an xml-rs reader event, moved out of it.
enum PulledEvent {
    StartDocument(XmlVersion, String, Option<bool>),
    EndDocument,
    ProcessingInstruction(String, Option<String>),
    StartElement(OwnedName, Vec<OwnedAttribute>, Namespace),
    EndElement(OwnedName),
    CData(String),
    Comment(String),
    Characters(String),
    Whitespace(String),
}

spec fn pulled_view(pulled: PulledEvent) -> ReaderEventView {
    match pulled {
        PulledEvent::StartDocument(version, encoding, standalone) => ReaderEventView::StartDocument {
            version,
            encoding: encoding@,
            standalone,
        },
        PulledEvent::EndDocument => ReaderEventView::EndDocument,
        PulledEvent::ProcessingInstruction(name, data) => ReaderEventView::ProcessingInstruction {
            name: name@,
            data: opt_string_view(data),
        },
        PulledEvent::StartElement(name, attributes, namespace) => ReaderEventView::StartElement {
            name,
            attributes: attributes@,
            namespace: xml_rs_namespace_mappings(namespace),
        },
        PulledEvent::EndElement(name) => ReaderEventView::EndElement { name },
        PulledEvent::CData(text) => ReaderEventView::CData(text@),
        PulledEvent::Comment(text) => ReaderEventView::Comment(text@),
        PulledEvent::Characters(text) => ReaderEventView::Characters(text@),
        PulledEvent::Whitespace(text) => ReaderEventView::Whitespace(text@),
    }
}

/// The events the xml-rs pull parser in its default configuration gives for
/// a document, walked as an iterator: at least one; every event but the last
/// is an event other than the end of the document; the last is the end of
/// the document or the first error.
pub open spec fn is_parse(events: Seq<Result<ReaderEvent, ReaderError>>) -> bool {
    &&& events.len() > 0
    &&& forall|i: int|
        0 <= i < events.len() - 1 ==> (#[trigger] events[i] matches Ok(e) && !(xml_rs_read_event(
            e,
        ) is EndDocument))
    &&& events.last() matches Ok(e) ==> xml_rs_read_event(e) is EndDocument
}

/// Parses `source` with the xml-rs pull parser in its default configuration
/// (`EventReader::new`, walked as an iterator until it stops, which it does
/// after the end of the document or the first error).
#[verifier::external_body]
fn xml_rs_events<R: Read>(source: R) -> (events: Vec<Result<ReaderEvent, ReaderError>>)
    ensures
        is_parse(events@),
{
    EventReader::new(source).into_iter().collect()
}

/// The `Display` text of a parse error.
#[verifier::external_body]
fn reader_error_message(error: ReaderError) -> String {
    error.to_string()
}

/// Tells the variants of an xml-rs reader event apart, moving their fields.
#[verifier::external_body]
fn pulled_event(event: ReaderEvent) -> (pulled: PulledEvent)
    ensures
        pulled_view(pulled) == xml_rs_read_event(event),
{
    match event {
        ReaderEvent::StartDocument { version, encoding, standalone } => PulledEvent::StartDocument(version, encoding, standalone),
        ReaderEvent::EndDocument => PulledEvent::EndDocument,
        ReaderEvent::ProcessingInstruction { name, data } => PulledEvent::ProcessingInstruction(name, data),
        ReaderEvent::StartElement { name, attributes, namespace } => PulledEvent::StartElement(name, attributes, namespace),
        ReaderEvent::EndElement { name } => PulledEvent::EndElement(name),
        ReaderEvent::CData(text) => PulledEvent::CData(text),
        ReaderEvent::Comment(text) => PulledEvent::Comment(text),
        ReaderEvent::Characters(text) => PulledEvent::Characters(text),
        ReaderEvent::Whitespace(text) => PulledEvent::Whitespace(text),
    }
}

/// `event` is the library's event for the xml-rs event holding `pulled`: the
/// same kind, with the same text, and names, attributes (in order) and
/// declarations that convert to the xml-rs ones.
pub open spec fn converts(pulled: ReaderEventView, event: ReadEventView) -> bool {
    match pulled {
        ReaderEventView::StartDocument { .. } => event is StartDocument,
        ReaderEventView::EndDocument => event is EndDocument,
        ReaderEventView::ProcessingInstruction { name, data } => event
            == (ReadEventView::ProcessingInstruction { name, data }),
        ReaderEventView::StartElement { name, attributes, namespace } => match event {
            ReadEventView::StartElement { name: n, attributes: a, namespace: ns } => {
                &&& xml_rs_name(n) == name
                &&& a.map_values(|attribute: AttributeView| xml_rs_attribute(attribute))
                    == attributes
                &&& ns == namespace
            },
            _ => false,
        },
        ReaderEventView::EndElement { name } => match event {
            ReadEventView::EndElement { name: n } => xml_rs_name(n) == name,
            _ => false,
        },
        ReaderEventView::CData(text) => event == ReadEventView::CData(text),
        ReaderEventView::Comment(text) => event == ReadEventView::Comment(text),
        ReaderEventView::Characters(text) => event == ReadEventView::Characters(text),
        ReaderEventView::Whitespace(text) => event == ReadEventView::Whitespace(text),
    }
}

/// `pending` holds `events` (in document order) the next one last: each
/// event as the library's event that it converts to, each error as an error.
pub open spec fn holds_events(
    pending: Seq<Result<ReadEventView, Seq<char>>>,
    events: Seq<Result<ReaderEvent, ReaderError>>,
) -> bool {
    &&& pending.len() == events.len()
    &&& forall|i: int|
        #![trigger pending[i]]
        0 <= i < events.len() ==> match events[events.len() - 1 - i] {
            Ok(e) => pending[i] matches Ok(v) && converts(xml_rs_read_event(e), v),
            Err(_) => pending[i] is Err,
        }
}

fn read_event_of(event: PulledEvent) -> (r: XmlReadEvent)
    ensures
        converts(pulled_view(event), r@),
{
    match event {
        PulledEvent::StartDocument(..) => XmlReadEvent::StartDocument,
        PulledEvent::EndDocument => XmlReadEvent::EndDocument,
        PulledEvent::ProcessingInstruction(name, data) => XmlReadEvent::ProcessingInstruction {
            name,
            data,
        },
        PulledEvent::StartElement(name, attributes, namespace) => {
            let name = XmlName::from_xml_rs(&name);
            let mut converted: Vec<XmlAttribute> = Vec::new();
            let n = attributes.len();
            let mut i: usize = 0;
            while i < n
                invariant
                    n == attributes@.len(),
                    i <= n,
                    converted@.len() == i,
                    forall|j: int|
                        0 <= j < i ==> xml_rs_attribute(#[trigger] converted@[j]@)
                            == attributes@[j],
                decreases n - i,
            {
                converted.push(XmlAttribute::from_xml_rs(&attributes[i]));
                i = i + 1;
            }
            proof {
                assert(attribute_views(converted@).map_values(
                    |attribute: AttributeView| xml_rs_attribute(attribute),
                ) =~= attributes@);
            }
            XmlReadEvent::StartElement {
                name,
                attributes: converted,
                namespace: XmlNamespace::from_xml_rs(&namespace),
            }
        },
        PulledEvent::EndElement(name) => XmlReadEvent::EndElement { name: XmlName::from_xml_rs(&name) },
        PulledEvent::CData(text) => XmlReadEvent::CData(text),
        PulledEvent::Comment(text) => XmlReadEvent::Comment(text),
        PulledEvent::Characters(text) => XmlReadEvent::Characters(text),
        PulledEvent::Whitespace(text) => XmlReadEvent::Whitespace(text),
    }
}

/// Events of a document read by the xml-rs pull parser.
pub struct XmlRsReader {
    /// The events not yet handed out, the next one last.
    pending: Vec<Result<XmlReadEvent, String>>,
}

impl XmlRsReader {
    /// The events not yet handed out, as text, the next one last.
    pub closed spec fn pending(&self) -> Seq<Result<ReadEventView, Seq<char>>> {
        self.pending@.map_values(|outcome: Result<XmlReadEvent, String>| outcome_view(outcome))
    }

    /// Reads the document in `reader`: every event that the pull parser
    /// produces for it, the first of which is handed out first. The parser
    /// always produces at least one event (the end of the document or an error).
    pub fn from_reader<R: Read>(reader: R) -> (r: Self)
        ensures
            r.pending().len() > 0,
            exists|events: Seq<Result<ReaderEvent, ReaderError>>|
                is_parse(events) && #[trigger] holds_events(r.pending(), events),
    {
        let events = xml_rs_events(reader);
        let ghost given = events@;
        let r = Self::from_xml_rs_events(events);
        proof {
            assert(is_parse(given) && holds_events(r.pending(), given));
        }
        r
    }

    /// Holds `events`, as the pull parser gave them in document order: each
    /// event becomes the library's event with the same fields, each parse error
    /// its message. The first of `events` is handed out first, so the pending
    /// events are `events` in reverse order.
    pub fn from_xml_rs_events(events: Vec<Result<ReaderEvent, ReaderError>>) -> (r: Self)
        ensures
            holds_events(r.pending(), events@),
    {
        let ghost given = events@;
        let mut events = events;
        let mut pending: Vec<Result<XmlReadEvent, String>> = Vec::new();
        while events.len() > 0
            invariant
                pending@.len() + events@.len() == given.len(),
                events@ == given.take(events@.len() as int),
                forall|j: int|
                    #![trigger pending@[j]]
                    0 <= j < pending@.len() ==> match given[given.len() - 1 - j] {
                        Ok(e) => outcome_view(pending@[j]) matches Ok(v) && converts(
                            xml_rs_read_event(e),
                            v,
                        ),
                        Err(_) => pending@[j] is Err,
                    },
            decreases events.len(),
        {
            let ghost before = events@;
            match events.pop() {
                Some(Ok(event)) => pending.push(Ok(read_event_of(pulled_event(event)))),
                Some(Err(error)) => pending.push(Err(reader_error_message(error))),
                None => {},
            }
            proof {
                assert(events@ =~= given.take(events@.len() as int));
                assert(before.last() == given[given.len() - 1 - (pending@.len() - 1)]);
            }
        }
        let r = XmlRsReader { pending };
        proof {
            assert forall|i: int| 0 <= i < given.len() implies #[trigger] r.pending()[i]
                == outcome_view(r.pending@[i]) by {}
        }
        r
    }
}

/// What a pull from an `XmlRsReader` does: it hands out its next pending event
/// and drops it, except that the last one is kept and handed out again on
/// every later pull; a reader with nothing pending ends the document.
pub open spec fn hands_out_next(
    before: XmlRsReader,
    after: XmlRsReader,
    outcome: Result<XmlReadEvent, String>,
) -> bool {
    &&& before.pending().len() > 1 ==> {
        &&& outcome_view(outcome) == before.pending().last()
        &&& after.pending() == before.pending().drop_last()
    }
    &&& before.pending().len() == 1 ==> {
        &&& outcome_view(outcome) == before.pending()[0]
        &&& after.pending() == before.pending()
    }
    &&& before.pending().len() == 0 ==> {
        &&& outcome matches Ok(XmlReadEvent::EndDocument)
        &&& after.pending() == before.pending()
    }
}

impl XmlEventReader for XmlRsReader {
    open spec fn pulled(before: Self, after: Self, outcome: Result<XmlReadEvent, String>) -> bool {
        hands_out_next(before, after, outcome)
    }

    /// The next event; once the document has ended (or failed), its last event
    /// is handed out again on every call.
    fn next_event(&mut self) -> (result: Result<XmlReadEvent, String>)
        ensures
            old(self).pending().len() > 1 ==> {
                &&& outcome_view(result) == old(self).pending().last()
                &&& final(self).pending() == old(self).pending().drop_last()
            },
            old(self).pending().len() == 1 ==> {
                &&& outcome_view(result) == old(self).pending()[0]
                &&& final(self).pending() == old(self).pending()
            },
            old(self).pending().len() == 0 ==> {
                &&& result matches Ok(XmlReadEvent::EndDocument)
                &&& final(self).pending() == old(self).pending()
            },
    {
        let n = self.pending.len();
        if n > 1 {
            let ghost before = self.pending@;
            let next = self.pending.pop();
            proof {
                assert(self.pending@ == before.drop_last());
                assert(self.pending() =~= before.map_values(
                    |outcome: Result<XmlReadEvent, String>| outcome_view(outcome),
                ).drop_last());
            }
            match next {
                Some(next) => next,
                None => Ok(XmlReadEvent::EndDocument),
            }
        } else if n == 1 {
            match &self.pending[0] {
                Ok(event) => Ok(event.copy()),
                Err(message) => Err(message.clone()),
            }
        } else {
            Ok(XmlReadEvent::EndDocument)
        }
    }
}

/// The character data that an event holds: text, CDATA or whitespace.
pub open spec fn event_text(event: XmlReadEvent) -> Seq<char> {
    match event {
        XmlReadEvent::Characters(text) => text@,
        XmlReadEvent::CData(text) => text@,
        XmlReadEvent::Whitespace(text) => text@,
        _ => Seq::empty(),
    }
}

/// Events that may stand inside an element's text content.
pub open spec fn is_content_event(event: XmlReadEvent) -> bool {
    match event {
        XmlReadEvent::Characters(_) => true,
        XmlReadEvent::CData(_) => true,
        XmlReadEvent::Whitespace(_) => true,
        XmlReadEvent::Comment(_) => true,
        XmlReadEvent::ProcessingInstruction { .. } => true,
        _ => false,
    }
}

/// A pull that handed out an event that may stand inside text content.
pub open spec fn is_content_pull(outcome: Result<XmlReadEvent, String>) -> bool {
    outcome matches Ok(event) && is_content_event(event)
}

/// The text content held by a run of pulls: their character data, in order.
pub open spec fn text_content(pulls: Seq<Result<XmlReadEvent, String>>) -> Seq<char>
    decreases pulls.len(),
{
    if pulls.len() == 0 {
        Seq::empty()
    } else {
        text_content(pulls.drop_last()) + match pulls.last() {
            Ok(event) => event_text(event),
            Err(_) => Seq::empty(),
        }
    }
}

/// Pulls events for a `YaDeserialize` implementation.
pub struct Deserializer<P: XmlEventReader> {
    parser: P,
    pulls: Ghost<Seq<Result<XmlReadEvent, String>>>,
    start: Ghost<P>,
    states: Ghost<Seq<P>>,
}

/// `pulls` are what pulling from `start` gave, one after another, with the
/// parser going through `states` (from `start` to the last state).
pub open spec fn pulled_from<P: XmlEventReader>(
    start: P,
    states: Seq<P>,
    pulls: Seq<Result<XmlReadEvent, String>>,
) -> bool {
    &&& states.len() == pulls.len() + 1
    &&& states[0] == start
    &&& forall|i: int|
        0 <= i < pulls.len() ==> #[trigger] P::pulled(states[i], states[i + 1], pulls[i])
}

impl<P: XmlEventReader> Deserializer<P> {
    /// Every pull so far went to the parser, in order, from the one the
    /// deserializer was made with to the one it holds now.
    pub closed spec fn well_formed(&self) -> bool {
        &&& pulled_from(self.start@, self.states@, self.pulls@)
        &&& self.states@.last() == self.parser
    }

    /// Every pull of a well-formed deserializer was made on its parser, in
    /// order: `pulls` are what pulling from `origin` gave, through `states`.
    pub proof fn lemma_pulls_are_from_origin(&self)
        requires
            self.well_formed(),
        ensures
            pulled_from(self.origin(), self.states(), self.pulls()),
            self.states().last() == self.parser(),
    {
    }

    pub fn new(parser: P) -> (deserializer: Self)
        ensures
            deserializer.pulls() == Seq::<Result<XmlReadEvent, String>>::empty(),
            deserializer.well_formed(),
            deserializer.origin() == parser,
            deserializer.parser() == parser,
    {
        let ghost start = parser;
        Deserializer {
            parser,
            pulls: Ghost(Seq::empty()),
            start: Ghost(start),
            states: Ghost(Seq::empty().push(start)),
        }
    }

    /// What every pull from the parser has given so far, in order.
    pub closed spec fn pulls(&self) -> Seq<Result<XmlReadEvent, String>> {
        self.pulls@
    }

    /// The parser as the deserializer was made with it.
    pub closed spec fn origin(&self) -> P {
        self.start@
    }

    /// The parser as it is now.
    pub closed spec fn parser(&self) -> P {
        self.parser
    }

    /// The states the parser went through, from `origin` to `parser`.
    pub closed spec fn states(&self) -> Seq<P> {
        self.states@
    }

    /// Pulls the next event from the parser and hands on what the parser gave.
    pub fn next_event(&mut self) -> (result: Result<XmlReadEvent, String>)
        ensures
            final(self).pulls() == old(self).pulls().push(result),
            P::pulled(old(self).parser(), final(self).parser(), result),
            final(self).origin() == old(self).origin(),
            old(self).well_formed() ==> final(self).well_formed(),
    {
        let ghost before = *self;
        let result = self.parser.next_event();
        proof {
            self.pulls@ = self.pulls@.push(result);
            self.states@ = self.states@.push(self.parser);
            if before.well_formed() {
                assert forall|i: int| 0 <= i < self.pulls@.len() implies #[trigger] P::pulled(
                    self.states@[i],
                    self.states@[i + 1],
                    self.pulls@[i],
                ) by {
                    if i < before.pulls@.len() {
                        assert(self.states@[i] == before.states@[i]);
                        assert(self.states@[i + 1] == before.states@[i + 1]);
                    }
                }
            }
        }
        result
    }

    /// Reads the text content of the current element, up to and including its
    /// end: the character data of the text, CDATA and whitespace events before
    /// the end element, in order; comments and processing instructions are
    /// skipped. A nested element, the start or end of the document, or a
    /// failed pull ends the read with an error.
    pub fn read_text(&mut self) -> (result: Result<String, String>)
        ensures
            final(self).origin() == old(self).origin(),
            old(self).well_formed() ==> final(self).well_formed(),
            final(self).pulls().len() > old(self).pulls().len(),
            final(self).pulls().take(old(self).pulls().len() as int) == old(self).pulls(),
            ({
                let pulls = final(self).pulls().skip(old(self).pulls().len() as int);
                &&& forall|i: int| 0 <= i < pulls.len() - 1 ==> is_content_pull(#[trigger] pulls[i])
                &&& match pulls.last() {
                    Err(message) => result == Err::<String, String>(message),
                    Ok(XmlReadEvent::EndElement { .. }) => result matches Ok(text) && text@
                        == text_content(pulls.drop_last()),
                    Ok(XmlReadEvent::StartElement { .. }) => result matches Err(m) && m@
                        == "unexpected start element in text content"@,
                    Ok(XmlReadEvent::StartDocument) => result matches Err(m) && m@
                        == "unexpected start of document in text content"@,
                    Ok(XmlReadEvent::EndDocument) => result matches Err(m) && m@
                        == "unexpected end of document in text content"@,
                    Ok(_) => pulls.len() == usize::MAX && (result matches Err(m) && m@
                        == "text content has too many events"@),
                }
            }),
    {
        let ghost start = self.pulls@.len();
        let mut text = String::new();
        let mut remaining: usize = usize::MAX;
        proof {
            assert(self.pulls@.skip(start as int) =~= Seq::<Result<XmlReadEvent, String>>::empty());
            assert(self.pulls@.take(start as int) =~= self.pulls@);
        }
        while remaining > 0
            invariant
                self.pulls@.len() >= start,
                self.pulls@.take(start as int) == old(self).pulls@,
                start == old(self).pulls@.len(),
                self.pulls@.skip(start as int).len() == usize::MAX - remaining,
                forall|i: int|
                    0 <= i < self.pulls@.skip(start as int).len() ==> is_content_pull(
                        #[trigger] self.pulls@.skip(start as int)[i],
                    ),
                text@ == text_content(self.pulls@.skip(start as int)),
                self.origin() == old(self).origin(),
                old(self).well_formed() ==> self.well_formed(),
            decreases remaining,
        {
            remaining = remaining - 1;
            let ghost before = self.pulls@;
            let pulled = self.next_event();
            proof {
                assert(self.pulls@.take(start as int) =~= before.take(start as int));
                assert(self.pulls@.skip(start as int) =~= before.skip(start as int).push(pulled));
                assert(self.pulls@.skip(start as int).drop_last() =~= before.skip(start as int));
            }
            let event = match pulled {
                Ok(event) => event,
                Err(message) => {
                    return Err(message);
                },
            };
            match event {
                XmlReadEvent::Characters(chunk) => {
                    text.append(chunk.as_str());
                },
                XmlReadEvent::CData(chunk) => {
                    text.append(chunk.as_str());
                },
                XmlReadEvent::Whitespace(chunk) => {
                    text.append(chunk.as_str());
                },
                XmlReadEvent::Comment(_) => {},
                XmlReadEvent::ProcessingInstruction { .. } => {},
                XmlReadEvent::EndElement { .. } => {
                    return Ok(text);
                },
                XmlReadEvent::StartElement { .. } => {
                    return Err(String::from_str("unexpected start element in text content"));
                },
                XmlReadEvent::StartDocument => {
                    return Err(String::from_str("unexpected start of document in text content"));
                },
                XmlReadEvent::EndDocument => {
                    return Err(String::from_str("unexpected end of document in text content"));
                },
            }
        }
        Err(String::from_str("text content has too many events"))
    }
}

/// A type that reads itself from XML events.
pub trait YaDeserialize: Sized {
    /// What reading a value may do: make the `pulls` given, in order, and
    /// give `outcome`. An implementation may say what that is for its type; by
    /// default it is left open.
    open spec fn deserialized(
        pulls: Seq<Result<XmlReadEvent, String>>,
        outcome: Result<Self, String>,
    ) -> bool {
        true
    }

    fn deserialize<P: XmlEventReader>(reader: &mut Deserializer<P>) -> (outcome: Result<
        Self,
        String,
    >)
        ensures
            Self::deserialized(
                final(reader).pulls().skip(old(reader).pulls().len() as int),
                outcome,
            ),
            final(reader).pulls().take(old(reader).pulls().len() as int) == old(reader).pulls(),
            final(reader).origin() == old(reader).origin(),
            old(reader).well_formed() ==> final(reader).well_formed(),
    ;
}

/// A pull from an `XmlRsReader` gives exactly its next pending event (with
/// all of its attributes), whatever a caller does with it afterwards.
pub proof fn law_pull_gives_next_pending_event(
    before: XmlRsReader,
    after: XmlRsReader,
    outcome: Result<XmlReadEvent, String>,
)
    requires
        XmlRsReader::pulled(before, after, outcome),
        before.pending().len() > 0,
    ensures
        outcome_view(outcome) == before.pending().last(),
{
}

/// Pulling again and again from an `XmlRsReader` gives its pending events in
/// order, none skipped or changed: the `i`-th pull gives the `i`-th event.
pub proof fn law_pulls_from_xml_rs_reader_are_its_events(
    start: XmlRsReader,
    states: Seq<XmlRsReader>,
    pulls: Seq<Result<XmlReadEvent, String>>,
    i: int,
)
    requires
        pulled_from(start, states, pulls),
        0 <= i < pulls.len(),
        i < start.pending().len(),
    ensures
        outcome_view(pulls[i]) == start.pending()[start.pending().len() - 1 - i],
{
    lemma_pending_after_pulls(start, states, pulls, i);
}

proof fn lemma_pending_after_pulls(
    start: XmlRsReader,
    states: Seq<XmlRsReader>,
    pulls: Seq<Result<XmlReadEvent, String>>,
    i: int,
)
    requires
        pulled_from(start, states, pulls),
        0 <= i < pulls.len(),
        i < start.pending().len(),
    ensures
        states[i].pending() == start.pending().take(start.pending().len() - i),
        outcome_view(pulls[i]) == start.pending()[start.pending().len() - 1 - i],
    decreases i,
{
    let n = start.pending().len();
    if i == 0 {
        assert(start.pending().take(n as int) =~= start.pending());
    } else {
        lemma_pending_after_pulls(start, states, pulls, i - 1);
        let j = i - 1;
        assert(XmlRsReader::pulled(states[j], states[j + 1], pulls[j]));
        assert(start.pending().take(n - (i - 1)).drop_last() =~= start.pending().take(n - i));
    }
    assert(XmlRsReader::pulled(states[i], states[i + 1], pulls[i]));
    assert(states[i].pending().len() == n - i);
}

/// The first event a model reads through `from_reader_with_parser` is the
/// one the parser gives on its first pull, and every later one the parser's
/// next: pulls from `start` go through the parser one after another.
pub proof fn law_pulls_follow_the_parser<P: XmlEventReader>(
    start: P,
    states: Seq<P>,
    pulls: Seq<Result<XmlReadEvent, String>>,
    i: int,
)
    requires
        pulled_from(start, states, pulls),
        0 <= i < pulls.len(),
    ensures
        i == 0 ==> P::pulled(start, states[1], pulls[0]),
        P::pulled(states[i], states[i + 1], pulls[i]),
{
}

/// Reads a `T` from the events of `parser`: `T` reads from a fresh
/// deserializer over `parser`, once, and what it gives is handed back as it is.
/// The events `T` reads are those the parser gives from its first pull on.
pub fn from_reader_with_parser<P: XmlEventReader, T: YaDeserialize>(parser: P) -> (result: Result<
    T,
    String,
>)
    ensures
        exists|pulls: Seq<Result<XmlReadEvent, String>>| #[trigger] T::deserialized(pulls, result),
        exists|pulls: Seq<Result<XmlReadEvent, String>>, states: Seq<P>|
            #[trigger] T::deserialized(pulls, result) && #[trigger] pulled_from(
                parser,
                states,
                pulls,
            ),
{
    let mut deserializer = Deserializer::new(parser);
    let result = T::deserialize(&mut deserializer);
    proof {
        let pulls = deserializer.pulls().skip(0);
        assert(pulls =~= deserializer.pulls());
        deserializer.lemma_pulls_are_from_origin();
        assert(T::deserialized(pulls, result));
        assert(pulled_from(parser, deserializer.states(), pulls));
    }
    result
}

} // verus!
