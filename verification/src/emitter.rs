//! The xml-rs event writer, together with a record of every event handed to
//! it and of the configuration it was made with.
//!
//! The record lives in private fields of `XmlEmitter`: only the constructors
//! and the `emit_*` methods below, which make the calls into xml-rs, extend it.

use crate::markup::xml_rs_namespace_mappings;
use std::borrow::Cow;
use std::io::Write;
use vstd::prelude::*;

use ::xml::attribute::OwnedAttribute;
use ::xml::common::XmlVersion;
use ::xml::name::OwnedName;
use ::xml::namespace::Namespace;
use ::xml::writer::EmitterConfig;
use ::xml::writer::Error as EmitterError;
use ::xml::writer::EventWriter;
use ::xml::writer::XmlEvent;

verus! {

#[verifier::external_type_specification]
#[verifier::external_body]
#[verifier::reject_recursive_types(W)]
pub struct ExEventWriter<W>(::xml::writer::EventWriter<W>);

#[verifier::external_type_specification]
#[verifier::external_body]
pub struct ExXmlEvent<'a>(::xml::writer::XmlEvent<'a>);

#[verifier::external_type_specification]
#[verifier::external_body]
pub struct ExEmitterError(::xml::writer::Error);

#[verifier::external_type_specification]
#[verifier::external_body]
pub struct ExEmitterConfig(::xml::writer::EmitterConfig);

#[verifier::external_type_specification]
#[verifier::external_body]
pub struct ExXmlVersion(::xml::common::XmlVersion);

// ---------------------------------------------------------------------------
// Emitter configuration
// ---------------------------------------------------------------------------

/// An option set on an emitter configuration.
pub enum EmitterSetting {
    CdataToCharacters(bool),
    PerformIndent(bool),
    WriteDocumentDeclaration(bool),
    IndentString(Seq<char>),
}

/// The configuration that `EmitterConfig::new()` becomes once `settings` are
/// applied to it, in order, by the setters of the same names.
pub uninterp spec fn xml_rs_emitter_config(settings: Seq<EmitterSetting>) -> EmitterConfig;

/// `EmitterConfig::new()`: the default configuration, no option set yet.
#[verifier::external_body]
pub(crate) fn emitter_config_new() -> (config: EmitterConfig)
    ensures
        config == xml_rs_emitter_config(Seq::empty()),
{
    EmitterConfig::new()
}

/// `EmitterConfig::cdata_to_characters`: the configuration with that option set.
#[verifier::external_body]
pub(crate) fn emitter_config_cdata_to_characters(config: EmitterConfig, value: bool) -> (r:
    EmitterConfig)
    ensures
        forall|settings: Seq<EmitterSetting>|
            config == #[trigger] xml_rs_emitter_config(settings) ==> r == xml_rs_emitter_config(
                settings.push(EmitterSetting::CdataToCharacters(value)),
            ),
{
    config.cdata_to_characters(value)
}

/// `EmitterConfig::perform_indent`: the configuration with that option set.
#[verifier::external_body]
pub(crate) fn emitter_config_perform_indent(config: EmitterConfig, value: bool) -> (r:
    EmitterConfig)
    ensures
        forall|settings: Seq<EmitterSetting>|
            config == #[trigger] xml_rs_emitter_config(settings) ==> r == xml_rs_emitter_config(
                settings.push(EmitterSetting::PerformIndent(value)),
            ),
{
    config.perform_indent(value)
}

/// `EmitterConfig::write_document_declaration`: the configuration with that
/// option set.
#[verifier::external_body]
pub(crate) fn emitter_config_write_document_declaration(config: EmitterConfig, value: bool) -> (r:
    EmitterConfig)
    ensures
        forall|settings: Seq<EmitterSetting>|
            config == #[trigger] xml_rs_emitter_config(settings) ==> r == xml_rs_emitter_config(
                settings.push(EmitterSetting::WriteDocumentDeclaration(value)),
            ),
{
    config.write_document_declaration(value)
}

/// `EmitterConfig::indent_string`: the configuration with `indent` as the
/// text of one level of indentation.
#[verifier::external_body]
pub(crate) fn emitter_config_indent_string(config: EmitterConfig, indent: String) -> (r:
    EmitterConfig)
    ensures
        forall|settings: Seq<EmitterSetting>|
            config == #[trigger] xml_rs_emitter_config(settings) ==> r == xml_rs_emitter_config(
                settings.push(EmitterSetting::IndentString(indent@)),
            ),
{
    config.indent_string(indent)
}

// ---------------------------------------------------------------------------
// The emitter and its record
// ---------------------------------------------------------------------------

/// What an xml-rs writer event holds, with borrowed text, names and
/// attributes taken as the owned values they copy to.
pub enum HandedEvent {
    StartDocument { version: XmlVersion, encoding: Option<Seq<char>>, standalone: Option<bool> },
    ProcessingInstruction { name: Seq<char>, data: Option<Seq<char>> },
    /// A start element: its name, its attributes in order, and its namespace
    /// declarations (prefix to URI).
    StartElement {
        name: OwnedName,
        attributes: Seq<OwnedAttribute>,
        namespace: Map<Seq<char>, Seq<char>>,
    },
    /// The end of an element; without a name, of the innermost open one.
    EndElement { name: Option<OwnedName> },
    CData(Seq<char>),
    Comment(Seq<char>),
    Characters(Seq<char>),
}

/// What the xml-rs writer event `event` holds.
pub uninterp spec fn xml_rs_event_view(event: XmlEvent<'_>) -> HandedEvent;

/// An xml-rs `EventWriter`, with the record of every event handed to it
/// through this value, as what each event holds.
#[verifier::reject_recursive_types(W)]
pub struct XmlEmitter<W> {
    writer: EventWriter<W>,
    handed: Ghost<Seq<HandedEvent>>,
    outcomes: Ghost<Seq<Result<(), EmitterError>>>,
    config: Ghost<Option<EmitterConfig>>,
}

impl<W> XmlEmitter<W> {
    /// Every event handed to the writer through this value, in order.
    pub closed spec fn handed(&self) -> Seq<HandedEvent> {
        self.handed@
    }

    /// What the writer answered to each handed event, in the same order.
    pub closed spec fn outcomes(&self) -> Seq<Result<(), EmitterError>> {
        self.outcomes@
    }

    /// The configuration the writer was made with, when it was made here.
    pub closed spec fn config(&self) -> Option<EmitterConfig> {
        self.config@
    }
}

impl<W: Write> XmlEmitter<W> {
    /// Takes over a writer made elsewhere, whose configuration is not known
    /// here; nothing has been handed to it through this value yet.
    pub(crate) fn from_writer(writer: EventWriter<W>) -> (emitter: Self)
        ensures
            emitter.handed() == Seq::<HandedEvent>::empty(),
            emitter.outcomes().len() == 0,
            emitter.config() is None,
    {
        XmlEmitter { writer, handed: Ghost(Seq::empty()), outcomes: Ghost(Seq::empty()), config: Ghost(None) }
    }

    /// `EventWriter::new_with_config`: a writer into `sink`, configured by `config`.
    #[verifier::external_body]
    pub(crate) fn with_config(sink: W, config: EmitterConfig) -> (emitter: Self)
        ensures
            emitter.handed() == Seq::<HandedEvent>::empty(),
            emitter.outcomes().len() == 0,
            emitter.config() == Some(config),
    {
        XmlEmitter {
            handed: Ghost(Seq::empty()),
            outcomes: Ghost(Seq::empty()),
            config: Ghost(Some(config)),
            writer: EventWriter::new_with_config(sink, config),
        }
    }

    /// `EventWriter::into_inner`: gives the sink back.
    #[verifier::external_body]
    pub(crate) fn into_inner(self) -> W {
        self.writer.into_inner()
    }

    /// `EventWriter::write` of the `StartElement` event over `name`, the
    /// `attributes` in order and `namespace`. Whether xml-rs accepts it depends
    /// on what was written before and on the sink; it is handed over either way.
    #[verifier::external_body]
    pub(crate) fn emit_start_element(
        &mut self,
        name: &OwnedName,
        attributes: &Vec<OwnedAttribute>,
        namespace: Namespace,
    ) -> (result: Result<(), EmitterError>)
        ensures
            final(self).handed() == old(self).handed().push(
                HandedEvent::StartElement {
                    name: *name,
                    attributes: attributes@,
                    namespace: xml_rs_namespace_mappings(namespace),
                },
            ),
            final(self).outcomes() == old(self).outcomes().push(result),
            final(self).config() == old(self).config(),
    {
        self.writer.write(XmlEvent::StartElement {
            name: name.borrow(),
            attributes: Cow::Owned(attributes.iter().map(|attribute| attribute.borrow()).collect()),
            namespace: Cow::Owned(namespace),
        })
    }

    /// `EventWriter::write` of `XmlEvent::end_element()`, whose name xml-rs
    /// takes from the innermost open element.
    #[verifier::external_body]
    pub(crate) fn emit_end_element(&mut self) -> (result: Result<(), EmitterError>)
        ensures
            final(self).handed() == old(self).handed().push((HandedEvent::EndElement { name: None })),
            final(self).outcomes() == old(self).outcomes().push(result),
            final(self).config() == old(self).config(),
    {
        self.writer.write(XmlEvent::end_element())
    }

    /// `EventWriter::write` of `XmlEvent::characters(text)`.
    #[verifier::external_body]
    pub(crate) fn emit_characters(&mut self, text: &str) -> (result: Result<(), EmitterError>)
        ensures
            final(self).handed() == old(self).handed().push(HandedEvent::Characters(text@)),
            final(self).outcomes() == old(self).outcomes().push(result),
            final(self).config() == old(self).config(),
    {
        self.writer.write(XmlEvent::characters(text))
    }

    /// `EventWriter::write` of `XmlEvent::cdata(text)`.
    #[verifier::external_body]
    pub(crate) fn emit_cdata(&mut self, text: &str) -> (result: Result<(), EmitterError>)
        ensures
            final(self).handed() == old(self).handed().push(HandedEvent::CData(text@)),
            final(self).outcomes() == old(self).outcomes().push(result),
            final(self).config() == old(self).config(),
    {
        self.writer.write(XmlEvent::cdata(text))
    }

    /// `EventWriter::write` of `event`, as it is.
    #[verifier::external_body]
    pub(crate) fn emit_raw<'a>(&mut self, event: XmlEvent<'a>) -> (result: Result<(), EmitterError>)
        ensures
            final(self).handed() == old(self).handed().push(xml_rs_event_view(event)),
            final(self).outcomes() == old(self).outcomes().push(result),
            final(self).config() == old(self).config(),
    {
        self.writer.write(event)
    }
}

/// The `Display` text of an emitter error, which xml-rs always begins with
/// `emitter error: ` before the text of the kind of error.
#[verifier::external_body]
pub(crate) fn emitter_error_message(error: EmitterError) -> (message: String)
    ensures
        "emitter error: "@.is_prefix_of(message@),
{
    error.to_string()
}

} // verus!
