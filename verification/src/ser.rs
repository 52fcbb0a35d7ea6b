//! Generic data structure serialization framework.
//!
//! A `Serializer` turns the calls of a `YaSerialize` implementation into events
//! of the xml-rs emitter. Its view shows what the emitter has been handed and
//! how it was configured (kept by `XmlEmitter`), and every run of the
//! start-element updater (kept by `UpdaterSlot`).

use crate::emitter::{
    emitter_config_cdata_to_characters, emitter_config_indent_string, emitter_config_new,
    emitter_config_perform_indent, emitter_config_write_document_declaration,
    emitter_error_message, xml_rs_emitter_config, xml_rs_event_view, EmitterSetting, HandedEvent,
    XmlEmitter,
};
use crate::markup::{
    attribute_views, copy_opt_string, law_qualified_split_is_unique, opt_string_view,
    rendered_name, splits_qualified_name, xml_rs_attribute, xml_rs_name,
    xml_rs_namespace_mappings, AttributeView, NameView, StartElementView, XmlAttribute, XmlName,
    XmlNamespace, XmlStartElement, XmlWriteEvent,
};
use crate::updater::{UpdaterRun, UpdaterSlot};
use crate::YaSerialize;
use std::borrow::Cow;
use std::io::Write;
use vstd::prelude::*;
use vstd::std_specs::convert::IntoSpec;
use vstd::string::StrSliceExecFns;

use ::xml::attribute::OwnedAttribute;
use ::xml::name::OwnedName;
use ::xml::namespace::Namespace;
use ::xml::writer::EmitterConfig;
use ::xml::writer::Error as EmitterError;
use ::xml::writer::EventWriter;
use ::xml::writer::XmlEvent;

verus! {

// ---------------------------------------------------------------------------
// Trusted calls into xml-rs and std
// ---------------------------------------------------------------------------

/// `OwnedName::local`: the name with that local part, no namespace and no prefix.
#[verifier::external_body]
fn xml_rs_local_name(local_name: String) -> (name: OwnedName)
    ensures
        name == xml_rs_name(NameView { local_name: local_name@, namespace: None, prefix: None }),
{
    OwnedName::local(local_name)
}

/// Tells a `StartElement` event of xml-rs apart from the other events: gives
/// its name, attributes and namespace as owned values, or the event unchanged.
#[verifier::external_body]
fn xml_rs_take_start_element<'a>(event: XmlEvent<'a>) -> (r: Result<
    (OwnedName, Vec<OwnedAttribute>, Namespace),
    XmlEvent<'a>,
>)
    ensures
        r is Ok <==> xml_rs_event_view(event) is StartElement,
        r matches Ok((name, attributes, namespace)) ==> xml_rs_event_view(event)
            == (HandedEvent::StartElement {
            name,
            attributes: attributes@,
            namespace: xml_rs_namespace_mappings(namespace),
        }),
        r matches Err(other) ==> other == event,
{
    match event {
        XmlEvent::StartElement { name, attributes, namespace } => Ok(
            (
                name.to_owned(),
                attributes.iter().map(|attribute| attribute.to_owned()).collect(),
                namespace.into_owned(),
            ),
        ),
        other => Err(other),
    }
}

/// The text before and after the first `:` of `text`, if it has one (what
/// `str::split_once(':')` gives).
fn split_at_first_colon(text: &str) -> (parts: Option<(String, String)>)
    ensures
        parts is None <==> !text@.contains(':'),
        parts matches Some((before, after)) ==> {
            &&& text@ == before@ + seq![':'] + after@
            &&& !before@.contains(':')
        },
{
    let n = text.unicode_len();
    let mut i: usize = 0;
    while i < n
        invariant
            n == text@.len(),
            i <= n,
            forall|j: int| 0 <= j < i ==> #[trigger] text@[j] != ':',
        decreases n - i,
    {
        if text.get_char(i) == ':' {
            let before = text.substring_char(0, i).to_owned();
            let after = text.substring_char(i + 1, n).to_owned();
            proof {
                assert(text@ =~= before@ + seq![':'] + after@);
                assert forall|j: int| 0 <= j < before@.len() implies before@[j] != ':' by {
                    assert(before@[j] == text@[j]);
                }
            }
            return Some((before, after));
        }
        i = i + 1;
    }
    None
}

// ---------------------------------------------------------------------------
// Configuration
// ---------------------------------------------------------------------------

/// Formatting options of a serialization.
pub struct Config {
    pub perform_indent: bool,
    pub write_document_declaration: bool,
    pub indent_string: Option<String>,
}

impl Default for Config {
    fn default() -> (config: Self)
        ensures
            !config.perform_indent,
            config.write_document_declaration,
            config.indent_string is None,
    {
        Config { perform_indent: false, write_document_declaration: true, indent_string: None }
    }
}

/// The options set on the emitter's default configuration for a serialization
/// with `config`, in the order they are set.
pub open spec fn config_settings(config: Config) -> Seq<EmitterSetting> {
    seq![
        EmitterSetting::CdataToCharacters(false),
        EmitterSetting::PerformIndent(config.perform_indent),
        EmitterSetting::WriteDocumentDeclaration(config.write_document_declaration),
    ] + match config.indent_string {
        Some(indent) => seq![EmitterSetting::IndentString(indent@)],
        None => Seq::empty(),
    }
}

/// The options set for serializing inner content.
pub open spec fn inner_settings() -> Seq<EmitterSetting> {
    seq![EmitterSetting::WriteDocumentDeclaration(false)]
}

// ---------------------------------------------------------------------------
// Model of a serializer
// ---------------------------------------------------------------------------

/// The state of a serializer.
pub struct SerializerView {
    pub skip_start_end: bool,
    pub start_event_name: Option<Seq<char>>,
    pub has_start_element_updater: bool,
    /// Every run of the start-element updater: the element offered, and the
    /// element the updater left.
    pub updater_runs: Seq<UpdaterRun>,
    /// The number of the updater installed last (updaters are numbered from 1
    /// in the order they are installed; 0 when none ever was).
    pub last_installed: nat,
    /// Every event handed to the emitter.
    pub handed: Seq<HandedEvent>,
    /// What the emitter answered to each of them, in the same order.
    pub emitter_outcomes: Seq<Result<(), EmitterError>>,
    /// The configuration the emitter was made with (`None` when the emitter
    /// was made by the caller).
    pub emitter_config: Option<EmitterConfig>,
}

pub open spec fn fresh_view(config: Option<EmitterConfig>) -> SerializerView {
    SerializerView {
        skip_start_end: false,
        start_event_name: None,
        has_start_element_updater: false,
        updater_runs: Seq::empty(),
        last_installed: 0,
        handed: Seq::empty(),
        emitter_outcomes: Seq::empty(),
        emitter_config: config,
    }
}

/// The serializer that a model is handed to write its content only: fresh,
/// configured with the inner settings, and skipping its own start and end.
pub open spec fn content_view() -> SerializerView {
    SerializerView {
        skip_start_end: true,
        ..fresh_view(Some(xml_rs_emitter_config(inner_settings())))
    }
}

/// `after` is `before` once `event` has been handed to the emitter, which
/// answered with the outcome `after` records last.
pub open spec fn handed_on(before: SerializerView, after: SerializerView, event: HandedEvent) -> bool {
    &&& after.emitter_outcomes.len() > 0
    &&& after == SerializerView {
        handed: before.handed.push(event),
        emitter_outcomes: before.emitter_outcomes.push(after.emitter_outcomes.last()),
        ..before
    }
}

/// The emitter's start element for `e`: its name, attributes and
/// declarations, as the xml-rs values they convert to.
pub open spec fn handed_start(e: StartElementView) -> HandedEvent {
    HandedEvent::StartElement {
        name: xml_rs_name(e.name),
        attributes: e.attributes.map_values(|a: AttributeView| xml_rs_attribute(a)),
        namespace: e.namespace,
    }
}

/// `after` is `before` once the updater has run on `offered` and the element
/// it left has been handed to the emitter.
pub open spec fn updated_and_handed(
    before: SerializerView,
    after: SerializerView,
    offered: StartElementView,
) -> bool {
    &&& after.updater_runs.len() > 0
    &&& after.updater_runs.last().offered == offered
    &&& after.updater_runs.last().updater == before.last_installed
    &&& after.emitter_outcomes.len() > 0
    &&& after == SerializerView {
        updater_runs: before.updater_runs.push(after.updater_runs.last()),
        handed: before.handed.push(handed_start(after.updater_runs.last().left)),
        emitter_outcomes: before.emitter_outcomes.push(after.emitter_outcomes.last()),
        ..before
    }
}

/// The start element written for `name` when no updater runs: the name is
/// handed over unsplit, as a local name.
pub open spec fn direct_start_element(
    name: Seq<char>,
    attributes: Seq<AttributeView>,
    namespace: Map<Seq<char>, Seq<char>>,
) -> StartElementView {
    StartElementView {
        name: NameView { local_name: name, namespace: None, prefix: None },
        attributes: attributes,
        namespace: namespace,
    }
}

/// `e` is the start element named `name`: the name split at its first `:`
/// and expanded in `namespace`, with the given attributes and declarations.
pub open spec fn is_named_start_element(
    e: StartElementView,
    name: Seq<char>,
    attributes: Seq<AttributeView>,
    namespace: Map<Seq<char>, Seq<char>>,
) -> bool {
    &&& splits_qualified_name(name, e.name, namespace)
    &&& e.attributes == attributes
    &&& e.namespace == namespace
}

/// `e` holds the fields of an xml-rs start element: `name`, `attributes` in
/// order, and the declarations `namespace`.
pub open spec fn holds_xml_rs_parts(
    e: StartElementView,
    name: OwnedName,
    attributes: Seq<OwnedAttribute>,
    namespace: Map<Seq<char>, Seq<char>>,
) -> bool {
    &&& xml_rs_name(e.name) == name
    &&& e.attributes.map_values(|a: AttributeView| xml_rs_attribute(a)) == attributes
    &&& e.namespace == namespace
}

/// What writing the start element `name` does to a serializer: without an
/// updater the direct start element is handed to the emitter; with one, the
/// updater runs once on the named start element and what it left is handed on.
pub open spec fn start_element_written(
    before: SerializerView,
    after: SerializerView,
    name: Seq<char>,
    attributes: Seq<AttributeView>,
    namespace: Map<Seq<char>, Seq<char>>,
) -> bool {
    if before.has_start_element_updater {
        &&& after.updater_runs.len() > 0
        &&& is_named_start_element(after.updater_runs.last().offered, name, attributes, namespace)
        &&& updated_and_handed(before, after, after.updater_runs.last().offered)
    } else {
        handed_on(before, after, handed_start(direct_start_element(name, attributes, namespace)))
    }
}

/// What writing the xml-rs event whose contents are `event` does: with an
/// updater set, a start element is never passed through; the updater runs
/// once on the start element holding its parts, and what it left is handed on.
/// Every other event is handed to the emitter as it is.
pub open spec fn raw_event_written(
    before: SerializerView,
    after: SerializerView,
    event: HandedEvent,
) -> bool {
    match event {
        HandedEvent::StartElement { name, attributes, namespace } => if before.has_start_element_updater {
            &&& after.updater_runs.len() > 0
            &&& holds_xml_rs_parts(after.updater_runs.last().offered, name, attributes, namespace)
            &&& updated_and_handed(before, after, after.updater_runs.last().offered)
        } else {
            handed_on(before, after, event)
        },
        _ => handed_on(before, after, event),
    }
}

/// What writing a library event does.
pub open spec fn write_event_written<'a>(
    before: SerializerView,
    after: SerializerView,
    event: XmlWriteEvent<'a>,
) -> bool {
    match event {
        XmlWriteEvent::StartElement { name, attributes, namespace } => start_element_written(
            before,
            after,
            name@,
            attribute_views(attributes@),
            namespace@,
        ),
        XmlWriteEvent::EndElement => handed_on(before, after,
            HandedEvent::EndElement { name: None },
        ),
        XmlWriteEvent::Characters(text) => handed_on(before, after,
            HandedEvent::Characters(text@),
        ),
        XmlWriteEvent::CData(text) => handed_on(before, after, HandedEvent::CData(text@)),
    }
}

/// An outcome with its error as text.
pub open spec fn outcome_text(outcome: Result<(), String>) -> Result<(), Seq<char>> {
    match outcome {
        Ok(()) => Ok(()),
        Err(message) => Err(message@),
    }
}

/// `result` hands on the model's `outcome`: success exactly when the model
/// succeeded, and the model's error message unchanged.
pub open spec fn outcome_passed_on<W>(outcome: Result<(), Seq<char>>, result: Result<W, String>) -> bool {
    &&& result is Ok <==> outcome is Ok
    &&& outcome matches Err(m) ==> result matches Err(r) && r@ == m
}

/// An error message of the emitter.
pub open spec fn is_emitter_message(message: Seq<char>) -> bool {
    "emitter error: "@.is_prefix_of(message)
}

// ---------------------------------------------------------------------------
// Laws of the serializer
// ---------------------------------------------------------------------------

/// The updater runs exactly once for every start element written while it is
/// set, and never for a start element written while none is set; either way
/// exactly one event reaches the emitter.
pub proof fn law_updater_runs_once_per_start_element(
    before: SerializerView,
    after: SerializerView,
    name: Seq<char>,
    attributes: Seq<AttributeView>,
    namespace: Map<Seq<char>, Seq<char>>,
)
    requires
        start_element_written(before, after, name, attributes, namespace),
    ensures
        after.updater_runs.len() == before.updater_runs.len() + if before.has_start_element_updater {
            1int
        } else {
            0int
        },
        after.updater_runs.take(before.updater_runs.len() as int) == before.updater_runs,
        after.handed.len() == before.handed.len() + 1,
{
    assert(after.updater_runs.take(before.updater_runs.len() as int) =~= before.updater_runs);
}

/// A serializer made from `config` sets up its emitter with exactly the
/// options `config` asks for: CDATA kept as CDATA; indentation exactly when
/// `config.perform_indent`, whatever the indent string; the document
/// declaration exactly when `config.write_document_declaration`; and an
/// indent string exactly when `config` gives one.
pub proof fn law_emitter_settings_follow_config(config: Config)
    ensures
        config_settings(config).contains(EmitterSetting::PerformIndent(config.perform_indent)),
        forall|b: bool|
            #[trigger] config_settings(config).contains(EmitterSetting::PerformIndent(b)) ==> b
                == config.perform_indent,
        config_settings(config).contains(
            EmitterSetting::WriteDocumentDeclaration(config.write_document_declaration),
        ),
        forall|b: bool|
            #[trigger] config_settings(config).contains(EmitterSetting::WriteDocumentDeclaration(b))
                ==> b == config.write_document_declaration,
        config_settings(config).contains(EmitterSetting::CdataToCharacters(false)),
        !config_settings(config).contains(EmitterSetting::CdataToCharacters(true)),
        forall|indent: Seq<char>|
            #[trigger] config_settings(config).contains(EmitterSetting::IndentString(indent)) <==> (
            config.indent_string matches Some(i) && i@ == indent),
{
    let s = config_settings(config);
    assert(s[0] == EmitterSetting::CdataToCharacters(false));
    assert(s[1] == EmitterSetting::PerformIndent(config.perform_indent));
    assert(s[2] == EmitterSetting::WriteDocumentDeclaration(config.write_document_declaration));
    assert(s.len() == 3 || s.len() == 4);
    assert forall|b: bool| #[trigger] s.contains(EmitterSetting::PerformIndent(b)) implies b
        == config.perform_indent by {
        let i = choose|i: int| 0 <= i < s.len() && s[i] == EmitterSetting::PerformIndent(b);
        assert(i == 1);
    }
    assert forall|b: bool| #[trigger] s.contains(EmitterSetting::WriteDocumentDeclaration(b))
        implies b == config.write_document_declaration by {
        let i = choose|i: int|
            0 <= i < s.len() && s[i] == EmitterSetting::WriteDocumentDeclaration(b);
        assert(i == 2);
    }
    if s.contains(EmitterSetting::CdataToCharacters(true)) {
        let i = choose|i: int| 0 <= i < s.len() && s[i] == EmitterSetting::CdataToCharacters(true);
        assert(i == 0);
    }
    assert forall|indent: Seq<char>|
        #[trigger] s.contains(EmitterSetting::IndentString(indent)) <==> (
        config.indent_string matches Some(i) && i@ == indent) by {
        if s.contains(EmitterSetting::IndentString(indent)) {
            let i = choose|i: int| 0 <= i < s.len() && s[i] == EmitterSetting::IndentString(indent);
            assert(i == 3);
        }
        if config.indent_string matches Some(i) && i@ == indent {
            assert(s[3] == EmitterSetting::IndentString(indent));
        }
    }
}

/// With an updater set, the start element handed to the emitter is the one
/// the updater left: its name, its attributes and its declarations, whatever
/// it was offered.
pub proof fn law_written_start_element_is_what_updater_left(
    before: SerializerView,
    after: SerializerView,
    name: Seq<char>,
    attributes: Seq<AttributeView>,
    namespace: Map<Seq<char>, Seq<char>>,
)
    requires
        before.has_start_element_updater,
        start_element_written(before, after, name, attributes, namespace),
    ensures
        after.handed.last() == (HandedEvent::StartElement {
            name: xml_rs_name(after.updater_runs.last().left.name),
            attributes: after.updater_runs.last().left.attributes.map_values(
                |a: AttributeView| xml_rs_attribute(a),
            ),
            namespace: after.updater_runs.last().left.namespace,
        }),
{
}

/// The same for a raw start element written while an updater is set.
pub proof fn law_raw_start_element_written_is_what_updater_left(
    before: SerializerView,
    after: SerializerView,
    event: HandedEvent,
)
    requires
        before.has_start_element_updater,
        event is StartElement,
        raw_event_written(before, after, event),
    ensures
        after.handed.last() == (HandedEvent::StartElement {
            name: xml_rs_name(after.updater_runs.last().left.name),
            attributes: after.updater_runs.last().left.attributes.map_values(
                |a: AttributeView| xml_rs_attribute(a),
            ),
            namespace: after.updater_runs.last().left.namespace,
        }),
{
}

/// Only the updater installed last runs on a start element: one that was
/// replaced never runs again.
pub proof fn law_only_last_installed_updater_runs(
    before: SerializerView,
    after: SerializerView,
    name: Seq<char>,
    attributes: Seq<AttributeView>,
    namespace: Map<Seq<char>, Seq<char>>,
)
    requires
        before.has_start_element_updater,
        start_element_written(before, after, name, attributes, namespace),
    ensures
        after.updater_runs.last().updater == before.last_installed,
        forall|i: int|
            0 <= i < before.updater_runs.len() ==> #[trigger] after.updater_runs[i]
                == before.updater_runs[i],
{
}

/// A raw start element reaches the updater exactly once while one is set;
/// other raw events, and every raw event while none is set, never do. Either
/// way exactly one event reaches the emitter.
pub proof fn law_raw_start_element_reaches_updater_once(
    before: SerializerView,
    after: SerializerView,
    event: HandedEvent,
)
    requires
        raw_event_written(before, after, event),
    ensures
        after.updater_runs.len() == before.updater_runs.len() + if before.has_start_element_updater
            && event is StartElement {
            1int
        } else {
            0int
        },
        after.updater_runs.take(before.updater_runs.len() as int) == before.updater_runs,
        after.handed.len() == before.handed.len() + 1,
{
    assert(after.updater_runs.take(before.updater_runs.len() as int) =~= before.updater_runs);
}

/// Writing a raw event through an updater that leaves every element as it was
/// offered hands the emitter the same event as writing it with no updater set:
/// the event itself.
pub proof fn law_unchanged_raw_event_matches_no_updater(
    plain_before: SerializerView,
    plain_after: SerializerView,
    before: SerializerView,
    after: SerializerView,
    event: HandedEvent,
)
    requires
        !plain_before.has_start_element_updater,
        before.has_start_element_updater,
        raw_event_written(plain_before, plain_after, event),
        raw_event_written(before, after, event),
        event is StartElement ==> after.updater_runs.last().left == after.updater_runs.last().offered,
    ensures
        plain_after.handed.last() == event,
        after.handed.last() == event,
        plain_after.handed.len() == plain_before.handed.len() + 1,
        after.handed.len() == before.handed.len() + 1,
{
    if let HandedEvent::StartElement { name, attributes, namespace } = event {
        let offered = after.updater_runs.last().offered;
        assert(handed_start(offered) == event);
    }
}

/// End elements, text and CDATA never reach the updater.
pub proof fn law_other_events_skip_updater(
    before: SerializerView,
    after: SerializerView,
    event: XmlWriteEvent<'_>,
)
    requires
        !(event is StartElement),
        write_event_written(before, after, event),
    ensures
        after.updater_runs == before.updater_runs,
        after.has_start_element_updater == before.has_start_element_updater,
{
}

/// Without an updater (never set, or cleared) a start element takes the
/// direct path: its name is handed to the emitter as given.
pub proof fn law_no_updater_writes_directly(
    before: SerializerView,
    after: SerializerView,
    name: Seq<char>,
    attributes: Seq<AttributeView>,
    namespace: Map<Seq<char>, Seq<char>>,
)
    requires
        !before.has_start_element_updater,
        start_element_written(before, after, name, attributes, namespace),
    ensures
        after.handed.last() == handed_start(direct_start_element(name, attributes, namespace)),
        after.updater_runs == before.updater_runs,
        rendered_name(direct_start_element(name, attributes, namespace).name) == name,
{
}

/// An updater that leaves the element it is offered unchanged hands the
/// emitter the named start element, which carries the same text for its name,
/// the same attributes and the same declarations as the direct path.
pub proof fn law_unchanged_element_matches_direct_path(
    before: SerializerView,
    after: SerializerView,
    name: Seq<char>,
    attributes: Seq<AttributeView>,
    namespace: Map<Seq<char>, Seq<char>>,
)
    requires
        before.has_start_element_updater,
        start_element_written(before, after, name, attributes, namespace),
        after.updater_runs.last().left == after.updater_runs.last().offered,
    ensures
        after.handed.last() == handed_start(after.updater_runs.last().offered),
        rendered_name(after.updater_runs.last().offered.name) == rendered_name(
            direct_start_element(name, attributes, namespace).name,
        ),
        after.updater_runs.last().offered.attributes == direct_start_element(
            name,
            attributes,
            namespace,
        ).attributes,
        after.updater_runs.last().offered.namespace == direct_start_element(
            name,
            attributes,
            namespace,
        ).namespace,
{
    let offered = after.updater_runs.last().offered;
    law_qualified_split_is_unique(name, namespace, offered.name, offered.name);
}

// ---------------------------------------------------------------------------
// The serializer
// ---------------------------------------------------------------------------

/// Writes XML events to `W` through an xml-rs emitter.
#[verifier::reject_recursive_types(W)]
pub struct Serializer<W> {
    emitter: XmlEmitter<W>,
    skip_start_end: bool,
    start_event_name: Option<String>,
    updater: UpdaterSlot,
}

impl<W> View for Serializer<W> {
    type V = SerializerView;

    closed spec fn view(&self) -> SerializerView {
        SerializerView {
            skip_start_end: self.skip_start_end,
            start_event_name: opt_string_view(self.start_event_name),
            has_start_element_updater: self.updater.is_installed(),
            updater_runs: self.updater.runs(),
            last_installed: self.updater.last_installed(),
            handed: self.emitter.handed(),
            emitter_outcomes: self.emitter.outcomes(),
            emitter_config: self.emitter.config(),
        }
    }
}

/// The outcome of an emitter call, with the error as its message.
fn emitter_result(result: Result<(), EmitterError>) -> (r: Result<(), String>)
    ensures
        r is Ok <==> result is Ok,
        r matches Err(m) ==> is_emitter_message(m@),
{
    match result {
        Ok(()) => Ok(()),
        Err(error) => Err(emitter_error_message(error)),
    }
}

fn text_of<'a>(text: &'a Cow<'a, str>) -> (r: &'a str)
    ensures
        r@ == text@,
{
    match text {
        Cow::Borrowed(borrowed) => borrowed,
        Cow::Owned(owned) => owned.as_str(),
    }
}

impl<W: Write> Serializer<W> {
    /// A serializer over an emitter made by the caller.
    pub fn new(writer: EventWriter<W>) -> (serializer: Self)
        ensures
            serializer@ == fresh_view(None),
    {
        Self::with_emitter(XmlEmitter::from_writer(writer))
    }

    fn with_emitter(emitter: XmlEmitter<W>) -> (serializer: Self)
        requires
            emitter.handed() == Seq::<HandedEvent>::empty(),
            emitter.outcomes().len() == 0,
        ensures
            serializer@ == fresh_view(emitter.config()),
    {
        proof {
            assert(emitter.outcomes() =~= Seq::<Result<(), EmitterError>>::empty());
        }
        Serializer {
            emitter,
            skip_start_end: false,
            start_event_name: None,
            updater: UpdaterSlot::empty(),
        }
    }

    /// A serializer writing to `writer`, with the emitter configured by `config`
    /// (CDATA is kept as CDATA).
    pub fn new_from_writer(writer: W, config: &Config) -> (serializer: Self)
        ensures
            serializer@ == fresh_view(Some(xml_rs_emitter_config(config_settings(*config)))),
    {
        let ghost mut settings: Seq<EmitterSetting> = Seq::empty();
        let mut emitter_config = emitter_config_new();
        emitter_config = emitter_config_cdata_to_characters(emitter_config, false);
        proof {
            settings = settings.push(EmitterSetting::CdataToCharacters(false));
        }
        emitter_config = emitter_config_perform_indent(emitter_config, config.perform_indent);
        proof {
            settings = settings.push(EmitterSetting::PerformIndent(config.perform_indent));
        }
        emitter_config = emitter_config_write_document_declaration(
            emitter_config,
            config.write_document_declaration,
        );
        proof {
            settings = settings.push(
                EmitterSetting::WriteDocumentDeclaration(config.write_document_declaration),
            );
        }
        match &config.indent_string {
            Some(indent) => {
                emitter_config = emitter_config_indent_string(emitter_config, indent.clone());
                proof {
                    settings = settings.push(EmitterSetting::IndentString(indent@));
                }
            },
            None => {},
        }
        proof {
            assert(settings =~= config_settings(*config));
        }
        Self::with_emitter(XmlEmitter::with_config(writer, emitter_config))
    }

    /// A serializer for inner content: no document declaration is written.
    pub fn new_for_inner(writer: W) -> (serializer: Self)
        ensures
            serializer@ == fresh_view(Some(xml_rs_emitter_config(inner_settings()))),
    {
        let emitter_config = emitter_config_write_document_declaration(
            emitter_config_new(),
            false,
        );
        proof {
            assert(Seq::<EmitterSetting>::empty().push(EmitterSetting::WriteDocumentDeclaration(false))
                =~= inner_settings());
        }
        Self::with_emitter(XmlEmitter::with_config(writer, emitter_config))
    }

    /// Gives the underlying writer back.
    pub fn into_inner(self) -> W {
        self.emitter.into_inner()
    }

    /// Ends a serialization whose model reported `outcome`: on success the
    /// writer is given back, otherwise the model's error is handed on as it is.
    pub fn into_result(self, outcome: Result<(), String>) -> (result: Result<W, String>)
        ensures
            result is Ok <==> outcome is Ok,
            outcome matches Err(m) ==> result matches Err(r) && r == m,
    {
        match outcome {
            Ok(()) => Ok(self.into_inner()),
            Err(message) => Err(message),
        }
    }

    pub fn skip_start_end(&self) -> (state: bool)
        ensures
            state == self@.skip_start_end,
    {
        self.skip_start_end
    }

    pub fn set_skip_start_end(&mut self, state: bool)
        ensures
            final(self)@ == (SerializerView { skip_start_end: state, ..old(self)@ }),
    {
        self.skip_start_end = state;
    }

    pub fn get_start_event_name(&self) -> (name: Option<String>)
        ensures
            opt_string_view(name) == self@.start_event_name,
    {
        copy_opt_string(&self.start_event_name)
    }

    pub fn set_start_event_name(&mut self, name: Option<String>)
        ensures
            final(self)@ == (SerializerView { start_event_name: opt_string_view(name), ..old(self)@ }),
    {
        self.start_event_name = name;
    }

    /// Sets a per-serializer callback invoked once for every start element,
    /// replacing any earlier one.
    pub fn set_start_element_updater<F: FnMut(&mut XmlStartElement) + Send + Sync + 'static>(
        &mut self,
        updater: F,
    )
        ensures
            final(self)@ == (SerializerView {
                has_start_element_updater: true,
                last_installed: old(self)@.last_installed + 1,
                ..old(self)@
            }),
    {
        self.updater.install(updater);
    }

    /// Removes the start-element callback: start elements are written directly again.
    pub fn clear_start_element_updater(&mut self)
        ensures
            final(self)@ == (SerializerView { has_start_element_updater: false, ..old(self)@ }),
    {
        self.updater.clear();
    }

    /// Writes a raw xml-rs event: `event` converted into an xml-rs event, as
    /// `write_xml_rs_event` writes it. Where the conversion has a
    /// specification, the event written is the one it gives.
    pub fn write<'a, E: Into<XmlEvent<'a>>>(&mut self, event: E) -> (result: Result<
        (),
        EmitterError,
    >)
        ensures
            exists|written: HandedEvent| raw_event_written(old(self)@, final(self)@, written),
            <E as IntoSpec<XmlEvent<'a>>>::obeys_into_spec() ==> raw_event_written(
                old(self)@,
                final(self)@,
                xml_rs_event_view(event.into_spec()),
            ),
            result == final(self)@.emitter_outcomes.last(),
    {
        let converted: XmlEvent<'a> = event.into();
        let result = self.write_xml_rs_event(converted);
        proof {
            let written = xml_rs_event_view(converted);
            assert(raw_event_written(old(self)@, self@, written));
        }
        result
    }

    /// Writes the xml-rs event `event`: a start element goes through the
    /// updater when one is set; everything else is passed through as it is.
    pub fn write_xml_rs_event<'a>(&mut self, event: XmlEvent<'a>) -> (result: Result<
        (),
        EmitterError,
    >)
        ensures
            raw_event_written(old(self)@, final(self)@, xml_rs_event_view(event)),
            result == final(self)@.emitter_outcomes.last(),
    {
        if !self.updater.installed() {
            return self.emitter.emit_raw(event);
        }
        self.write_split_event(xml_rs_take_start_element(event))
    }

    /// Writes an xml-rs event that has been told apart: the parts of a start
    /// element (`Ok`), or any other event (`Err`), which is passed through. A
    /// start element is offered to the updater, when one is set, as the element
    /// that holds those parts.
    pub fn write_split_event<'a>(
        &mut self,
        split: Result<(OwnedName, Vec<OwnedAttribute>, Namespace), XmlEvent<'a>>,
    ) -> (result: Result<(), EmitterError>)
        ensures
            split matches Err(other) ==> handed_on(old(self)@, final(self)@,
                xml_rs_event_view(other),
            ),
            split matches Ok((name, attributes, namespace)) ==> raw_event_written(
                old(self)@,
                final(self)@,
                (HandedEvent::StartElement {
                    name,
                    attributes: attributes@,
                    namespace: xml_rs_namespace_mappings(namespace),
                }),
            ),
            result == final(self)@.emitter_outcomes.last(),
    {
        match split {
            Ok((name, attributes, namespace)) => {
                let name = XmlName::from_xml_rs(&name);
                let mut converted: Vec<XmlAttribute> = Vec::new();
                let n = attributes.len();
                let mut i: usize = 0;
                while i < n
                    invariant
                        n == attributes@.len(),
                        i <= n,
                        converted@.len() == i,
                        forall|j: int|
                            0 <= j < i ==> xml_rs_attribute(#[trigger] converted@[j]@)
                                == attributes@[j],
                    decreases n - i,
                {
                    converted.push(XmlAttribute::from_xml_rs(&attributes[i]));
                    i = i + 1;
                }
                let namespace = XmlNamespace::from_xml_rs(&namespace);
                let event = XmlStartElement::new(name, converted, namespace);
                proof {
                    assert(event@.attributes.map_values(|a: AttributeView| xml_rs_attribute(a))
                        =~= attributes@);
                }
                self.write_updated_start_element(event)
            },
            Err(event) => self.emitter.emit_raw(event),
        }
    }

    /// Writes one event of the library.
    pub fn write_event(&mut self, event: XmlWriteEvent<'_>) -> (result: Result<(), String>)
        ensures
            write_event_written(old(self)@, final(self)@, event),
            result matches Err(m) ==> is_emitter_message(m@),
            result is Ok <==> final(self)@.emitter_outcomes.last() is Ok,
    {
        match event {
            XmlWriteEvent::StartElement { name, attributes, namespace } => {
                self.write_start_element(text_of(&name), attributes, namespace)
            },
            XmlWriteEvent::EndElement => self.write_end_element(),
            XmlWriteEvent::Characters(text) => self.write_characters(text_of(&text)),
            XmlWriteEvent::CData(text) => self.write_cdata(text_of(&text)),
        }
    }

    /// Writes a start element named `name` (possibly `prefix:local`) with the
    /// given attributes and namespace declarations.
    pub fn write_start_element(
        &mut self,
        name: &str,
        attributes: Vec<XmlAttribute>,
        namespace: XmlNamespace,
    ) -> (result: Result<(), String>)
        ensures
            start_element_written(
                old(self)@,
                final(self)@,
                name@,
                attribute_views(attributes@),
                namespace@,
            ),
            result matches Err(m) ==> is_emitter_message(m@),
            result is Ok <==> final(self)@.emitter_outcomes.last() is Ok,
    {
        if !self.updater.installed() {
            return emitter_result(
                self.write_start_element_unmodified(name.to_owned(), attributes, namespace),
            );
        }
        emitter_result(
            self.write_updated_start_element(
                Self::start_element_from_name(name.to_owned(), attributes, namespace),
            ),
        )
    }

    /// The start element named `name`: `prefix:local` is split at its first
    /// `:`, and the name gets the URI that `namespace` binds to its prefix.
    fn start_element_from_name(
        name: String,
        attributes: Vec<XmlAttribute>,
        namespace: XmlNamespace,
    ) -> (event: XmlStartElement)
        ensures
            is_named_start_element(event@, name@, attribute_views(attributes@), namespace@),
    {
        let name = match split_at_first_colon(name.as_str()) {
            Some((prefix, local_name)) => {
                let uri = namespace.get(prefix.as_str());
                let uri = match uri {
                    Some(u) => Some(u.to_owned()),
                    None => None,
                };
                XmlName { local_name, namespace: uri, prefix: Some(prefix) }
            },
            None => {
                let uri = namespace.get("");
                proof {
                    reveal_strlit("");
                    assert(""@ =~= Seq::<char>::empty());
                }
                let uri = match uri {
                    Some(u) => Some(u.to_owned()),
                    None => None,
                };
                XmlName { local_name: name, namespace: uri, prefix: None }
            },
        };
        XmlStartElement::new(name, attributes, namespace)
    }

    /// Runs the updater on `event`, when one is set, and hands the element it
    /// left (or `event` itself) to the emitter.
    fn write_updated_start_element(&mut self, event: XmlStartElement) -> (result: Result<
        (),
        EmitterError,
    >)
        ensures
            old(self)@.has_start_element_updater ==> updated_and_handed(
                old(self)@,
                final(self)@,
                event@,
            ),
            !old(self)@.has_start_element_updater ==> handed_on(old(self)@, final(self)@,
                handed_start(event@),
            ),
            result == final(self)@.emitter_outcomes.last(),
    {
        let mut event = event;
        if self.updater.installed() {
            self.updater.run(&mut event);
        }
        self.write_start_element_owned(event)
    }

    /// Writes `name` as given, as a local name.
    fn write_start_element_unmodified(
        &mut self,
        name: String,
        attributes: Vec<XmlAttribute>,
        namespace: XmlNamespace,
    ) -> (result: Result<(), EmitterError>)
        ensures
            handed_on(old(self)@, final(self)@,
                handed_start(direct_start_element(name@, attribute_views(attributes@), namespace@)),
            ),
            result == final(self)@.emitter_outcomes.last(),
    {
        let name = xml_rs_local_name(name);
        self.write_start_element_xml_rs(name, attributes, namespace)
    }

    fn write_start_element_owned(&mut self, event: XmlStartElement) -> (result: Result<
        (),
        EmitterError,
    >)
        ensures
            handed_on(old(self)@, final(self)@, handed_start(event@)),
            result == final(self)@.emitter_outcomes.last(),
    {
        let name = event.name.to_xml_rs();
        self.write_start_element_xml_rs(name, event.attributes, event.namespace)
    }

    /// Converts the attributes and declarations to xml-rs values and hands the
    /// start element to the emitter.
    fn write_start_element_xml_rs(
        &mut self,
        name: OwnedName,
        attributes: Vec<XmlAttribute>,
        namespace: XmlNamespace,
    ) -> (result: Result<(), EmitterError>)
        ensures
            handed_on(old(self)@, final(self)@,
                HandedEvent::StartElement {
                    name,
                    attributes: attribute_views(attributes@).map_values(
                        |a: AttributeView| xml_rs_attribute(a),
                    ),
                    namespace: namespace@,
                },
            ),
            result == final(self)@.emitter_outcomes.last(),
    {
        let mut xml_attributes: Vec<OwnedAttribute> = Vec::new();
        let n = attributes.len();
        let mut i: usize = 0;
        while i < n
            invariant
                n == attributes@.len(),
                i <= n,
                xml_attributes@.len() == i,
                forall|j: int|
                    0 <= j < i ==> #[trigger] xml_attributes@[j] == xml_rs_attribute(
                        attributes@[j]@,
                    ),
            decreases n - i,
        {
            xml_attributes.push(attributes[i].to_xml_rs());
            i = i + 1;
        }
        proof {
            assert(xml_attributes@ =~= attribute_views(attributes@).map_values(
                |a: AttributeView| xml_rs_attribute(a),
            ));
        }
        self.emitter.emit_start_element(&name, &xml_attributes, namespace.to_xml_rs())
    }

    /// Ends the innermost open element.
    pub fn write_end_element(&mut self) -> (result: Result<(), String>)
        ensures
            handed_on(old(self)@, final(self)@, (HandedEvent::EndElement { name: None })),
            result matches Err(m) ==> is_emitter_message(m@),
            result is Ok <==> final(self)@.emitter_outcomes.last() is Ok,
    {
        emitter_result(self.emitter.emit_end_element())
    }

    /// Writes `text` as character data.
    pub fn write_characters(&mut self, text: &str) -> (result: Result<(), String>)
        ensures
            handed_on(old(self)@, final(self)@, HandedEvent::Characters(text@)),
            result matches Err(m) ==> is_emitter_message(m@),
            result is Ok <==> final(self)@.emitter_outcomes.last() is Ok,
    {
        emitter_result(self.emitter.emit_characters(text))
    }

    /// Writes `text` as a CDATA section.
    pub fn write_cdata(&mut self, text: &str) -> (result: Result<(), String>)
        ensures
            handed_on(old(self)@, final(self)@, HandedEvent::CData(text@)),
            result matches Err(m) ==> is_emitter_message(m@),
            result is Ok <==> final(self)@.emitter_outcomes.last() is Ok,
    {
        emitter_result(self.emitter.emit_cdata(text))
    }
}

// ---------------------------------------------------------------------------
// Entry points
// ---------------------------------------------------------------------------

/// Serializes `model` into `writer`, formatted as `config` says, and gives the
/// writer back; fails with the message of the first error. The model is
/// handed a fresh serializer whose emitter is configured from `config`, once,
/// and its outcome is handed on: success gives the writer back, an error comes
/// back as the model reported it.
pub fn serialize_with_writer<W: Write, T: YaSerialize>(
    model: &T,
    writer: W,
    config: &Config,
) -> (result: Result<W, String>)
    ensures
        exists|after: SerializerView, outcome: Result<(), Seq<char>>|
            {
                &&& #[trigger] model.serialized(
                    fresh_view(Some(xml_rs_emitter_config(config_settings(*config)))),
                    after,
                    outcome,
                )
                &&& outcome_passed_on(outcome, result)
            },
{
    let mut serializer = Serializer::new_from_writer(writer, config);
    let outcome = YaSerialize::serialize(model, &mut serializer);
    let result = serializer.into_result(outcome);
    proof {
        assert(outcome_passed_on(outcome_text(outcome), result));
    }
    result
}

/// Serializes the content of `model` (without its own start and end element
/// and without a document declaration) into `writer`: the model is handed,
/// once, a fresh inner serializer with `skip_start_end` set, and its outcome
/// is handed on as by `serialize_with_writer`.
pub fn serialize_with_writer_content<W: Write, T: YaSerialize>(model: &T, writer: W) -> (result:
    Result<W, String>)
    ensures
        exists|after: SerializerView, outcome: Result<(), Seq<char>>|
            {
                &&& #[trigger] model.serialized(
                    content_view(),
                    after,
                    outcome,
                )
                &&& outcome_passed_on(outcome, result)
            },
{
    let mut serializer = Serializer::new_for_inner(writer);
    serializer.set_skip_start_end(true);
    let outcome = YaSerialize::serialize(model, &mut serializer);
    let result = serializer.into_result(outcome);
    proof {
        assert(outcome_passed_on(outcome_text(outcome), result));
    }
    result
}

} // verus!
