# yaserde (verified serializer core)

Serialization of data structures into XML through the xml-rs emitter, with a
per-serializer hook that may rewrite every start element before it is written,
verified with Verus.

Layout:

- `src/markup.rs`: names, attributes, namespace declarations and start elements,
  the namespace helpers (`update_namespace`, `set_namespace`, `set_attribute`)
  with their contracts, and the laws that they keep expanded names in sync.
- `src/emitter.rs`: the xml-rs `EventWriter` and its configuration. The record
  of the events handed to the writer, and of the configuration it was made
  with, is kept by the methods that make those calls.
- `src/updater.rs`: the slot that holds the user's start-element updater; the
  record of its runs (element offered, element left) is kept by the method that
  calls it.
- `src/ser.rs`: the `Serializer`. Each writing method states, over those two
  records, which event it hands to the emitter, when the updater runs, and
  that its result is what the emitter answered. A raw xml-rs event is recorded
  as what it holds; `write` states which event that is wherever the `Into`
  conversion of its argument has a specification. The entry points state that
  the model is handed a fresh serializer built from the configuration, and
  that its outcome is handed on, over the `serialized` hook of `YaSerialize`.
- `src/de.rs`: reading events back with the xml-rs pull parser (each event
  stated as the conversion of what the parser gave), the text content of an
  element, and `from_reader_with_parser` over the `deserialized` hook of
  `YaDeserialize`.
- `app/lib.rs`: the `to_string` front ends, which serialize into a memory buffer
  and decode it as UTF-8.
- `tests/`: scenarios run against the real xml-rs crate.
