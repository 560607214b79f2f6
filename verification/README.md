# xsd_parser

The runtime of XML deserializers generated from XML schemas, and the
decisions of the renderer that plans them, written in Verus.

`src/` is the verified library:

- `event`, `error`: the XML event model, the answers of deserializers, errors.
- `deserializer`: the `Deserializer` and `WithDeserializer` traits.
- `deserialize_bytes`: values from the raw bytes of attributes and content
  (booleans, strings, integers).
- `content`, `text`: the content deserializer of simple values and the text
  (de)serializer.
- `reader`: helpers of generated code (attribute reading, tag names, the
  dynamic type name of an element).
- `helper`: the decisions of the deserialization loop (skipping unknown
  elements, handing events to the deserializer).
- `lists`: lists of simple values separated by spaces, `|`, `,` or `;`.
- `handlers`, `rounds`, `attributes`, `dynamic`: what the code that the
  renderer emits does with children of choices, sequences and complex
  content, how its `next` loops decide each round, what it does with the
  attributes of a start tag, and how it picks the deserializer of a dynamic
  type.
- `render`, `allows_any`: the renderer's plans of state types, handlers and
  attribute loops, and whether an element admits any child element.
- `escape`, `bytes`: UTF-8 and XML escaping (through `quick_xml`), and byte
  helpers.

`app/` reads and writes XML with `quick_xml`, runs the deserialization loop
over a reader, parses floating point values, and carries the serde derives of
`Text`.
