use xsd_parser::error::Error;
use xsd_parser::event::{BytesStart, DeserializerArtifact, DeserializerEvent, Event};
use xsd_parser::text::{Text, TextDeserializer, TextSerializer};

fn feed(events: Vec<Event>) -> Result<DeserializerArtifact<Text, TextDeserializer>, Error> {
    let mut iter = events.into_iter();
    let first = iter.next().unwrap();
    let mut out = TextDeserializer::init(first)?;
    for e in iter {
        let d = match out.artifact {
            DeserializerArtifact::Deserializer(d) => d,
            other => return Ok(other),
        };
        out = d.next(e)?;
    }
    Ok(out.artifact)
}

#[test]
fn text_new_and_as_str() {
    let t = Text::new("abcd".to_string());
    assert_eq!(t.as_str(), "abcd");
    assert_eq!(t.to_string(), "abcd");
    assert_eq!(Text::default().as_str(), "");
}

#[test]
fn text_pieces_are_joined() {
    let a = feed(vec![
        Event::Text(b"AT".to_vec()),
        Event::GeneralRef(b"amp".to_vec()),
        Event::Text(b"T &lt;".to_vec()),
        Event::CData(b"tag>".to_vec()),
        Event::End(b"x".to_vec()),
    ])
    .unwrap();
    match a {
        DeserializerArtifact::Data(t) => assert_eq!(t.as_str(), "AT&T <tag>"),
        _ => panic!("end tag must finish the text"),
    }
}

#[test]
fn cdata_is_not_unescaped() {
    let a = feed(vec![Event::CData(b"&amp;".to_vec()), Event::End(b"x".to_vec())]).unwrap();
    match a {
        DeserializerArtifact::Data(t) => assert_eq!(t.as_str(), "&amp;"),
        _ => panic!(),
    }
}

#[test]
fn start_tag_ends_text_and_is_returned() {
    let d = TextDeserializer::init(Event::Text(b"ab".to_vec())).unwrap();
    let d = match d.artifact {
        DeserializerArtifact::Deserializer(d) => d,
        _ => panic!(),
    };
    let out = d
        .next(Event::Start(BytesStart { name: b"y".to_vec(), attributes: Vec::new() }))
        .unwrap();
    assert!(matches!(out.event, DeserializerEvent::Continue(Event::Start(_))));
    match out.artifact {
        DeserializerArtifact::Data(t) => assert_eq!(t.as_str(), "ab"),
        _ => panic!(),
    }
}

#[test]
fn tag_before_text_gives_nothing() {
    let out = TextDeserializer::init(Event::End(b"y".to_vec())).unwrap();
    assert!(matches!(out.artifact, DeserializerArtifact::Nothing));
    assert!(matches!(out.event, DeserializerEvent::Continue(Event::End(_))));
}

#[test]
fn comment_breaks_and_keeps_text() {
    let d = TextDeserializer::init(Event::Text(b"ab".to_vec())).unwrap();
    let d = match d.artifact {
        DeserializerArtifact::Deserializer(d) => d,
        _ => panic!(),
    };
    let out = d.next(Event::Comment(b"c".to_vec())).unwrap();
    assert!(matches!(out.event, DeserializerEvent::Break(Event::Comment(_))));
    match out.artifact {
        DeserializerArtifact::Deserializer(d) => match d.finish() {
            Ok(t) => assert_eq!(t.as_str(), "ab"),
            Err(_) => panic!(),
        },
        _ => panic!(),
    }
}

#[test]
fn finish_without_text_is_missing_content() {
    assert!(matches!(TextDeserializer::Init.finish(), Err(Error::MissingContent)));
}

#[test]
fn text_errors() {
    assert!(matches!(TextDeserializer::init(Event::Text(vec![0xff])), Err(Error::Encoding)));
    assert!(matches!(TextDeserializer::init(Event::CData(vec![0xff])), Err(Error::Encoding)));
    assert!(matches!(
        TextDeserializer::init(Event::GeneralRef(vec![0xff])),
        Err(Error::InvalidUtf8)
    ));
    assert!(matches!(
        TextDeserializer::init(Event::Text(b"a &x; b".to_vec())),
        Err(Error::Escape)
    ));
    assert!(matches!(
        TextDeserializer::init(Event::GeneralRef(b"nbsp".to_vec())),
        Err(Error::Escape)
    ));
}

#[test]
fn serializer_emits_escaped_text_once() {
    let t = Text::new("a<b & 'c' \"d\" > e".to_string());
    let mut s = t.serializer().unwrap();
    match s.next() {
        Some(Ok(Event::Text(b))) => {
            assert_eq!(String::from_utf8(b).unwrap(), "a&lt;b &amp; &apos;c&apos; &quot;d&quot; &gt; e")
        }
        _ => panic!("first call must emit text"),
    }
    assert!(s.next().is_none());
    assert!(matches!(s, TextSerializer::Done));
}

#[test]
fn serialized_text_reads_back() {
    let t = Text::new("x < y && y > \"z\" ; 'q'".to_string());
    let mut s = t.serializer().unwrap();
    let ev = match s.next() {
        Some(Ok(e)) => e,
        _ => panic!(),
    };
    let a = feed(vec![ev, Event::End(b"x".to_vec())]).unwrap();
    match a {
        DeserializerArtifact::Data(back) => assert_eq!(back, t),
        _ => panic!(),
    }
}

#[test]
fn text_from_string_and_deref() {
    let t = Text::from("abcd".to_string());
    assert_eq!(t.as_str(), "abcd");
    assert_eq!(t.len(), 4);
    assert!(t.starts_with("ab"));
}
