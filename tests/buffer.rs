use horrorshow::{should_escape, ByteSink, Error, Template, TemplateBuffer, TemplateSink, TextSink};

type StrBuffer = TemplateBuffer<String, Vec<u8>>;

/// A byte sink whose n-th write (counting from 1) fails.
struct FailingBytes {
    data: Vec<u8>,
    writes: usize,
    fail_on: usize,
}

impl ByteSink for FailingBytes {
    fn write_all(&mut self, buf: &[u8]) -> Result<(), std::io::Error> {
        self.writes += 1;
        if self.writes == self.fail_on {
            Err(std::io::Error::new(std::io::ErrorKind::BrokenPipe, "sink closed"))
        } else {
            self.data.extend_from_slice(buf);
            Ok(())
        }
    }
}

/// A text sink whose n-th write (counting from 1) fails.
struct FailingText {
    data: String,
    writes: usize,
    fail_on: usize,
}

impl TextSink for FailingText {
    fn write_str(&mut self, s: &str) -> Result<(), ()> {
        self.writes += 1;
        if self.writes == self.fail_on {
            Err(())
        } else {
            self.data.push_str(s);
            Ok(())
        }
    }
}

fn failing_bytes(fail_on: usize) -> FailingBytes {
    FailingBytes { data: Vec::new(), writes: 0, fail_on }
}

fn failing_text(fail_on: usize) -> FailingText {
    FailingText { data: String::new(), writes: 0, fail_on }
}

fn escaped(text: &str) -> String {
    let mut b = StrBuffer::from_string(String::new());
    b.write_str(text);
    b.into_string().unwrap()
}

fn bytes_of(sink: TemplateSink<FailingText, FailingBytes>) -> Vec<u8> {
    match sink {
        TemplateSink::Io(w) => w.data,
        TemplateSink::Fmt(w) => w.data.into_bytes(),
        TemplateSink::Str(s) => s.into_bytes(),
    }
}

#[test]
fn paragraph_with_escaped_ampersand() {
    let mut b = StrBuffer::from_string(String::new());
    b.write_raw("<p>");
    b.write_str("a&b");
    b.write_raw("</p>");
    assert_eq!(b.into_string().unwrap(), "<p>a&amp;b</p>");
}

#[test]
fn quotes_and_tags_are_escaped() {
    assert_eq!(escaped("\"quoted\" <tag>"), "&quot;quoted&quot; &lt;tag&gt;");
}

#[test]
fn recorded_error_stops_later_writes() {
    let mut b = StrBuffer::from_string(String::new());
    b.record_error("boom");
    b.write_raw("ignored");
    let (sink, result) = b.finish();
    let err: Error = result.unwrap_err();
    assert_eq!(err.render.as_deref(), Some("boom"));
    assert!(err.write.is_none());
    match sink {
        TemplateSink::Str(s) => assert!(!s.contains("ignored")),
        _ => panic!("sink kind changed"),
    }
}

#[test]
fn byte_sink_failing_on_second_write() {
    let mut b = TemplateBuffer::<String, FailingBytes>::from_bytes(failing_bytes(2));
    b.write_raw("first");
    assert!(!b.has_failed());
    b.write_raw("second");
    assert!(b.has_failed());
    b.write_raw("third");
    let (sink, result) = b.finish();
    let err = result.unwrap_err();
    let w = err.write.expect("write error latched");
    assert_eq!(w.kind(), std::io::ErrorKind::BrokenPipe);
    assert!(err.render.is_none());
    match sink {
        TemplateSink::Io(w) => {
            assert_eq!(w.data, b"first".to_vec());
            assert_eq!(w.writes, 2);
        }
        _ => panic!("sink kind changed"),
    }
}

#[test]
fn empty_render_on_every_sink() {
    let b = StrBuffer::from_string(String::new());
    assert_eq!(b.into_string().unwrap(), "");
    let b = TemplateBuffer::<FailingText, FailingBytes>::from_text(failing_text(1));
    let (sink, result) = b.finish();
    assert!(result.is_ok());
    assert!(bytes_of(sink).is_empty());
    let b = TemplateBuffer::<FailingText, FailingBytes>::from_bytes(failing_bytes(1));
    let (sink, result) = b.finish();
    assert!(result.is_ok());
    assert!(bytes_of(sink).is_empty());
}

#[test]
fn each_special_byte_becomes_its_entity() {
    assert_eq!(escaped("&"), "&amp;");
    assert_eq!(escaped("\""), "&quot;");
    assert_eq!(escaped("<"), "&lt;");
    assert_eq!(escaped(">"), "&gt;");
    assert_eq!(escaped("'"), "'");
    let plain: String = (0x20u8..0x7f)
        .filter(|b| !b"&\"<>".contains(b))
        .map(|b| b as char)
        .collect();
    assert_eq!(escaped(&plain), plain);
}

#[test]
fn non_ascii_text_passes_through() {
    assert_eq!(escaped("héllo <wörld> ✓&"), "héllo &lt;wörld&gt; ✓&amp;");
    assert_eq!(escaped(""), "");
}

#[test]
fn escaped_output_has_no_raw_specials() {
    let out = escaped("<<&&\"\">>x&amp;");
    assert_eq!(out, "&lt;&lt;&amp;&amp;&quot;&quot;&gt;&gt;x&amp;amp;");
    assert!(!out.contains('<') && !out.contains('>') && !out.contains('"'));
}

#[test]
fn bit_trick_matches_the_four_bytes() {
    for b in 0u8..=255 {
        let expected = b == 0x26 || b == 0x22 || b == 0x3C || b == 0x3E;
        assert_eq!(should_escape(b), expected, "byte {b:#x}");
    }
}

#[test]
fn writes_after_failure_change_nothing() {
    let mut b = StrBuffer::from_string(String::new());
    b.write_raw("kept");
    b.record_error("stop");
    for _ in 0..5 {
        b.write_raw("x");
        b.write_str("<y>");
    }
    let (sink, _) = b.finish();
    match sink {
        TemplateSink::Str(s) => assert_eq!(s, "kept"),
        _ => panic!("sink kind changed"),
    }
}

#[test]
fn first_write_error_is_kept() {
    let mut b = TemplateBuffer::<String, FailingBytes>::from_bytes(failing_bytes(1));
    b.write_raw("a");
    b.write_raw("b");
    let (sink, result) = b.finish();
    assert_eq!(result.unwrap_err().write.unwrap().kind(), std::io::ErrorKind::BrokenPipe);
    match sink {
        TemplateSink::Io(w) => assert_eq!(w.writes, 1),
        _ => panic!("sink kind changed"),
    }
}

#[test]
fn first_recorded_error_is_kept() {
    let mut b = StrBuffer::from_string(String::new());
    b.record_error("first");
    b.record_error("second");
    let err = b.into_result().unwrap_err();
    assert_eq!(err.render.as_deref(), Some("first"));
}

#[test]
fn raw_writes_concatenate_in_order() {
    let mut b = StrBuffer::from_string(String::from("<"));
    for frag in ["a", "bc", "", "d e", "é"] {
        b.write_raw(frag);
    }
    assert_eq!(b.into_string().unwrap(), "<abcd eé");
}

#[test]
fn text_sink_failure_latches_format_error() {
    let mut b = TemplateBuffer::<FailingText, FailingBytes>::from_text(failing_text(2));
    b.write_str("a<b");
    let (sink, result) = b.finish();
    let err = result.unwrap_err();
    assert_eq!(err.write.unwrap().kind(), std::io::ErrorKind::Other);
    assert_eq!(bytes_of(sink), b"a".to_vec());
}

#[test]
fn escaped_write_stops_at_failing_byte_write() {
    let mut b = TemplateBuffer::<FailingText, FailingBytes>::from_bytes(failing_bytes(3));
    b.write_str("x<y>z");
    b.write_raw("after");
    let (sink, result) = b.finish();
    assert!(result.unwrap_err().write.is_some());
    assert_eq!(bytes_of(sink), b"x&lt;".to_vec());
}

#[test]
fn escaping_reaches_text_and_byte_sinks() {
    let mut b = TemplateBuffer::<FailingText, FailingBytes>::from_text(failing_text(0));
    b.write_str("1 < 2 & \"3\"");
    let (sink, result) = b.finish();
    assert!(result.is_ok());
    assert_eq!(bytes_of(sink), b"1 &lt; 2 &amp; &quot;3&quot;".to_vec());
    let mut b = TemplateBuffer::<FailingText, FailingBytes>::from_bytes(failing_bytes(0));
    b.write_raw("<b>");
    b.write_str("é>");
    let (sink, result) = b.finish();
    assert!(result.is_ok());
    assert_eq!(bytes_of(sink), "<b>é&gt;".as_bytes().to_vec());
}

#[test]
fn formatted_arguments_are_escaped() {
    let mut b = StrBuffer::from_string(String::new());
    b.write_formatted(Some(&format!("{} + {} <{}>", 0, 1, "x&y")));
    assert_eq!(b.into_string().unwrap(), "0 + 1 &lt;x&amp;y&gt;");
}

#[test]
fn failed_formatting_is_a_write_error() {
    let mut b = StrBuffer::from_string(String::new());
    b.write_formatted(None);
    b.write_raw("late");
    let err = b.into_result().unwrap_err();
    assert_eq!(err.write.unwrap().kind(), std::io::ErrorKind::Other);
}

#[test]
fn formatted_text_is_escaped() {
    let mut b = StrBuffer::from_string(String::new());
    b.write_formatted(Some("<i>"));
    assert_eq!(b.into_string().unwrap(), "&lt;i&gt;");
}

struct Greeting<'a>(&'a str);

impl<'a> Template for Greeting<'a> {
    fn render_once<T: TextSink, B: ByteSink>(self, tmpl: &mut TemplateBuffer<T, B>) {
        tmpl.write_raw("<p>Hello, ");
        tmpl.write_str(self.0);
        tmpl.write_raw("</p>");
    }
}

struct Broken;

impl Template for Broken {
    fn render_once<T: TextSink, B: ByteSink>(self, tmpl: &mut TemplateBuffer<T, B>) {
        tmpl.write_raw("<p>");
        tmpl.record_error("cannot render");
        tmpl.write_raw("</p>");
    }
}

#[test]
fn template_renders_into_string() {
    assert_eq!(Greeting("<you>").into_string().unwrap(), "<p>Hello, &lt;you&gt;</p>");
    let mut s = String::from("head:");
    Greeting("a").write_to_string(&mut s).unwrap();
    assert_eq!(s, "head:<p>Hello, a</p>");
}

#[test]
fn template_reports_recorded_error() {
    let err = Broken.into_string().unwrap_err();
    assert_eq!(err.render.as_deref(), Some("cannot render"));
}

#[test]
fn template_renders_into_sinks() {
    assert!(Greeting("x").write_to_io(Vec::new()).is_ok());
    assert!(Greeting("x").write_to_fmt(String::new()).is_ok());
    let err = Greeting("x").write_to_io(failing_bytes(1)).unwrap_err();
    assert!(err.write.is_some());
}

#[test]
fn string_and_vec_are_sinks() {
    let mut s = String::from("a");
    assert!(TextSink::write_str(&mut s, "bé").is_ok());
    assert_eq!(s, "abé");
    let mut v = vec![1u8];
    assert!(v.write_all(&[2, 3]).is_ok());
    assert_eq!(v, vec![1, 2, 3]);
}

#[test]
fn template_error_keeps_earlier_output_in_string() {
    let mut s = String::from("head:");
    let err = Broken.write_to_string(&mut s).unwrap_err();
    assert_eq!(err.render.as_deref(), Some("cannot render"));
    assert!(err.write.is_none());
    assert_eq!(s, "head:<p>");
}

#[test]
fn template_into_text_sink_reports_refusal() {
    let err = Greeting("x").write_to_fmt(failing_text(2)).unwrap_err();
    assert_eq!(err.write.unwrap().kind(), std::io::ErrorKind::Other);
    assert!(err.render.is_none());
}
