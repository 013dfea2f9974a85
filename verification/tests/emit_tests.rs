use sinkfmt::emit::{emit, emit_line, print};
use sinkfmt::sink::{BoundedSink, ByteSink, DebugWriter, RegisterSink, SinkError};
use sinkfmt::template::template_directives;

#[test]
fn well_formed_templates_are_counted() {
    assert_eq!(template_directives(b""), Some(0));
    assert_eq!(template_directives(b"Hello Rust!"), Some(0));
    assert_eq!(template_directives(b"Hello {}"), Some(1));
    assert_eq!(template_directives(b"{} and {}"), Some(2));
    assert_eq!(template_directives(b"{{}}"), Some(0));
    assert_eq!(template_directives(b"{{{}}}"), Some(1));
}

#[test]
fn malformed_templates_are_refused() {
    assert_eq!(template_directives(b"{"), None);
    assert_eq!(template_directives(b"}"), None);
    assert_eq!(template_directives(b"a{b"), None);
    assert_eq!(template_directives(b"a}b"), None);
    assert_eq!(template_directives(b"{}}"), None);
}

#[test]
fn literal_template_writes_exactly_its_bytes() {
    let mut w = DebugWriter::new();
    let r = emit(&mut w, b"Hello Rust!", &[]);
    assert!(r.is_ok());
    assert_eq!(w.buffer, b"Hello Rust!".to_vec());
}

#[test]
fn one_directive_substitutes_argument() {
    let mut w = DebugWriter::new();
    let args = vec![b"Rust".to_vec()];
    let r = emit(&mut w, b"Hello {}", &args);
    assert!(r.is_ok());
    assert_eq!(w.buffer, b"Hello Rust".to_vec());
}

#[test]
fn two_directives_substitute_in_order() {
    let mut w = DebugWriter::new();
    let args = vec![b"cats".to_vec(), b"dogs".to_vec()];
    let r = emit(&mut w, b"{} and {}", &args);
    assert!(r.is_ok());
    assert_eq!(w.buffer, b"cats and dogs".to_vec());
}

#[test]
fn brace_escapes_decode_to_single_braces() {
    let mut w = DebugWriter::new();
    let r = emit(&mut w, b"{{}}", &[]);
    assert!(r.is_ok());
    assert_eq!(w.buffer, b"{}".to_vec());
}

#[test]
fn directive_between_escapes() {
    let mut w = DebugWriter::new();
    let args = vec![b"x".to_vec()];
    let r = emit(&mut w, b"{{{}}}", &args);
    assert!(r.is_ok());
    assert_eq!(w.buffer, b"{x}".to_vec());
}

#[test]
fn empty_template_writes_nothing() {
    let mut w = DebugWriter::new();
    let r = emit(&mut w, b"", &[]);
    assert!(r.is_ok());
    assert_eq!(w.buffer, Vec::<u8>::new());
}

#[test]
fn hello_rust_line() {
    let mut w = DebugWriter::new();
    let args = vec![b"Rust".to_vec()];
    let r = emit_line(&mut w, b"Hello {}", &args);
    assert!(r.is_ok());
    assert_eq!(w.buffer, b"Hello Rust\n".to_vec());
}

#[test]
fn empty_template_line_is_single_terminator() {
    let mut w = DebugWriter::new();
    let r = emit_line(&mut w, b"", &[]);
    assert!(r.is_ok());
    assert_eq!(w.buffer, b"\n".to_vec());
}

#[test]
fn emit_line_writes_one_more_byte_terminator_last() {
    let mut plain = DebugWriter::new();
    let mut line = DebugWriter::new();
    let args = vec![b"Rust".to_vec()];
    emit(&mut plain, b"Hello {}", &args).unwrap();
    emit_line(&mut line, b"Hello {}", &args).unwrap();
    assert_eq!(line.buffer.len(), plain.buffer.len() + 1);
    assert_eq!(line.buffer.last(), Some(&b'\n'));
    assert_eq!(&line.buffer[..plain.buffer.len()], &plain.buffer[..]);
}

#[test]
fn successive_emits_append_in_order() {
    let mut w = DebugWriter::new();
    emit(&mut w, b"A", &[]).unwrap();
    emit(&mut w, b"B", &[]).unwrap();
    assert_eq!(w.buffer, b"AB".to_vec());
}

#[test]
fn register_sink_stores_each_byte_in_order() {
    let mut s = RegisterSink::new(0x4000_c000);
    let r = emit(&mut s, b"AB", &[]);
    assert!(r.is_ok());
    assert_eq!(s.stores, vec![b'A', b'B']);
    assert_eq!(s.addr, 0x4000_c000);
}

#[test]
fn full_sink_reports_sink_error() {
    let mut s = BoundedSink::new(0);
    let r = emit_line(&mut s, b"x", &[]);
    assert_eq!(r, Err(SinkError));
    assert_eq!(s.accepted, Vec::<u8>::new());
}

#[test]
fn failure_keeps_exact_prefix_and_stops() {
    let mut s = BoundedSink::new(3);
    let r = emit(&mut s, b"hello", &[]);
    assert_eq!(r, Err(SinkError));
    assert_eq!(s.accepted, b"hel".to_vec());
}

#[test]
fn failure_on_terminator_keeps_whole_body() {
    let mut s = BoundedSink::new(2);
    let r = emit_line(&mut s, b"ab", &[]);
    assert_eq!(r, Err(SinkError));
    assert_eq!(s.accepted, b"ab".to_vec());
}

#[test]
fn bounded_sink_succeeds_under_capacity() {
    let mut s = BoundedSink::new(10);
    let r = emit_line(&mut s, b"ok", &[]);
    assert!(r.is_ok());
    assert_eq!(s.accepted, b"ok\n".to_vec());
}

#[test]
fn bounded_sink_write_byte_refuses_when_full() {
    let mut s = BoundedSink::new(1);
    assert!(s.write_byte(b'x').is_ok());
    assert_eq!(s.write_byte(b'y'), Err(SinkError));
    assert_eq!(s.accepted, vec![b'x']);
}

#[test]
fn print_accumulates_and_take_buffer_drains() {
    let mut w = DebugWriter::new();
    let args = vec![b"Rust".to_vec()];
    print(&mut w, b"Hello {}", &args);
    print(&mut w, b"!", &[]);
    let drained = w.take_buffer();
    assert_eq!(drained, b"Hello Rust!".to_vec());
    assert_eq!(w.buffer, Vec::<u8>::new());
}

#[test]
fn directive_at_start_and_end() {
    let mut w = DebugWriter::new();
    let args = vec![b"hi".to_vec(), b"lo".to_vec()];
    let r = emit(&mut w, b"{}!{}", &args);
    assert!(r.is_ok());
    assert_eq!(w.buffer, b"hi!lo".to_vec());
}

#[test]
fn empty_argument_substitutes_nothing() {
    let mut w = DebugWriter::new();
    let args = vec![b"".to_vec()];
    let r = emit(&mut w, b"a{}b", &args);
    assert!(r.is_ok());
    assert_eq!(w.buffer, b"ab".to_vec());
}
