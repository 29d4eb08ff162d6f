use textsynth::buffer::ByteBuffer;
use textsynth::completions::{ResponseChunk, TextField};
use textsynth::stream::{Batch, StreamDecoder, StreamError};

fn feed_all(chunks: &[&[u8]]) -> (Vec<Vec<u8>>, Option<StreamError>) {
    let mut d = StreamDecoder::new();
    let mut out = Vec::new();
    for c in chunks {
        let Batch { values, error } = d.feed(c);
        out.extend(values);
        if error.is_some() {
            return (out, error);
        }
    }
    (out, d.finish())
}

fn to_chunk(bytes: &[u8]) -> ResponseChunk {
    let v: serde_json::Value = serde_json::from_slice(bytes).expect("valid JSON value");
    let text = match &v["text"] {
        serde_json::Value::String(s) => TextField::Single(s.clone()),
        serde_json::Value::Array(a) => {
            TextField::Many(a.iter().map(|x| x.as_str().unwrap().to_string()).collect())
        }
        other => panic!("unexpected text {:?}", other),
    };
    ResponseChunk::from_wire(
        text,
        v["reached_end"].as_bool().unwrap(),
        v.get("truncated_prompt").and_then(|x| x.as_bool()),
        v.get("input_tokens").and_then(|x| x.as_u64()).map(|x| x as u32),
        v.get("output_tokens").and_then(|x| x.as_u64()).map(|x| x as u32),
    )
}

const TWO: &[u8] = b"{\"text\":\"a\",\"reached_end\":false}\n\n{\"text\":\"b\",\"reached_end\":true}";

#[test]
fn two_values_split_anywhere() {
    for k in 0..=TWO.len() {
        let (values, err) = feed_all(&[&TWO[..k], &TWO[k..]]);
        assert!(err.is_none(), "split at {}", k);
        assert_eq!(values.len(), 2, "split at {}", k);
        let a = to_chunk(&values[0]);
        let b = to_chunk(&values[1]);
        assert_eq!(a.text, vec!["a".to_string()]);
        assert!(!a.reached_end);
        assert_eq!(b.text, vec!["b".to_string()]);
        assert!(b.reached_end);
    }
}

#[test]
fn framing_many_values_with_whitespace() {
    let input = b" \t{\"text\":\"x\",\"reached_end\":false}{\"text\":[\"y\",\"z\"],\"reached_end\":false}\r\n\x0c {\"text\":\"w\",\"reached_end\":true,\"input_tokens\":3,\"output_tokens\":4}\n\n";
    let (values, err) = feed_all(&[input]);
    assert!(err.is_none());
    assert_eq!(values.len(), 3);
    assert_eq!(values[0], b"{\"text\":\"x\",\"reached_end\":false}".to_vec());
    assert_eq!(values[1], b"{\"text\":[\"y\",\"z\"],\"reached_end\":false}".to_vec());
    let last = to_chunk(&values[2]);
    assert_eq!(last.input_tokens, Some(3));
    assert_eq!(last.output_tokens, Some(4));
    assert_eq!(last.truncated_prompt, None);
    assert_eq!(to_chunk(&values[1]).text, vec!["y".to_string(), "z".to_string()]);
}

#[test]
fn byte_by_byte_equals_one_chunk() {
    let whole = feed_all(&[TWO]).0;
    let pieces: Vec<&[u8]> = TWO.chunks(1).collect();
    let (values, err) = feed_all(&pieces);
    assert!(err.is_none());
    assert_eq!(values, whole);
    for size in 2..7 {
        let pieces: Vec<&[u8]> = TWO.chunks(size).collect();
        assert_eq!(feed_all(&pieces).0, whole);
    }
}

#[test]
fn incomplete_then_complete() {
    let v = b"{\"text\":\"hello\",\"reached_end\":true}";
    let mut d = StreamDecoder::new();
    let first = d.feed(&v[..10]);
    assert!(first.values.is_empty());
    assert!(first.error.is_none());
    let second = d.feed(&v[10..]);
    assert_eq!(second.values, vec![v.to_vec()]);
    assert!(second.error.is_none());
    assert!(d.finish().is_none());
}

#[test]
fn dangling_tail_is_one_error() {
    let mut d = StreamDecoder::new();
    let b = d.feed(b"{\"text\":\"a\",\"reached_end\":false}  {\"text\":");
    assert_eq!(b.values.len(), 1);
    assert!(b.error.is_none());
    match d.finish() {
        Some(StreamError::DanglingData(rest)) => assert_eq!(rest, b"{\"text\":".to_vec()),
        other => panic!("unexpected {:?}", other),
    }
    assert!(d.is_done());
    assert!(d.finish().is_none());
}

#[test]
fn clean_end_on_whitespace_or_nothing() {
    let mut d = StreamDecoder::new();
    assert!(d.finish().is_none());
    let mut d = StreamDecoder::new();
    let b = d.feed(b"  \n\r\t");
    assert!(b.values.is_empty() && b.error.is_none());
    assert!(d.finish().is_none());
    let mut d = StreamDecoder::new();
    let b = d.feed(b"{\"text\":\"a\",\"reached_end\":true}\n\n");
    assert_eq!(b.values.len(), 1);
    assert!(d.finish().is_none());
}

#[test]
fn malformed_bytes_end_the_stream() {
    let mut d = StreamDecoder::new();
    let b = d.feed(b"{\"text\":\"a\",\"reached_end\":false}\n}{\"text\"");
    assert_eq!(b.values.len(), 1);
    match b.error {
        Some(StreamError::Malformed(rest)) => assert_eq!(rest, b"}{\"text\"".to_vec()),
        other => panic!("unexpected {:?}", other),
    }
    assert!(d.is_done());
    let after = d.feed(b"{\"text\":\"b\",\"reached_end\":true}");
    assert!(after.values.is_empty() && after.error.is_none());
    assert!(d.finish().is_none());
}

#[test]
fn scalar_and_array_text_agree() {
    let a = ResponseChunk::from_wire(TextField::Single("abc".to_string()), true, Some(false), Some(1), Some(2));
    let b = ResponseChunk::from_wire(TextField::Many(vec!["abc".to_string()]), true, Some(false), Some(1), Some(2));
    assert_eq!(a.text, vec!["abc".to_string()]);
    assert_eq!(a.text, b.text);
    assert_eq!(a.reached_end, b.reached_end);
    assert_eq!(a.truncated_prompt, b.truncated_prompt);
    assert_eq!(a.input_tokens, b.input_tokens);
    assert_eq!(a.output_tokens, b.output_tokens);
    let x = to_chunk(b"{\"text\":\"abc\",\"reached_end\":true}");
    let y = to_chunk(b"{\"text\":[\"abc\"],\"reached_end\":true}");
    assert_eq!(x.text, y.text);
}

#[test]
fn byte_buffer_operations() {
    let mut b = ByteBuffer::new();
    assert!(b.is_empty() && b.is_blank());
    b.append(b"  \tab c");
    assert_eq!(b.len(), 7);
    assert_eq!(b.leading_ws_len(), 3);
    assert!(!b.is_blank());
    b.trim_start();
    assert_eq!(b.peek_all(), b"ab c");
    b.advance(2);
    assert_eq!(b.to_vec(), b" c".to_vec());
    b.advance(2);
    assert!(b.is_empty());
    b.append(b"\x0c\n");
    assert!(b.is_blank());
    b.clear();
    assert_eq!(b.len(), 0);
}

#[test]
fn blank_final_chunk_is_a_clean_end() {
    let v = b"{\"text\":\"a\",\"reached_end\":true}";
    let (values, err) = feed_all(&[v, b"\n\n"]);
    assert!(err.is_none());
    assert_eq!(values, vec![v.to_vec()]);
}
