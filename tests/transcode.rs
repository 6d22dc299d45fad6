use jsonl_to_json::lines::split_lines;
use jsonl_to_json::transcoder::{process, TranscodeError, Transcoder};
use serde_json::Value;

#[test]
fn test_process() {
    let input = r#"{"foo": "bar"}
{"foo": "baz"}"#;

    let mut output = Vec::new();
    process(input.as_bytes(), &mut output, false).unwrap();

    let expected_output = b"[{\"foo\":\"bar\"},{\"foo\":\"baz\"}]";
    assert_eq!(output, expected_output);
}

#[test]
fn test_process_pretty() {
    let input = r#"{"foo": "bar"}
{"foo": "baz"}"#;

    let mut output = Vec::new();
    process(input.as_bytes(), &mut output, true).unwrap();

    let expected_output = b"[\n{\n  \"foo\": \"bar\"\n},\n{\n  \"foo\": \"baz\"\n}\n]";

    assert_eq!(output, expected_output,);
}

#[test]
fn test_invalid_json() {
    let input = r#"{"foo": "bar"}{"foo": "baz"#;

    let mut output = Vec::new();
    let result = process(input.as_bytes(), &mut output, false);

    assert!(result.is_err(), "Process should error on invalid JSON");
}

#[test]
fn test_empty_input() {
    let input = "";

    let mut output = Vec::new();
    let result = process(input.as_bytes(), &mut output, false);

    assert!(
        result.is_ok(),
        "Process should handle empty input without error"
    );
    assert_eq!(
        output, b"[]",
        "Output should be an empty JSON array for empty input"
    );
}

#[test]
fn empty_input_pretty_has_no_blank_line() {
    let mut output = Vec::new();
    process(b"", &mut output, true).unwrap();
    assert_eq!(output, b"[\n]");
}

#[test]
fn output_is_appended() {
    let mut output = b"> ".to_vec();
    process(b"1", &mut output, false).unwrap();
    assert_eq!(output, b"> [1]");
}

#[test]
fn single_line_pretty() {
    let mut output = Vec::new();
    process(b"{\"a\": [1, 2]}", &mut output, true).unwrap();
    assert_eq!(output, b"[\n{\n  \"a\": [\n    1,\n    2\n  ]\n}\n]");
}

#[test]
fn scalars_compact() {
    let mut output = Vec::new();
    process(b"1\n\"x\"\ntrue\nnull\n[ 1 , 2 ]", &mut output, false).unwrap();
    assert_eq!(output, b"[1,\"x\",true,null,[1,2]]");
}

#[test]
fn trailing_newline_adds_no_line() {
    let mut output = Vec::new();
    process(b"{\"a\":1}\n", &mut output, false).unwrap();
    assert_eq!(output, b"[{\"a\":1}]");
}

#[test]
fn crlf_line_breaks() {
    let mut output = Vec::new();
    process(b"1\r\n2\r\n", &mut output, false).unwrap();
    assert_eq!(output, b"[1,2]");
}

#[test]
fn blank_line_fails() {
    let mut output = Vec::new();
    let result = process(b"1\n\n2", &mut output, false);
    assert_eq!(result, Err(TranscodeError::InvalidJson));
}

#[test]
fn failure_leaves_partial_array() {
    let mut output = Vec::new();
    let result = process(b"{\"a\": 1}\nnope\n3", &mut output, false);
    assert_eq!(result, Err(TranscodeError::InvalidJson));
    assert_eq!(output, b"[{\"a\":1}");
}

#[test]
fn failure_on_first_line_pretty() {
    let mut output = Vec::new();
    let result = process(b"{", &mut output, true);
    assert_eq!(result, Err(TranscodeError::InvalidJson));
    assert_eq!(output, b"[\n");
}

#[test]
fn split_lines_cases() {
    assert_eq!(split_lines(b""), Vec::<Vec<u8>>::new());
    assert_eq!(split_lines(b"\n"), vec![b"".to_vec()]);
    assert_eq!(split_lines(b"a\r\nb\n"), vec![b"a".to_vec(), b"b".to_vec()]);
    assert_eq!(
        split_lines(b"a\n\nb"),
        vec![b"a".to_vec(), b"".to_vec(), b"b".to_vec()]
    );
    assert_eq!(split_lines(b"a\r"), vec![b"a\r".to_vec()]);
}

#[test]
fn one_element_per_line_round_trip() {
    let lines = [
        "{\"n\": 12345678901234567890, \"f\": -1.5e-7, \"i\": -3}",
        "\"tab\\t quote\\\" slash\\\\ \\u00e9 \\ud83d\\ude00\"",
        "{\"nested\": {\"list\": [true, false, null, [], {}]}}",
        "[0, 0.1, 1e300]",
    ];
    for pretty in [false, true] {
        let input = lines.join("\n");
        let mut output = Vec::new();
        process(input.as_bytes(), &mut output, pretty).unwrap();
        let parsed: Value = serde_json::from_slice(&output).unwrap();
        let items = parsed.as_array().unwrap();
        assert_eq!(items.len(), lines.len());
        for (item, line) in items.iter().zip(lines.iter()) {
            let expected: Value = serde_json::from_str(line).unwrap();
            assert_eq!(item, &expected);
        }
    }
}

#[test]
fn order_follows_input() {
    let mut forward = Vec::new();
    process(b"1\n2\n3", &mut forward, false).unwrap();
    assert_eq!(forward, b"[1,2,3]");
    let mut backward = Vec::new();
    process(b"3\n1\n2", &mut backward, false).unwrap();
    assert_eq!(backward, b"[3,1,2]");
}

#[test]
fn streaming_pieces() {
    let mut t = Transcoder::new(true);
    assert_eq!(t.begin(), b"[\n");
    assert_eq!(t.push_line(b"{\"k\": 1}").unwrap(), b"{\n  \"k\": 1\n}");
    assert_eq!(t.push_line(b"2").unwrap(), b",\n2");
    assert_eq!(t.push_line(b"x"), Err(TranscodeError::InvalidJson));
    assert_eq!(t.finish(), b"\n]");

    let mut c = Transcoder::new(false);
    assert_eq!(c.begin(), b"[");
    assert_eq!(c.finish(), b"]");
    assert_eq!(c.push_line(b" [1, {\"a\" : 2}] ").unwrap(), b"[1,{\"a\":2}]");
    assert_eq!(c.push_line(b"3").unwrap(), b",3");
    assert_eq!(c.finish(), b"]");
}
