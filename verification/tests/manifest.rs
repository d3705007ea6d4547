use phrtf_distance_proximity::manifest::rewrite_manifest;

const PLUGIN_JSON: &str = "{\n  \"name\": \"Parametric HRTF\",\n  \"artifact\": \"../../target/wasm32-unknown-unknown/release/phrtf_webclap.wasm\",\n  \"format\": \"wasm\",\n  \"ui\": \"ui/index.html\"\n}\n";

#[test]
fn artifact_and_format_point_at_the_archive() {
    let out = rewrite_manifest(PLUGIN_JSON, "parametric-hrtf.wclap.tar.gz");
    assert_eq!(
        out,
        "{\n  \"name\": \"Parametric HRTF\",\n  \"artifact\": \"parametric-hrtf.wclap.tar.gz\",\n  \"format\": \"tar.gz\",\n  \"ui\": \"ui/index.html\"\n}\n"
    );
}

#[test]
fn missing_final_newline_is_added() {
    let out = rewrite_manifest("{\n\"format\": 1\n}", "a.tar.gz");
    assert_eq!(out, "{\n  \"format\": \"tar.gz\",\n}\n");
}

#[test]
fn empty_manifest_becomes_a_single_newline() {
    assert_eq!(rewrite_manifest("", "x"), "\n");
    assert_eq!(rewrite_manifest("\n", "x"), "\n");
}

#[test]
fn crlf_line_endings_become_lf() {
    let out = rewrite_manifest("a\r\n\"artifact\": 0\r\nb\r\n", "n.tar.gz");
    assert_eq!(out, "a\n  \"artifact\": \"n.tar.gz\",\nb\n");
}

#[test]
fn lone_carriage_return_at_the_end_is_kept() {
    assert_eq!(rewrite_manifest("a\nb\r", "x"), "a\nb\r\n");
    assert_eq!(rewrite_manifest("a\rb\n", "x"), "a\rb\n");
}

#[test]
fn leading_white_space_is_skipped_when_matching_a_key() {
    let out = rewrite_manifest("\t \u{3000}\"artifact\" : 1\n", "z.tar.gz");
    assert_eq!(out, "  \"artifact\": \"z.tar.gz\",\n");
}

#[test]
fn keys_elsewhere_in_a_line_do_not_match() {
    let input = "x \"artifact\": 1\n\"artifacts\": 2\nartifact\n\"formats\"\n";
    let out = rewrite_manifest(input, "z");
    // "\"artifacts\"" starts with the characters of "\"artifact" but not of the
    // quoted key; "\"formats\"" likewise.
    assert_eq!(out, input);
}

#[test]
fn artifact_key_wins_over_format_key() {
    let out = rewrite_manifest("  \"artifact\": \"format\"\n", "q");
    assert_eq!(out, "  \"artifact\": \"q\",\n");
}

#[test]
fn rewriting_twice_is_rewriting_once() {
    let once = rewrite_manifest(PLUGIN_JSON, "b.tar.gz");
    let twice = rewrite_manifest(&once, "b.tar.gz");
    assert_eq!(once, twice);
    let crlf = rewrite_manifest("\"format\": 1\r\nz\r\n", "b");
    assert_eq!(rewrite_manifest(&crlf, "b"), crlf);
}

#[test]
fn non_ascii_text_is_kept() {
    let input = "\"名前\": \"パラメトリック\"\n";
    assert_eq!(rewrite_manifest(input, "x"), input);
}
