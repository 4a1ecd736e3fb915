use cargo_screeps::extract::{extract, ShapeMismatch, SNIPPET_CHARS};
use cargo_screeps::synth::{arena_output, world_output, wrap_encoded, DEFAULT_PRELUDE};

const GLUE: &str = "let wasm;\n\nfunction getObject(idx) { return heap[idx]; }\n";

const BODY: &str = "const imports = {};\n    imports.wbg = {};\n    imports.wbg.__wbg_error_1 = function(arg0) {\n        console.error(getObject(arg0));\n    };\n    ";

fn generated(glue: &str, body: &str) -> String {
    let mut s = String::new();
    s.push_str(glue);
    s.push_str("\nasync function load(module, imports) {\n");
    s.push_str("    if (typeof Response === 'function' && module instanceof Response) {\n        return await WebAssembly.instantiateStreaming(module, imports);\n    }\n}\n\n");
    s.push_str("async function init(input) {\n");
    s.push_str("    if (typeof input === 'undefined') {\n        input = new URL('x_bg.wasm', import.meta.url);\n    }\n    ");
    s.push_str(body);
    s.push_str("if (typeof input === 'string' || (typeof Request === 'function' && input instanceof Request)) {\n        input = fetch(input);\n    }\n\n    const { instance, module } = await load(await input, imports);\n    wasm = instance.exports;\n    return wasm;\n}\n\n");
    s.push_str("export default init;\n");
    s
}

#[test]
fn extract_returns_glue_and_renamed_body() {
    let text = generated(GLUE, BODY);
    let parts = extract(&text).unwrap();
    assert_eq!(parts.glue, GLUE);
    assert_eq!(parts.init_body, BODY.replace("console.error", "console.log"));
    assert!(!parts.init_body.contains("console.error"));
}

#[test]
fn extract_renames_every_error_log() {
    let body = "const imports = {}; console.error(1); console.error(2); ";
    let parts = extract(&generated(GLUE, body)).unwrap();
    assert_eq!(parts.init_body, "const imports = {}; console.log(1); console.log(2); ");
}

#[test]
fn extract_rejects_repeated_marker() {
    let body = "const imports = {}; const again = 'async function init(input) {'; ";
    assert!(extract(&generated(GLUE, body)).is_err());
    let text = format!("{}export default init;\n", generated(GLUE, BODY));
    assert!(extract(&text).is_err());
}

#[test]
fn extract_tolerates_other_whitespace() {
    let text = generated(GLUE, BODY);
    let expected = extract(&text).unwrap();
    let spaced = text
        .replace("async function load(module, imports) {", "async  function\tload(module,\n    imports)  {")
        .replace("async function init(input) {", "async\nfunction init(input)\t{")
        .replace("if (typeof input === 'string'", "if  (typeof input  ===  'string'")
        .replace("export default init;", "export\n default   init;");
    assert_ne!(spaced, text);
    assert_eq!(extract(&spaced).unwrap(), expected);
}

#[test]
fn extract_tolerates_generated_names() {
    let text = generated(GLUE, BODY);
    let expected = extract(&text).unwrap();
    let renamed = text
        .replace("load(module, imports)", "load(module_1, $imports)")
        .replace("init(input)", "init(module_or_path)")
        .replace("typeof input ===", "typeof module_or_path ===");
    assert_eq!(extract(&renamed).unwrap(), expected);
}

#[test]
fn extract_rejects_other_structure() {
    let text = generated(GLUE, BODY);
    assert!(extract(&text.replace("async function load", "asyncfunction load")).is_err());
    assert!(extract(&text.replace("load(module, imports)", "load (module, imports)")).is_err());
    assert!(extract(&text.replace("init(input)", "init(input, extra)")).is_err());
}

#[test]
fn extract_rejects_missing_export() {
    let text = generated(GLUE, BODY).replace("export default init;", "export { init };");
    let err = extract(&text).unwrap_err();
    assert_eq!(err, ShapeMismatch { snippet: text.clone() });
}

#[test]
fn extract_rejects_missing_body_start() {
    let text = generated(GLUE, BODY).replace("const imports = {};", "const imports = getImports();");
    assert!(extract(&text).is_err());
}

#[test]
fn extract_rejects_empty_glue() {
    let text = generated("", BODY);
    assert!(extract(text.trim_start()).is_err());
}

#[test]
fn extract_rejects_empty_text() {
    let err = extract("").unwrap_err();
    assert_eq!(err.snippet, "");
}

#[test]
fn extract_error_snippet_is_bounded() {
    let text = "x".repeat(SNIPPET_CHARS + 500);
    let err = extract(&text).unwrap_err();
    assert_eq!(err.snippet.chars().count(), SNIPPET_CHARS);
    assert_eq!(err.snippet, "x".repeat(SNIPPET_CHARS));
}

fn embedded_literal(loader: &str) -> String {
    let start = loader.find("let wasm_b64 = '").unwrap() + "let wasm_b64 = '".len();
    let end = start + loader[start..].find("';\n").unwrap();
    loader[start..end].replace("' +\n'", "")
}

fn round_trip(len: usize) {
    let bytes: Vec<u8> = (0..len).map(|i| (i * 7 + 3) as u8).collect();
    let loader = arena_output(&generated(GLUE, BODY), &bytes).unwrap();
    let literal = embedded_literal(&loader);
    assert_eq!(literal, base64::encode(&bytes));
    assert_eq!(base64::decode(&literal).unwrap(), bytes);
}

#[test]
fn arena_round_trip_empty() {
    round_trip(0);
}

#[test]
fn arena_round_trip_one_byte() {
    round_trip(1);
}

#[test]
fn arena_round_trip_large() {
    round_trip(10_001);
}

#[test]
fn arena_round_trip_at_wrap_boundary() {
    // 75 bytes encode to exactly 100 characters, 78 to 104.
    round_trip(75);
    round_trip(78);
}

#[test]
fn arena_output_embeds_encoded_module() {
    let bytes = vec![1u8, 2, 3];
    let loader = arena_output(&generated(GLUE, BODY), &bytes).unwrap();
    assert!(loader.contains("let wasm_b64 = '' +\n'AQID';"));
    assert!(loader.contains(&format!("}}}});\n{}\n\nasync function load(buffer, imports) {{", GLUE)));
    assert!(loader.contains("console.log(getObject(arg0))"));
    assert!(loader.starts_with("'use strict';"));
    assert!(loader.ends_with("await init();\n\nwasm_bytes = null;\n"));
}

#[test]
fn arena_output_rejects_bad_loader() {
    assert!(arena_output("not a loader", &[1, 2, 3]).is_err());
}

#[test]
fn wrap_breaks_every_hundred_characters() {
    let text = "A".repeat(250);
    let wrapped = wrap_encoded(&text);
    let expected = format!("' +\n'{}' +\n'{}' +\n'{}", "A".repeat(100), "A".repeat(100), "A".repeat(50));
    assert_eq!(wrapped, expected);
    assert_eq!(wrap_encoded(""), "");
}

#[test]
fn world_output_uses_default_prelude_and_module_name() {
    let out = world_output(&generated(GLUE, BODY), None, "bot").unwrap();
    assert!(out.starts_with(DEFAULT_PRELUDE));
    assert!(out.contains("return require('bot_bg');"));
    assert!(out.contains("module.exports.initialize_instance = function () {\n    const imports = {};"));
    assert!(out.contains("console.log(getObject(arg0))"));
}

#[test]
fn world_output_uses_given_prelude() {
    let out = world_output(&generated(GLUE, BODY), Some("// custom\n"), "bot").unwrap();
    assert!(out.starts_with("// custom\nlet wasm;"));
}

#[test]
fn world_output_rejects_bad_loader() {
    assert!(world_output("export default init;", None, "bot").is_err());
}

#[test]
fn arena_output_fills_template_with_glue_and_body() {
    let input = "P\nasync function load(module, imports) {\nX\nasync function init(input) {\nY\nconst imports = {};B\nif (typeof input === 'string'Z\nexport default init;\n";
    let out = arena_output(input, &[0]).unwrap();
    assert!(out.starts_with("'use strict';"));
    assert!(out.contains("}});\nP\n\nasync function load(buffer, imports) {"));
    assert!(out.contains("async function init() {\n    const imports = {};B\n\n\n    const instance = await load(wasm_bytes, imports);"));
    assert!(out.contains("let wasm_b64 = '' +\n'AA==';"));
}

#[test]
fn extract_glue_keeps_its_own_blank_lines() {
    let parts = extract(&generated("let a;\n\n", BODY)).unwrap();
    assert_eq!(parts.glue, "let a;\n\n");
    let text = generated("let b;", BODY).replacen("\nasync function load", " async function load", 1);
    assert_eq!(extract(&text).unwrap().glue, "let b; ");
}
