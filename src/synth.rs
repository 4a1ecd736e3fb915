//! Writes the loaders that the two sandboxes run, around the parts taken out
//! of a generated loader.

use vstd::prelude::*;
use crate::extract::{
    extract, extracted, has_loader_shape, snippet_of, ExtractedLoader, ShapeMismatch,
};
use crate::text::replace_all;

verus! {

/// Polyfills for text encoding and base64, which the isolated host lacks.
pub const ARENA_HEAD: &'static str = r#"'use strict';(function(r){function x(){}function y(){}var z=String.fromCharCode,v={}.toString,A=v.call(r.SharedArrayBuffer),B=v(),q=r.Uint8Array,t=q||Array,w=q?ArrayBuffer:t,C=w.isView||function(g){return g&&"length"in g},D=v.call(w.prototype);w=y.prototype;var E=r.TextEncoder,a=new (q?Uint16Array:t)(32);x.prototype.decode=function(g){if(!C(g)){var l=v.call(g);if(l!==D&&l!==A&&l!==B)throw TypeError("Failed to execute 'decode' on 'TextDecoder': The provided value is not of type '(ArrayBuffer or ArrayBufferView)'");
g=q?new t(g):g||[]}for(var f=l="",b=0,c=g.length|0,u=c-32|0,e,d,h=0,p=0,m,k=0,n=-1;b<c;){for(e=b<=u?32:c-b|0;k<e;b=b+1|0,k=k+1|0){d=g[b]&255;switch(d>>4){case 15:m=g[b=b+1|0]&255;if(2!==m>>6||247<d){b=b-1|0;break}h=(d&7)<<6|m&63;p=5;d=256;case 14:m=g[b=b+1|0]&255,h<<=6,h|=(d&15)<<6|m&63,p=2===m>>6?p+4|0:24,d=d+256&768;case 13:case 12:m=g[b=b+1|0]&255,h<<=6,h|=(d&31)<<6|m&63,p=p+7|0,b<c&&2===m>>6&&h>>p&&1114112>h?(d=h,h=h-65536|0,0<=h&&(n=(h>>10)+55296|0,d=(h&1023)+56320|0,31>k?(a[k]=n,k=k+1|0,n=-1):
(m=n,n=d,d=m))):(d>>=8,b=b-d-1|0,d=65533),h=p=0,e=b<=u?32:c-b|0;default:a[k]=d;continue;case 11:case 10:case 9:case 8:}a[k]=65533}f+=z(a[0],a[1],a[2],a[3],a[4],a[5],a[6],a[7],a[8],a[9],a[10],a[11],a[12],a[13],a[14],a[15],a[16],a[17],a[18],a[19],a[20],a[21],a[22],a[23],a[24],a[25],a[26],a[27],a[28],a[29],a[30],a[31]);32>k&&(f=f.slice(0,k-32|0));if(b<c){if(a[0]=n,k=~n>>>31,n=-1,f.length<l.length)continue}else-1!==n&&(f+=z(n));l+=f;f=""}return l};w.encode=function(g){g=void 0===g?"":""+g;var l=g.length|
0,f=new t((l<<1)+8|0),b,c=0,u=!q;for(b=0;b<l;b=b+1|0,c=c+1|0){var e=g.charCodeAt(b)|0;if(127>=e)f[c]=e;else{if(2047>=e)f[c]=192|e>>6;else{a:{if(55296<=e)if(56319>=e){var d=g.charCodeAt(b=b+1|0)|0;if(56320<=d&&57343>=d){e=(e<<10)+d-56613888|0;if(65535<e){f[c]=240|e>>18;f[c=c+1|0]=128|e>>12&63;f[c=c+1|0]=128|e>>6&63;f[c=c+1|0]=128|e&63;continue}break a}e=65533}else 57343>=e&&(e=65533);!u&&b<<1<c&&b<<1<(c-7|0)&&(u=!0,d=new t(3*l),d.set(f),f=d)}f[c]=224|e>>12;f[c=c+1|0]=128|e>>6&63}f[c=c+1|0]=128|e&63}}return q?
f.subarray(0,c):f.slice(0,c)};E||(r.TextDecoder=x,r.TextEncoder=y)})(""+void 0==typeof global?""+void 0==typeof self?this:self:global);

!function(e){"use strict";if("object"==typeof exports&&null!=exports&&"number"!=typeof exports.nodeType)module.exports=e();else if("function"==typeof define&&null!=define.amd)define([],e);else{var t=e(),o=global;"function"!=typeof o.btoa&&(o.btoa=t.btoa),"function"!=typeof o.atob&&(o.atob=t.atob)}}(function(){"use strict";var f="ABCDEFGHIJKLMNOPQRSTUVWXYZabcdefghijklmnopqrstuvwxyz0123456789+/=";function c(e){this.message=e}return(c.prototype=new Error).name="InvalidCharacterError",{btoa:function(e){for(var t,o,r=String(e),n=0,a=f,i="";r.charAt(0|n)||(a="=",n%1);i+=a.charAt(63&t>>8-n%1*8)){if(255<(o=r.charCodeAt(n+=.75)))throw new c("'btoa' failed: The string to be encoded contains characters outside of the Latin1 range.");t=t<<8|o}return i},atob:function(e){var t=String(e).replace(/[=]+$/,"");if(t.length%4==1)throw new c("'atob' failed: The string to be decoded is not correctly encoded.");for(var o,r,n=0,a=0,i="";r=t.charAt(a++);~r&&(o=n%4?64*o+r:r,n++%4)&&(i+=String.fromCharCode(255&o>>(-2*n&6))))r=f.indexOf(r);return i}}});
"#;

/// Between the glue and the import-building body: a loader that instantiates
/// the module from bytes, and the start of the initialization function.
pub const ARENA_BEFORE_BODY: &'static str = r#"

async function load(buffer, imports) {
    let wasm_module = new WebAssembly.Module(buffer);
    return new WebAssembly.Instance(wasm_module, imports);
}

async function init() {
    "#;

/// Between the body and the embedded module: the end of the initialization
/// function and the start of the module's string literal.
pub const ARENA_BEFORE_MODULE: &'static str = r#"

    const instance = await load(wasm_bytes, imports);
    wasm = instance.exports;
}

let wasm_b64 = '"#;

/// After the embedded module: decoding it to bytes and initializing.
pub const ARENA_TAIL: &'static str = r#"';

let wasm_decoded = atob(wasm_b64);

wasm_b64 = null;

var len = wasm_decoded.length;
var wasm_bytes = new Uint8Array(len);
for (var i = 0; i < len; i++) {
    wasm_bytes[i] = wasm_decoded.charCodeAt(i);
}

wasm_decoded = null;

await init();

wasm_bytes = null;
"#;

/// The prelude of the world loader when the configuration names no file.
pub const DEFAULT_PRELUDE: &'static str = "\"use strict\";\n";

/// Between the glue and the module's name in the world loader.
pub const WORLD_BEFORE_NAME: &'static str = "\nfunction wasm_fetch_module_bytes() {\n    \"use strict\";\n    return require('";

/// Between the module's name and the body in the world loader.
pub const WORLD_BEFORE_BODY: &'static str = "');\n}\n\nmodule.exports.initialize_instance = function () {\n    ";

/// After the body in the world loader.
pub const WORLD_TAIL: &'static str = "\n    const mod = new WebAssembly.Module(wasm_fetch_module_bytes());\n    const instance = new WebAssembly.Instance(mod, imports);\n    wasm = instance.exports;\n};\n";

/// The suffix that the world host's module loading adds to the name stem.
pub const WORLD_MODULE_SUFFIX: &'static str = "_bg";

/// The entry file that the isolated host runs.
pub const ARENA_ENTRY: &'static str = "main.mjs";

/// The entry file that the world host runs.
pub const WORLD_ENTRY: &'static str = "main.js";

/// The extension that a generated loader is renamed to once processed.
pub const LOADER_ASIDE_EXT: &'static str = "jsorig";

/// The extension that a binary module is renamed to once embedded.
pub const MODULE_ASIDE_EXT: &'static str = "wasmorig";

/// How many encoded characters stand on one line of the embedded module.
pub const WRAP_WIDTH: usize = 100;

/// What the base64 encoder of the `base64` crate gives for `b`.
pub uninterp spec fn base64_of(b: Seq<u8>) -> Seq<char>;

/// A character of the standard base64 alphabet, padding included.
pub open spec fn is_base64_char(c: char) -> bool {
    ('A' <= c <= 'Z') || ('a' <= c <= 'z') || ('0' <= c <= '9') || c == '+' || c == '/' || c == '='
}

/// Relies on `base64::encode`: standard alphabet with padding, four characters
/// for every three bytes begun; it panics only when the encoded length
/// overflows `usize`.
#[verifier::external_body]
pub(crate) fn encode_base64(b: &[u8]) -> (r: String)
    requires
        b@.len() <= isize::MAX,
    ensures
        r@ == base64_of(b@),
        r@.len() == 4 * ((b@.len() + 2) / 3),
        forall|i: int| 0 <= i < r@.len() ==> is_base64_char(#[trigger] r@[i]),
{
    base64::encode(b)
}

/// Closes one string literal and opens the next on a new line.
pub open spec fn line_break() -> Seq<char> {
    seq!['\'', ' ', '+', '\n', '\'']
}

/// `s` with a line break before every character whose index, counted from
/// `i`, is a multiple of the wrap width.
pub open spec fn wrap_from(s: Seq<char>, i: int) -> Seq<char>
    decreases s.len(),
{
    if s.len() == 0 {
        seq![]
    } else {
        (if i % (WRAP_WIDTH as int) == 0 {
            line_break() + seq![s[0]]
        } else {
            seq![s[0]]
        }) + wrap_from(s.skip(1), i + 1)
    }
}

/// `s` cut into string literals of at most the wrap width, one per line.
pub open spec fn wrapped(s: Seq<char>) -> Seq<char> {
    wrap_from(s, 0)
}

/// The isolated host's loader around glue, body and the wrapped encoded module.
pub open spec fn arena_text(glue: Seq<char>, body: Seq<char>, encoded: Seq<char>) -> Seq<char> {
    ARENA_HEAD@ + glue + ARENA_BEFORE_BODY@ + body + ARENA_BEFORE_MODULE@ + wrapped(encoded)
        + ARENA_TAIL@
}

/// The world host's loader around prelude, glue, module name and body.
pub open spec fn world_text(prelude: Seq<char>, glue: Seq<char>, stem: Seq<char>, body: Seq<char>) -> Seq<char> {
    prelude + glue + WORLD_BEFORE_NAME@ + stem + WORLD_MODULE_SUFFIX@ + WORLD_BEFORE_BODY@ + body
        + WORLD_TAIL@
}

proof fn lemma_unwrap_from(s: Seq<char>, i: int)
    requires
        forall|k: int| 0 <= k < s.len() ==> s[k] != '\'',
    ensures
        replace_all(wrap_from(s, i), line_break(), seq![]) == s,
    decreases s.len(),
{
    if s.len() > 0 {
        let rest = wrap_from(s.skip(1), i + 1);
        lemma_unwrap_from(s.skip(1), i + 1);
        let tail = seq![s[0]] + rest;
        assert(tail.skip(1) =~= rest);
        assert(!(5 <= tail.len() && tail.take(5) == line_break())) by {
            if 5 <= tail.len() {
                assert(tail.take(5)[0] == s[0]);
                assert(line_break()[0] == '\'');
            }
        }
        assert(replace_all(tail, line_break(), seq![]) =~= seq![s[0]] + s.skip(1));
        assert(seq![s[0]] + s.skip(1) =~= s);
        if i % (WRAP_WIDTH as int) == 0 {
            let w = line_break() + tail;
            assert(wrap_from(s, i) =~= w);
            assert(w.take(5) =~= line_break());
            assert(w.skip(5) =~= tail);
            assert(replace_all(w, line_break(), seq![]) =~= seq![] + replace_all(tail, line_break(), seq![]));
        } else {
            assert(wrap_from(s, i) =~= tail);
        }
    }
}

/// Removing the line breaks of the wrapped form gives back the text, for any
/// text without a quote: the literals of the embedded module concatenate to
/// the encoded module.
pub proof fn law_unwrap(s: Seq<char>)
    requires
        forall|k: int| 0 <= k < s.len() ==> s[k] != '\'',
    ensures
        replace_all(wrapped(s), line_break(), seq![]) == s,
{
    lemma_unwrap_from(s, 0);
}

proof fn lemma_wrap_mod(s: Seq<char>, i: int, j: int)
    requires
        i % (WRAP_WIDTH as int) == j % (WRAP_WIDTH as int),
    ensures
        wrap_from(s, i) == wrap_from(s, j),
    decreases s.len(),
{
    if s.len() > 0 {
        assert((i + 1) % (WRAP_WIDTH as int) == (j + 1) % (WRAP_WIDTH as int));
        lemma_wrap_mod(s.skip(1), i + 1, j + 1);
    }
}

proof fn lemma_wrap_plain(s: Seq<char>, i: int, n: int)
    requires
        0 <= n <= s.len(),
        n == 0 || (0 < i % (WRAP_WIDTH as int) && i % (WRAP_WIDTH as int) + n <= WRAP_WIDTH),
    ensures
        wrap_from(s, i) == s.take(n) + wrap_from(s.skip(n), i + n),
    decreases n,
{
    if n == 0 {
        assert(s.take(0) =~= Seq::<char>::empty());
        assert(s.skip(0) =~= s);
    } else {
        if n > 1 {
            assert((i + 1) % (WRAP_WIDTH as int) == i % (WRAP_WIDTH as int) + 1);
        }
        lemma_wrap_plain(s.skip(1), i + 1, n - 1);
        assert(s.skip(1).skip(n - 1) =~= s.skip(n));
        assert(seq![s[0]] + s.skip(1).take(n - 1) =~= s.take(n));
    }
}

/// The wrapped form is, chunk after chunk of the wrap width (the last one
/// shorter), a line break followed by the chunk, and nothing for no text: no
/// character is changed, dropped or moved.
pub proof fn law_wrap_chunks(s: Seq<char>)
    ensures
        s.len() == 0 ==> wrapped(s) == Seq::<char>::empty(),
        s.len() > 0 ==> wrapped(s) == line_break() + s.take(
            if s.len() < WRAP_WIDTH {
                s.len() as int
            } else {
                WRAP_WIDTH as int
            },
        ) + wrapped(
            s.skip(
                if s.len() < WRAP_WIDTH {
                    s.len() as int
                } else {
                    WRAP_WIDTH as int
                },
            ),
        ),
{
    if s.len() > 0 {
        let c: int = if s.len() < WRAP_WIDTH {
            s.len() as int
        } else {
            WRAP_WIDTH as int
        };
        let rest = s.skip(1);
        lemma_wrap_plain(rest, 1, c - 1);
        assert(rest.skip(c - 1) =~= s.skip(c));
        if c == WRAP_WIDTH {
            lemma_wrap_mod(rest.skip(c - 1), c, 0);
        } else {
            assert(s.skip(c).len() == 0);
        }
        assert(seq![s[0]] + rest.take(c - 1) =~= s.take(c));
        assert(wrapped(s) == line_break() + seq![s[0]] + wrap_from(rest, 1));
        assert(wrapped(s) =~= line_break() + s.take(c) + wrapped(s.skip(c)));
    }
}

/// Appends a line break that closes one literal and opens the next.
fn push_line_break(out: &mut String)
    ensures
        final(out)@ == old(out)@ + line_break(),
{
    out.push('\'');
    out.push(' ');
    out.push('+');
    out.push('\n');
    out.push('\'');
    assert(final(out)@ =~= old(out)@ + line_break());
}

/// The text `s` cut into string literals of at most the wrap width, one per line.
pub fn wrap_encoded(s: &str) -> (r: String)
    ensures
        r@ == wrapped(s@),
{
    let mut r = String::new();
    let mut col: usize = 0;
    assert(s@.skip(0) =~= s@);
    for c in it: s.chars()
        invariant
            it.seq() == s@,
            col < WRAP_WIDTH,
            col as int == it.index() % (WRAP_WIDTH as int),
            r@ + wrap_from(s@.skip(it.index() as int), it.index() as int) == wrapped(s@),
    {
        let ghost i = it.index() as int;
        let ghost rest = s@.skip(i);
        proof {
            assert(rest[0] == c);
            assert(rest.skip(1) =~= s@.skip(i + 1));
        }
        let ghost before = r@;
        if col == 0 {
            push_line_break(&mut r);
        }
        r.push(c);
        proof {
            assert(r@ + wrap_from(s@.skip(i + 1), i + 1) =~= before + wrap_from(rest, i));
        }
        col = if col + 1 == WRAP_WIDTH {
            0
        } else {
            col + 1
        };
    }
    proof {
        assert(s@.skip(s@.len() as int) =~= Seq::<char>::empty());
        assert(r@ + Seq::<char>::empty() =~= r@);
    }
    r
}

/// The isolated host's loader: polyfills, the glue, a loader that instantiates
/// the module from bytes, the initialization body, and the module itself as
/// wrapped base64 text.
pub fn arena_loader(parts: &ExtractedLoader, encoded_module: &str) -> (r: String)
    ensures
        r@ == arena_text(parts.glue@, parts.init_body@, encoded_module@),
{
    let mut r = String::new();
    r.append(ARENA_HEAD);
    r.append(parts.glue.as_str());
    r.append(ARENA_BEFORE_BODY);
    r.append(parts.init_body.as_str());
    r.append(ARENA_BEFORE_MODULE);
    let wrapped_module = wrap_encoded(encoded_module);
    r.append(wrapped_module.as_str());
    r.append(ARENA_TAIL);
    r
}

/// The world host's loader: the prelude (the configured one, or the default),
/// the glue, a function that has the host load the module by its name stem,
/// and the initialization body inside the exported entry function.
pub fn world_loader(parts: &ExtractedLoader, prelude: Option<&str>, stem: &str) -> (r: String)
    ensures
        r@ == world_text(
            match prelude {
                Some(p) => p@,
                None => DEFAULT_PRELUDE@,
            },
            parts.glue@,
            stem@,
            parts.init_body@,
        ),
{
    let mut r = String::new();
    match prelude {
        Some(p) => r.append(p),
        None => r.append(DEFAULT_PRELUDE),
    }
    r.append(parts.glue.as_str());
    r.append(WORLD_BEFORE_NAME);
    r.append(stem);
    r.append(WORLD_MODULE_SUFFIX);
    r.append(WORLD_BEFORE_BODY);
    r.append(parts.init_body.as_str());
    r.append(WORLD_TAIL);
    r
}

/// The isolated host's self-contained loader for a generated loader text and
/// the module's bytes; fails when the loader does not have the expected shape.
/// The literals that embed the module concatenate to its base64 encoding.
pub fn arena_output(loader_text: &str, module: &[u8]) -> (r: Result<String, ShapeMismatch>)
    requires
        module@.len() <= isize::MAX,
    ensures
        r is Err <==> !has_loader_shape(loader_text@),
        match r {
            Ok(out) => match extracted(loader_text@) {
                Some((glue, body)) => out@ == arena_text(glue, body, base64_of(module@)),
                None => false,
            },
            Err(e) => e.snippet@ == snippet_of(loader_text@),
        },
        replace_all(wrapped(base64_of(module@)), line_break(), seq![]) == base64_of(module@),
        wrapped(base64_of(module@)).len() == 0 <==> module@.len() == 0,
{
    let encoded = encode_base64(module);
    proof {
        law_unwrap(encoded@);
        let n = module@.len() as int;
        assert(n == 0 <==> 4 * ((n + 2) / 3) == 0) by (nonlinear_arith)
            requires n >= 0;
        if encoded@.len() > 0 {
            assert(wrapped(encoded@).len() > 0);
        }
    }
    match extract(loader_text) {
        Ok(parts) => {
            let out = arena_loader(&parts, encoded.as_str());
            Ok(out)
        },
        Err(e) => Err(e),
    }
}

/// The world host's loader for a generated loader text; fails when the loader
/// does not have the expected shape.
pub fn world_output(loader_text: &str, prelude: Option<&str>, stem: &str) -> (r: Result<String, ShapeMismatch>)
    ensures
        r is Err <==> !has_loader_shape(loader_text@),
        match r {
            Ok(out) => match extracted(loader_text@) {
                Some((glue, body)) => out@ == world_text(
                    match prelude {
                        Some(p) => p@,
                        None => DEFAULT_PRELUDE@,
                    },
                    glue,
                    stem@,
                    body,
                ),
                None => false,
            },
            Err(e) => e.snippet@ == snippet_of(loader_text@),
        },
{
    match extract(loader_text) {
        Ok(parts) => Ok(world_loader(&parts, prelude, stem)),
        Err(e) => Err(e),
    }
}

} // verus!
