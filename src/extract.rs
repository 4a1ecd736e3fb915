//! Checks that a generated loader has the expected bootstrap shape and takes
//! out the parts that do not depend on the generator: the glue code before the
//! bootstrap, and the body of the initialization function that builds the
//! import object.
//!
//! The shape is a sequence of five markers, each a template (see `pattern`)
//! that tolerates other whitespace and other generated names. Each marker must
//! match exactly once in its search range: from one character past the end of
//! the previous marker (from the second character, for the first) to the end of
//! the text. The glue is what precedes the first marker, less the line break
//! that ends the line before it; the body runs from the third marker to the
//! fourth.

use vstd::prelude::*;
use crate::pattern::{
    ends_literal, instance_of, lemma_instance_matches, lemma_match_end, lemma_only_from,
    match_end, match_end_exec, matches_at, only_at, only_from, only_from_exec,
};
use crate::text::{chars_of, push_range, replace_all, replace_all_exec};

verus! {

/// Opens the generated loading helper; the glue code stands before it.
pub const LOAD_MARKER: &'static str = "async function load(%, %) {";

/// Opens the generated initialization function.
pub const INIT_MARKER: &'static str = "async function init(%) {";

/// Starts the body that builds the import object.
pub const BODY_START: &'static str = "const imports = {};";

/// Starts the generator's input detection, which ends the body.
pub const BODY_END: &'static str = "if (typeof % === 'string'";

/// The generator's closing export.
pub const EXPORT_MARKER: &'static str = "export default init;";

/// The error-logging name that the generated code assumes.
pub const HOST_ERROR_LOG: &'static str = "console.error";

/// The logging name that the sandbox offers in its place.
pub const SANDBOX_LOG: &'static str = "console.log";

/// How many characters of a rejected loader an error carries.
pub const SNIPPET_CHARS: usize = 1024;

/// The parts taken out of a generated loader.
#[derive(Clone, Debug, PartialEq, Eq)]
pub struct ExtractedLoader {
    /// Everything before the loading helper.
    pub glue: String,
    /// The import-building body, with the logging name renamed.
    pub init_body: String,
}

/// A loader that does not have the expected shape: the generator changed.
#[derive(Clone, Debug, PartialEq, Eq)]
pub struct ShapeMismatch {
    /// The start of the rejected text, for a report.
    pub snippet: String,
}

/// Where the match of template `p` at `at` ends.
pub open spec fn end_of(t: Seq<char>, p: Seq<char>, at: int) -> int {
    match match_end(t, p, at, 0) {
        Some(e) => e,
        None => at,
    }
}

/// Each marker matches exactly once in its search range, at the given index.
pub open spec fn shape_at(t: Seq<char>, load_at: int, init_at: int, start_at: int, end_at: int, export_at: int) -> bool {
    &&& only_at(t, LOAD_MARKER@, 1, load_at)
    &&& only_at(t, INIT_MARKER@, end_of(t, LOAD_MARKER@, load_at) + 1, init_at)
    &&& only_at(t, BODY_START@, end_of(t, INIT_MARKER@, init_at) + 1, start_at)
    &&& only_at(t, BODY_END@, end_of(t, BODY_START@, start_at) + 1, end_at)
    &&& only_at(t, EXPORT_MARKER@, end_of(t, BODY_END@, end_at) + 1, export_at)
}

/// `t` has the shape of a generated loader.
pub open spec fn has_loader_shape(t: Seq<char>) -> bool {
    exists|load_at: int, init_at: int, start_at: int, end_at: int, export_at: int|
        shape_at(t, load_at, init_at, start_at, end_at, export_at)
}

/// The positions of the markers, each the only match in its search range.
pub open spec fn marker_positions(t: Seq<char>) -> Option<(int, int, int, int, int)> {
    match only_from(t, LOAD_MARKER@, 1) {
        None => None,
        Some(load_at) => match only_from(t, INIT_MARKER@, end_of(t, LOAD_MARKER@, load_at) + 1) {
            None => None,
            Some(init_at) => match only_from(t, BODY_START@, end_of(t, INIT_MARKER@, init_at) + 1) {
                None => None,
                Some(start_at) => match only_from(t, BODY_END@, end_of(t, BODY_START@, start_at) + 1) {
                    None => None,
                    Some(end_at) => match only_from(t, EXPORT_MARKER@, end_of(t, BODY_END@, end_at) + 1) {
                        None => None,
                        Some(export_at) => Some((load_at, init_at, start_at, end_at, export_at)),
                    },
                },
            },
        },
    }
}

/// The body as the sandbox needs it: the logging name renamed.
pub open spec fn sandbox_body(body: Seq<char>) -> Seq<char> {
    replace_all(body, HOST_ERROR_LOG@, SANDBOX_LOG@)
}

/// Where the glue ends: before the line break that precedes the loading
/// helper, if there is one.
pub open spec fn glue_end(t: Seq<char>, load_at: int) -> int {
    if 1 <= load_at <= t.len() && t[load_at - 1] == '\n' {
        load_at - 1
    } else {
        load_at
    }
}

/// The glue and the renamed body of a loader, where it has the expected shape.
pub open spec fn extracted(t: Seq<char>) -> Option<(Seq<char>, Seq<char>)> {
    match marker_positions(t) {
        Some((load_at, init_at, start_at, end_at, export_at)) => Some(
            (t.take(glue_end(t, load_at)), sandbox_body(t.subrange(start_at, end_at))),
        ),
        None => None,
    }
}

/// The start of `t` that an error about it carries.
pub open spec fn snippet_of(t: Seq<char>) -> Seq<char> {
    if t.len() <= SNIPPET_CHARS {
        t
    } else {
        t.take(SNIPPET_CHARS as int)
    }
}

/// What the markers look like, as far as the proofs need it.
proof fn lemma_markers()
    ensures
        ends_literal(LOAD_MARKER@),
        ends_literal(INIT_MARKER@),
        ends_literal(BODY_START@),
        ends_literal(BODY_END@),
        ends_literal(EXPORT_MARKER@),
{
    reveal_strlit("async function load(%, %) {");
    reveal_strlit("async function init(%) {");
    reveal_strlit("const imports = {};");
    reveal_strlit("if (typeof % === 'string'");
    reveal_strlit("export default init;");
}

/// One stage of the search: the only match of `p` from `from` on, and its end.
proof fn lemma_stage(t: Seq<char>, p: Seq<char>, from: int, at: int)
    requires
        0 <= from,
        ends_literal(p),
    ensures
        only_from(t, p, from) == Some(at) <==> only_at(t, p, from, at),
        only_at(t, p, from, at) ==> at < t.len() && at < end_of(t, p, at) <= t.len(),
{
    lemma_only_from(t, p, from, at);
    if only_at(t, p, from, at) {
        if at >= t.len() {
            assert(match_end(t, p, at, 0) is None);
        }
        lemma_match_end(t, p, at, 0);
    }
}

/// The markers are found, one after the other, exactly when the text has the
/// shape, and then at the places that the shape gives.
pub proof fn lemma_positions_iff_shape(t: Seq<char>)
    ensures
        marker_positions(t) is Some <==> has_loader_shape(t),
        marker_positions(t) matches Some((a, b, c, d, e)) ==> shape_at(t, a, b, c, d, e) && 1 <= a
            && a < b && b < c && c < d && d < e && e < t.len() && end_of(t, BODY_START@, c) < d,
{
    lemma_markers();
    if has_loader_shape(t) {
        let (a, b, c, d, e) = choose|a: int, b: int, c: int, d: int, e: int|
            shape_at(t, a, b, c, d, e);
        lemma_stage(t, LOAD_MARKER@, 1, a);
        lemma_stage(t, INIT_MARKER@, end_of(t, LOAD_MARKER@, a) + 1, b);
        lemma_stage(t, BODY_START@, end_of(t, INIT_MARKER@, b) + 1, c);
        lemma_stage(t, BODY_END@, end_of(t, BODY_START@, c) + 1, d);
        lemma_stage(t, EXPORT_MARKER@, end_of(t, BODY_END@, d) + 1, e);
    }
    if let Some((a, b, c, d, e)) = marker_positions(t) {
        lemma_stage(t, LOAD_MARKER@, 1, a);
        lemma_stage(t, INIT_MARKER@, end_of(t, LOAD_MARKER@, a) + 1, b);
        lemma_stage(t, BODY_START@, end_of(t, INIT_MARKER@, b) + 1, c);
        lemma_stage(t, BODY_END@, end_of(t, BODY_START@, c) + 1, d);
        lemma_stage(t, EXPORT_MARKER@, end_of(t, BODY_END@, d) + 1, e);
        assert(shape_at(t, a, b, c, d, e));
    }
}

/// No match of `p` at or after `from` but at `at`.
pub open spec fn no_other(t: Seq<char>, p: Seq<char>, from: int, at: int) -> bool {
    forall|j: int| from <= j && j != at ==> !matches_at(t, p, j)
}

/// A loader text put together from glue, a line break, the five markers as
/// written (each an instance of its template, with any spacing and any
/// generated names), the parts between them, and a trailer.
pub open spec fn assemble(
    glue: Seq<char>,
    load: Seq<char>,
    after_load: Seq<char>,
    init: Seq<char>,
    after_init: Seq<char>,
    start: Seq<char>,
    body_tail: Seq<char>,
    end: Seq<char>,
    after_end: Seq<char>,
    export: Seq<char>,
    trailer: Seq<char>,
) -> Seq<char> {
    glue + seq!['\n'] + load + after_load + init + after_init + start + body_tail + end + after_end
        + export + trailer
}

/// The parts fit together as a loader: each marker is an instance of its
/// template, the parts that must hold something do, and no marker matches
/// anywhere in its search range but at its own place.
pub open spec fn valid_assembly(
    glue: Seq<char>,
    load: Seq<char>,
    after_load: Seq<char>,
    init: Seq<char>,
    after_init: Seq<char>,
    start: Seq<char>,
    body_tail: Seq<char>,
    end: Seq<char>,
    after_end: Seq<char>,
    export: Seq<char>,
    trailer: Seq<char>,
) -> bool {
    let t = assemble(glue, load, after_load, init, after_init, start, body_tail, end, after_end, export, trailer);
    let o1 = glue.len() + 1 as int;
    let o2 = o1 + load.len() + after_load.len();
    let o3 = o2 + init.len() + after_init.len();
    let o4 = o3 + start.len() + body_tail.len();
    let o5 = o4 + end.len() + after_end.len();
    &&& instance_of(load, LOAD_MARKER@)
    &&& instance_of(init, INIT_MARKER@)
    &&& instance_of(start, BODY_START@)
    &&& instance_of(end, BODY_END@)
    &&& instance_of(export, EXPORT_MARKER@)
    &&& after_load.len() >= 1
    &&& after_init.len() >= 1
    &&& body_tail.len() >= 1
    &&& after_end.len() >= 1
    &&& no_other(t, LOAD_MARKER@, 1, o1)
    &&& no_other(t, INIT_MARKER@, o1 + load.len() + 1, o2)
    &&& no_other(t, BODY_START@, o2 + init.len() + 1, o3)
    &&& no_other(t, BODY_END@, o3 + start.len() + 1, o4)
    &&& no_other(t, EXPORT_MARKER@, o4 + end.len() + 1, o5)
}

/// A loader put together from valid parts has the expected shape and extracts
/// to exactly its glue (without the line break before the loading helper) and
/// its body (the body-start marker as written and what
/// follows it up to the body-end marker), with the logging name renamed.
pub proof fn law_extract_assembled(
    glue: Seq<char>,
    load: Seq<char>,
    after_load: Seq<char>,
    init: Seq<char>,
    after_init: Seq<char>,
    start: Seq<char>,
    body_tail: Seq<char>,
    end: Seq<char>,
    after_end: Seq<char>,
    export: Seq<char>,
    trailer: Seq<char>,
)
    requires
        valid_assembly(glue, load, after_load, init, after_init, start, body_tail, end, after_end, export, trailer),
    ensures
        has_loader_shape(
            assemble(glue, load, after_load, init, after_init, start, body_tail, end, after_end, export, trailer),
        ),
        extracted(
            assemble(glue, load, after_load, init, after_init, start, body_tail, end, after_end, export, trailer),
        ) == Some((glue, sandbox_body(start + body_tail))),
{
    lemma_markers();
    let t = assemble(glue, load, after_load, init, after_init, start, body_tail, end, after_end, export, trailer);
    let o1 = glue.len() + 1 as int;
    let o2 = o1 + load.len() + after_load.len();
    let o3 = o2 + init.len() + after_init.len();
    let o4 = o3 + start.len() + body_tail.len();
    let o5 = o4 + end.len() + after_end.len();
    assert(t.subrange(o1, o1 + load.len()) =~= load);
    assert(t.subrange(o2, o2 + init.len()) =~= init);
    assert(t.subrange(o3, o3 + start.len()) =~= start);
    assert(t.subrange(o4, o4 + end.len()) =~= end);
    assert(t.subrange(o5, o5 + export.len()) =~= export);
    lemma_instance_matches(t, o1, load, LOAD_MARKER@);
    lemma_instance_matches(t, o2, init, INIT_MARKER@);
    lemma_instance_matches(t, o3, start, BODY_START@);
    lemma_instance_matches(t, o4, end, BODY_END@);
    lemma_instance_matches(t, o5, export, EXPORT_MARKER@);
    assert(shape_at(t, o1, o2, o3, o4, o5));
    lemma_positions_iff_shape(t);
    lemma_stage(t, LOAD_MARKER@, 1, o1);
    lemma_stage(t, INIT_MARKER@, end_of(t, LOAD_MARKER@, o1) + 1, o2);
    lemma_stage(t, BODY_START@, end_of(t, INIT_MARKER@, o2) + 1, o3);
    lemma_stage(t, BODY_END@, end_of(t, BODY_START@, o3) + 1, o4);
    lemma_stage(t, EXPORT_MARKER@, end_of(t, BODY_END@, o4) + 1, o5);
    assert(marker_positions(t) == Some((o1, o2, o3, o4, o5)));
    assert(t[o1 - 1] == '\n');
    assert(t.take(o1 - 1) =~= glue);
    assert(t.subrange(o3, o4) =~= start + body_tail);
}

/// Writing the loading, initialization, body-end and export markers with
/// other whitespace or other generated names changes nothing of what is
/// extracted, as long as both texts fit together as loaders.
pub proof fn law_extract_ignores_spacing(
    glue: Seq<char>,
    load: Seq<char>,
    load2: Seq<char>,
    after_load: Seq<char>,
    init: Seq<char>,
    init2: Seq<char>,
    after_init: Seq<char>,
    start: Seq<char>,
    body_tail: Seq<char>,
    end: Seq<char>,
    end2: Seq<char>,
    after_end: Seq<char>,
    export: Seq<char>,
    export2: Seq<char>,
    trailer: Seq<char>,
)
    requires
        valid_assembly(glue, load, after_load, init, after_init, start, body_tail, end, after_end, export, trailer),
        valid_assembly(glue, load2, after_load, init2, after_init, start, body_tail, end2, after_end, export2, trailer),
    ensures
        extracted(assemble(glue, load, after_load, init, after_init, start, body_tail, end, after_end, export, trailer))
            == extracted(
            assemble(glue, load2, after_load, init2, after_init, start, body_tail, end2, after_end, export2, trailer),
        ),
{
    law_extract_assembled(glue, load, after_load, init, after_init, start, body_tail, end, after_end, export, trailer);
    law_extract_assembled(glue, load2, after_load, init2, after_init, start, body_tail, end2, after_end, export2, trailer);
}

/// The characters `v[from..to]` as a vector.
fn sub_vec(v: &Vec<char>, from: usize, to: usize) -> (r: Vec<char>)
    requires
        from <= to <= v@.len(),
    ensures
        r@ == v@.subrange(from as int, to as int),
{
    let mut r: Vec<char> = Vec::new();
    let mut i: usize = from;
    while i < to
        invariant
            from <= i <= to <= v@.len(),
            r@ == v@.subrange(from as int, i as int),
        decreases to - i,
    {
        r.push(v[i]);
        assert(v@.subrange(from as int, i + 1) =~= r@);
        i = i + 1;
    }
    r
}

/// The only match of `p` from one past `after` on, and where it ends.
fn stage(t: &Vec<char>, p: &Vec<char>, after: usize) -> (r: Option<(usize, usize)>)
    requires
        ends_literal(p@),
    ensures
        match r {
            Some((at, e)) => only_from(t@, p@, after + 1) == Some(at as int) && e == end_of(
                t@,
                p@,
                at as int,
            ) && (at as int) < (e as int) && e <= t@.len(),
            None => only_from(t@, p@, after + 1) is None,
        },
{
    if after >= t.len() {
        proof {
            if let Some(q) = only_from(t@, p@, after + 1) {
                lemma_stage(t@, p@, after + 1, q);
            }
        }
        return None;
    }
    match only_from_exec(t, p, after + 1) {
        None => None,
        Some(at) => {
            proof {
                lemma_stage(t@, p@, after + 1, at as int);
            }
            match match_end_exec(t, p, at) {
                Some(e) => Some((at, e)),
                None => None,
            }
        },
    }
}

/// Checks that `text` is a generated loader of the expected shape and takes out
/// its glue code and its import-building body, the latter with the logging name
/// renamed; fails, with the start of the text, when the shape does not fit.
pub fn extract(text: &str) -> (r: Result<ExtractedLoader, ShapeMismatch>)
    ensures
        r is Err <==> !has_loader_shape(text@),
        match r {
            Ok(x) => extracted(text@) == Some((x.glue@, x.init_body@)),
            Err(e) => e.snippet@ == snippet_of(text@),
        },
{
    proof {
        lemma_positions_iff_shape(text@);
        lemma_markers();
    }
    let t = chars_of(text);
    let load = chars_of(LOAD_MARKER);
    let init = chars_of(INIT_MARKER);
    let start = chars_of(BODY_START);
    let end = chars_of(BODY_END);
    let export = chars_of(EXPORT_MARKER);
    let from = chars_of(HOST_ERROR_LOG);
    let found = match stage(&t, &load, 0) {
        None => None,
        Some((load_at, e1)) => match stage(&t, &init, e1) {
            None => None,
            Some((_, e2)) => match stage(&t, &start, e2) {
                None => None,
                Some((start_at, e3)) => match stage(&t, &end, e3) {
                    None => None,
                    Some((end_at, e4)) => match stage(&t, &export, e4) {
                        None => None,
                        Some(_) => Some((load_at, start_at, end_at)),
                    },
                },
            },
        },
    };
    match found {
        Some((load_at, start_at, end_at)) => {
            let glue_to = if load_at >= 1 && load_at <= t.len() && t[load_at - 1] == '\n' {
                load_at - 1
            } else {
                load_at
            };
            if glue_to > t.len() {
                proof {
                    assert(false);
                }
            }
            let mut glue = String::new();
            push_range(&mut glue, &t, 0, glue_to);
            assert(glue@ =~= text@.take(glue_end(text@, load_at as int)));
            let body = sub_vec(&t, start_at, end_at);
            let init_body = replace_all_exec(&body, &from, SANDBOX_LOG);
            Ok(ExtractedLoader { glue, init_body })
        },
        None => {
            let n = if t.len() <= SNIPPET_CHARS {
                t.len()
            } else {
                SNIPPET_CHARS
            };
            let mut snippet = String::new();
            push_range(&mut snippet, &t, 0, n);
            assert(snippet@ =~= snippet_of(text@));
            Err(ShapeMismatch { snippet })
        },
    }
}

} // verus!
