//! What an upload sends and how its answer is judged: the modules keyed by
//! name, their size against the server's code budget, the address, and the
//! verdict on the response.

use vstd::prelude::*;
use crate::deploy::ENTRY_EXT;
use crate::locate::{LOADER_EXT, MODULE_EXT};
use crate::paths::{extension_of, has_extension};
use crate::synth::{base64_of, encode_base64};

verus! {

/// The server's code budget, in characters.
pub const CODE_SIZE_LIMIT: u64 = 5 * 1024 * 1024;

/// Where the total size stands against the budget.
#[derive(Clone, Copy, Debug, PartialEq, Eq)]
pub enum BudgetLevel {
    /// At most nine tenths of the budget.
    Within,
    /// Over nine tenths, within the budget.
    NearLimit,
    /// Over the budget; the server is expected to refuse.
    OverLimit,
}

/// Where `total` characters stand against the budget.
pub open spec fn budget_level_of(total: int) -> BudgetLevel {
    if total > CODE_SIZE_LIMIT {
        BudgetLevel::OverLimit
    } else if 10 * total > 9 * CODE_SIZE_LIMIT {
        BudgetLevel::NearLimit
    } else {
        BudgetLevel::Within
    }
}

/// Where `total` characters stand against the budget.
pub fn budget_level(total: u64) -> (r: BudgetLevel)
    ensures
        r == budget_level_of(total as int),
{
    if total > CODE_SIZE_LIMIT {
        BudgetLevel::OverLimit
    } else if 10 * total > 9 * CODE_SIZE_LIMIT {
        BudgetLevel::NearLimit
    } else {
        BudgetLevel::Within
    }
}

/// How a file is sent.
#[derive(Clone, Copy, Debug, PartialEq, Eq)]
pub enum UploadKind {
    /// As text.
    Text,
    /// As a binary module, base64-encoded.
    Binary,
}

/// How a file with this name is sent, if at all.
pub open spec fn upload_kind_of(name: Seq<char>) -> Option<UploadKind> {
    if extension_of(name) == Some(LOADER_EXT@) || extension_of(name) == Some(ENTRY_EXT@) {
        Some(UploadKind::Text)
    } else if extension_of(name) == Some(MODULE_EXT@) {
        Some(UploadKind::Binary)
    } else {
        None
    }
}

/// How the file `name` is sent: loaders and self-contained loaders as text,
/// modules as binaries, and nothing else.
pub fn upload_kind(name: &str) -> (r: Option<UploadKind>)
    ensures
        r == upload_kind_of(name@),
{
    if has_extension(name, LOADER_EXT) || has_extension(name, ENTRY_EXT) {
        Some(UploadKind::Text)
    } else if has_extension(name, MODULE_EXT) {
        Some(UploadKind::Binary)
    } else {
        None
    }
}

/// The content of one module as sent.
#[derive(Clone, Debug, PartialEq, Eq)]
pub enum ModuleContent {
    /// Loader text, plain or self-contained, sent as it is.
    Text(String),
    /// A binary module's base64 encoding.
    Binary(String),
}

/// The characters that a module's content sends.
pub open spec fn content_chars(c: ModuleContent) -> Seq<char> {
    match c {
        ModuleContent::Text(s) => s@,
        ModuleContent::Binary(s) => s@,
    }
}

/// The content of a binary module: its bytes in base64.
pub fn binary_content(bytes: &[u8]) -> (r: ModuleContent)
    requires
        bytes@.len() <= isize::MAX,
    ensures
        r matches ModuleContent::Binary(s) && s@ == base64_of(bytes@),
{
    ModuleContent::Binary(encode_base64(bytes))
}

/// One module of an upload.
#[derive(Clone, Debug, PartialEq, Eq)]
pub struct UploadModule {
    /// The file's stem, which keys the module.
    pub name: String,
    pub content: ModuleContent,
}

/// No two modules share a name.
pub open spec fn names_unique(m: Seq<UploadModule>) -> bool {
    forall|i: int, j: int| 0 <= i < j < m.len() ==> #[trigger] m[i].name@ != #[trigger] m[j].name@
}

/// The modules of an upload, and the characters they send in all: a module
/// added under a name already there replaces it, and its size still counts.
#[derive(Clone, Debug, PartialEq, Eq)]
pub struct UploadPlan {
    pub modules: Vec<UploadModule>,
    /// The characters of every module added, up to `u64::MAX`.
    pub total_chars: u64,
}

/// `a + b`, capped at `u64::MAX`.
pub open spec fn capped_sum(a: int, b: int) -> int {
    if a + b > u64::MAX {
        u64::MAX as int
    } else {
        a + b
    }
}

impl UploadPlan {
    /// The plan's modules have distinct names.
    pub open spec fn wf(&self) -> bool {
        names_unique(self.modules@)
    }

    /// An upload with no modules.
    pub fn new() -> (r: Self)
        ensures
            r.wf(),
            r.modules@.len() == 0,
            r.total_chars == 0,
    {
        UploadPlan { modules: Vec::new(), total_chars: 0 }
    }

    /// Adds `content` under `name`, replacing a module of that name, and adds
    /// its characters to the total.
    pub fn add(&mut self, name: String, content: ModuleContent)
        requires
            old(self).wf(),
        ensures
            final(self).wf(),
            final(self).total_chars == capped_sum(
                old(self).total_chars as int,
                content_chars(content).len() as int,
            ),
            (exists|i: int|
                0 <= i < old(self).modules@.len() && old(self).modules@[i].name@ == name@)
                ==> exists|i: int|
                0 <= i < old(self).modules@.len() && old(self).modules@[i].name@ == name@
                    && final(self).modules@ == old(self).modules@.update(
                    i,
                    UploadModule { name, content },
                ),
            !(exists|i: int|
                0 <= i < old(self).modules@.len() && old(self).modules@[i].name@ == name@)
                ==> final(self).modules@ == old(self).modules@.push(UploadModule { name, content }),
    {
        let size = match &content {
            ModuleContent::Text(t) => t.as_str().unicode_len(),
            ModuleContent::Binary(b) => b.as_str().unicode_len(),
        };
        self.total_chars = if size as u64 > u64::MAX - self.total_chars {
            u64::MAX
        } else {
            self.total_chars + size as u64
        };
        let mut i: usize = 0;
        while i < self.modules.len()
            invariant
                i <= self.modules@.len(),
                self.modules@ == old(self).modules@,
                names_unique(old(self).modules@),
                self.total_chars == capped_sum(
                    old(self).total_chars as int,
                    content_chars(content).len() as int,
                ),
                forall|j: int| 0 <= j < i ==> self.modules@[j].name@ != name@,
            decreases self.modules@.len() - i,
        {
            if self.modules[i].name == name {
                let ghost at = i as int;
                self.modules.set(i, UploadModule { name, content });
                assert(self.modules@ == old(self).modules@.update(at, UploadModule { name, content }));
                assert(names_unique(self.modules@)) by {
                    assert forall|a: int, b: int|
                        0 <= a < b < self.modules@.len() implies #[trigger] self.modules@[a].name@
                        != #[trigger] self.modules@[b].name@ by {
                        if a != at && b != at {
                            assert(old(self).modules@[a].name@ != old(self).modules@[b].name@);
                        } else if a == at {
                            assert(old(self).modules@[a].name@ != old(self).modules@[b].name@);
                        } else {
                            assert(old(self).modules@[a].name@ != old(self).modules@[b].name@);
                        }
                    }
                }
                return;
            }
            i = i + 1;
        }
        let ghost before = self.modules@;
        self.modules.push(UploadModule { name, content });
        assert(names_unique(self.modules@)) by {
            assert forall|a: int, b: int|
                0 <= a < b < self.modules@.len() implies #[trigger] self.modules@[a].name@
                != #[trigger] self.modules@[b].name@ by {
                if b < before.len() {
                    assert(before[a].name@ != before[b].name@);
                }
            }
        }
    }

    /// Where the total size stands against the budget.
    pub fn budget(&self) -> (r: BudgetLevel)
        ensures
            r == budget_level_of(self.total_chars as int),
    {
        budget_level(self.total_chars)
    }
}

/// What the response's body says, read as JSON.
#[derive(Clone, Debug, PartialEq, Eq)]
pub enum ResponseBody {
    /// Not JSON.
    Malformed,
    /// A JSON value with no `error` field.
    Clean,
    /// A JSON value whose `error` field holds this, as JSON text.
    Error(String),
}

/// A JSON value, as serde_json holds it.
#[verifier::external_type_specification]
#[verifier::external_body]
pub struct ExJsonValue(serde_json::Value);

/// The text is one JSON value, as serde_json reads it.
pub uninterp spec fn is_json(text: Seq<char>) -> bool;

/// Relies on `serde_json::from_str` reading a `serde_json::Value`: whether it
/// succeeds depends on the text alone.
#[verifier::external_body]
fn parse_json(text: &str) -> (r: Option<serde_json::Value>)
    ensures
        r is Some <==> is_json(text@),
{
    serde_json::from_str(text).ok()
}

/// Relies on `serde_json::Value::get`: the value under `key` of an object, and
/// nothing for any other value.
#[verifier::external_body]
fn json_field(v: &serde_json::Value, key: &str) -> Option<serde_json::Value> {
    v.get(key).cloned()
}

/// Relies on the `Display` of `serde_json::Value`: the value as JSON text.
#[verifier::external_body]
fn json_text(v: &serde_json::Value) -> String {
    v.to_string()
}

/// What the body of the server's answer says: not JSON, JSON with no `error`
/// field, or the `error` field as JSON text.
pub fn read_response(body: &str) -> (r: ResponseBody)
    ensures
        r is Malformed <==> !is_json(body@),
{
    match parse_json(body) {
        None => ResponseBody::Malformed,
        Some(v) => match json_field(&v, "error") {
            Some(e) => ResponseBody::Error(json_text(&e)),
            None => ResponseBody::Clean,
        },
    }
}

/// Why an upload failed.
#[derive(Clone, Debug, PartialEq, Eq)]
pub enum UploadError {
    /// The server answered with a status other than success.
    Status { status: u16, body: String },
    /// The server's answer is not JSON.
    Malformed { body: String },
    /// The server's answer holds an `error` field.
    Remote { error: String, body: String },
}

/// The status means success.
pub open spec fn is_success(status: u16) -> bool {
    200 <= status <= 299
}

/// The verdict on the server's answer: success only with a success status and
/// a JSON body without an `error` field; each failure carries the body.
pub fn response_outcome(status: u16, body: String, parsed: ResponseBody) -> (r: Result<(), UploadError>)
    ensures
        r is Ok <==> is_success(status) && parsed is Clean,
        !is_success(status) ==> r == Err::<(), UploadError>(UploadError::Status { status, body }),
        is_success(status) && parsed is Malformed ==> r == Err::<(), UploadError>(
            UploadError::Malformed { body },
        ),
        is_success(status) ==> match parsed {
            ResponseBody::Error(e) => r == Err::<(), UploadError>(
                UploadError::Remote { error: e, body },
            ),
            _ => true,
        },
{
    if status < 200 || status > 299 {
        return Err(UploadError::Status { status, body });
    }
    match parsed {
        ResponseBody::Malformed => Err(UploadError::Malformed { body }),
        ResponseBody::Clean => Ok(()),
        ResponseBody::Error(error) => Err(UploadError::Remote { error, body }),
    }
}

/// The decimal digit `d`.
pub open spec fn digit_char(d: int) -> char {
    if d == 0 { '0' } else if d == 1 { '1' } else if d == 2 { '2' } else if d == 3 { '3' }
    else if d == 4 { '4' } else if d == 5 { '5' } else if d == 6 { '6' } else if d == 7 { '7' }
    else if d == 8 { '8' } else { '9' }
}

/// The decimal digits of `n`, without leading zeros.
pub open spec fn decimal(n: nat) -> Seq<char>
    decreases n,
{
    if n < 10 {
        seq![digit_char(n as int)]
    } else {
        decimal(n / 10) + seq![digit_char((n % 10) as int)]
    }
}

/// Appends the decimal digits of `n`.
fn push_decimal(out: &mut String, n: u64)
    ensures
        final(out)@ == old(out)@ + decimal(n as nat),
    decreases n,
{
    if n >= 10 {
        push_decimal(out, n / 10);
    }
    let d = n % 10;
    let c = if d == 0 { '0' } else if d == 1 { '1' } else if d == 2 { '2' } else if d == 3 { '3' }
        else if d == 4 { '4' } else if d == 5 { '5' } else if d == 6 { '6' } else if d == 7 { '7' }
        else if d == 8 { '8' } else { '9' };
    out.push(c);
    proof {
        if n >= 10 {
            assert(final(out)@ =~= old(out)@ + decimal(n as nat));
        } else {
            assert(final(out)@ =~= old(out)@ + decimal(n as nat));
        }
    }
}

/// The path of the code endpoint on the server.
pub const CODE_ENDPOINT: &'static str = "api/user/code";

/// The address that an upload posts to.
pub open spec fn upload_url_of(ssl: bool, hostname: Seq<char>, port: u16, prefix: Option<Seq<char>>) -> Seq<char> {
    (if ssl { "https"@ } else { "http"@ }) + "://"@ + hostname + ":"@ + decimal(port as nat) + "/"@
        + match prefix {
        Some(p) => p + "/"@ + CODE_ENDPOINT@,
        None => CODE_ENDPOINT@,
    }
}

/// The address that an upload posts to:
/// `<scheme>://<host>:<port>/[<prefix>/]api/user/code`.
pub fn upload_url(ssl: bool, hostname: &str, port: u16, prefix: &Option<String>) -> (r: String)
    ensures
        r@ == upload_url_of(
            ssl,
            hostname@,
            port,
            match prefix {
                Some(p) => Some(p@),
                None => None,
            },
        ),
{
    let mut r = String::new();
    if ssl {
        r.append("https");
    } else {
        r.append("http");
    }
    r.append("://");
    r.append(hostname);
    r.append(":");
    push_decimal(&mut r, port as u64);
    r.append("/");
    match prefix {
        Some(p) => {
            r.append(p.as_str());
            r.append("/");
            r.append(CODE_ENDPOINT);
        },
        None => r.append(CODE_ENDPOINT),
    }
    r
}

} // verus!
