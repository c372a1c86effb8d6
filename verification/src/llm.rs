//! Deep explanations from a language model: the request that asks the
//! Anthropic Messages API to explain a finding for a non-expert, seeded with
//! the offline answer, and what its reply comes to. The HTTP exchange and
//! the reading of the reply's JSON are the application's.

use vstd::prelude::*;
use vstd::string::StringExecFns;

use crate::knowledge::{explanation_of, Explanation, KnowledgeBase};
use crate::lang::Lang;
use crate::text::{chars_of, push_char, push_str, trim, trim_chars, string_from_chars, views};

verus! {

broadcast use vstd::seq_lib::group_seq_properties;

/// Where explanation requests go.
pub const API_URL: &'static str = "https://api.anthropic.com/v1/messages";

/// The API version requests ask for.
pub const API_VERSION: &'static str = "2023-06-01";

/// The longest answer requested, in tokens.
pub const MAX_TOKENS: u32 = 1024;

// ----- JSON strings -----

/// The hexadecimal digit of `n` (below 16), lower case.
pub open spec fn hex_digit(n: nat) -> char {
    if n < 10 {
        ((n + 48) as u32) as char
    } else {
        ((n + 87) as u32) as char
    }
}

/// What one character becomes inside a JSON string: `"` and `\` get a
/// backslash; backspace, form feed, newline, carriage return and tab their
/// short escapes; the other control characters below U+0020 `\u00XX` in
/// lower-case hexadecimal; everything else stays as it is.
pub open spec fn json_escape_char(c: char) -> Seq<char> {
    if c == '"' {
        seq!['\\', '"']
    } else if c == '\\' {
        seq!['\\', '\\']
    } else if c == '\x08' {
        seq!['\\', 'b']
    } else if c == '\x0C' {
        seq!['\\', 'f']
    } else if c == '\n' {
        seq!['\\', 'n']
    } else if c == '\r' {
        seq!['\\', 'r']
    } else if c == '\t' {
        seq!['\\', 't']
    } else if (c as u32) < 0x20 {
        seq!['\\', 'u', '0', '0', hex_digit((c as u32 / 16) as nat), hex_digit((c as u32 % 16) as nat)]
    } else {
        seq![c]
    }
}

pub open spec fn json_escaped(s: Seq<char>) -> Seq<char>
    decreases s.len(),
{
    if s.len() == 0 {
        Seq::empty()
    } else {
        json_escaped(s.drop_last()) + json_escape_char(s.last())
    }
}

/// `s` as a JSON string literal, quotes included.
pub open spec fn json_quoted(s: Seq<char>) -> Seq<char> {
    seq!['"'] + json_escaped(s) + seq!['"']
}

/// `serde_json::to_string` of a string slice: the string as a JSON string
/// literal. The escaping claimed is serde_json's table of escapes for
/// strings (see [`json_escape_char`]); serialising a `str` cannot fail.
#[verifier::external_body]
fn json_string(s: &str) -> (r: String)
    ensures
        r@ == json_quoted(s@),
{
    serde_json::to_string(s).unwrap_or_default()
}

// ----- the request -----

/// The instructions the model gets, in the language it should answer in.
pub open spec fn system_prompt_text(lang: Lang) -> Seq<char> {
    match lang {
        Lang::En => "You are SysMedic, a careful Linux system doctor. Explain the given diagnostic finding to a non-expert in clear, plain English. Cover: what caused it, whether it is dangerous, its impact, how to fix it safely, and the risk of ignoring it. Be concise (a few short paragraphs). Never invent shell commands that could damage the system; prefer the safe remedy provided. Respond in English."@,
        Lang::Ar => "أنت SysMedic، طبيبٌ حَذِرٌ لنظام لينكس. اشرح نتيجة التشخيص المعطاة لمستخدم غير خبير بلغةٍ عربيةٍ واضحةٍ وبسيطة. غطِّ: ما سببها، وهل هي خطيرة، وما تأثيرها، وكيف تُصلَح بأمان، وما خطر تجاهلها. كن موجزًا (بضع فقرات قصيرة). لا تخترع أوامر قد تُتلف النظام؛ فضِّل العلاج الآمن المُقدَّم. أجب بالعربية."@,
    }
}

/// The instructions the model gets (see [`system_prompt_text`]).
pub fn system_prompt(lang: Lang) -> (s: &'static str)
    ensures
        s@ == system_prompt_text(lang),
{
    match lang {
        Lang::En => "You are SysMedic, a careful Linux system doctor. Explain the given diagnostic finding to a non-expert in clear, plain English. Cover: what caused it, whether it is dangerous, its impact, how to fix it safely, and the risk of ignoring it. Be concise (a few short paragraphs). Never invent shell commands that could damage the system; prefer the safe remedy provided. Respond in English.",
        Lang::Ar => "أنت SysMedic، طبيبٌ حَذِرٌ لنظام لينكس. اشرح نتيجة التشخيص المعطاة لمستخدم غير خبير بلغةٍ عربيةٍ واضحةٍ وبسيطة. غطِّ: ما سببها، وهل هي خطيرة، وما تأثيرها، وكيف تُصلَح بأمان، وما خطر تجاهلها. كن موجزًا (بضع فقرات قصيرة). لا تخترع أوامر قد تُتلف النظام؛ فضِّل العلاج الآمن المُقدَّم. أجب بالعربية.",
    }
}

/// The question: the finding id, the evidence from this machine when there
/// is any (trimmed), and the offline answer to refine when the knowledge
/// base has one.
pub open spec fn user_message_text(id: Seq<char>, context: Seq<char>, offline: Option<Explanation>) -> Seq<char> {
    "Diagnostic finding id: "@ + id + "\n"@ + (if trim(context).len() == 0 {
        Seq::empty()
    } else {
        "Evidence from this machine: "@ + trim(context) + "\n"@
    }) + match offline {
        Some(o) => "\nBaseline offline answer to refine and personalize:\n- Cause: "@ + o.cause@
            + "\n- Dangerous: "@ + o.dangerous@ + "\n- Impact: "@ + o.impact@ + "\n- Remedy: "@
            + o.remedy@ + "\n- If ignored: "@ + o.risk_if_ignored@ + "\n"@,
        None => Seq::empty(),
    }
}

/// The question sent to the model (see [`user_message_text`]).
pub fn user_message(finding_id: &str, context: &str, offline: Option<&Explanation>) -> (msg: String)
    ensures
        msg@ == user_message_text(
            finding_id@,
            context@,
            match offline {
                Some(o) => Some(*o),
                None => None,
            },
        ),
{
    let mut msg = String::from_str("Diagnostic finding id: ");
    push_str(&mut msg, finding_id);
    push_str(&mut msg, "\n");
    let ghost a = msg@;
    let trimmed = trim_chars(&chars_of(context));
    if trimmed.len() > 0 {
        push_str(&mut msg, "Evidence from this machine: ");
        let t = string_from_chars(&trimmed);
        push_str(&mut msg, t.as_str());
        push_str(&mut msg, "\n");
    }
    match offline {
        Some(o) => {
            push_str(&mut msg, "\nBaseline offline answer to refine and personalize:\n- Cause: ");
            push_str(&mut msg, o.cause.as_str());
            push_str(&mut msg, "\n- Dangerous: ");
            push_str(&mut msg, o.dangerous.as_str());
            push_str(&mut msg, "\n- Impact: ");
            push_str(&mut msg, o.impact.as_str());
            push_str(&mut msg, "\n- Remedy: ");
            push_str(&mut msg, o.remedy.as_str());
            push_str(&mut msg, "\n- If ignored: ");
            push_str(&mut msg, o.risk_if_ignored.as_str());
            push_str(&mut msg, "\n");
        },
        None => {},
    }
    msg
}

/// The request body: a JSON object with the model, the answer limit, the
/// instructions and the one user message, keys in sorted order and no
/// spaces, as serde_json writes an object built with `json!`.
pub open spec fn request_body_text(model: Seq<char>, system: Seq<char>, user: Seq<char>) -> Seq<char> {
    "{\"max_tokens\":1024,\"messages\":[{\"content\":"@ + json_quoted(user) + ",\"role\":\"user\"}],\"model\":"@
        + json_quoted(model) + ",\"system\":"@ + json_quoted(system) + "}"@
}

/// An explanation request, ready to be sent.
pub struct HttpRequest {
    pub url: String,
    pub headers: Vec<(String, String)>,
    pub body: String,
}

/// Asks a language model to explain findings.
pub struct LlmExplainer {
    api_key: String,
    model: String,
}

impl LlmExplainer {
    pub closed spec fn key(&self) -> Seq<char> {
        self.api_key@
    }

    pub closed spec fn model_name(&self) -> Seq<char> {
        self.model@
    }

    /// An explainer that signs its requests with `api_key` and asks `model`.
    pub fn new(api_key: &str, model: &str) -> (e: LlmExplainer)
        ensures
            e.key() == api_key@,
            e.model_name() == model@,
    {
        LlmExplainer { api_key: String::from_str(api_key), model: String::from_str(model) }
    }

    /// The model asked.
    pub fn model(&self) -> (m: &str)
        ensures
            m@ == self.model_name(),
    {
        self.model.as_str()
    }

    /// The body of the request for `finding_id` (see
    /// [`request_body_text`]).
    pub fn build_request(&self, finding_id: &str, context: &str, lang: Lang, offline: Option<&Explanation>) -> (body: String)
        ensures
            body@ == request_body_text(
                self.model_name(),
                system_prompt_text(lang),
                user_message_text(
                    finding_id@,
                    context@,
                    match offline {
                        Some(o) => Some(*o),
                        None => None,
                    },
                ),
            ),
    {
        let user = user_message(finding_id, context, offline);
        let mut body = String::from_str("{\"max_tokens\":1024,\"messages\":[{\"content\":");
        let q = json_string(user.as_str());
        push_str(&mut body, q.as_str());
        push_str(&mut body, ",\"role\":\"user\"}],\"model\":");
        let m = json_string(self.model.as_str());
        push_str(&mut body, m.as_str());
        push_str(&mut body, ",\"system\":");
        let sp = json_string(system_prompt(lang));
        push_str(&mut body, sp.as_str());
        push_str(&mut body, "}");
        body
    }

    /// The request asking for a deep explanation of `finding_id` in `lang`:
    /// posted to [`API_URL`] with the API key, the API version and a JSON
    /// content type, its body seeded with the knowledge base's offline
    /// answer when there is one.
    pub fn request(&self, kb: &KnowledgeBase, finding_id: &str, context: &str, lang: Lang) -> (r: HttpRequest)
        ensures
            r.url@ == API_URL@,
            r.headers@.len() == 3,
            r.headers@[0].0@ == "x-api-key"@ && r.headers@[0].1@ == self.key(),
            r.headers@[1].0@ == "anthropic-version"@ && r.headers@[1].1@ == API_VERSION@,
            r.headers@[2].0@ == "content-type"@ && r.headers@[2].1@ == "application/json"@,
            r.body@ == request_body_text(
                self.model_name(),
                system_prompt_text(lang),
                user_message_text(finding_id@, context@, explanation_of(*kb, finding_id@, lang)),
            ),
    {
        let offline = kb.explain(finding_id, lang);
        let body = self.build_request(finding_id, context, lang, offline);
        let headers = vec![
            (String::from_str("x-api-key"), self.api_key.clone()),
            (String::from_str("anthropic-version"), String::from_str(API_VERSION)),
            (String::from_str("content-type"), String::from_str("application/json")),
        ];
        HttpRequest { url: String::from_str(API_URL), headers, body }
    }
}

// ----- the reply -----

/// One block of the reply's content: its type and its text (empty when it
/// has none).
pub struct ContentBlock {
    pub kind: String,
    pub text: String,
}

/// What the reply said, as read from its JSON.
pub enum ApiReply {
    /// The reply carried an error object with this message.
    Error(String),
    /// The reply's content blocks, in order.
    Content(Vec<ContentBlock>),
    /// The reply could not be read; why.
    Unreadable(String),
}

/// The text of the blocks of type `text`, in order.
pub open spec fn text_of(bs: Seq<ContentBlock>) -> Seq<char>
    decreases bs.len(),
{
    if bs.len() == 0 {
        Seq::empty()
    } else {
        text_of(bs.drop_last()) + if bs.last().kind@ == "text"@ {
            bs.last().text@
        } else {
            Seq::empty()
        }
    }
}

/// What a reply comes to: the API's error, the reason it could not be
/// read, "empty response" when its text blocks hold only whitespace, or
/// their text.
pub open spec fn reply_result(reply: ApiReply) -> Result<Seq<char>, Seq<char>> {
    match reply {
        ApiReply::Error(m) => Err("API error: "@ + m@),
        ApiReply::Unreadable(e) => Err("could not parse response: "@ + e@),
        ApiReply::Content(bs) => if trim(text_of(bs@)).len() == 0 {
            Err("empty response"@)
        } else {
            Ok(text_of(bs@))
        },
    }
}

/// What `reply` comes to (see [`reply_result`]).
pub fn reply_text(reply: &ApiReply) -> (r: Result<String, String>)
    ensures
        match r {
            Ok(t) => reply_result(*reply) == Ok::<Seq<char>, Seq<char>>(t@),
            Err(e) => reply_result(*reply) == Err::<Seq<char>, Seq<char>>(e@),
        },
{
    match reply {
        ApiReply::Error(m) => {
            let mut e = String::from_str("API error: ");
            push_str(&mut e, m.as_str());
            Err(e)
        },
        ApiReply::Unreadable(why) => {
            let mut e = String::from_str("could not parse response: ");
            push_str(&mut e, why.as_str());
            Err(e)
        },
        ApiReply::Content(bs) => {
            let mut text = String::new();
            for i in 0..bs.len()
                invariant
                    text@ == text_of(bs@.take(i as int)),
            {
                proof {
                    let t = bs@.take(i + 1);
                    assert(t.drop_last() == bs@.take(i as int));
                    assert(t.last() == bs@[i as int]);
                }
                if crate::text::str_eq(bs[i].kind.as_str(), "text") {
                    push_str(&mut text, bs[i].text.as_str());
                }
                assert(text@ =~= text_of(bs@.take(i + 1)));
            }
            assert(bs@.take(bs@.len() as int) == bs@);
            if trim_chars(&chars_of(text.as_str())).len() == 0 {
                Err(String::from_str("empty response"))
            } else {
                Ok(text)
            }
        },
    }
}

/// The deep explanation a request earned: the reply's text, or nothing
/// when the exchange failed (`Err`, a transport error) or the reply was an
/// error, unreadable or empty. The caller then falls back to the offline
/// answer.
pub fn answer(exchange: Result<ApiReply, String>) -> (r: Option<String>)
    ensures
        match exchange {
            Ok(reply) => match reply_result(reply) {
                Ok(t) => r matches Some(s) && s@ == t,
                Err(_) => r is None,
            },
            Err(_) => r is None,
        },
{
    match exchange {
        Ok(reply) => match reply_text(&reply) {
            Ok(t) => Some(t),
            Err(_) => None,
        },
        Err(_) => None,
    }
}

} // verus!
