//! The `thinking` parameter: which mode a request asks for, and which
//! combinations with it are refused.
use crate::bridge::blocks::{blocks_of, content_blocks, has_type, type_is};
use crate::bridge::error::{bridge_error, BridgeError, BridgeErrorV};
use crate::digest::{base64_padding, base64_text, base64_url_safe, sha256, sha256_of};
use crate::json::{items_view, lemma_items_view, opt_json, Json, JsonV, Num};
use crate::text::{
    concat, concat3, decimal, decimal_text, is_empty, same, split, split_on, texts, trim,
    trim_end_char, trimmed, without_trailing,
};
use vstd::prelude::*;
use vstd::utf8::encode_utf8;

verus! {

broadcast use vstd::string::group_string_axioms;

/// Thinking mode resolved and validated from the request.
#[derive(Clone, Copy, Debug, PartialEq, Eq)]
pub struct ThinkingMeta {
    pub enabled: bool,
    pub budget_tokens: Option<u64>,
    /// True when the request carried the interleaved-thinking beta with
    /// tools offered — the one case `budget_tokens >= max_tokens` is legal.
    pub interleaved: bool,
}

impl Default for ThinkingMeta {
    fn default() -> (r: Self)
        ensures
            r == no_thinking(false),
    {
        ThinkingMeta { enabled: false, budget_tokens: None, interleaved: false }
    }
}

/// Thinking switched off.
pub open spec fn no_thinking(interleaved: bool) -> ThinkingMeta {
    ThinkingMeta { enabled: false, budget_tokens: None, interleaved }
}

/// Floor on an enabled thinking budget.
pub const MIN_THINKING_BUDGET: u64 = 1024;

/// The beta flag that admits interleaved thinking with tools.
pub const INTERLEAVED_THINKING_BETA: &'static str = "interleaved-thinking-2025-05-14";

/// The text that Rust's `Debug` prints for a string: quoted and escaped.
pub uninterp spec fn quoted(s: Seq<char>) -> Seq<char>;

/// `str`'s `Debug` output, made of the string alone.
#[verifier::external_body]
fn quote(s: &str) -> (r: String)
    ensures
        r@ == quoted(s@),
{
    format!("{s:?}")
}

/// Whether a comma-separated header value lists the interleaved-thinking
/// beta, white space around the flags aside.
pub open spec fn lists_beta(beta: Seq<char>) -> bool {
    exists|i: int|
        0 <= i < split_on(beta, ',').len() && trimmed(#[trigger] split_on(beta, ',')[i])
            == INTERLEAVED_THINKING_BETA@
}

/// Whether a `tools` field offers at least one tool.
pub open spec fn offers_tools(tools: Option<JsonV>) -> bool {
    match tools {
        Some(JsonV::Array(items)) => items.len() > 0,
        _ => false,
    }
}

/// The patterns of 0.95 and of 1.0. Positive floats are ordered as their
/// patterns are.
pub const TOP_P_FLOOR_BITS: u64 = 0x3FEE_6666_6666_6666;

pub const TOP_P_CEILING_BITS: u64 = 0x3FF0_0000_0000_0000;

/// Whether a `top_p` is a number outside 0.95..=1.0.
pub open spec fn top_p_out_of_range(top_p: Option<JsonV>) -> bool {
    match top_p {
        Some(JsonV::Int(i)) => i != 1,
        Some(JsonV::Float(bits)) => !(TOP_P_FLOOR_BITS <= bits <= TOP_P_CEILING_BITS),
        _ => false,
    }
}

/// Whether a message is an assistant turn with any content besides redacted
/// thinking.
pub open spec fn is_prefill(message: JsonV) -> bool {
    &&& message.get_str("role"@) == Some("assistant"@)
    &&& match message.get("content"@) {
        Some(JsonV::Str(s)) => s.len() > 0,
        content => exists|i: int|
            0 <= i < blocks_of(content).len() && !type_is(
                #[trigger] blocks_of(content)[i],
                "redacted_thinking"@,
            ),
    }
}

/// Whether the conversation ends in an assistant prefill.
pub open spec fn ends_in_prefill(messages: Option<JsonV>) -> bool {
    match messages {
        Some(JsonV::Array(items)) => items.len() > 0 && is_prefill(items.last()),
        _ => false,
    }
}

pub open spec fn thinking_error(message: Seq<char>) -> BridgeErrorV {
    bridge_error("invalid_thinking"@, message)
}

pub open spec fn switched_on(t: Seq<char>) -> bool {
    t == "enabled"@ || t == "enable"@ || t == "on"@ || t == "true"@
}

pub open spec fn switched_off(t: Seq<char>) -> bool {
    t == "disabled"@ || t == "disable"@ || t == "off"@ || t == "false"@
}

/// Whether the parameter asks for thinking, or why it is malformed.
pub open spec fn asks_for_thinking(v: JsonV) -> Result<bool, BridgeErrorV> {
    match v {
        JsonV::Bool(b) => Ok(b),
        JsonV::Object(_) => match v.get_str("type"@) {
            Some(t) => if switched_on(t) {
                Ok(true)
            } else if switched_off(t) {
                Ok(false)
            } else {
                Err(
                    thinking_error(
                        "thinking.type only supports enabled or disabled, got "@ + quoted(t),
                    ),
                )
            },
            None => Ok(v.get_bool("enabled"@) == Some(true)),
        },
        _ => Err(thinking_error("thinking must be a boolean or an object"@)),
    }
}

/// The budget the parameter names, under either spelling.
pub open spec fn budget_of(v: JsonV) -> Option<u64> {
    match v.get("budget_tokens"@) {
        Some(b) => b.as_u64(),
        None => v.get_u64("budgetTokens"@),
    }
}

/// What a request that enables thinking resolves to: its mode, or the first
/// rule it breaks.
pub open spec fn enabled_thinking(
    budget: Option<u64>,
    max_tokens: Option<JsonV>,
    temperature: Option<JsonV>,
    top_p: Option<JsonV>,
    forced_tool: bool,
    messages: Option<JsonV>,
    interleaved: bool,
) -> Result<ThinkingMeta, BridgeErrorV> {
    if budget is None {
        Err(thinking_error("thinking.enabled requires an integer budget_tokens"@))
    } else if budget->0 < MIN_THINKING_BUDGET {
        Err(
            thinking_error(
                "thinking.budget_tokens must be at least "@ + decimal(MIN_THINKING_BUDGET as nat),
            ),
        )
    } else if max_tokens is Some && max_tokens->0.as_u64() is Some && budget->0
        >= max_tokens->0.as_u64()->0 && !interleaved {
        Err(
            thinking_error(
                "thinking.budget_tokens must be below max_tokens unless the interleaved-thinking beta is enabled with tools"@,
            ),
        )
    } else if temperature is Some {
        Err(thinking_error("thinking mode does not support a custom temperature"@))
    } else if top_p_out_of_range(top_p) {
        Err(thinking_error("thinking mode restricts top_p to 0.95..=1.0"@))
    } else if forced_tool {
        Err(thinking_error("thinking mode does not support a forced tool choice"@))
    } else if ends_in_prefill(messages) {
        Err(
            thinking_error(
                "thinking mode does not support an assistant prefill as the last message"@,
            ),
        )
    } else {
        Ok(ThinkingMeta { enabled: true, budget_tokens: budget, interleaved })
    }
}

/// What a request's `thinking` resolves to.
pub open spec fn thinking_of(
    v: Option<JsonV>,
    max_tokens: Option<JsonV>,
    temperature: Option<JsonV>,
    top_p: Option<JsonV>,
    forced_tool: bool,
    tools: Option<JsonV>,
    messages: Option<JsonV>,
    beta: Seq<char>,
) -> Result<ThinkingMeta, BridgeErrorV> {
    let interleaved = lists_beta(beta) && offers_tools(tools);
    match v {
        None => Ok(no_thinking(interleaved)),
        Some(v) => match asks_for_thinking(v) {
            Err(e) => Err(e),
            Ok(false) => Ok(no_thinking(false)),
            Ok(true) => enabled_thinking(
                budget_of(v),
                max_tokens,
                temperature,
                top_p,
                forced_tool,
                messages,
                interleaved,
            ),
        },
    }
}

/// The view of a result whose error is a [`BridgeError`].
pub open spec fn thinking_result(
    r: Result<ThinkingMeta, BridgeError>,
) -> Result<ThinkingMeta, BridgeErrorV> {
    match r {
        Ok(t) => Ok(t),
        Err(e) => Err(e@),
    }
}

fn beta_listed(beta: &str) -> (r: bool)
    ensures
        r == lists_beta(beta@),
{
    let flags = split(beta, ',');
    let ghost all = split_on(beta@, ',');
    let mut found = false;
    let mut i: usize = 0;
    while i < flags.len()
        invariant
            i <= flags@.len(),
            texts(flags@) == all,
            found <==> exists|j: int|
                0 <= j < i && trimmed(#[trigger] all[j]) == INTERLEAVED_THINKING_BETA@,
        decreases flags@.len() - i,
    {
        assert(all[i as int] == flags@[i as int]@);
        if same(trim(flags[i].as_str()), INTERLEAVED_THINKING_BETA) {
            found = true;
        }
        i = i + 1;
    }
    found
}

fn top_p_refused(top_p: Option<&Json>) -> (r: bool)
    ensures
        r == top_p_out_of_range(opt_json(top_p)),
{
    match top_p {
        Some(Json::Number(n)) => match *n {
            Num::PosInt(u) => u != 1,
            Num::NegInt(i) => i != 1,
            Num::Float(f) => {
                let bits: u64 = f.bits();
                !(TOP_P_FLOOR_BITS <= bits && bits <= TOP_P_CEILING_BITS)
            },
        },
        _ => false,
    }
}

fn prefill(message: &Json) -> (r: bool)
    ensures
        r == is_prefill(message@),
{
    let assistant = match message.get_str("role") {
        Some(role) => same(role, "assistant"),
        None => false,
    };
    if !assistant {
        return false;
    }
    match message.get("content") {
        Some(Json::Str(s)) => !is_empty(s.as_str()),
        content => {
            let blocks = content_blocks(content);
            let ghost all = blocks_of(opt_json(content));
            let mut found = false;
            let mut i: usize = 0;
            proof {
                lemma_items_view(blocks@);
            }
            while i < blocks.len()
                invariant
                    i <= blocks@.len(),
                    items_view(blocks@) == all,
                    all.len() == blocks@.len(),
                    forall|j: int| 0 <= j < all.len() ==> #[trigger] all[j] == blocks@[j]@,
                    found <==> exists|j: int|
                        0 <= j < i && !type_is(#[trigger] all[j], "redacted_thinking"@),
                decreases blocks@.len() - i,
            {
                assert(all[i as int] == blocks@[i as int]@);
                if !has_type(&blocks[i], "redacted_thinking") {
                    found = true;
                }
                i = i + 1;
            }
            found
        },
    }
}

fn invalid(message: &str) -> (r: BridgeError)
    ensures
        r@ == thinking_error(message@),
{
    BridgeError::new("invalid_thinking", message)
}

/// Resolve and validate the `thinking` param: enabled requires an integer
/// `budget_tokens` at or above `MIN_THINKING_BUDGET`; a custom
/// `temperature` is rejected; `top_p` is restricted to [0.95, 1.0]; forced
/// `tool_choice` and an assistant prefill (last message is assistant with
/// any content besides redacted_thinking) are rejected;
/// `budget_tokens >= max_tokens` is rejected unless the
/// interleaved-thinking beta is present with tools.
pub fn resolve_thinking(
    v: Option<&Json>,
    max_tokens: Option<&Json>,
    temperature: Option<&Json>,
    top_p: Option<&Json>,
    forced_tool: bool,
    tools: Option<&Json>,
    messages: Option<&Json>,
    beta: &str,
) -> (r: Result<ThinkingMeta, BridgeError>)
    ensures
        thinking_result(r) == thinking_of(
            opt_json(v),
            opt_json(max_tokens),
            opt_json(temperature),
            opt_json(top_p),
            forced_tool,
            opt_json(tools),
            opt_json(messages),
            beta@,
        ),
{
    let offered = match tools {
        Some(Json::Array(items)) => items.len() > 0,
        _ => false,
    };
    let interleaved = beta_listed(beta) && offered;
    let v = match v {
        None => {
            return Ok(ThinkingMeta { enabled: false, budget_tokens: None, interleaved });
        },
        Some(v) => v,
    };
    let kind = match v {
        Json::Bool(b) => *b,
        Json::Object(_) => match v.get_str("type") {
            Some(t) => {
                if same(t, "enabled") || same(t, "enable") || same(t, "on") || same(t, "true") {
                    true
                } else if same(t, "disabled") || same(t, "disable") || same(t, "off") || same(
                    t,
                    "false",
                ) {
                    false
                } else {
                    let message = concat(
                        "thinking.type only supports enabled or disabled, got ",
                        quote(t).as_str(),
                    );
                    return Err(invalid(message.as_str()));
                }
            },
            None => match v.get_bool("enabled") {
                Some(b) => b,
                None => false,
            },
        },
        _ => {
            return Err(invalid("thinking must be a boolean or an object"));
        },
    };
    if !kind {
        return Ok(ThinkingMeta { enabled: false, budget_tokens: None, interleaved: false });
    }
    let budget = match v.get("budget_tokens") {
        Some(b) => b.as_u64(),
        None => v.get_u64("budgetTokens"),
    };
    let budget: u64 = match budget {
        Some(b) => b,
        None => {
            return Err(invalid("thinking.enabled requires an integer budget_tokens"));
        },
    };
    if budget < MIN_THINKING_BUDGET {
        let message = concat(
            "thinking.budget_tokens must be at least ",
            decimal_text(MIN_THINKING_BUDGET as u128).as_str(),
        );
        return Err(invalid(message.as_str()));
    }
    let max = match max_tokens {
        Some(m) => m.as_u64(),
        None => None,
    };
    if let Some(max) = max {
        if budget >= max && !interleaved {
            return Err(
                invalid(
                    "thinking.budget_tokens must be below max_tokens unless the interleaved-thinking beta is enabled with tools",
                ),
            );
        }
    }
    if temperature.is_some() {
        return Err(invalid("thinking mode does not support a custom temperature"));
    }
    if top_p_refused(top_p) {
        return Err(invalid("thinking mode restricts top_p to 0.95..=1.0"));
    }
    if forced_tool {
        return Err(invalid("thinking mode does not support a forced tool choice"));
    }
    if let Some(Json::Array(items)) = messages {
        let n: usize = items.len();
        if n > 0 {
            proof {
                lemma_items_view(items@);
                assert(items_view(items@).last() == items@[n - 1]@);
            }
            if prefill(&items[n - 1]) {
                return Err(
                    invalid(
                        "thinking mode does not support an assistant prefill as the last message",
                    ),
                );
            }
        }
    }
    Ok(ThinkingMeta { enabled: true, budget_tokens: Some(budget), interleaved })
}

/// The signature of a thinking text: a tagged digest of the request model
/// and the text, in URL-safe base64 without padding.
pub open spec fn signature_of(model: Seq<char>, text: Seq<char>) -> Seq<char> {
    "nimthinking_"@ + base64_text(sha256_of(encode_utf8(model + "\n"@ + text)))
}

/// A base64 text has no padding character in it.
proof fn lemma_base64_unpadded(data: Seq<u8>)
    ensures
        !base64_text(data).contains('='),
    decreases data.len(),
{
    if data.len() >= 3 {
        lemma_base64_unpadded(data.skip(3));
    }
}

/// Stripping the padding off a padded base64 text leaves the bare one.
proof fn lemma_strip_padding(data: Seq<u8>)
    ensures
        without_trailing(base64_text(data) + base64_padding(data.len()), '=') == base64_text(data),
{
    lemma_base64_unpadded(data);
    let bare = base64_text(data);
    let n = data.len();
    assert(without_trailing(bare, '=') == bare) by {
        if bare.len() > 0 {
            assert(bare.contains(bare.last()));
        }
    }
    let one = bare.push('=');
    let two = one.push('=');
    assert(one.drop_last() == bare);
    assert(two.drop_last() == one);
    assert(without_trailing(one, '=') == bare);
    assert(without_trailing(two, '=') == bare);
    if n % 3 == 1 {
        assert(bare + base64_padding(n) == two);
    } else if n % 3 == 2 {
        assert(bare + base64_padding(n) == one);
    } else {
        assert(bare + base64_padding(n) == bare);
    }
}

/// The synthetic signature on an emitted `thinking` block: a tagged
/// SHA-256 digest of the request model and the thinking text. It is
/// documented as synthetic — this is an identity marker, not a
/// cryptographic attestation of the thinking.
pub fn synthetic_thinking_signature(model: &str, text: &str) -> (r: String)
    ensures
        r@ == signature_of(model@, text@),
{
    let message = concat3(model, "\n", text);
    let digest = sha256(message.as_str().as_bytes());
    let padded = base64_url_safe(digest.as_slice());
    proof {
        lemma_strip_padding(digest@);
    }
    let encoded = trim_end_char(padded.as_str(), '=');
    concat("nimthinking_", encoded.as_str())
}

}
