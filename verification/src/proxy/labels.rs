//! Metric labels of bounded cardinality and a safe charset.
use crate::bridge::request::{ChatPayload, ToolMeta};
use crate::bridge::sse::StreamMeta;
use crate::bridge::tools::ToolFamily;
use crate::text::{chars_of, same, texts};
use vstd::hash_set::StringHashSet;
use vstd::prelude::*;

verus! {

broadcast use vstd::string::group_string_axioms;

/// Cap on distinct `model` label values tracked, past which new models are
/// bucketed to "other" so an attacker can't explode metric cardinality.
pub const MODEL_LABEL_CAP: usize = 256;

/// Longest label.
pub const LABEL_LEN: usize = 64;

/// Characters that are inert in the Prometheus exposition format, logs and
/// terminals.
pub open spec fn safe_char(c: char) -> bool {
    ||| 'a' <= c <= 'z'
    ||| 'A' <= c <= 'Z'
    ||| '0' <= c <= '9'
    ||| c == '.'
    ||| c == '_'
    ||| c == '-'
    ||| c == '/'
    ||| c == ':'
}

/// The safe characters of a text, in order.
pub open spec fn safe_chars(s: Seq<char>) -> Seq<char>
    decreases s.len(),
{
    if s.len() == 0 {
        Seq::empty()
    } else if safe_char(s.last()) {
        safe_chars(s.drop_last()).push(s.last())
    } else {
        safe_chars(s.drop_last())
    }
}

/// The label of a text: its first safe characters, or `none`.
pub open spec fn label_of(s: Seq<char>) -> Seq<char> {
    let safe = safe_chars(s);
    if safe.len() == 0 {
        "none"@
    } else if safe.len() <= LABEL_LEN {
        safe
    } else {
        safe.take(LABEL_LEN as int)
    }
}

/// The safe characters of a beginning are the beginning of the safe
/// characters.
proof fn lemma_safe_prefix(s: Seq<char>, n: int)
    requires
        0 <= n <= s.len(),
    ensures
        safe_chars(s.take(n)).len() <= safe_chars(s).len(),
        safe_chars(s).take(safe_chars(s.take(n)).len() as int) == safe_chars(s.take(n)),
    decreases s.len() - n,
{
    if n < s.len() {
        assert(s.take(n + 1).drop_last() == s.take(n));
        lemma_safe_prefix(s, n + 1);
        let a = safe_chars(s.take(n));
        let b = safe_chars(s.take(n + 1));
        let c = safe_chars(s);
        assert(b.take(a.len() as int) == a);
        assert(c.take(a.len() as int) == c.take(b.len() as int).take(a.len() as int));
    } else {
        assert(s.take(n) == s);
        assert(safe_chars(s).take(safe_chars(s).len() as int) == safe_chars(s));
    }
}

proof fn lemma_safe_chars(s: Seq<char>)
    ensures
        forall|i: int| 0 <= i < safe_chars(s).len() ==> safe_char(#[trigger] safe_chars(s)[i]),
    decreases s.len(),
{
    if s.len() > 0 {
        let head = safe_chars(s.drop_last());
        lemma_safe_chars(s.drop_last());
        assert forall|i: int| 0 <= i < safe_chars(s).len() implies safe_char(
            #[trigger] safe_chars(s)[i],
        ) by {
            if i < head.len() {
                assert(safe_chars(s)[i] == head[i]);
            }
        }
    }
}

/// A label is never empty, never longer than the cap, and holds safe
/// characters only.
pub proof fn law_labels_are_safe(s: Seq<char>)
    ensures
        0 < label_of(s).len() <= LABEL_LEN,
        forall|i: int| 0 <= i < label_of(s).len() ==> safe_char(#[trigger] label_of(s)[i]),
{
    lemma_safe_chars(s);
    reveal_strlit("none");
    assert("none"@ == seq!['n', 'o', 'n', 'e']);
}

/// Reduce an arbitrary client-supplied string to a safe metric-label / log
/// value: keep a conservative charset (which model ids use), drop everything
/// else (quotes, braces, newlines, control/ANSI — the injection vectors for
/// Prometheus exposition, structured logs, and terminals), and cap length.
pub fn sanitize_label(raw: &str) -> (r: String)
    ensures
        r@ == label_of(raw@),
{
    let chars = chars_of(raw);
    let mut out = String::new();
    let mut count: usize = 0;
    let mut i: usize = 0;
    assert(chars@.take(0) == Seq::<char>::empty());
    while i < chars.len() && count < LABEL_LEN
        invariant
            i <= chars@.len(),
            count <= LABEL_LEN,
            count == out@.len(),
            out@ == safe_chars(chars@.take(i as int)),
        decreases chars@.len() - i,
    {
        let c: char = chars[i];
        assert(chars@.take(i + 1).drop_last() == chars@.take(i as int));
        if ('a' <= c && c <= 'z') || ('A' <= c && c <= 'Z') || ('0' <= c && c <= '9') || c == '.'
            || c == '_' || c == '-' || c == '/' || c == ':' {
            out.push(c);
            count = count + 1;
        }
        i = i + 1;
    }
    proof {
        lemma_safe_prefix(chars@, i as int);
        assert(chars@.take(chars@.len() as int) == chars@);
    }
    if count == 0 {
        "none".to_owned()
    } else {
        out
    }
}

/// The label values seen so far.
pub struct LabelSet {
    seen: StringHashSet,
}

impl View for LabelSet {
    type V = Set<Seq<char>>;

    closed spec fn view(&self) -> Set<Seq<char>> {
        self.seen@
    }
}

impl LabelSet {
    /// Only finitely many values were ever seen.
    #[verifier::type_invariant]
    spec fn well_formed(self) -> bool {
        self.seen@.finite()
    }

    pub fn new() -> (r: Self)
        ensures
            r@ == Set::<Seq<char>>::empty(),
    {
        LabelSet { seen: StringHashSet::new() }
    }

    pub fn contains(&self, s: &str) -> (r: bool)
        ensures
            r == self@.contains(s@),
            self@.finite(),
    {
        proof {
            use_type_invariant(self);
        }
        self.seen.contains(s)
    }

    pub fn len(&self) -> (r: usize)
        ensures
            r == self@.len(),
            self@.finite(),
    {
        proof {
            use_type_invariant(self);
        }
        self.seen.len()
    }

    pub fn insert(&mut self, s: String)
        ensures
            final(self)@ == old(self)@.insert(s@),
            final(self)@.finite(),
    {
        proof {
            use_type_invariant(&*self);
        }
        let mut seen = StringHashSet::new();
        std::mem::swap(&mut seen, &mut self.seen);
        let _ = seen.insert(s);
        self.seen = seen;
    }
}

/// The label a value gets, given the ones seen: itself where it was seen or
/// there is room for it, else `other`.
pub open spec fn bounded(seen: Set<Seq<char>>, s: Seq<char>, cap: nat) -> Seq<char> {
    if seen.contains(s) || seen.len() < cap {
        s
    } else {
        "other"@
    }
}

/// The values seen after a value.
pub open spec fn seen_after(seen: Set<Seq<char>>, s: Seq<char>, cap: nat) -> Set<Seq<char>> {
    if !seen.contains(s) && seen.len() < cap {
        seen.insert(s)
    } else {
        seen
    }
}

/// Cardinality guard: return `s` if already seen or under the cap (recording
/// it), else "other".
pub fn bounded_label(seen: &mut LabelSet, s: String, cap: usize) -> (r: String)
    ensures
        r@ == bounded(old(seen)@, s@, cap as nat),
        final(seen)@ == seen_after(old(seen)@, s@, cap as nat),
        old(seen)@.finite(),
        final(seen)@.finite(),
        final(seen)@.len() <= if old(seen)@.len() < cap {
            cap as nat
        } else {
            old(seen)@.len()
        },
        old(seen)@.subset_of(final(seen)@),
{
    if seen.contains(s.as_str()) {
        s
    } else if seen.len() < cap {
        seen.insert(s.clone());
        s
    } else {
        "other".to_owned()
    }
}

/// The values seen never grow past the cap, or past what they were where that
/// is more; none is ever forgotten; and every label given is one of them or
/// `other`: at most one label more than the cap exists.
pub proof fn law_label_cardinality_is_bounded(seen: Set<Seq<char>>, s: Seq<char>, cap: nat)
    requires
        seen.finite(),
    ensures
        seen_after(seen, s, cap).finite(),
        seen_after(seen, s, cap).len() <= if seen.len() < cap {
            cap
        } else {
            seen.len()
        },
        seen.subset_of(seen_after(seen, s, cap)),
        seen_after(seen, s, cap).contains(bounded(seen, s, cap)) || bounded(seen, s, cap)
            == "other"@,
{
}

/// Sanitize a model id and bound its cardinality: known models pass through,
/// but once `MODEL_LABEL_CAP` distinct values have been seen, further new
/// ones collapse to "other".
pub fn label_model(seen: &mut LabelSet, raw: &str) -> (r: String)
    ensures
        r@ == bounded(old(seen)@, label_of(raw@), MODEL_LABEL_CAP as nat),
        final(seen)@ == seen_after(old(seen)@, label_of(raw@), MODEL_LABEL_CAP as nat),
{
    let s = sanitize_label(raw);
    bounded_label(seen, s, MODEL_LABEL_CAP)
}

/// Whether a path is one of the known endpoints.
pub open spec fn known_path(path: Seq<char>) -> bool {
    ||| path == "/v1/chat/completions"@
    ||| path == "/v1/completions"@
    ||| path == "/v1/embeddings"@
    ||| path == "/v1/models"@
    ||| path == "/v1/rankings"@
}

/// The label of a path.
pub open spec fn path_label(path: Seq<char>) -> Seq<char> {
    if known_path(path) {
        path
    } else {
        "other"@
    }
}

/// Bound the `path` label to the known OpenAI endpoints; anything else
/// (arbitrary sub-paths a client can hit under /v1/) becomes "other".
pub fn label_path(path: &str) -> (r: String)
    ensures
        r@ == path_label(path@),
{
    if same(path, "/v1/chat/completions") || same(path, "/v1/completions") || same(
        path,
        "/v1/embeddings",
    ) || same(path, "/v1/models") || same(path, "/v1/rankings") {
        path.to_owned()
    } else {
        "other".to_owned()
    }
}

/// The label of a tool family.
pub open spec fn family_label(family: ToolFamily) -> Seq<char> {
    match family {
        ToolFamily::Bash => "bash"@,
        ToolFamily::TextEditor => "text_editor"@,
        ToolFamily::Memory => "memory"@,
        ToolFamily::WebSearch => "web_search"@,
        ToolFamily::WebFetch => "web_search"@,
        ToolFamily::Computer => "computer"@,
        ToolFamily::Custom => "custom"@,
    }
}

/// The Anthropic server-tool family label, drawn from the frozen bridge
/// vocabulary: tool types derive to a bounded family name, and rejected
/// server tools (unknown types, `mcp_toolset`, programmatic-only callers)
/// count as `server_rejected` — one bucket, never one per tool name.
pub fn tool_type_label(family: ToolFamily) -> (r: &'static str)
    ensures
        r@ == family_label(family),
{
    match family {
        ToolFamily::Bash => "bash",
        ToolFamily::TextEditor => "text_editor",
        ToolFamily::Memory => "memory",
        ToolFamily::WebSearch => "web_search",
        ToolFamily::WebFetch => "web_search",
        ToolFamily::Computer => "computer",
        ToolFamily::Custom => "custom",
    }
}

/// Whether the caller runs a family's tools itself.
pub open spec fn client_family(family: ToolFamily) -> bool {
    family != ToolFamily::WebSearch && family != ToolFamily::WebFetch
}

/// The names of the tools offered to the caller, in order.
pub open spec fn client_names(tools: Seq<ToolMeta>) -> Seq<Seq<char>>
    decreases tools.len(),
{
    if tools.len() == 0 {
        Seq::empty()
    } else {
        let head = client_names(tools.drop_last());
        if client_family(tools.last().family) {
            head.push(tools.last().name@)
        } else {
            head
        }
    }
}

/// The streaming translator's request metadata: the client's model for the
/// `message_start` echo, plus the client-offered tool names (non-Web
/// families — the same set the buffered response transform echoes
/// `caller: {"type": "direct"}` on).
pub fn messages_stream_meta(payload: &ChatPayload, request_model: &str) -> (r: StreamMeta)
    ensures
        r@.client_tool_names == client_names(payload.tool_meta@),
        r@.model == request_model@,
{
    let tools = &payload.tool_meta;
    let mut names: Vec<String> = Vec::new();
    let mut i: usize = 0;
    assert(tools@.take(0) == Seq::<ToolMeta>::empty());
    assert(texts(names@) == Seq::<Seq<char>>::empty());
    while i < tools.len()
        invariant
            i <= tools@.len(),
            texts(names@) == client_names(tools@.take(i as int)),
        decreases tools@.len() - i,
    {
        assert(tools@.take(i + 1).drop_last() == tools@.take(i as int));
        let family = tools[i].family;
        if family != ToolFamily::WebSearch && family != ToolFamily::WebFetch {
            let name = tools[i].name.clone();
            assert(texts(names@.push(name)) == texts(names@).push(name@));
            names.push(name);
        }
        i = i + 1;
    }
    assert(tools@.take(tools@.len() as int) == tools@);
    StreamMeta { client_tool_names: names, model: request_model.to_owned() }
}

}
