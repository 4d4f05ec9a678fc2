//! The conversation store and agent loop: an ordered, append-mostly
//! sequence of maskable messages, the model-visible rendering with id
//! tags, and the prompt cycle with continuation and retry policy.

use vstd::prelude::*;
use vstd::string::StringExecFns;
use crate::api::{LLMApi, LLMApiError, StopReason, Usage};
use crate::clock::{millis_since, monotonic_now, pause_millis};
use crate::protocol::{decode_action, spec_decode, DecodeError, LLMResponse};
use crate::content::{
    content_items, content_text, Content, ContentItem, ContentV, ItemV, Message, MsgV, Role,
};
use crate::text::{
    all_digits, chars_string, dec_str, decimal_value, digit, digits_val, str_chars, u64_string,
};

verus! {

/// Mathematical value of a [`MaskableMessage`].
pub ghost struct EntryV {
    pub id: nat,
    pub masked: bool,
    pub msg: MsgV,
}

/// One stored conversation entry: a message plus its permanent id and its
/// masking flag.
#[derive(Debug)]
pub struct MaskableMessage {
    id: usize,
    is_masked: bool,
    msg: Message,
}

impl View for MaskableMessage {
    type V = EntryV;

    closed spec fn view(&self) -> EntryV {
        EntryV { id: self.id as nat, masked: self.is_masked, msg: self.msg@ }
    }
}

impl Clone for MaskableMessage {
    fn clone(&self) -> (r: Self)
        ensures
            r@ == self@,
    {
        MaskableMessage { id: self.id, is_masked: self.is_masked, msg: self.msg.clone() }
    }
}

/// The literal id tag prefixed to an entry's rendering: the decimal id
/// followed by `>>`.
pub open spec fn id_tag(id: nat) -> Seq<char> {
    dec_str(id) + ">>"@
}

/// Content with the id tag attached: prepended to a lone text item, and
/// inserted as a new leading text item otherwise.
pub open spec fn tag_content(id: nat, c: ContentV) -> ContentV {
    match c {
        ContentV::Single(ItemV::Text(t)) => ContentV::Single(ItemV::Text(id_tag(id) + t)),
        ContentV::Single(i) => ContentV::Multiple(seq![ItemV::Text(id_tag(id)), i]),
        ContentV::Multiple(is) => ContentV::Multiple(seq![ItemV::Text(id_tag(id))] + is),
    }
}

/// An entry as the backend sees it: same role, tagged content.
pub open spec fn tag_message(e: EntryV) -> MsgV {
    MsgV { role: e.msg.role, content: tag_content(e.id, e.msg.content) }
}

impl MaskableMessage {
    /// Merge further content into the stored message.
    pub fn extend_with_content(&mut self, content: Content)
        ensures
            final(self)@.id == old(self)@.id,
            final(self)@.masked == old(self)@.masked,
            final(self)@.msg.role == old(self)@.msg.role,
            final(self)@.msg.content is Multiple,
            content_items(final(self)@.msg.content) =~= content_items(old(self)@.msg.content)
                + content_items(content@),
    {
        self.msg.extend_with_content(content);
    }

    /// The stored message, untagged.
    pub fn get_message(&self) -> (r: &Message)
        ensures
            r@ == self@.msg,
    {
        &self.msg
    }

    /// The rendering of this entry: `None` when masked, the tagged
    /// message otherwise.
    pub fn to_message_with_id(&self) -> (r: Option<Message>)
        ensures
            r is Some <==> !self@.masked,
            r is Some ==> r->0@ == tag_message(self@),
    {
        match self.is_masked {
            true => None,
            false => Some(self.to_message_with_id_no_mask()),
        }
    }

    /// The tagged message, regardless of masking.
    pub fn to_message_with_id_no_mask(&self) -> (r: Message)
        ensures
            r@ == tag_message(self@),
    {
        let mut id_msg = u64_string(self.id as u64);
        id_msg.append(">>");
        let content_with_id = match &self.msg.content {
            Content::Single(c) => match c {
                ContentItem::Text(txt) => {
                    let mut t = id_msg;
                    t.append(txt.as_str());
                    Content::Single(ContentItem::Text(t))
                },
                ContentItem::Image(img) => {
                    let mut items: Vec<ContentItem> = Vec::new();
                    items.push(ContentItem::Text(id_msg));
                    items.push(ContentItem::Image(img.clone()));
                    proof {
                        assert(items@.map_values(|item: ContentItem| item@) =~= seq![
                            ItemV::Text(id_tag(self@.id)),
                            self@.msg.content->Single_0,
                        ]);
                    }
                    Content::Multiple(items)
                },
            },
            Content::Multiple(cs) => {
                let mut items = cs.clone();
                items.insert(0, ContentItem::Text(id_msg));
                proof {
                    let f = |item: ContentItem| item@;
                    let orig = cs@.map_values(f);
                    assert forall|k: int| 0 <= k < cs@.len() implies items@.map_values(f)[k + 1]
                        == orig[k] by {
                        assert(cloned::<ContentItem>(cs@[k], items@[k + 1]));
                    };
                    assert(items@.map_values(f) =~= seq![ItemV::Text(id_tag(self@.id))] + orig);
                }
                Content::Multiple(items)
            },
        };
        Message { role: self.msg.role, content: content_with_id }
    }
}

/// The model-visible rendering of a sequence of entries: masked entries
/// filtered out, each remaining entry tagged with its id.
pub open spec fn render_entries(es: Seq<EntryV>) -> Seq<MsgV>
    decreases es.len(),
{
    if es.len() == 0 {
        Seq::<MsgV>::empty()
    } else {
        render_entries(es.drop_last()) + if es.last().masked {
            Seq::<MsgV>::empty()
        } else {
            seq![tag_message(es.last())]
        }
    }
}

/// The views of a sequence of messages.
pub open spec fn msgs_view(ms: Seq<Message>) -> Seq<MsgV> {
    ms.map_values(|m: Message| m@)
}

/// The same entry with its masking flag set.
pub open spec fn masked_entry(e: EntryV) -> EntryV {
    EntryV { id: e.id, masked: true, msg: e.msg }
}

/// Masking one entry renders exactly as if the entry were absent: every
/// other entry keeps its id tag and its place.
pub proof fn lemma_mask_renders_as_removed(es: Seq<EntryV>, i: int)
    requires
        0 <= i < es.len(),
    ensures
        render_entries(es.update(i, masked_entry(es[i]))) =~= render_entries(es.remove(i)),
    decreases es.len(),
{
    let upd = es.update(i, masked_entry(es[i]));
    let rem = es.remove(i);
    if i == es.len() - 1 {
        assert(upd.drop_last() =~= es.drop_last());
        assert(rem =~= es.drop_last());
        assert(upd.last().masked);
        assert(render_entries(upd) =~= render_entries(es.drop_last()));
    } else {
        assert(upd.drop_last() =~= es.drop_last().update(i, masked_entry(es.drop_last()[i])));
        assert(upd.last() == es.last());
        assert(rem.drop_last() =~= es.drop_last().remove(i));
        assert(rem.last() == es.last());
        lemma_mask_renders_as_removed(es.drop_last(), i);
    }
}

/// The conversation-owning agent: a backend handle, the fixed system
/// prompt, and the ordered maskable message history.
#[derive(Debug)]
pub struct LLM<Api: LLMApi> {
    api: Api,
    system_msg: String,
    messages: Vec<MaskableMessage>,
}

impl<Api: LLMApi> LLM<Api> {
    /// The stored entries, as mathematical values.
    pub closed spec fn entries(&self) -> Seq<EntryV> {
        self.messages@.map_values(|m: MaskableMessage| m@)
    }

    /// The system prompt handed to every backend call.
    pub closed spec fn sys_prompt(&self) -> Seq<char> {
        self.system_msg@
    }

    /// Each entry's id is its position; ids are never renumbered.
    pub open spec fn wf(&self) -> bool {
        forall|k: int| 0 <= k < self.entries().len() ==> (#[trigger] self.entries()[k]).id == k
    }

    /// A fresh agent with an empty conversation.
    pub fn new(api: Api, system_msg: String) -> (r: Self)
        ensures
            r.entries().len() == 0,
            r.sys_prompt() == system_msg@,
            r.wf(),
    {
        LLM { api, system_msg, messages: Vec::new() }
    }

    /// The backend's combined token budget.
    pub fn max_context_tokens(&self) -> usize {
        self.api.max_context_tokens()
    }

    /// Append a message under the next free id.
    pub fn add_msg(&mut self, msg: Message)
        ensures
            final(self).entries() =~= old(self).entries().push(
                EntryV {
                    id: old(self).entries().len(),
                    masked: false,
                    msg: msg@,
                },
            ),
            final(self).sys_prompt() == old(self).sys_prompt(),
            old(self).wf() ==> final(self).wf(),
    {
        let id = self.next_msg_id();
        self.messages.push(MaskableMessage { id: id, is_masked: false, msg: msg });
        proof {
            let f = |m: MaskableMessage| m@;
            assert(self.messages@.map_values(f) =~= self.messages@.drop_last().map_values(f).push(
                self.messages@.last()@,
            ));
        }
    }

    /// How many entries the conversation holds.
    pub fn num_msgs(&self) -> (r: usize)
        ensures
            r == self.entries().len(),
    {
        self.messages.len()
    }

    /// The id of the newest entry, if any.
    pub fn last_msg_id(&self) -> (r: Option<usize>)
        ensures
            r is Some <==> self.entries().len() > 0,
            r is Some ==> r->0 == self.entries().len() - 1,
    {
        if self.messages.is_empty() {
            None
        } else {
            Some(self.messages.len() - 1)
        }
    }

    /// The entry stored under `id`, if `id` is in range.
    pub fn get_msg(&self, id: usize) -> (r: Option<&MaskableMessage>)
        ensures
            r is Some <==> id < self.entries().len(),
            r is Some ==> r->0@ == self.entries()[id as int],
    {
        if id < self.messages.len() {
            Some(&self.messages[id])
        } else {
            None
        }
    }

    /// The id the next appended message will get.
    pub fn next_msg_id(&self) -> (r: usize)
        ensures
            r == self.entries().len(),
    {
        self.messages.len()
    }

    /// Mask the entry under `id`: it stays stored and keeps its id, but
    /// leaves the model-visible rendering.
    pub fn mask_message(&mut self, id: usize)
        requires
            id < old(self).entries().len(),
        ensures
            final(self).entries() =~= old(self).entries().update(
                id as int,
                masked_entry(old(self).entries()[id as int]),
            ),
            final(self).sys_prompt() == old(self).sys_prompt(),
            old(self).wf() ==> final(self).wf(),
    {
        let cur = self.messages[id].clone();
        let masked = MaskableMessage { id: cur.id, is_masked: true, msg: cur.msg };
        self.messages.set(id, masked);
        proof {
            let f = |m: MaskableMessage| m@;
            assert(self.messages@.map_values(f) =~= old(self).messages@.map_values(f).update(
                id as int,
                masked_entry(old(self).messages@.map_values(f)[id as int]),
            ));
        }
    }

    /// The model-visible rendering: masked entries are excluded, every
    /// remaining entry is tagged with its id.
    pub fn render_visible(&self) -> (r: Vec<Message>)
        ensures
            msgs_view(r@) =~= render_entries(self.entries()),
    {
        let ghost es = self.entries();
        let mut out: Vec<Message> = Vec::new();
        let n = self.messages.len();
        let mut i: usize = 0;
        while i < n
            invariant
                0 <= i <= n,
                n == self.messages@.len(),
                es == self.entries(),
                es.len() == n,
                msgs_view(out@) =~= render_entries(es.take(i as int)),
            decreases n - i,
        {
            let mm = &self.messages[i];
            proof {
                assert(mm@ == es[i as int]);
                assert(es.take(i as int + 1).drop_last() =~= es.take(i as int));
                assert(es.take(i as int + 1).last() == es[i as int]);
            }
            match mm.to_message_with_id() {
                Some(m) => {
                    out.push(m);
                    proof {
                        assert(msgs_view(out@) =~= msgs_view(out@.drop_last()).push(
                            out@.last()@,
                        ));
                    }
                },
                None => {},
            }
            i = i + 1;
        }
        proof {
            assert(es.take(n as int) =~= es);
        }
        out
    }

    /// Drop every entry from index `n` on (rollback after an error).
    fn truncate_msgs(&mut self, n: usize)
        ensures
            final(self).entries() =~= if n <= old(self).entries().len() {
                old(self).entries().take(n as int)
            } else {
                old(self).entries()
            },
            final(self).sys_prompt() == old(self).sys_prompt(),
            old(self).wf() ==> final(self).wf(),
    {
        self.messages.truncate(n);
        proof {
            let f = |m: MaskableMessage| m@;
            if n <= old(self).messages@.len() {
                assert(self.messages@.map_values(f) =~= old(self).messages@.map_values(f).take(
                    n as int,
                ));
            } else {
                assert(self.messages@.map_values(f) =~= old(self).messages@.map_values(f));
            }
        }
    }
}

/// The conversation as the prompt cycle seeds it: an empty user turn
/// opens an empty conversation, anything else is left as it is.
pub open spec fn seeded_entries(es: Seq<EntryV>) -> Seq<EntryV> {
    if es.len() == 0 {
        es.push(
            EntryV {
                id: 0,
                masked: false,
                msg: MsgV {
                    role: Role::User,
                    content: ContentV::Single(ItemV::Text(Seq::empty())),
                },
            },
        )
    } else {
        es
    }
}

/// The shape of the in-progress assistant turn while a prompt cycle is
/// under way: unmasked, assistant-side, text-only content, under the
/// first id past the seeded conversation.
pub open spec fn partial_assistant(e: EntryV, id: nat) -> bool {
    &&& e.id == id
    &&& !e.masked
    &&& e.msg.role == Role::Assistant
    &&& crate::content::content_all_text(e.msg.content)
}

impl<Api: LLMApi> LLM<Api> {
    /// Append or extend the in-progress assistant turn with one returned
    /// chunk of model text.
    fn absorb_chunk(&mut self, n_orig: usize, text: String)
        requires
            old(self).wf(),
            n_orig <= old(self).entries().len() <= n_orig + 1,
            old(self).entries().len() == n_orig + 1 ==> partial_assistant(
                old(self).entries().last(),
                n_orig as nat,
            ),
        ensures
            final(self).wf(),
            final(self).sys_prompt() == old(self).sys_prompt(),
            final(self).entries().len() == n_orig + 1,
            final(self).entries().take(n_orig as int) =~= old(self).entries().take(n_orig as int),
            partial_assistant(final(self).entries().last(), n_orig as nat),
            old(self).entries().len() == n_orig ==> final(self).entries().last().msg.content
                == ContentV::Single(ItemV::Text(text@)),
            old(self).entries().len() == n_orig + 1 ==> content_items(
                final(self).entries().last().msg.content,
            ) =~= content_items(old(self).entries().last().msg.content) + seq![
                ItemV::Text(text@),
            ],
    {
        let f = Ghost(|m: MaskableMessage| m@);
        if self.messages.len() == n_orig {
            self.add_msg(Message { role: Role::Assistant, content: Content::text(text) });
            proof {
                assert(content_items(self.entries().last().msg.content) =~= seq![
                    ItemV::Text(text@),
                ]);
            }
        } else {
            let ghost before = self.entries();
            let mut mm = self.messages.pop().unwrap();
            proof {
                assert(self.messages@.map_values(f@) =~= before.drop_last());
                assert(mm@ == before.last());
            }
            mm.extend_with_content(Content::text(text));
            self.messages.push(mm);
            proof {
                assert(self.messages@.map_values(f@) =~= before.drop_last().push(
                    self.messages@.last()@,
                ));
                let items = content_items(self.entries().last().msg.content);
                let olditems = content_items(before.last().msg.content);
                assert(content_items(ContentV::Single(ItemV::Text(text@))) =~= seq![
                    ItemV::Text(text@),
                ]);
                assert(items =~= olditems + seq![ItemV::Text(text@)]);
                assert forall|k: int| 0 <= k < items.len() implies items[k] is Text by {
                    if k < olditems.len() {
                        assert(olditems[k] is Text);
                    }
                }
            }
        }
    }

    /// One full request/continue/retry cycle: call the backend on the
    /// visible rendering, continue the same turn after `MaxTokens`
    /// truncation, retry rate-limit and overload errors with backoff
    /// until `timeout_ms` of error time has passed, and surface every
    /// other error at once with the conversation rolled back.
    ///
    /// On success the decoded action corresponds exactly to the text of
    /// the one assistant message this call appended, its id tag stripped.
    /// On error the conversation equals its seeded pre-call state.
    pub fn prompt(&mut self, timeout_ms: u64) -> (r: Result<
        (Result<LLMResponse, DecodeError>, Usage),
        LLMApiError,
    >)
        requires
            old(self).wf(),
        ensures
            final(self).wf(),
            final(self).sys_prompt() == old(self).sys_prompt(),
            match r {
                Result::Err(_) => final(self).entries() =~= seeded_entries(
                    old(self).entries(),
                ),
                Result::Ok(p) => {
                    let es = seeded_entries(old(self).entries());
                    let last = final(self).entries().last();
                    &&& final(self).entries().len() == es.len() + 1
                    &&& final(self).entries().take(es.len() as int) =~= es
                    &&& last.id == es.len()
                    &&& !last.masked
                    &&& last.msg.role == Role::Assistant
                    &&& last.msg.content is Single
                    &&& last.msg.content->Single_0 is Text
                    &&& match p.0 {
                        Result::Ok(a) => spec_decode(last.msg.content->Single_0->Text_0)
                            == Some(a@),
                        Result::Err(_) => spec_decode(
                            last.msg.content->Single_0->Text_0,
                        ) is None,
                    }
                },
            },
    {
        if self.num_msgs() == 0 {
            self.add_msg(Message { role: Role::User, content: Content::text(String::new()) });
        }
        let n_orig = self.num_msgs();
        let ghost seeded = self.entries();
        proof {
            assert(seeded =~= seeded_entries(old(self).entries()));
        }
        let mut error_start: Option<std::time::Instant> = None;
        let mut fuel: u64 = u64::MAX;
        loop
            invariant
                self.wf(),
                self.sys_prompt() == old(self).sys_prompt(),
                seeded == seeded_entries(old(self).entries()),
                n_orig == seeded.len(),
                1 <= n_orig,
                n_orig <= self.entries().len() <= n_orig + 1,
                self.entries().take(n_orig as int) =~= seeded,
                self.entries().len() == n_orig + 1 ==> partial_assistant(
                    self.entries().last(),
                    n_orig as nat,
                ),
            decreases fuel,
        {
            if fuel == 0 {
                // the poll budget is never reached in practice
                self.truncate_msgs(n_orig);
                return Err(LLMApiError::Other);
            }
            fuel = fuel - 1;
            let msgs = self.render_visible();
            let res = self.api.prompt(self.system_msg.as_str(), msgs);
            match res {
                Ok(resp) => {
                    error_start = None;
                    match resp.stop_reason {
                        StopReason::EndTurn => {
                            self.absorb_chunk(n_orig, resp.resp);
                            let ghost absorbed = self.entries();
                            let mm = self.messages.pop().unwrap();
                            proof {
                                let f = |m: MaskableMessage| m@;
                                assert(self.messages@.map_values(f) =~= absorbed.drop_last());
                                assert(mm@ == absorbed.last());
                                assert(self.entries() =~= seeded);
                            }
                            let text = match mm.msg.content.try_into_text() {
                                Some(t) => t,
                                None => {
                                    // unreachable: the in-progress turn is text-only
                                    proof {
                                        assert(false);
                                    }
                                    String::new()
                                },
                            };
                            let trimmed = trim_id_prefix(text.as_str());
                            let dec = decode_action(trimmed.as_str());
                            self.add_msg(
                                Message { role: Role::Assistant, content: Content::text(trimmed) },
                            );
                            return Ok((dec, resp.usage));
                        },
                        StopReason::MaxTokens => {
                            self.absorb_chunk(n_orig, resp.resp);
                            pause_millis(200);
                        },
                    }
                },
                Err(err) => {
                    if err.is_retryable() {
                        if error_start.is_none() {
                            error_start = Some(monotonic_now());
                        }
                        let elapsed = match &error_start {
                            Some(s) => millis_since(s),
                            None => 0,
                        };
                        if elapsed >= timeout_ms {
                            self.truncate_msgs(n_orig);
                            return Err(err);
                        }
                        pause_millis(1000);
                    } else {
                        self.truncate_msgs(n_orig);
                        return Err(err);
                    }
                },
            }
        }
    }
}

/// Continuation law: when a truncated chunk `a` is followed by a closing
/// chunk `b` in the same prompt cycle, the assembled assistant turn is
/// text-only and reads exactly `a` then `b`; the one stored message then
/// carries that text with a single id tag stripped.
pub proof fn lemma_continuation(a: Seq<char>, b: Seq<char>)
    ensures
        ({
            let first = ContentV::Single(ItemV::Text(a));
            let both = ContentV::Multiple(
                content_items(first) + content_items(ContentV::Single(ItemV::Text(b))),
            );
            &&& crate::content::content_all_text(both)
            &&& content_text(both) == a + b
        }),
{
    let first = ContentV::Single(ItemV::Text(a));
    let both = ContentV::Multiple(
        content_items(first) + content_items(ContentV::Single(ItemV::Text(b))),
    );
    let items = content_items(both);
    assert(items =~= seq![ItemV::Text(a), ItemV::Text(b)]);
    assert(crate::content::content_all_text(both)) by {
        assert(forall|k: int| 0 <= k < items.len() ==> items[k] is Text);
    }
    assert(crate::content::text_from(items, 2) =~= Seq::empty());
    assert(crate::content::text_from(items, 1) =~= b);
    assert(crate::content::text_from(items, 0) =~= a + b);
    assert(content_text(both) =~= a + b);
}

/// First position of the two-character separator `>>` at or after `i`.
pub open spec fn find_tag_sep(s: Seq<char>, i: int) -> Option<int>
    decreases s.len() - i,
{
    if i < 0 || i + 1 >= s.len() {
        None
    } else if s[i] == '>' && s[i + 1] == '>' {
        Some(i)
    } else {
        find_tag_sep(s, i + 1)
    }
}

/// Whether `s` is a decimal integer within the signed 64-bit range, in
/// the form an integer parser accepts: an optional sign, then one or
/// more digits (leading zeros allowed).
pub open spec fn is_i64_string(s: Seq<char>) -> bool {
    if s.len() == 0 {
        false
    } else {
        let neg = s[0] == '-';
        let ds = if s[0] == '-' || s[0] == '+' {
            s.skip(1)
        } else {
            s
        };
        ds.len() > 0 && all_digits(ds) && digits_val(ds) <= 0x7fff_ffff_ffff_ffff + if neg {
            1int
        } else {
            0int
        }
    }
}

/// What stripping a leading id tag leaves: everything after the first
/// `>>` when what precedes it is a plain 64-bit integer, the whole text
/// otherwise.
pub open spec fn spec_trim_id(s: Seq<char>) -> Seq<char> {
    match find_tag_sep(s, 0) {
        None => s,
        Some(p) => if is_i64_string(s.take(p)) {
            s.skip(p + 2)
        } else {
            s
        },
    }
}

/// Strip a leading server-injected id tag (`<n>>>`) from assembled model
/// output, if one is present.
pub fn trim_id_prefix(input: &str) -> (r: String)
    ensures
        r@ == spec_trim_id(input@),
{
    let cs = str_chars(input);
    let n = cs.len();
    // find the first ">>"
    let mut sep: Option<usize> = None;
    if n >= 2 {
        let mut i: usize = 0;
        while i < n - 1
            invariant_except_break
                sep is None,
            invariant
                n >= 2,
                n == cs@.len(),
                0 <= i <= n - 1,
                find_tag_sep(cs@, 0) == find_tag_sep(cs@, i as int),
            ensures
                match sep {
                    Some(p) => find_tag_sep(cs@, 0) == Some(p as int) && p + 2 <= n,
                    None => find_tag_sep(cs@, 0) is None,
                },
            decreases n - i,
        {
            if cs[i] == '>' && cs[i + 1] == '>' {
                sep = Some(i);
                break;
            }
            i = i + 1;
        }
    }
    let p = match sep {
        Some(p) => p,
        None => {
            return input.to_owned();
        },
    };
    let ghost prefix = cs@.take(p as int);
    // decide whether the prefix is a signed 64-bit integer
    let start: usize = if p > 0 && (cs[0] == '-' || cs[0] == '+') {
        1
    } else {
        0
    };
    let ghost ds = if start == 1 {
        prefix.skip(1)
    } else {
        prefix
    };
    proof {
        assert(ds =~= cs@.subrange(start as int, p as int));
    }
    if p == start {
        // empty digit part: no valid tag
        return input.to_owned();
    }
    let mut j: usize = start;
    while j < p
        invariant
            start <= j <= p <= cs@.len(),
            ds == cs@.subrange(start as int, p as int),
            forall|k: int| start <= k < j ==> crate::text::is_digit(#[trigger] cs@[k]),
        ensures
            j == p || !crate::text::is_digit(cs@[j as int]),
            j == p ==> all_digits(ds),
        decreases p - j,
    {
        if !digit(cs[j]) {
            break;
        }
        j = j + 1;
    }
    if j < p {
        proof {
            assert(ds[j - start] == cs@[j as int]);
            assert(!all_digits(ds)) by {
                assert(!crate::text::is_digit(ds[j - start]));
            }
        }
        return input.to_owned();
    }
    let bound: u64 = if start == 1 && cs[0] == '-' {
        9_223_372_036_854_775_808
    } else {
        9_223_372_036_854_775_807
    };
    let fits = match decimal_value(&cs, start, p) {
        Some(v) => v <= bound,
        None => false,
    };
    if !fits {
        return input.to_owned();
    }
    // the tag is valid: return everything after the separator
    let mut out: Vec<char> = Vec::new();
    let mut k: usize = p + 2;
    while k < n
        invariant
            p + 2 <= k <= n,
            n == cs@.len(),
            out@ =~= cs@.subrange(p + 2 as int, k as int),
        decreases n - k,
    {
        out.push(cs[k]);
        k = k + 1;
    }
    proof {
        assert(out@ =~= cs@.skip(p + 2));
    }
    chars_string(&out)
}

} // verus!
