//! The assistant's conversation: its messages, the key and model it talks
//! with, and how a request's message list is assembled from it.

use vstd::prelude::*;
use std::collections::HashMap;
use crate::aicix::{MessageRole, OpenAIToolCall};
use crate::text::{clone_opt_string, owned};

verus! {

/// One message of the conversation. `C` is the card an assistant message
/// may carry instead of plain text (search results, details, episodes,
/// fansubs); the conversation only stores it.
#[derive(Clone, Debug)]
pub struct ChatMessage<C> {
    pub role: MessageRole,
    pub content: String,
    pub tool_call_id: Option<String>,
    pub tool_calls: Option<Vec<OpenAIToolCall>>,
    pub name: Option<String>,
    pub is_card: bool,
    pub card: Option<C>,
}

/// The assistant's state: key, model, conversation, streaming flag, tool
/// calls waiting for an answer and the last error.
#[derive(Debug)]
pub struct AicixState<C> {
    pub api_key: Option<String>,
    pub model: String,
    pub history: Vec<ChatMessage<C>>,
    pub is_streaming: bool,
    pub pending_tool_calls: HashMap<String, OpenAIToolCall>,
    pub last_error: Option<String>,
}

/// The model asked for when none was chosen.
pub const DEFAULT_MODEL: &'static str = "qwen/qwen3.8-27b";

/// The message shown when a request is attempted without a key.
pub const NO_KEY_MESSAGE: &'static str = "API anahtarı girilmemiş. Ayar ekranından Groq API key ekleyin.";

/// The assistant's instructions, sent first in every request.
pub const SYSTEM_PROMPT: &'static str = r#"Sen Aicix'sin, AnimeciX uygulamasının Türkçe yapay zeka asistanısın. AnimeciX Türkiye'nin önde gelen Türkçe anime, dizi ve film izleme platformudur.

**Görevlerin:**
1. Kullanıcılara anime/dizi/film önermek
2. AnimeciX kütüphanesinde arama yapmak
3. Bölüm sayıları, çevirmen/fansub seçenekleri, dublaj bilgisi vermek
4. Kullanıcı isterse bir animenin sayfasını açmak

**Kuralların:**
- HER ZAMAN Türkçe yanıt ver
- Kısa ve net cevaplar ver, gereksiz açıklama yapma
- Tool çağrılarını kullanıcı açıkça istemese bile gerekli gördüğünde yap (örn. "naruto öner" dersen search_anime'i otomatik çağır)
- Tool sonuçlarını özetle, kullanıcıya düz liste verme; "İşte senin için [öneriler]:" gibi giriş yap
- Bir anime hakkında konuşurken rating, yıl, bölüm sayısı gibi bilgileri mutlaka belirt
- Kullanıcının seçtiği sonucu "Bu animeye gitmek ister misin?" diye sor
- Bilmediğin şeyi uydurma, "AnimeciX'te bulamadım" de
- Samimi, kısa, kullanıcının seviyesine uygun konuş

**Örnek etkileşimler:**
- "bana aksiyon anime öner" → "Tabii! AnimeciX'te arıyorum..." + search_anime("action anime")
- "naruto kaç bölüm" → get_title_details ile title_id bul, sonra yanıtla
- "fansubları göster" → "Hangi bölüm için?" diye sor, sonra get_fansubs
- "bu animeyi aç" → open_title tool'unu çağır

Mevcut sayfa bağlamı kullanıcı tarafından sana iletilebilir, ona göre yanıt ver."#;

/// Whether a flag is off (card messages are marked only when on).
pub fn is_false(b: &bool) -> (r: bool)
    ensures
        r == !*b,
{
    !*b
}

/// Whether a key is set and not empty.
pub open spec fn key_present(k: Option<String>) -> bool {
    match k {
        Some(s) => s@.len() > 0,
        None => false,
    }
}

/// A text message of `role` with nothing else attached.
pub open spec fn is_plain<C>(m: ChatMessage<C>, role: MessageRole, text: Seq<char>) -> bool {
    &&& m.role == role
    &&& m.content@ == text
    &&& m.tool_call_id is None
    &&& m.tool_calls is None
    &&& m.name is None
    &&& !m.is_card
    &&& m.card is None
}

/// `new` is `old` with one message appended.
pub open spec fn appended<C>(old: Seq<ChatMessage<C>>, new: Seq<ChatMessage<C>>) -> bool {
    new.len() == old.len() + 1 && new == old.push(new.last())
}

fn plain_message<C>(role: MessageRole, text: &str) -> (r: ChatMessage<C>)
    ensures
        is_plain(r, role, text@),
{
    ChatMessage {
        role,
        content: owned(text),
        tool_call_id: None,
        tool_calls: None,
        name: None,
        is_card: false,
        card: None,
    }
}

impl<C> AicixState<C> {
    /// A fresh state: no key, the default model, empty conversation.
    pub fn new() -> (r: Self)
        ensures
            r.api_key is None,
            r.model@ == DEFAULT_MODEL@,
            r.history@.len() == 0,
            !r.is_streaming,
            r.pending_tool_calls@ == Map::<String, OpenAIToolCall>::empty(),
            r.last_error is None,
    {
        AicixState {
            api_key: None,
            model: owned(DEFAULT_MODEL),
            history: Vec::new(),
            is_streaming: false,
            pending_tool_calls: HashMap::new(),
            last_error: None,
        }
    }

    /// Whether an API key is set (an empty one does not count).
    pub fn has_key(&self) -> (r: bool)
        ensures
            r == key_present(self.api_key),
    {
        match &self.api_key {
            Some(k) => !k.as_str().is_empty(),
            None => false,
        }
    }

    /// The key check a request starts with: the message to show when no key
    /// is set.
    pub fn require_key(&self) -> (r: Result<(), String>)
        ensures
            r is Ok <==> key_present(self.api_key),
            r matches Err(m) ==> m@ == NO_KEY_MESSAGE@,
    {
        if self.has_key() {
            Ok(())
        } else {
            Err(owned(NO_KEY_MESSAGE))
        }
    }

    /// Appends what the user wrote.
    pub fn push_user(&mut self, text: &str)
        ensures
            appended(old(self).history@, final(self).history@),
            is_plain(final(self).history@.last(), MessageRole::User, text@),
            final(self).api_key == old(self).api_key && final(self).model == old(self).model,
    {
        let m = plain_message(MessageRole::User, text);
        self.history.push(m);
    }

    /// Appends an assistant answer in plain text.
    pub fn push_assistant_text(&mut self, text: &str)
        ensures
            appended(old(self).history@, final(self).history@),
            is_plain(final(self).history@.last(), MessageRole::Assistant, text@),
            final(self).api_key == old(self).api_key && final(self).model == old(self).model,
    {
        let m = plain_message(MessageRole::Assistant, text);
        self.history.push(m);
    }

    /// Appends the result of tool call `call_id` of tool `name`.
    pub fn push_tool_result(&mut self, call_id: &str, name: &str, result: &str)
        ensures
            appended(old(self).history@, final(self).history@),
            final(self).history@.last().role == MessageRole::Tool,
            final(self).history@.last().content@ == result@,
            final(self).history@.last().tool_call_id matches Some(i) && i@ == call_id@,
            final(self).history@.last().tool_calls is None,
            final(self).history@.last().name matches Some(n) && n@ == name@,
            !final(self).history@.last().is_card && final(self).history@.last().card is None,
            final(self).api_key == old(self).api_key && final(self).model == old(self).model,
    {
        self.history.push(ChatMessage {
            role: MessageRole::Tool,
            content: owned(result),
            tool_call_id: Some(owned(call_id)),
            tool_calls: None,
            name: Some(owned(name)),
            is_card: false,
            card: None,
        });
    }

    /// Appends an assistant message that asks for tool calls.
    pub fn push_assistant_with_tool_calls(&mut self, content: &str, calls: Vec<OpenAIToolCall>)
        ensures
            appended(old(self).history@, final(self).history@),
            final(self).history@.last().role == MessageRole::Assistant,
            final(self).history@.last().content@ == content@,
            final(self).history@.last().tool_call_id is None,
            final(self).history@.last().tool_calls == Some(calls),
            final(self).history@.last().name is None,
            !final(self).history@.last().is_card && final(self).history@.last().card is None,
            final(self).api_key == old(self).api_key && final(self).model == old(self).model,
    {
        self.history.push(ChatMessage {
            role: MessageRole::Assistant,
            content: owned(content),
            tool_call_id: None,
            tool_calls: Some(calls),
            name: None,
            is_card: false,
            card: None,
        });
    }

    /// Appends an assistant card with its short text note.
    pub fn push_card(&mut self, note: &str, card: C)
        ensures
            appended(old(self).history@, final(self).history@),
            final(self).history@.last().role == MessageRole::Assistant,
            final(self).history@.last().content@ == note@,
            final(self).history@.last().tool_call_id is None,
            final(self).history@.last().tool_calls is None,
            final(self).history@.last().name is None,
            final(self).history@.last().is_card,
            final(self).history@.last().card == Some(card),
    {
        self.history.push(ChatMessage {
            role: MessageRole::Assistant,
            content: owned(note),
            tool_call_id: None,
            tool_calls: None,
            name: None,
            is_card: true,
            card: Some(card),
        });
    }

    /// Records what a finished answer brought: its text (when there was
    /// any) and then its tool calls (when there were any).
    pub fn record_reply(&mut self, content: &str, calls: Vec<OpenAIToolCall>)
        ensures
            final(self).api_key == old(self).api_key && final(self).model == old(self).model,
            final(self).history@.len() == old(self).history@.len() + (if content@.len() > 0 { 1int } else { 0 })
                + (if calls@.len() > 0 { 1int } else { 0 }),
            final(self).history@.take(old(self).history@.len() as int) == old(self).history@,
            content@.len() > 0 ==> is_plain(
                final(self).history@[old(self).history@.len() as int],
                MessageRole::Assistant,
                content@,
            ),
            calls@.len() > 0 ==> {
                let m = final(self).history@.last();
                &&& m.role == MessageRole::Assistant
                &&& m.content@.len() == 0
                &&& m.tool_calls == Some(calls)
                &&& m.tool_call_id is None && m.name is None && !m.is_card && m.card is None
            },
    {
        let ghost h0 = self.history@;
        if !content.is_empty() {
            self.push_assistant_text(content);
        }
        let ghost h1 = self.history@;
        assert(h1.take(h0.len() as int) =~= h0);
        if calls.len() > 0 {
            self.push_assistant_with_tool_calls("", calls);
            assert(self.history@.take(h0.len() as int) =~= h0);
            proof {
                reveal_strlit("");
                if content@.len() > 0 {
                    assert(self.history@[h0.len() as int] == h1[h0.len() as int]);
                }
            }
        }
    }

    /// Forgets the conversation and the waiting tool calls.
    pub fn clear_history(&mut self)
        ensures
            final(self).history@.len() == 0,
            final(self).pending_tool_calls@ == Map::<String, OpenAIToolCall>::empty(),
            final(self).api_key == old(self).api_key && final(self).model == old(self).model,
    {
        self.history.clear();
        self.pending_tool_calls.clear();
    }
}

/// The name a role has in a request (`system`, `user`, `assistant`, `tool`).
pub open spec fn role_name_spec(r: MessageRole) -> Seq<char> {
    match r {
        MessageRole::System => "system"@,
        MessageRole::User => "user"@,
        MessageRole::Assistant => "assistant"@,
        MessageRole::Tool => "tool"@,
    }
}

/// The name of a role in a request.
pub fn role_name(r: MessageRole) -> (s: &'static str)
    ensures
        s@ == role_name_spec(r),
{
    match r {
        MessageRole::System => "system",
        MessageRole::User => "user",
        MessageRole::Assistant => "assistant",
        MessageRole::Tool => "tool",
    }
}

/// A message as it goes out in a request: role name, text, and the
/// optional call id, tool name and tool calls.
pub struct OutMessage {
    pub role: &'static str,
    pub content: String,
    pub tool_call_id: Option<String>,
    pub name: Option<String>,
    pub tool_calls: Option<Vec<OpenAIToolCall>>,
}

/// Whether two optional lists of tool calls hold the same calls.
pub open spec fn same_calls(a: Option<Vec<OpenAIToolCall>>, b: Option<Vec<OpenAIToolCall>>) -> bool {
    match (a, b) {
        (Some(x), Some(y)) => x@ == y@,
        (None, None) => true,
        _ => false,
    }
}

/// Whether `o` is message `m` as it goes out.
pub open spec fn out_of<C>(o: OutMessage, m: ChatMessage<C>) -> bool {
    &&& o.role@ == role_name_spec(m.role)
    &&& o.content@ == m.content@
    &&& o.tool_call_id == m.tool_call_id
    &&& o.name == m.name
    &&& same_calls(o.tool_calls, m.tool_calls)
}

fn clone_calls(v: &Option<Vec<OpenAIToolCall>>) -> (r: Option<Vec<OpenAIToolCall>>)
    ensures
        same_calls(r, *v),
{
    match v {
        Some(c) => {
            let mut out: Vec<OpenAIToolCall> = Vec::new();
            let mut i: usize = 0;
            while i < c.len()
                invariant
                    i <= c.len(),
                    out@ == c@.take(i as int),
                decreases c.len() - i,
            {
                out.push(crate::aicix::copy_tool_call(&c[i]));
                assert(out@ =~= c@.take(i as int + 1));
                i = i + 1;
            }
            assert(c@.take(c.len() as int) =~= c@);
            Some(out)
        },
        None => None,
    }
}

impl<C> AicixState<C> {
    /// The messages of a request: the system prompt `system` first, then
    /// the conversation in order; refused without a key.
    pub fn request_messages(&self, system: &str) -> (r: Result<Vec<OutMessage>, String>)
        ensures
            r is Ok <==> key_present(self.api_key),
            r matches Err(m) ==> m@ == NO_KEY_MESSAGE@,
            r matches Ok(v) ==> {
                &&& v@.len() == self.history@.len() + 1
                &&& v@[0].role@ == "system"@ && v@[0].content@ == system@
                &&& v@[0].tool_call_id is None && v@[0].name is None && v@[0].tool_calls is None
                &&& forall|i: int| 0 <= i < self.history@.len() ==> out_of(#[trigger] v@[i + 1], self.history@[i])
            },
    {
        if !self.has_key() {
            return Err(owned(NO_KEY_MESSAGE));
        }
        let mut out: Vec<OutMessage> = Vec::new();
        out.push(OutMessage { role: "system", content: owned(system), tool_call_id: None, name: None, tool_calls: None });
        proof { reveal_strlit("system"); }
        let mut i: usize = 0;
        while i < self.history.len()
            invariant
                i <= self.history.len(),
                out@.len() == i + 1,
                out@[0].role@ == "system"@ && out@[0].content@ == system@,
                out@[0].tool_call_id is None && out@[0].name is None && out@[0].tool_calls is None,
                forall|k: int| 0 <= k < i ==> out_of(#[trigger] out@[k + 1], self.history@[k]),
            decreases self.history.len() - i,
        {
            let m = &self.history[i];
            let o = OutMessage {
                role: role_name(m.role),
                content: m.content.clone(),
                tool_call_id: clone_opt_string(&m.tool_call_id),
                name: clone_opt_string(&m.name),
                tool_calls: clone_calls(&m.tool_calls),
            };
            out.push(o);
            i = i + 1;
        }
        Ok(out)
    }
}

} // verus!
