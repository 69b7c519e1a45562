//! The assistant panel's data: chat roles, tool calls, stream events and
//! the tools the assistant may call.

use vstd::prelude::*;
use crate::text::str_eq;
use crate::json::{json_text, parse_json_text, Json};

verus! {

/// Who wrote a chat message.
#[derive(Clone, Copy, Debug, PartialEq, Eq, Structural)]
pub enum MessageRole {
    System,
    User,
    Assistant,
    Tool,
}

/// The function part of a tool call: its name and JSON arguments.
#[derive(Clone, Debug)]
pub struct OpenAIFunctionCall {
    pub name: String,
    pub arguments: String,
}

/// A tool call the model asked for.
#[derive(Clone, Debug)]
pub struct OpenAIToolCall {
    pub id: String,
    pub kind: String,
    pub function: OpenAIFunctionCall,
}

/// A field-for-field copy of a tool call.
pub fn copy_tool_call(c: &OpenAIToolCall) -> (r: OpenAIToolCall)
    ensures
        r == *c,
{
    OpenAIToolCall {
        id: c.id.clone(),
        kind: c.kind.clone(),
        function: OpenAIFunctionCall { name: c.function.name.clone(), arguments: c.function.arguments.clone() },
    }
}

/// One episode shown on an episode-list card.
#[derive(Clone, Debug)]
pub struct EpisodeCard {
    pub number: u64,
    pub name: String,
    pub duration: Option<String>,
    pub is_filler: bool,
}

/// What a streamed answer delivers, piece by piece.
#[derive(Clone, Debug)]
pub enum StreamEvent {
    Content(String),
    ToolCalls(Vec<OpenAIToolCall>),
    Done,
    Error(String),
}

/// A tool: its name and the JSON schema handed to the model.
#[derive(Clone, Copy, Debug)]
pub struct ToolDefinition {
    pub name: &'static str,
    pub definition: &'static str,
}

/// JSON schema of the `search_anime` tool.
pub const SEARCH_ANIME_DEF: &'static str = r#"{
            "type": "function",
            "function": {
                "name": "search_anime",
                "description": "AnimeciX sitesinde anime, dizi veya film arar. Kullanıcı bir isim veya anahtar kelime söylediğinde çağır. Sonuçlar otomatik olarak kullanıcıya kart olarak gösterilir.",
                "parameters": {
                    "type": "object",
                    "properties": {
                        "query": {
                            "type": "string",
                            "description": "Arama sorgusu (anime adı, romanji adı, İngilizce adı veya anahtar kelime). Örnek: 'naruto', 'one piece', 'bocchi the rock'"
                        },
                        "limit": {
                            "type": "integer",
                            "description": "Maksimum sonuç sayısı (varsayılan 5, max 10)",
                            "default": 5,
                            "minimum": 1,
                            "maximum": 10
                        }
                    },
                    "required": ["query"]
                }
            }
        }"#;

/// JSON schema of the `get_title_details` tool.
pub const GET_TITLE_DETAILS_DEF: &'static str = r#"{
            "type": "function",
            "function": {
                "name": "get_title_details",
                "description": "Bir anime/dizi/filmin detaylarını getirir: başlık, yıl, açıklama, bölüm sayısı, rating, poster. Genelde search_anime'dan sonra çağrılır. Sonuç otomatik olarak detay kartı olarak gösterilir.",
                "parameters": {
                    "type": "object",
                    "properties": {
                        "title_id": {
                            "type": "integer",
                            "description": "AnimeciX title ID. search_anime sonucundaki 'id' alanından al."
                        }
                    },
                    "required": ["title_id"]
                }
            }
        }"#;

/// JSON schema of the `get_episodes` tool.
pub const GET_EPISODES_DEF: &'static str = r#"{
            "type": "function",
            "function": {
                "name": "get_episodes",
                "description": "Bir animenin bölümlerini listeler. Her bölüm için numara, ad, süre, filler olup olmadığı döner. Sonuç liste kartı olarak gösterilir.",
                "parameters": {
                    "type": "object",
                    "properties": {
                        "title_id": {
                            "type": "integer",
                            "description": "AnimeciX title ID"
                        },
                        "limit": {
                            "type": "integer",
                            "description": "Maksimum bölüm sayısı (varsayılan 20)",
                            "default": 20,
                            "minimum": 1,
                            "maximum": 50
                        }
                    },
                    "required": ["title_id"]
                }
            }
        }"#;

/// JSON schema of the `get_fansubs` tool.
pub const GET_FANSUBS_DEF: &'static str = r#"{
            "type": "function",
            "function": {
                "name": "get_fansubs",
                "description": "Bir bölüm için mevcut çeviri/fansub seçeneklerini listeler. Her fansub için ad, rating, mirror sayısı, host listesi döner.",
                "parameters": {
                    "type": "object",
                    "properties": {
                        "title_id": {
                            "type": "integer",
                            "description": "AnimeciX title ID"
                        },
                        "season": {
                            "type": "integer",
                            "description": "Sezon numarası (varsayılan 1)",
                            "default": 1
                        },
                        "episode": {
                            "type": "integer",
                            "description": "Bölüm numarası (varsayılan 1)",
                            "default": 1
                        }
                    },
                    "required": ["title_id"]
                }
            }
        }"#;

/// JSON schema of the `open_title` tool.
pub const OPEN_TITLE_DEF: &'static str = r#"{
            "type": "function",
            "function": {
                "name": "open_title",
                "description": "Bir anime/dizi/filmin detay sayfasını açar. Kullanıcı 'Bunu aç', 'göster', 'git' derse çağır.",
                "parameters": {
                    "type": "object",
                    "properties": {
                        "title_id": {
                            "type": "integer",
                            "description": "AnimeciX title ID"
                        }
                    },
                    "required": ["title_id"]
                }
            }
        }"#;

/// The tool named `name`, if there is one.
pub open spec fn tool_named(name: Seq<char>) -> Option<ToolDefinition> {
    if name == "search_anime"@ {
        Some(ToolDefinition { name: "search_anime", definition: SEARCH_ANIME_DEF })
    } else if name == "get_title_details"@ {
        Some(ToolDefinition { name: "get_title_details", definition: GET_TITLE_DETAILS_DEF })
    } else if name == "get_episodes"@ {
        Some(ToolDefinition { name: "get_episodes", definition: GET_EPISODES_DEF })
    } else if name == "get_fansubs"@ {
        Some(ToolDefinition { name: "get_fansubs", definition: GET_FANSUBS_DEF })
    } else if name == "open_title"@ {
        Some(ToolDefinition { name: "open_title", definition: OPEN_TITLE_DEF })
    } else {
        None
    }
}

/// Looks a tool up by name.
pub fn find_tool(name: &str) -> (r: Option<ToolDefinition>)
    ensures
        r == tool_named(name@),
{
    if str_eq(name, "search_anime") {
        Some(ToolDefinition { name: "search_anime", definition: SEARCH_ANIME_DEF })
    } else if str_eq(name, "get_title_details") {
        Some(ToolDefinition { name: "get_title_details", definition: GET_TITLE_DETAILS_DEF })
    } else if str_eq(name, "get_episodes") {
        Some(ToolDefinition { name: "get_episodes", definition: GET_EPISODES_DEF })
    } else if str_eq(name, "get_fansubs") {
        Some(ToolDefinition { name: "get_fansubs", definition: GET_FANSUBS_DEF })
    } else if str_eq(name, "open_title") {
        Some(ToolDefinition { name: "open_title", definition: OPEN_TITLE_DEF })
    } else {
        None
    }
}

/// The tools, in the order they are offered to the model.
pub fn tool_definitions() -> (r: Vec<ToolDefinition>)
    ensures
        r@.map_values(|t: ToolDefinition| t.definition@) == tool_schemas(),
        r@.map_values(|t: ToolDefinition| t.name@) == tool_names(),
{
    let mut v: Vec<ToolDefinition> = Vec::new();
    v.push(ToolDefinition { name: "search_anime", definition: SEARCH_ANIME_DEF });
    v.push(ToolDefinition { name: "get_title_details", definition: GET_TITLE_DETAILS_DEF });
    v.push(ToolDefinition { name: "get_episodes", definition: GET_EPISODES_DEF });
    v.push(ToolDefinition { name: "get_fansubs", definition: GET_FANSUBS_DEF });
    v.push(ToolDefinition { name: "open_title", definition: OPEN_TITLE_DEF });
    assert(v@.map_values(|t: ToolDefinition| t.definition@) =~= tool_schemas());
    assert(v@.map_values(|t: ToolDefinition| t.name@) =~= tool_names());
    v
}

/// The names of the tools, in the order they are offered to the model.
pub open spec fn tool_names() -> Seq<Seq<char>> {
    seq!["search_anime"@, "get_title_details"@, "get_episodes"@, "get_fansubs"@, "open_title"@]
}

/// The schemas of the tools, in order.
pub open spec fn tool_schemas() -> Seq<Seq<char>> {
    seq![
        SEARCH_ANIME_DEF@,
        GET_TITLE_DETAILS_DEF@,
        GET_EPISODES_DEF@,
        GET_FANSUBS_DEF@,
        OPEN_TITLE_DEF@
    ]
}

/// The values read from the texts that parse as JSON, in order.
pub open spec fn parsed_values(s: Seq<Seq<char>>) -> Seq<Json>
    decreases s.len(),
{
    if s.len() == 0 {
        Seq::empty()
    } else {
        parsed_values(s.drop_last()) + match json_text(s.last()) {
            Some(v) => seq![v],
            None => Seq::empty(),
        }
    }
}

/// The tool schemas as JSON values, in order, leaving out any that does not
/// parse.
pub fn all_definitions_json() -> (r: Vec<Json>)
    ensures
        r@ == parsed_values(tool_schemas()),
{
    let defs = tool_definitions();
    let ghost ds = defs@.map_values(|t: ToolDefinition| t.definition@);
    let mut out: Vec<Json> = Vec::new();
    let mut i: usize = 0;
    while i < defs.len()
        invariant
            i <= defs.len(),
            ds == defs@.map_values(|t: ToolDefinition| t.definition@),
            ds == tool_schemas(),
            out@ == parsed_values(ds.take(i as int)),
        decreases defs.len() - i,
    {
        assert(ds.take(i as int + 1).drop_last() =~= ds.take(i as int));
        assert(ds.take(i as int + 1).last() == defs@[i as int].definition@);
        match parse_json_text(defs[i].definition) {
            Ok(v) => {
                out.push(v);
            },
            Err(_) => {},
        }
        i = i + 1;
    }
    assert(ds.take(defs.len() as int) =~= ds);
    out
}

} // verus!
