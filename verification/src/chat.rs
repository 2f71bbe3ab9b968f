//! The requests that are sent to the local model server.

use vstd::prelude::*;
use crate::json::{
    array_value, flag_value, json_model, members_of, models_of, object_value, text_value, Json,
};

verus! {

/// Where a chat is posted.
pub const CHAT_URL: &'static str = "http://localhost:11434/api/chat";

/// Where a completion of a single prompt is posted.
pub const GENERATE_URL: &'static str = "http://localhost:11434/api/generate";

/// Where the catalogue of models is got.
pub const TAGS_URL: &'static str = "http://localhost:11434/api/tags";

/// The body of a chat request: the model, the messages as they were given,
/// and the wish for one answer in place of a stream.
pub open spec fn chat_body(model: Seq<char>, messages: Seq<Json>) -> Json {
    Json::Object(
        map![
            "model"@ => Json::Text(model),
            "messages"@ => Json::Array(messages),
            "stream"@ => Json::Bool(false),
        ],
    )
}

/// The body of a request to complete one prompt: the model, the prompt, and
/// the wish for one answer in place of a stream.
pub open spec fn generate_body(model: Seq<char>, prompt: Seq<char>) -> Json {
    Json::Object(
        map![
            "model"@ => Json::Text(model),
            "prompt"@ => Json::Text(prompt),
            "stream"@ => Json::Bool(false),
        ],
    )
}

/// The body of the request that asks `model` to answer `messages`.
pub fn chat_request(model: String, messages: Vec<serde_json::Value>) -> (body: serde_json::Value)
    ensures
        json_model(body) == chat_body(model@, models_of(messages@)),
{
    let ghost held = models_of(messages@);
    let mut members: Vec<(String, serde_json::Value)> = Vec::new();
    members.push(("model".to_owned(), text_value(model)));
    members.push(("messages".to_owned(), array_value(messages)));
    members.push(("stream".to_owned(), flag_value(false)));
    proof {
        reveal_strlit("model");
        reveal_strlit("messages");
        reveal_strlit("stream");
        let s = members@;
        assert(s[0].0@.len() == 5 && s[1].0@.len() == 8 && s[2].0@.len() == 6);
        assert(s.drop_last().drop_last().drop_last() =~= Seq::empty());
        reveal_with_fuel(members_of, 4);
        assert(members_of(s) =~= map![
            "model"@ => Json::Text(model@),
            "messages"@ => Json::Array(held),
            "stream"@ => Json::Bool(false),
        ]);
    }
    object_value(members)
}

/// The body of the request that asks `model` to complete `prompt`.
pub fn generate_request(model: String, prompt: String) -> (body: serde_json::Value)
    ensures
        json_model(body) == generate_body(model@, prompt@),
{
    let mut members: Vec<(String, serde_json::Value)> = Vec::new();
    members.push(("model".to_owned(), text_value(model)));
    members.push(("prompt".to_owned(), text_value(prompt)));
    members.push(("stream".to_owned(), flag_value(false)));
    proof {
        reveal_strlit("model");
        reveal_strlit("prompt");
        reveal_strlit("stream");
        let s = members@;
        assert(s[0].0@.len() == 5 && s[1].0@.len() == 6 && s[2].0@[0] == 's' && s[1].0@[0] == 'p');
        assert(s.drop_last().drop_last().drop_last() =~= Seq::empty());
        reveal_with_fuel(members_of, 4);
        assert(members_of(s) =~= map![
            "model"@ => Json::Text(model@),
            "prompt"@ => Json::Text(prompt@),
            "stream"@ => Json::Bool(false),
        ]);
    }
    object_value(members)
}

} // verus!
