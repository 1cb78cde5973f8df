use vstd::prelude::*;
use vstd::string::*;

verus! {

/// The request body up to the user's message text.
pub const QUIZ_REQUEST_HEAD: &'static str = r#"{
  "model": "gpt-4o-2024-08-06",
  "messages": [
    {
      "role": "system",
      "content": [
        {
          "type": "text",
          "text": "I'm building a Norwegian learning app. Please suggest me a question related to the word below and three to five other single word options  which the user can choose from. One or more options should be correct. The question should be in English. Don't ask what the word means in English."
        }
      ]
    },
    {
      "role": "user",
      "content": [
        {
          "type": "text",
          "text": "#;

/// The request body after the user's message text: sampling settings and
/// the schema that constrains the reply to a question with options.
pub const QUIZ_REQUEST_TAIL: &'static str = r#"
        }
      ]
    }
  ],
  "temperature": 1.52,
  "max_tokens": 2048,
  "top_p": 1,
  "frequency_penalty": 0.61,
  "presence_penalty": 0,
  "response_format": {
    "type": "json_schema",
    "json_schema": {
      "name": "response",
      "strict": true,
      "schema": {
        "type": "object",
        "properties": {
          "question": {
            "type": "string"
          },
          "options": {
            "type": "array",
            "items": {
              "type": "object",
              "properties": {
                "name": {
                  "type": "string"
                },
                "correct": {
                  "type": "boolean"
                }
              },
              "additionalProperties": false,
              "required": [
                "name",
                "correct"
              ]
            }
          }
        },
        "additionalProperties": false,
        "required": [
          "question",
          "options"
        ]
      }
    }
  }
}"#;

/// A lowercase hexadecimal digit.
pub open spec fn hex_digit(n: u32) -> char
    recommends
        n < 16,
{
    seq!['0', '1', '2', '3', '4', '5', '6', '7', '8', '9', 'a', 'b', 'c', 'd', 'e', 'f'][n as int]
}

/// How one character is written inside a JSON string literal: quote and
/// backslash are escaped, five control characters have short escapes, the
/// other characters below U+0020 are written `\u00xx`, and the rest stay.
pub open spec fn escape_char(c: char) -> Seq<char> {
    if c == '"' {
        seq!['\\', '"']
    } else if c == '\\' {
        seq!['\\', '\\']
    } else if c == '\u{8}' {
        seq!['\\', 'b']
    } else if c == '\t' {
        seq!['\\', 't']
    } else if c == '\n' {
        seq!['\\', 'n']
    } else if c == '\u{c}' {
        seq!['\\', 'f']
    } else if c == '\r' {
        seq!['\\', 'r']
    } else if (c as u32) < 0x20 {
        seq!['\\', 'u', '0', '0', hex_digit((c as u32) / 16), hex_digit((c as u32) % 16)]
    } else {
        seq![c]
    }
}

/// The characters of `s`, each escaped.
pub open spec fn escaped(s: Seq<char>) -> Seq<char>
    decreases s.len(),
{
    if s.len() == 0 {
        Seq::empty()
    } else {
        escaped(s.drop_last()) + escape_char(s.last())
    }
}

/// The JSON string literal that a text serializes to.
pub open spec fn json_string_of(s: Seq<char>) -> Seq<char> {
    seq!['"'] + escaped(s) + seq!['"']
}

/// The user message that asks for a question on `word`.
pub open spec fn prompt_of(word: Seq<char>) -> Seq<char> {
    "The word is '"@ + word + "'"@
}

/// Relies on serde_json::to_string: a string serializes, always with
/// success, to one quoted JSON string literal escaped by its fixed table.
#[verifier::external_body]
fn json_string(s: &str) -> (r: Option<String>)
    ensures
        r is Some,
        r matches Some(t) ==> t@ == json_string_of(s@),
{
    serde_json::to_string(s).ok()
}

/// The user message that asks for a question on `word`.
pub fn user_prompt(word: &str) -> (r: String)
    ensures
        r@ == prompt_of(word@),
{
    let mut p = String::from_str("The word is '");
    p.append(word);
    p.append("'");
    p
}

/// The request body around an already quoted user message.
pub fn request_body_from(quoted_prompt: &str) -> (r: String)
    ensures
        r@ == QUIZ_REQUEST_HEAD@ + quoted_prompt@ + QUIZ_REQUEST_TAIL@,
{
    let mut body = String::from_str(QUIZ_REQUEST_HEAD);
    body.append(quoted_prompt);
    body.append(QUIZ_REQUEST_TAIL);
    body
}

/// The request body that asks the text-generation service for a quiz
/// question on `word`; the word reaches the body only as an escaped JSON
/// string.
pub fn question_request_body(word: &str) -> (r: String)
    ensures
        r@ == QUIZ_REQUEST_HEAD@ + json_string_of(prompt_of(word@)) + QUIZ_REQUEST_TAIL@,
{
    let prompt = user_prompt(word);
    let quoted = json_string(prompt.as_str()).unwrap();
    request_body_from(quoted.as_str())
}

} // verus!
