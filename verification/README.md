# parla

The verified core of Parla, a voice language tutor: a learner talks with a
local language model that answers in structured JSON, and the tutor's
sentences are spoken as soon as they form.

`src/` is the library, checked by Verus:

- `parser` — the streaming parser that extracts the sentences of
  `tutor_message.target_lang` from the model's JSON as it arrives, and the
  search for the first balanced JSON object of a reply; `streaming` proves
  that taking sentences while text arrives gives what one take at the end
  gives.
- `prompt`, `lessons`, `session` — the system prompt, the prompts of the
  session modes, the chat history and what a turn stores.
- `llm` — reading the model server's event stream and collecting replies.
- `vad`, `speech` — speech segments from per-chunk decisions, the windows
  worth transcribing and the joining of their transcripts.
- `piper`, `kokoro`, `lang` — token ids for the voices and language codes.
- `db`, `grammar_seeds`, `titles`, `models`, `json`, `text` — timestamps,
  flashcard display rules, seed grammar concepts, titles, model file choice,
  and the JSON and text helpers.

`app/` holds what Verus does not see: SQLite storage, the model server
process, audio devices, the neural models, and the commands the front end
invokes. `tests/` exercises the library.
