# jaturi

A terminal vocabulary trainer for Korean speakers learning English, Japanese
or Chinese. An OpenAI model proposes a topic with ten new words; the learner
studies them, takes a quiz, and earns XP, levels and a skill score per
language. Progress is kept in a versioned state file.

## Layout

- `src/` is the library, written in Verus. Every decision of the program is
  there with its contract: what each key and paste does on each screen,
  quiz building and grading, rewards, the cleanup of saved histories,
  restoring each version of the saved state, the prompts sent to the model
  and the collection of distinct single words across its replies, and the
  lines the screens show.
- `app/` is the terminal program around it: drawing with ratatui, reading
  keys with crossterm, the state file (bincode, atomic writes), and the
  HTTP calls to OpenAI. It hands plain values to the library and acts on
  what comes back.
- `tests/` runs the library on concrete sessions.

## Keys

- Settings screen: Up/Down or Tab move between the API key, the name and
  the language; Enter (or S) saves them and opens the main screen. Because
  Enter saves, E starts editing the focused field; while editing, typing
  and pasting go into it and Left/Right (or H/L) change the language.
- Main screen: N creates a topic, Up/Down selects one, S or Enter studies
  it, Q quizzes it, K opens the settings.
- Topic creation: Enter asks for a topic and ten words, M goes back.
- Study: Enter shows the next word, Q starts the quiz.
- Quiz: Up/Down choose an option, typing fills a written answer, Enter
  submits.
- Result and error screens: R goes back to the settings, Q quits (once
  nothing is left unsaved); on the result screen M goes to the main screen
  and S studies the topic again.
- Esc quits everywhere, after saving.

## Modules of the library

| module | contents |
|---|---|
| `text` | trimming, case folding, line-break removal, spelling hints, decimal text |
| `language` | the three languages, their names and what counts as one word |
| `level` | XP per level and the level reached with a given XP |
| `model` | words, topics and per-language progress |
| `order` | text order and sorted, duplicate-free lists |
| `quiz`, `quizgen` | question kinds, grading, and building a quiz |
| `app` | the session state, saving, history cleanup, selections |
| `study` | studying, quizzing, rewards, new topics |
| `topics` | known terms and recent topics handed to the generator |
| `keys` | keys and pastes on every screen |
| `persist` | the saved-state versions and restoring from them |
| `generation` | prompts, reply checks and word collection |
| `display` | the text lines of the screens |
