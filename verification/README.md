# glide

The verified core of Glide, a push-to-talk dictation tool: hold a key, speak,
and the transcript (optionally cleaned up by a language model) is pasted into
the frontmost application.

`src/` holds the logic, verified with Verus:

- `config` – providers, model selections, styles, dictionary and paste settings.
- `local_models` – the snapshot of on-device models (Apple Speech, Parakeet,
  Apple Foundation) and lookups in it.
- `model_catalog` – which models are offered (`catalog`), which providers are
  verified (`verification`), the smart defaults (`defaults`), how remote model
  lists are classified (`remote`, `fetch`) and sorted (`sort`).
- `pipeline` – the style that applies to the target application, the models
  and prompt of a dictation, the dictionary replacements.
- `platform` – permission decisions and the clipboard paste policy.
- `prewarm`, `stt`, `trace`, `ui` – model preloading, speech-to-text backend
  selection, tracing switches and attributes, settings-screen helpers (local
  model rows, the draft saved from the form, forgetting a deleted model) and
  the onboarding walkthrough.
- `text` – character-level string operations the rest is built on.
- `casefold` – case-insensitive replacement: matches found in the lowercase
  text and cut from the text at the same UTF-8 byte offsets.

`app/` is the unverified shell: HTTP requests for model lists, clipboard
access, macOS permission queries and trace files.
