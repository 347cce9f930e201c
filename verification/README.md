# jev-cli

An agent-facing command line for Jev, a System One model reached through
`jev-sdk`: before acting, an agent asks a typed question (`predict`,
`choose`, `score`, `ask`) and gets calibrated probabilities back.

Layout:

- `src/` — the library, written in Verus and verified. It holds the
  decisions: which variables configuration files may set and how `.env`, the
  user config and the real environment layer; how the evaluation state is
  chosen, bounded and decoded; how `--option`, `--level` and `--question`
  values are parsed and checked; how an `ask` request document is validated;
  how model names are chosen; and the text renderings.
  - `text` — Unicode whitespace, trimming, splitting, number rendering.
  - `env`, `config` — dotenv-style files, the allowlist, precedence laws.
  - `input` — state sources and capped, UTF-8 reads.
  - `run` — command options, option specs, model choice, questions.
  - `spec` — the `ask` request document.
  - `output` — output formats and the `models` rendering.
  - `json`, `outside` — the serde_json calls and outside types the library
    uses.
- `app/` — the program: argument parsing, files, stdin, the process
  environment, the asynchronous API calls, and the rendering of the
  floating-point answers.
- `tests/` — tests of the library.
