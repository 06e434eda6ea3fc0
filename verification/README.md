# humanize_text

A rule-based rewriter for article text, verified with Verus.

The library (`src/`):

- `text` — whitespace and trimming, literal search and replacement, line
  splitting and joining, decimal numbers, UTF-8 byte lengths;
- `sentences` — splitting text into trimmed sentences;
- `chunking` — cutting a long article into chunks of bounded byte size, by
  paragraph and then by sentence, with the laws that no visible text is lost
  and that every chunk is trimmed;
- `repair` — the phrase tables and the regular-expression cleanup passes
  (through the `regex` crate);
- `prompts` — system and user prompts for each rewrite style;
- `request`, `response`, `errors` — request building, the retry decisions for
  each reply of the chat-completions service, reading the rewritten text out
  of a reply, and the error messages;
- `pipeline` — the light rewrite, and planning and assembling a strong one.

The program (`app/`) parses arguments, reads and writes files, talks to
OpenRouter over HTTP and converts JSON, calling the library for every
decision.
