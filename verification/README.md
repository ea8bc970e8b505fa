# mango3

Agreement checks for Dutch noun phrases, verified with Verus.

- `src/catalog` — the catalog of known words (spelling and grammatical roles) under
  numeric indexes, held in memory.
- `src/syntax` — documents, sentences, noun constituents and the spans they come from.
- `src/parser` — the input (what is left of a text, with byte offsets into it) and the
  parsers of articles, nouns, noun constituents, sentences and documents. Each parser
  is specified by a spec function of the same name over the input's view.
- `src/analysis` — the check that a determinator agrees with its noun in number and
  gender, and the reports it makes.
- `src/verb_page` — the page that lists the present-tense forms of a verb.
- `src/text` — `char` sequences, their UTF-8 byte lengths, and the few `str`/`char`
  functions of std the parser uses.
- `app/` — the command line program and the web server: reading the catalog from SQLite,
  HTTP, JSON and logging.
