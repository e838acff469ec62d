# m2n — Markdown to Notion

A local-first command line tool for writing Markdown notes and publishing
them to a Notion database, with its logic verified by Verus.

## Layout

- `src/` — the verified library.
  - `text.rs`: strings as character sequences: searching, lines, trimming,
    UTF-8 aware cutting.
  - `markdown.rs`: Markdown to Notion blocks (headings, lists, to-dos,
    nested items, quotes, code fences, dividers, inline styles and links),
    with every piece of text within Notion's size limit.
  - `json.rs`: the blocks and requests written as JSON.
  - `notion.rs`: note frontmatter (read and write), database properties,
    Notion's answers, and the requests that create a page.
  - `notion_api.rs`: requests to the Notion API and the answers read back.
  - `round_trip.rs`: frontmatter written out reads back unchanged.
  - `slug.rs`: note file names from titles, and the first heading.
  - `config.rs`: the configuration and what follows from it (notes
    directory, editor, configuration path).
  - `commands/`: each command as a state machine (`push`, `init`, `check`,
    `list`, `new`, and `write`/`edit`): the program performs each action and
    reports what came of it; `step` decides what happens next. `new`
    creates a blank page in Notion; `write` creates local notes.
- `app/` — the program: arguments, files, the network, the editor and the
  browser, driving the library's state machines.
- `tests/` — tests of the library on concrete notes and answers.
