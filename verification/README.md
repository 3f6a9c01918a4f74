# msvc2008_parser

Readers for Visual Studio 2008 solution (`.sln`) and C++ project (`.vcproj`)
files, written in Verus: every reader states in its contract what it returns
for every input, and Verus proves the code against it.

- `src/text.rs`: string comparison and search, decimal integers, booleans,
  splitting `;`-separated lists.
- `src/xml.rs`: an XML document as a flat list of nodes (read with
  `roxmltree`) and the reading of typed fields from an element's attributes.
- `src/sln_raw.rs`: the solution file grammar (header, version line, project
  entries).
- `src/vcproj_raw.rs`: a strict project reader in which every attribute is
  required.
- `src/vcproj.rs`: the project reader with optional attributes, nested files
  and per-configuration tools.
- `src/cli.rs`: what the command-line tool computes between reading and
  printing.
- `app/main.rs`: the command-line tool itself.
