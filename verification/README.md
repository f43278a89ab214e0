# preflight-rs

A print-readiness preflight service for PDF uploads. The service accepts a PDF
over HTTP, runs a fixed sequence of checks on it (valid PDF, readable,
not encrypted, page count, page size, margins, colour, blank pages, image
resolution), and answers with a JSON result, either directly or through a
callback to a listed host.

## Layout

- `src/` is the library, written in Verus. Its functions carry contracts
  that Verus proves, except a few small wrappers around outside calls
  (UTF-8 decoding, SHA-256, URL parsing, constant-time comparison, building
  a `String`), whose contracts state what the called code does and are
  trusted:
  - `text`: character-level helpers (trimming, splitting, ASCII case folding)
    with specifications over `Seq<char>`.
  - `pdf`: header and version detection, the blank-page rule, file digests.
  - `models`: check results and the run result, with the summary and status
    that finalizing computes.
  - `pipeline`: the run as a state machine (`next_action`): the order of
    the checks, when a run stops early, when grayscale conversion, A4
    fitting and inspection happen, how a failed preparation step rejects the
    document, and whether the analysed document is handed back; and each check's verdict from the facts gathered about the
    document.
  - `gs`: reading Ghostscript's `inkcov` report.
  - `config`, `auth`, `routes`, `callback`: configuration and form-field
    parsing (colour mode, token, hosts, integers and booleans), bearer
    token comparison, request validation, and the callback retry schedule.
  - `laws`: properties that relate several functions or calls (checks run
    in the documented order, preparation follows the admission checks, the
    document is handed back only after every check of a run that did not
    fail, finalizing is idempotent, delivery is bounded, and so on).
- `app/` is the program around the library, carrying out the actions the
  library decides: the HTTP server, PDF inspection
  with MuPDF, Ghostscript processes, measurements in millimetres and dots per
  inch, JSON rendering and the callback client.
- `tests/` exercises the library on concrete inputs.
