# pdf_inspector_api

The rules of the pdf-inspector HTTP API as a verified library, with the server
around it.

- `src/` is the library, verified with Verus:
  - `text`: whitespace trimming, splitting and unsigned decimal reading on characters;
  - `page_spec`: page selectors such as `1,3,5-10` and the sorted page list they give;
  - `options`: query parameters and the engine options built from them;
  - `error`: API errors, engine failures, and the status, code and message of each reply;
  - `upload`: which multipart field holds the PDF and what reading the form comes to;
  - `processing`: admission to a processing slot and the answer to a finished task;
  - `config`: the configuration that the settings give, with defaults.
- `app/` is the server: axum routes and handlers, the multipart reading, the
  blocking engine call, the environment, logging and the OpenAPI document.
- `tests/` exercises the library on concrete values.
