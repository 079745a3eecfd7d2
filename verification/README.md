# provider_headers

Resolution of the custom request headers that an AI provider configuration
carries, verified with Verus.

A provider may give request headers in three places: `settingsConfig.headers`,
`settingsConfig.requestHeaders` and the "Request Headers" field of its
metadata. They are gathered in that order, each later place overriding the
earlier ones name by name; every name is trimmed and must be a valid HTTP
header name, every value a valid HTTP header value. The result is either sent
as it is or, in HIS token mode, handed to a user script (run in QuickJS) that
chains up to eight HTTP requests and extracts the headers to send from the
responses. Each run of the script has a runtime of its own and is stopped
once it has taken 30 seconds or would take more than 256 MiB of memory; the
run then ends in an error.

## Layout

- `src/` — the verified library
  - `text.rs` — white space trimming as `str::trim` does it, message assembly
  - `wire.rs` — what HTTP accepts as header names and values; the header map
  - `json.rs` — the part of a JSON document that header gathering reads
  - `provider.rs` — what header resolution reads of a provider
  - `header_list.rs` — an ordered list of headers with distinct names
  - `custom.rs` — gathering, checking and resolving custom request headers
  - `laws.rs` — properties of gathering as a whole
  - `his_token.rs` — the HIS token script file, script requests and responses
  - `script.rs` — running the script in QuickJS
- `tests/` — tests of the library
- `app/` — file and network I/O, `serde` parsing, and the request loop of
  the HIS token mode
