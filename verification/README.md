# resender

The verified core of Resender, a tool that sends e-mail through the Resend
API and lets Rhai scripts assemble the business logic (identity, sending,
counting) from safe primitives.

The library (`src/`) is written in Verus: every function carries a contract
and is proved against it. Calls into outside crates (`libsmx`, `base64`,
`rand`, `swsml`, `swi18n`, `comrak`, `css-inline`, `serde_json`) go through
small trusted wrappers whose contracts say what those crates promise.

## Layout

- `src/text.rs`, `src/assoc.rs`, `src/json.rs`: text utilities (Unicode
  trimming, splitting, decimal and hex), association lists read as maps,
  JSON text of string records.
- `src/crypto.rs`: password encryption (SM3 key derivation, SM4-GCM; the
  payload for a given salt and nonce is `seal_with`) and SM2
  script signatures; decryption gives back what encryption sealed, and a
  signed script verifies.
- `src/sml_doc.rs`, `src/config.rs`, `src/draft.rs`: the SML documents that
  hold the configuration and the draft, how they are read and written, and
  loading what was saved gives it back, for every configuration and draft
  whose texts the SML library writes so that they read back as written
  (`sml_doc::str_reads_back`: for instance not a bare `42`, `true` or a
  text beginning `$env.`). The script-trust password is kept and saved
  only as its SM3 check value.
- `src/history.rs`, `src/log.rs`: the sending history (newest first, capped)
  and the encrypted run log (reading after an append gives the earlier
  lines and the new one, trimmed).
- `src/markdown.rs`, `src/compose.rs`, `src/resend.rs`: mail bodies
  (Markdown to inlined HTML, plain-text escaping, previews), UTC time
  stamps from Rata Die day numbers (proleptic Gregorian), the counting
  period and the remaining quota, the settings form, and the checks around a Resend
  request.
- `src/update.rs`: dotted-version order (its order laws proved) and the
  remote VersionFile.
- `src/cli.rs`: the command line's parsing and its reports.
- `src/i18n.rs`: the interface texts and their fallback by language.
- `src/rhai_ext.rs` and `src/rhai_ext/`: the script primitives (trust gate,
  HTTP replies, cryptography, storage, interface state, automation
  handlers).
- `app/`: the command-line program: files, network, the Rhai engine.
- `tests/`: tests of the library on concrete values.
