# portaki_modules

The logic of five Portaki guest-booklet modules, written in Verus and proved
against its contracts: the access guide (entry method, codes, timed reveal of
secrets, arrival steps, guest emails), appliances (device guides, the
bilingual bundle, the TipTap description renderer), the checkout checklist,
emergency contacts and EV parking.

- `src/` is the verified library. Shared pieces: `text` (string helpers over
  character sequences), `json` (a JSON document as plain values, read and
  written through `serde_json`), `keyed` and `order` (ordered lists by key and
  stable selections), `timed_reveal` (when a secret is shown, with `chrono`
  for the calendar). One module per booklet module holds its configuration,
  commands, email context and the rows of its guest and host screens.
- `app/` is the module around the library: host key-value storage, events,
  the serde forms of stored documents and of the operations' arguments, and
  the SDUI trees drawn from the library's rows.
- `tests/` exercises the library on concrete values.
