# gsc

A small client library for Google Sheets, verified with Verus.

- `src/column.rs`: column letters (`A` for 1 up to `ZZ` for 702), with the
  proof that a name reads back to its number.
- `src/text.rs`: first-occurrence search, decimal and `{:?}` text of integers.
- `src/gsc.rs`: connections, readers, writers and deleters of a sheet, the
  A1-notation ranges they cover, and what a finished request reports.
- `src/google_sheets_connector.rs`: the first form of the request records,
  whose range builders report failure in the text they return.
- `app/main.rs`: the program that reads the settings file and makes the
  network calls through `google-sheets4`.
