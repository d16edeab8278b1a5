# aidoku_sources

The logic of four manga sources for the Aidoku reader (HentaiNexus,
NineManga, ReadComicOnline, SchaleNetwork), written in Verus and proved
against its specifications.

- `src/` is the verified library:
  - `text.rs`, `num.rs`: character-level string operations and decimal
    formatting, each specified over `Seq<char>`;
  - `manga.rs`: the records handed to the app (series, chapters, filters);
  - `decrypt.rs`: the HentaiNexus page-list cipher;
  - `hentainexus.rs`, `ninemanga.rs`, `readcomiconline.rs`, `schale.rs`,
    `schale_models.rs`, `schale_settings.rs`: request building, response
    interpretation and deep links of each source;
  - `laws.rs`: properties across functions (deep links lead back to keys,
    book keys split back into their parts, shortened titles hold no
    brackets, ...).
- `app/` holds the host side: HTTP requests, HTML selection, stored
  settings, the JavaScript host and JSON decoding into records, calling
  the library for every decision.
- `tests/` runs the library on concrete inputs.
