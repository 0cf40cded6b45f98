# webapp-lib

Building blocks for Leptos browser applications — request paths and HTTP error
handling, list-page state, CSS theming, authentication models and the generic
UI components — with the decisions behind them verified by Verus.

## Layout

- `src/` — the verified library (`webapp_lib`). Every function carries a
  `requires`/`ensures` contract over mathematical models (`Seq`, `Set`,
  `Multiset`), and the properties that span several calls are stated and
  proved as `law_*` proof functions.
  - `text` — decimal rendering, code-point ordering of strings, substring
    search, case folding.
  - `http` — `ResourcePath`, `ApiError`, the write-once base URL, request
    plans (method, URL, headers), and how failed responses and script errors
    become `ApiError`s.
  - `reactive` — list-page state (`ListComponentModel`): loading, saving and
    deleting records, stable sorting by name, loading a single resource path,
    lookup data.
  - `theme` — `ThemeVars`, the `:root` CSS block, which style sheets to add
    to the document head (adding them is idempotent).
  - `components` — message styling, password strength inputs, the
    autocomplete input's filtering and keyboard navigation.
  - `auth` — authentication models, the write-once path configuration, the
    login guard, the login, refresh
    and logout flows, and the account forms (name change, password change,
    registration).
- `app/` — the browser layer: fetch calls, browser storage, signals, CSS
  injection and the Leptos components. It performs the effects the library
  decides on, and holds the serialisable copies of the library's types.
- `tests/` — tests of the library on concrete values.

## Using it

At start-up, before mounting, call the browser layer's `http::set_base_url`
once and `theme::init` (or `theme::init_with` for a custom palette). The
bundled style sheets (base, icons, loading) are passed to `theme::init` by
the application in a `webapp_lib::theme::BundledCss`.

An endpoint type implements `http::ApiEndpoint` in verified code: it defines
the spec function `base_view` and a `base` whose result is that value, and
then `path()` is the one-segment path `[base_view()]`.
