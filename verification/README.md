# ws

The verified core of three programs: a web service for boards, packages and
workshop items; a line-search tool; and a set of small learning exercises.

- `src/` is the library, verified with Verus. It holds the decisions and the
  text the programs produce: access roles and their checks, slugs, payload
  validation, the SQL statements of every store with their bound values,
  session sign-in and cookies, signing and reading session tokens (through
  jsonwebtoken), the request token, configuration layering, the line search,
  the employee registry, the mode of a list, quick sort, pig latin.
  Each public function states its result in its contract; the `law_*` proof
  functions state properties that span several functions.
- `tests/` runs the library on concrete values.
- `app/` is the executable around it: the axum server that runs the
  statements with sqlx, and the
  command-line programs (`minigrep`, `learn`, `questions`, `coins`).
