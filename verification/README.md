# void_edge

The rules of an anti-bot edge proxy as a verified library, and the proxy around it.

- `src/` holds the library. Every function states in its contract what it returns, and Verus
  proves it. `src/laws/` holds what is proved of several functions together: that
  percent-encoding, repeated or reversed slashes, dot segments and slashes at the end do not hide
  a path from normalization, that more signals never lead to a milder response, that the message a
  token signs fixes the challenge it was made for. Letter case and Unicode forms are folded by std
  and by `unicode-normalization`; what they fold to is taken as they give it. `src/bindings.rs`
  lists all that is taken from other crates and from std without proof.
- `tests/` runs the library on concrete values.
- `app/` is the program: sockets, Redis, the address databases, the behavior engine, kernel
  programs, and whatever is computed in floating point.

Numbers with a fraction enter the library as bit patterns or as points that the program has
computed from them.

## Scores

| Points | Response |
|---|---|
| 0–19 | the request passes |
| 20–39 | it passes, and the page is observed |
| 40–59 | JavaScript challenge |
| 60–79 | proof of work of 4 to 19 bits, with WebAssembly from 65 on |
| 80–99 | CAPTCHA |
| 100 and more | answered with 403, and the address goes on the blocklist |

These are the default thresholds; a configuration may set others.
