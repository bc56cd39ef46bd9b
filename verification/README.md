# bookokrat

A terminal reader for EPUB, PDF and DjVu books, written in Verus. `src/` is the library: everything
the reader decides, with contracts that Verus proves. `app/` is the program around it, which reads
keys, files and sockets, draws, and does what the library asks for.

## Layout

| Path | What it holds |
| --- | --- |
| `src/text.rs` | Characters, numbers and lines of text |
| `src/paths.rs` | Paths: parts, names, extensions, normal forms |
| `src/markup.rs` | How deep the elements of a document are nested |
| `src/book_manager.rs` | The library of books: formats, titles, order, metadata files |
| `src/inputs/` | Events, and the bytes of a terminal turned into events and image responses |
| `src/main_app/` | The application: keys, windows, mouse, drawing, opening books, jumps, the event loop |
| `src/pdf/synctex.rs` | SyncTeX files, searches in both directions, and the commands of an editor |
| `src/pdf/kittyv2/` | Images handed to the terminal in shared memory: regions, leases, clean-up, probing |
| `tests/` | Tests, one file for each part of the library |
| `app/` | The program |

## How the application is modelled

`App` is a plain value. Each step takes the state, an event and what is known of the world
(`Facts`), and gives the next state with a list of effects; `app/` carries the effects out and comes
back with what happened. The contracts of the steps are written over `RunView`, a state with the
effects so far, and are exact: they name the next state and every effect.

Floating point stays outside the library. Numbers of a SyncTeX file are kept as they are written, and
searches that need distances take them as integers.

## What is trusted

Calls into other crates stand behind small functions whose contracts are stated next to them:
`roxmltree` reads package files, `flate2` unpacks SyncTeX files, `ratatui` splits areas, `image` turns
pixels into red, green and blue. From the
standard library: `String::push`, `str::to_lowercase`, `std::str::from_utf8` and
`String::from_utf8_lossy`.

## Laws

Proof functions whose names begin with `law_` state what holds of the library as a whole, for
instance that the window in focus always exists, that a key sequence may arrive in pieces, that a shared
memory region is never lost, and that a command sent to the reader is the command it reads.
