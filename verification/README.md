# compux

A screen-capture and input helper: it reads one JSON frame a line, looks at the
screen or acts on it, and answers with one JSON frame that says what was sent and
what was seen. Its rules are a library whose contracts Verus proves; the program
around it only talks to the system.

## Layout

- `src/` is the verified library.
  - `wire`, `serve`: the frames, the verbs, and the receipt of an action.
  - `observation`, `address`: the images a caller has been shown, and the points it
    may name in them.
  - `capture`, `picture`, `encoding`, `overlay`, `geometry`: a reply that carries a
    picture.
  - `view`, `waiting`: when a view has settled or changed.
  - `elements`, `listing`, `tree`, `actions`: controls by name.
  - `window_server`, `window_frames`, `target`, `desktop`: windows, their frames,
    and the one that is bound.
  - `input`, `sequence`: keys, chords, drags, and the calls an action is.
  - `json`, `measure`, `text`: JSON values, lengths, and strings.
- `tests/` runs the library on concrete values.
- `app/` is the program: standard input and output, the clock, `xcap` for displays,
  `enigo` for input, ScreenCaptureKit for one window's frames, and the
  floating-point mapping between pixels and points.

## Conventions

Lengths and places are whole millionths of a point or a pixel (`measure::UNIT`). A
double enters by its bits, through `measure::from_double`.

What the system alone can say (a frame, a clock, an accessibility tree, the answer
of an input call) is an argument of a verified function, or the event of a step
machine: `sequence::Sequence`, `tree::Reading`, `view::Settling`, `view::Waiting`.

The functions marked `#[verifier::external_body]` and the `assume_specification`
items call `serde_json`, `image`, `base64` and the standard library; what each of
them is trusted to do stands above it.
