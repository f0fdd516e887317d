# Ripple

Ripple turns a before image and an after image into a video with a ripple transition. This project
holds its rules as a library verified with Verus, and the application around it.

| Where | What |
| --- | --- |
| `src/path.rs` | Paths as bytes: names, extensions, parents, joining, equality |
| `src/text.rs` | UTF-8, white space, substitution, decimal digits |
| `src/selection.rs` | Which images may be chosen, and what is chosen |
| `src/origin.rs` | Where in the frame the ripple may start |
| `src/output.rs` | Where a video may be saved |
| `src/report.rs` | What a failed rendering is reported as |
| `src/renderer.rs` | The run of the native renderer |
| `src/dialog.rs` | What the dialogs for files show |
| `src/picking.rs` | The choice of an image, step by step |
| `src/rendering.rs` | The rendering of a video, step by step |
| `tests/` | Tests of the library |
| `app/` | Windows, dialogs, the file system and the program of the renderer |

The library does no input or output. Where the file system, a dialog or the renderer comes between
two decisions, a job says what is to be done and is told what came of it.
