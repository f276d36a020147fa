# display_list_flattener

Turns the display lists of a scene into what frames are built from: a positioning
tree, clip chains, pictures with the primitive instances that they draw, runs of
areas that can be hit, and a log of data to intern.

The library under `src/` is verified with Verus. Its parts:

- `ids`, `layout`: names, indices, and geometry as expressions over bit patterns
  of numbers.
- `display_list`, `primitives`, `picture`, `shadows`, `hit_test`, `clip_store`,
  `spatial_tree`, `mapper`, `stacking_context`: the data.
- `state`: what each operation does, as functions from state to state.
- `flattener`, `contexts`, `caching`, `shadowing`, `items`: the operations.
- `traversal`, `frame_builder`: the way through display lists, one item per call,
  from the root pipeline to a frame builder.
- `soundness`, `references`, `stepping`, `growth`, `runs`, `marking`, `laws`: what
  holds throughout.

A call of `flatten_items` does one step, and says what the embedder has to do
before the next: nothing, answer a question about a positioning node, draw an
item that other parts of a renderer turn into primitives, or try to collapse the
pictures of filters. Data to intern is named by the place of its request in the
log; interners of a renderer make handles of the requests, and equal data shares
a handle there.

`app/` runs the steps with such a renderer, hands the log to its interners, and
computes the numbers behind the expressions.
