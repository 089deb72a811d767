# hybrid_router

Routes the turns of a conversation between two executors: a local edge model and a remote
frontier model. A turn that its model name, an image, a running lease or its size settles is
routed at once; any other is put to a small router model, and whatever goes wrong there leads
to the frontier executor.

- `src/` is the library, verified with Verus. Taken on trust are two functions of the standard
  library, `String::push` and `str::to_uppercase`, both declared in `text`.
  - `text`: trimming, lines, case, joining and cutting of text; `text_lemmas` holds facts
    about them.
  - `config`: configuration and messages.
  - `confidence`: the order of confidence values, held as IEEE 754 bit patterns.
  - `hybrid`: the choice of an executor for a request, and the resolution of executors and of
    the router from the configuration.
  - `compact`, `prompt`: what the router model gets to see of a conversation.
  - `reply`: where the decision stands in the answer of the router model.
  - `router`: the routing of a turn and the lease of the frontier executor.
  - `tools`: the tools kept from the frontier executor.
  - `laws`: what holds of all of these together.
- `app/` is the part that talks to the world: configuration files, network calls, timeouts,
  logs.
- `tests/` runs the library.
