# glsl_writer

Writes shader modules as OpenGL shading language source, for the versions 330, 400, 410, 420, 430,
450 and 460 of the core profile and 300 and 310 of the es profile.

- `src/` is the library. It is written in Verus: every function states what it returns and writes,
  and the statements are proved.
- `tests/` runs the library.
- `app/` puts the library on top of `std::io`.

A module (`ir`) comes with an analysis (`context::Analysis`): the names of its items, the types of
its expressions and the features that it uses. `writer::Writer` writes the module for one entry
point and returns which sampler each texture is used with.

How things are written is given by templates: `types`, `constants`, `expressions`, `declarations`
and `functions` say which pieces an item consists of, and `render` and `statements` say what the
text of the pieces is. A module that refers to missing items, or to itself in circles, is invalid:
`Writer::write` must not be called for it, and `Writer::checked_write` tells.

What holds of everything that is written stands in `growth` (the output only grows, and lines end
where they should), `indentation`, `conventions`, `reach`, `ordering` and `callees` (functions come
before their callers), `mappings` (textures and samplers) and `validity`.

The call graph is a graph of petgraph; `graph` holds what is believed of it.
